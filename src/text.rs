//! Plain-text projection of inline HTML markup: tags removed, five named
//! entities unescaped, whitespace runs collapsed and the ends trimmed.
use vstd::prelude::*;
use crate::chars::{
    chars_of, find_char, matches_at, is_ws, lemma_find_char, slice_chars, string_of, trim, trim_chars,
    trim_end, trim_start,
};

verus! {

/// Pattern of an HTML tag: a `<` up to the next `>`.
pub const TAG_PATTERN: &'static str = "<[^>]*>";

/// Pattern of a run of whitespace.
pub const WHITESPACE_PATTERN: &'static str = "\\s+";

/// `trim_start` keeps a suffix of its argument.
pub proof fn lemma_trim_start_suffix(s: Seq<char>)
    ensures
        trim_start(s).len() <= s.len(),
        trim_start(s) == s.subrange(s.len() - trim_start(s).len(), s.len() as int),
    decreases s.len(),
{
    if s.len() > 0 && is_ws(s[0]) {
        lemma_trim_start_suffix(s.drop_first());
        let t = trim_start(s.drop_first());
        assert(s.drop_first().subrange(s.len() - 1 - t.len(), s.len() - 1) =~= s.subrange(
            s.len() - t.len(),
            s.len() as int,
        ));
    } else {
        assert(s.subrange(0, s.len() as int) =~= s);
    }
}

/// `s` with every tag removed. A tag runs from a `<` to the first `>` after
/// it; a `<` that no later `>` closes is kept, as is everything after it.
pub open spec fn strip_tags(s: Seq<char>) -> Seq<char>
    decreases s.len(),
{
    if s.len() == 0 {
        s
    } else if s[0] == '<' {
        match find_char(s, '>') {
            Some(j) => {
                proof {
                    lemma_find_char(s, '>');
                }
                strip_tags(s.subrange(j + 1, s.len() as int))
            },
            None => s,
        }
    } else {
        seq![s[0]] + strip_tags(s.drop_first())
    }
}

/// `s` with each run of whitespace replaced by a single space.
pub open spec fn collapse_ws(s: Seq<char>) -> Seq<char>
    decreases s.len(),
{
    if s.len() == 0 {
        s
    } else if is_ws(s[0]) {
        proof {
            lemma_trim_start_suffix(s.drop_first());
        }
        seq![' '] + collapse_ws(trim_start(s.drop_first()))
    } else {
        seq![s[0]] + collapse_ws(s.drop_first())
    }
}

/// `s` with each occurrence of `p`, taken left to right without overlap,
/// replaced by `r`.
pub open spec fn replace_lit(s: Seq<char>, p: Seq<char>, r: Seq<char>) -> Seq<char>
    decreases s.len(),
{
    if p.len() == 0 || s.len() < p.len() {
        s
    } else if s.subrange(0, p.len() as int) == p {
        r + replace_lit(s.subrange(p.len() as int, s.len() as int), p, r)
    } else {
        seq![s[0]] + replace_lit(s.drop_first(), p, r)
    }
}

/// `&amp;`
pub open spec fn amp_entity() -> Seq<char> {
    seq!['&', 'a', 'm', 'p', ';']
}

/// `&lt;`
pub open spec fn lt_entity() -> Seq<char> {
    seq!['&', 'l', 't', ';']
}

/// `&gt;`
pub open spec fn gt_entity() -> Seq<char> {
    seq!['&', 'g', 't', ';']
}

/// `&quot;`
pub open spec fn quot_entity() -> Seq<char> {
    seq!['&', 'q', 'u', 'o', 't', ';']
}

/// `&#39;`
pub open spec fn apos_entity() -> Seq<char> {
    seq!['&', '#', '3', '9', ';']
}

/// `s` with `&amp;`, `&lt;`, `&gt;`, `&quot;` and `&#39;` unescaped, in
/// that order, each as a literal replacement.
pub open spec fn unescape(s: Seq<char>) -> Seq<char> {
    let a = replace_lit(s, amp_entity(), seq!['&']);
    let b = replace_lit(a, lt_entity(), seq!['<']);
    let c = replace_lit(b, gt_entity(), seq!['>']);
    let d = replace_lit(c, quot_entity(), seq!['"']);
    replace_lit(d, apos_entity(), seq!['\''])
}

/// The plain text of an HTML fragment.
pub open spec fn normalize(s: Seq<char>) -> Seq<char> {
    trim(collapse_ws(unescape(strip_tags(s))))
}

/// Relies on `regex::Regex::new` and `Regex::replace_all`: each leftmost-first,
/// non-overlapping match of the pattern is replaced. A match of `<[^>]*>` runs
/// from a `<` to the first `>` after it; a match of `\s+` is a maximal run of
/// Unicode `White_Space`. Both patterns compile.
#[verifier::external_body]
fn regex_replace_all(pattern: &str, text: &str, replacement: &str) -> (r: String)
    requires
        pattern@ == TAG_PATTERN@ || pattern@ == WHITESPACE_PATTERN@,
    ensures
        pattern@ == TAG_PATTERN@ && replacement@ == Seq::<char>::empty() ==> r@ == strip_tags(
            text@,
        ),
        pattern@ == WHITESPACE_PATTERN@ && replacement@ == seq![' '] ==> r@ == collapse_ws(
            text@,
        ),
{
    regex::Regex::new(pattern).unwrap().replace_all(text, replacement).into_owned()
}

/// `s` with each occurrence of `p`, left to right without overlap, replaced by `r`.
pub fn replace_chars(s: &[char], p: &[char], r: &[char]) -> (out: Vec<char>)
    requires
        p@.len() > 0,
    ensures
        out@ == replace_lit(s@, p@, r@),
{
    let mut out: Vec<char> = Vec::new();
    let mut i: usize = 0;
    assert(s@.subrange(0, s@.len() as int) =~= s@);
    while i < s.len()
        invariant
            p@.len() > 0,
            i <= s@.len(),
            s@.len() == s.len(),
            out@ + replace_lit(s@.subrange(i as int, s@.len() as int), p@, r@) == replace_lit(
                s@,
                p@,
                r@,
            ),
        decreases s.len() - i,
    {
        let ghost rest = s@.subrange(i as int, s@.len() as int);
        if p.len() <= s.len() - i && matches_at(s, p, i) {
            proof {
                assert(rest.subrange(0, p@.len() as int) =~= s@.subrange(i as int, i + p@.len()));
                assert(rest.subrange(p@.len() as int, rest.len() as int) =~= s@.subrange(
                    i + p@.len(),
                    s@.len() as int,
                ));
            }
            let mut k: usize = 0;
            let ghost before = out@;
            while k < r.len()
                invariant
                    k <= r@.len(),
                    out@ == before + r@.subrange(0, k as int),
                decreases r.len() - k,
            {
                out.push(r[k]);
                k = k + 1;
            }
            assert(r@.subrange(0, r@.len() as int) =~= r@);
            assert(out@ + replace_lit(s@.subrange(i + p@.len(), s@.len() as int), p@, r@)
                =~= before + (r@ + replace_lit(s@.subrange(i + p@.len(), s@.len() as int), p@, r@)));
            i = i + p.len();
        } else {
            proof {
                if p@.len() <= rest.len() {
                    assert(rest.subrange(0, p@.len() as int) =~= s@.subrange(i as int, i + p@.len()));
                }
                assert(rest.drop_first() =~= s@.subrange(i + 1, s@.len() as int));
            }
            if p.len() > s.len() - i {
                let tail = slice_chars(s, i, s.len());
                let mut k: usize = 0;
                let ghost before = out@;
                while k < tail.len()
                    invariant
                        k <= tail@.len(),
                        out@ == before + tail@.subrange(0, k as int),
                    decreases tail.len() - k,
                {
                    out.push(tail[k]);
                    k = k + 1;
                }
                assert(tail@.subrange(0, tail@.len() as int) =~= tail@);
                assert(s@.subrange(s@.len() as int, s@.len() as int) =~= Seq::<char>::empty());
                assert(out@ + Seq::<char>::empty() =~= out@);
                i = s.len();
            } else {
                let ghost before = out@;
                out.push(s[i]);
                assert(out@ + replace_lit(s@.subrange(i + 1, s@.len() as int), p@, r@) =~= before
                    + (seq![s@[i as int]] + replace_lit(s@.subrange(i + 1, s@.len() as int), p@, r@)));
                i = i + 1;
            }
        }
    }
    assert(s@.subrange(s@.len() as int, s@.len() as int) =~= Seq::<char>::empty());
    assert(out@ + Seq::<char>::empty() =~= out@);
    out
}

/// `s` with the five named entities unescaped.
pub fn unescape_chars(s: &[char]) -> (r: Vec<char>)
    ensures
        r@ == unescape(s@),
{
    let amp: Vec<char> = vec!['&', 'a', 'm', 'p', ';'];
    let lt: Vec<char> = vec!['&', 'l', 't', ';'];
    let gt: Vec<char> = vec!['&', 'g', 't', ';'];
    let quot: Vec<char> = vec!['&', 'q', 'u', 'o', 't', ';'];
    let apos: Vec<char> = vec!['&', '#', '3', '9', ';'];
    assert(amp@ =~= amp_entity());
    assert(lt@ =~= lt_entity());
    assert(gt@ =~= gt_entity());
    assert(quot@ =~= quot_entity());
    assert(apos@ =~= apos_entity());
    let to_amp: Vec<char> = vec!['&'];
    let to_lt: Vec<char> = vec!['<'];
    let to_gt: Vec<char> = vec!['>'];
    let to_quot: Vec<char> = vec!['"'];
    let to_apos: Vec<char> = vec!['\''];
    assert(to_amp@ =~= seq!['&']);
    assert(to_lt@ =~= seq!['<']);
    assert(to_gt@ =~= seq!['>']);
    assert(to_quot@ =~= seq!['"']);
    assert(to_apos@ =~= seq!['\'']);
    let a = replace_chars(s, &amp, &to_amp);
    let b = replace_chars(&a, &lt, &to_lt);
    let c = replace_chars(&b, &gt, &to_gt);
    let d = replace_chars(&c, &quot, &to_quot);
    replace_chars(&d, &apos, &to_apos)
}

/// The plain text of an HTML fragment: tags removed, the entities `&amp;`,
/// `&lt;`, `&gt;`, `&quot;` and `&#39;` unescaped, each run of whitespace
/// replaced by one space, and the ends trimmed.
pub fn html_to_text(html: String) -> (r: String)
    ensures
        r@ == normalize(html@),
{
    proof {
        reveal_strlit("");
        reveal_strlit(" ");
        assert(""@ =~= Seq::<char>::empty());
        assert(" "@ =~= seq![' ']);
    }
    let stripped = regex_replace_all(TAG_PATTERN, html.as_str(), "");
    let unescaped = string_of(&unescape_chars(&chars_of(stripped.as_str())));
    let collapsed = regex_replace_all(WHITESPACE_PATTERN, unescaped.as_str(), " ");
    string_of(&trim_chars(&chars_of(collapsed.as_str())))
}

/// Every whitespace character is a space, and no two are adjacent.
pub open spec fn ws_normal(u: Seq<char>) -> bool {
    forall|i: int|
        0 <= i < u.len() && is_ws(#[trigger] u[i]) ==> u[i] == ' ' && (i + 1 < u.len() ==> !is_ws(
            u[i + 1],
        ))
}

/// Neither end of `u` is whitespace.
pub open spec fn ends_trimmed(u: Seq<char>) -> bool {
    u.len() > 0 ==> !is_ws(u[0]) && !is_ws(u.last())
}

/// `trim_end` keeps a prefix of its argument.
pub proof fn lemma_trim_end_prefix(s: Seq<char>)
    ensures
        trim_end(s).len() <= s.len(),
        trim_end(s) == s.subrange(0, trim_end(s).len() as int),
        trim_end(s).len() > 0 ==> !is_ws(trim_end(s).last()),
    decreases s.len(),
{
    if s.len() > 0 && is_ws(s.last()) {
        lemma_trim_end_prefix(s.drop_last());
        let t = trim_end(s.drop_last());
        assert(s.drop_last().subrange(0, t.len() as int) =~= s.subrange(0, t.len() as int));
    } else {
        assert(s.subrange(0, s.len() as int) =~= s);
    }
}

/// What remains after `trim_start` is empty or starts with a non-whitespace character.
pub proof fn lemma_trim_start_head(s: Seq<char>)
    ensures
        trim_start(s).len() > 0 ==> !is_ws(trim_start(s)[0]),
    decreases s.len(),
{
    if s.len() > 0 && is_ws(s[0]) {
        lemma_trim_start_head(s.drop_first());
    }
}

/// `trim(u)` is a contiguous part of `u` with no whitespace at either end.
pub proof fn lemma_trim_shape(u: Seq<char>)
    ensures
        ends_trimmed(trim(u)),
        exists|a: int, b: int| 0 <= a <= b <= u.len() && trim(u) == u.subrange(a, b),
{
    let v = trim_start(u);
    lemma_trim_start_suffix(u);
    lemma_trim_start_head(u);
    lemma_trim_end_prefix(v);
    let w = trim_end(v);
    let a = u.len() - v.len();
    assert(w == u.subrange(a, a + w.len()));
    if w.len() > 0 {
        assert(w[0] == v[0]);
    }
}

/// Trimming a sequence with no whitespace at either end changes nothing.
pub proof fn lemma_trim_noop(u: Seq<char>)
    requires
        ends_trimmed(u),
    ensures
        trim(u) == u,
{
}

/// A contiguous part of a whitespace-normal sequence is whitespace-normal.
pub proof fn lemma_ws_normal_subrange(u: Seq<char>, a: int, b: int)
    requires
        ws_normal(u),
        0 <= a <= b <= u.len(),
    ensures
        ws_normal(u.subrange(a, b)),
{
    let v = u.subrange(a, b);
    assert forall|i: int| 0 <= i < v.len() && is_ws(#[trigger] v[i]) implies v[i] == ' ' && (i + 1
        < v.len() ==> !is_ws(v[i + 1])) by {
        assert(v[i] == u[a + i]);
        if i + 1 < v.len() {
            assert(v[i + 1] == u[a + i + 1]);
        }
    }
}

/// What `collapse_ws` returns is whitespace-normal.
pub proof fn lemma_collapse_normal(x: Seq<char>)
    ensures
        ws_normal(collapse_ws(x)),
        collapse_ws(x).len() > 0 && x.len() > 0 && !is_ws(x[0]) ==> collapse_ws(x)[0] == x[0],
    decreases x.len(),
{
    if x.len() > 0 {
        if is_ws(x[0]) {
            let y = trim_start(x.drop_first());
            lemma_trim_start_suffix(x.drop_first());
            lemma_trim_start_head(x.drop_first());
            lemma_collapse_normal(y);
            let c = collapse_ws(y);
            let r = seq![' '] + c;
            assert(r == collapse_ws(x));
            if y.len() > 0 {
                assert(c[0] == y[0]);
            }
            assert forall|i: int| 0 <= i < r.len() && is_ws(#[trigger] r[i]) implies r[i] == ' '
                && (i + 1 < r.len() ==> !is_ws(r[i + 1])) by {
                if i > 0 {
                    assert(r[i] == c[i - 1]);
                    if i + 1 < r.len() {
                        assert(r[i + 1] == c[i]);
                    }
                } else if i + 1 < r.len() {
                    assert(r[1] == c[0]);
                }
            }
        } else {
            lemma_collapse_normal(x.drop_first());
            let c = collapse_ws(x.drop_first());
            let r = seq![x[0]] + c;
            assert(r == collapse_ws(x));
            assert forall|i: int| 0 <= i < r.len() && is_ws(#[trigger] r[i]) implies r[i] == ' '
                && (i + 1 < r.len() ==> !is_ws(r[i + 1])) by {
                assert(i > 0);
                assert(r[i] == c[i - 1]);
                if i + 1 < r.len() {
                    assert(r[i + 1] == c[i]);
                }
            }
        }
    }
}

/// Collapsing whitespace in a whitespace-normal sequence changes nothing.
pub proof fn lemma_collapse_noop(u: Seq<char>)
    requires
        ws_normal(u),
    ensures
        collapse_ws(u) == u,
    decreases u.len(),
{
    if u.len() > 0 {
        let rest = u.drop_first();
        lemma_ws_normal_subrange(u, 1, u.len() as int);
        assert(rest == u.subrange(1, u.len() as int));
        lemma_collapse_noop(rest);
        if is_ws(u[0]) {
            if rest.len() > 0 {
                assert(rest[0] == u[1]);
            }
            assert(trim_start(rest) == rest);
        }
        assert(collapse_ws(u) =~= u);
    }
}

/// Normalized text has whitespace-normal content and trimmed ends.
pub proof fn lemma_normalize_shape(s: Seq<char>)
    ensures
        ws_normal(normalize(s)),
        ends_trimmed(normalize(s)),
{
    let c = collapse_ws(unescape(strip_tags(s)));
    lemma_collapse_normal(unescape(strip_tags(s)));
    lemma_trim_shape(c);
    let (a, b) = choose|a: int, b: int| 0 <= a <= b <= c.len() && trim(c) == c.subrange(a, b);
    lemma_ws_normal_subrange(c, a, b);
}

/// Normalizing is idempotent exactly when the normalized text holds no tag
/// and no named entity: `normalize(normalize(s)) == normalize(s)` precisely
/// when stripping tags and unescaping both leave `normalize(s)` as it is.
pub proof fn lemma_normalize_idempotent(s: Seq<char>)
    ensures
        normalize(normalize(s)) == normalize(s) <==> (strip_tags(normalize(s)) == normalize(s)
            && unescape(normalize(s)) == normalize(s)),
{
    let t = normalize(s);
    lemma_normalize_shape(s);
    if strip_tags(t) == t && unescape(t) == t {
        lemma_collapse_noop(t);
        lemma_trim_noop(t);
    }
    if normalize(t) == t {
        lemma_normalize_shrinks(t);
    }
}

/// Stripping tags never lengthens, and changes nothing when it keeps the length.
pub proof fn lemma_strip_len(s: Seq<char>)
    ensures
        strip_tags(s).len() <= s.len(),
        strip_tags(s).len() == s.len() ==> strip_tags(s) == s,
    decreases s.len(),
{
    if s.len() > 0 {
        if s[0] == '<' {
            lemma_find_char(s, '>');
            match find_char(s, '>') {
                Some(j) => {
                    lemma_strip_len(s.subrange(j + 1, s.len() as int));
                },
                None => {},
            }
        } else {
            lemma_strip_len(s.drop_first());
            if strip_tags(s).len() == s.len() {
                assert(strip_tags(s) =~= seq![s[0]] + s.drop_first());
                assert(seq![s[0]] + s.drop_first() =~= s);
            }
        }
    }
}

/// Replacing by something shorter never lengthens, and changes nothing when
/// it keeps the length.
pub proof fn lemma_replace_len(s: Seq<char>, p: Seq<char>, r: Seq<char>)
    requires
        r.len() < p.len(),
    ensures
        replace_lit(s, p, r).len() <= s.len(),
        replace_lit(s, p, r).len() == s.len() ==> replace_lit(s, p, r) == s,
    decreases s.len(),
{
    if s.len() >= p.len() {
        if s.subrange(0, p.len() as int) == p {
            lemma_replace_len(s.subrange(p.len() as int, s.len() as int), p, r);
        } else {
            lemma_replace_len(s.drop_first(), p, r);
            if replace_lit(s, p, r).len() == s.len() {
                assert(seq![s[0]] + s.drop_first() =~= s);
            }
        }
    }
}

/// Unescaping never lengthens, and changes nothing when it keeps the length.
pub proof fn lemma_unescape_len(s: Seq<char>)
    ensures
        unescape(s).len() <= s.len(),
        unescape(s).len() == s.len() ==> unescape(s) == s,
{
    let a = replace_lit(s, amp_entity(), seq!['&']);
    let b = replace_lit(a, lt_entity(), seq!['<']);
    let c = replace_lit(b, gt_entity(), seq!['>']);
    let d = replace_lit(c, quot_entity(), seq!['"']);
    lemma_replace_len(s, amp_entity(), seq!['&']);
    lemma_replace_len(a, lt_entity(), seq!['<']);
    lemma_replace_len(b, gt_entity(), seq!['>']);
    lemma_replace_len(c, quot_entity(), seq!['"']);
    lemma_replace_len(d, apos_entity(), seq!['\'']);
}

/// Collapsing whitespace never lengthens.
pub proof fn lemma_collapse_len(s: Seq<char>)
    ensures
        collapse_ws(s).len() <= s.len(),
    decreases s.len(),
{
    if s.len() > 0 {
        if is_ws(s[0]) {
            lemma_trim_start_suffix(s.drop_first());
            lemma_collapse_len(trim_start(s.drop_first()));
        } else {
            lemma_collapse_len(s.drop_first());
        }
    }
}

/// Text that normalizes to itself holds no tag and no named entity.
pub proof fn lemma_normalize_shrinks(t: Seq<char>)
    requires
        normalize(t) == t,
    ensures
        strip_tags(t) == t,
        unescape(t) == t,
{
    let a = strip_tags(t);
    let b = unescape(a);
    let c = collapse_ws(b);
    lemma_strip_len(t);
    lemma_unescape_len(a);
    lemma_collapse_len(b);
    lemma_trim_shape(c);
}

} // verus!
