//! The crates under a documentation root: its subdirectories, save `src`
//! and those with a `.` in their name, sorted.
use vstd::prelude::*;
use crate::chars::{chars_of, eq_chars, find_char_index};
use crate::item::strings_view;

verus! {

/// One entry of a directory listing.
#[derive(Debug)]
pub struct DirEntry {
    /// The entry's file name.
    pub name: String,
    /// Whether the entry is a directory.
    pub is_dir: bool,
}

/// Whether byte string `a` comes no later than `b` in lexicographic order.
pub open spec fn bytes_le(a: Seq<u8>, b: Seq<u8>) -> bool
    decreases a.len(),
{
    if a.len() == 0 {
        true
    } else if b.len() == 0 {
        false
    } else if a[0] != b[0] {
        a[0] < b[0]
    } else {
        bytes_le(a.drop_first(), b.drop_first())
    }
}

/// The order of `String`: lexicographic over the UTF-8 bytes.
pub open spec fn str_le(a: Seq<char>, b: Seq<char>) -> bool {
    bytes_le(vstd::utf8::encode_utf8(a), vstd::utf8::encode_utf8(b))
}

/// Whether `v` is in ascending `String` order.
pub open spec fn sorted_strings(v: Seq<Seq<char>>) -> bool {
    forall|i: int, j: int| 0 <= i < j < v.len() ==> str_le(#[trigger] v[i], #[trigger] v[j])
}

/// Relies on `slice::sort` over `String`, which orders strings
/// lexicographically by their bytes: the same strings, in that order.
#[verifier::external_body]
fn sort_strings(v: &mut Vec<String>)
    ensures
        strings_view(final(v)@).to_multiset() == strings_view(old(v)@).to_multiset(),
        sorted_strings(strings_view(final(v)@)),
{
    v.sort();
}

/// Whether a directory entry is a crate: a directory whose name is not
/// `src` and holds no `.`.
pub open spec fn is_crate_entry(name: Seq<char>, is_dir: bool) -> bool {
    is_dir && name != "src"@ && !name.contains('.')
}

/// The names of the crate entries among the first `n` entries, in listing order.
pub open spec fn crate_names_upto(entries: Seq<DirEntry>, n: int) -> Seq<Seq<char>>
    decreases n,
{
    if n <= 0 {
        Seq::empty()
    } else {
        let prev = crate_names_upto(entries, n - 1);
        let e = entries[n - 1];
        if is_crate_entry(e.name@, e.is_dir) {
            prev.push(e.name@)
        } else {
            prev
        }
    }
}

/// The crates among the entries of a documentation root, sorted: each
/// directory whose name is not `src` and holds no `.`.
pub fn list_crates(entries: Vec<DirEntry>) -> (r: Vec<String>)
    ensures
        strings_view(r@).to_multiset() == crate_names_upto(entries@, entries@.len() as int).to_multiset(),
        sorted_strings(strings_view(r@)),
{
    let src = chars_of("src");
    let ghost all = entries@;
    let mut crates: Vec<String> = Vec::new();
    for entry in it: entries
        invariant
            src@ == "src"@,
            all == it.seq(),
            strings_view(crates@) == crate_names_upto(all, it.index() as int),
    {
        let name = chars_of(entry.name.as_str());
        let dotted = find_char_index(&name, '.');
        proof {
            crate::chars::lemma_find_char(name@, '.');
            assert(all[it.index() as int] == entry);
        }
        if entry.is_dir && !eq_chars(&name, &src) && dotted.is_none() {
            let ghost prev = crates@;
            crates.push(entry.name);
            assert(strings_view(crates@) =~= strings_view(prev).push(crates@.last()@));
        }
    }
    sort_strings(&mut crates);
    crates
}

} // verus!
