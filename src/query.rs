//! Kind filter, text filter, offset and limit over a sequence of items.
use vstd::prelude::*;
use crate::chars::{chars_of, contains_chars, eq_ascii_nocase, eq_ignore_ascii_case_chars, occurs_in};
use crate::documentation::{Documentation, DocumentationModel};
use crate::item::{items_view, opt_view, Item, ItemModel};
use crate::item_kind::kind_label;
use crate::router::LookupCrateRequest;

verus! {

broadcast use vstd::seq_lib::group_seq_properties;

/// The lower-case form of `s`, as Unicode defines it.
pub uninterp spec fn lower_of(s: Seq<char>) -> Seq<char>;

/// Relies on `str::to_lowercase`: the lower-case form, which depends on the
/// characters alone.
#[verifier::external_body]
fn lowercase(s: &str) -> (r: String)
    ensures
        r@ == lower_of(s@),
{
    s.to_lowercase()
}

/// Whether an item's kind, by its lower-case name, equals `filter` up to ASCII case.
pub open spec fn kind_matches(item: ItemModel, filter: Seq<char>) -> bool {
    eq_ascii_nocase(kind_label(item.kind), filter)
}

/// Whether the lower-case `query` occurs in the lower-case name, or in the
/// lower-case description when there is one.
pub open spec fn text_matches(item: ItemModel, query: Seq<char>) -> bool {
    ||| occurs_in(lower_of(item.name), lower_of(query))
    ||| match item.description {
        Some(d) => occurs_in(lower_of(d), lower_of(query)),
        None => false,
    }
}

/// The items after the first `offset` (none when `offset` reaches the
/// end), at most `limit` of them.
pub open spec fn paginate(items: Seq<ItemModel>, offset: Option<usize>, limit: Option<usize>) -> Seq<
    ItemModel,
> {
    let off = match offset {
        Some(o) => o as int,
        None => 0,
    };
    let skipped = if off >= items.len() {
        Seq::empty()
    } else {
        items.subrange(off, items.len() as int)
    };
    match limit {
        Some(l) if l < skipped.len() => skipped.subrange(0, l as int),
        _ => skipped,
    }
}

/// The answer to a query: the kind filter, then the text filter, then
/// offset and limit, each applied when given.
pub open spec fn query_items(
    items: Seq<ItemModel>,
    item_type: Option<Seq<char>>,
    query: Option<Seq<char>>,
    offset: Option<usize>,
    limit: Option<usize>,
) -> Seq<ItemModel> {
    let by_kind = match item_type {
        Some(t) => items.filter(|i: ItemModel| kind_matches(i, t)),
        None => items,
    };
    let by_text = match query {
        Some(q) => by_kind.filter(|i: ItemModel| text_matches(i, q)),
        None => by_kind,
    };
    paginate(by_text, offset, limit)
}

/// The items whose kind, by its lower-case name, equals `filter_type` up to ASCII case.
pub fn filter_by_item_type(items: Vec<Item>, filter_type: &str) -> (r: Vec<Item>)
    ensures
        items_view(r@) == items_view(items@).filter(|i: ItemModel| kind_matches(i, filter_type@)),
{
    let filter = chars_of(filter_type);
    let ghost all = items_view(items@);
    let ghost pred = |i: ItemModel| kind_matches(i, filter_type@);
    let mut kept: Vec<Item> = Vec::new();
    for item in it: items
        invariant
            filter@ == filter_type@,
            pred == (|i: ItemModel| kind_matches(i, filter_type@)),
            all == items_view(it.seq()),
            items_view(kept@) == all.take(it.index() as int).filter(pred),
    {
        let ghost n = it.index() as int;
        proof {
            assert(all.take(n + 1) =~= all.take(n).push(item@));
            all.take(n).lemma_filter_push(item@, pred);
        }
        let label = chars_of(item.kind().label());
        if eq_ignore_ascii_case_chars(&label, &filter) {
            let ghost prev = kept@;
            kept.push(item);
            assert(items_view(kept@) =~= items_view(prev).push(item@));
        }
    }
    proof {
        assert(all.take(all.len() as int) =~= all);
    }
    kept
}

/// Whether `query` occurs in `name`, or in `description` when there is one.
/// A text query calls this on lower-case forms.
pub fn matches_folded(query: &str, name: &str, description: Option<&str>) -> (r: bool)
    ensures
        r == (occurs_in(name@, query@) || match description {
            Some(d) => occurs_in(d@, query@),
            None => false,
        }),
{
    let q = chars_of(query);
    if contains_chars(&chars_of(name), &q) {
        return true;
    }
    match description {
        Some(d) => contains_chars(&chars_of(d), &q),
        None => false,
    }
}

/// The items whose lower-case name or description contains the lower-case `query`.
pub fn filter_by_query(items: Vec<Item>, query: &str) -> (r: Vec<Item>)
    ensures
        items_view(r@) == items_view(items@).filter(|i: ItemModel| text_matches(i, query@)),
{
    let query_lower = lowercase(query);
    let ghost all = items_view(items@);
    let ghost pred = |i: ItemModel| text_matches(i, query@);
    let mut kept: Vec<Item> = Vec::new();
    for item in it: items
        invariant
            query_lower@ == lower_of(query@),
            pred == (|i: ItemModel| text_matches(i, query@)),
            all == items_view(it.seq()),
            items_view(kept@) == all.take(it.index() as int).filter(pred),
    {
        let ghost n = it.index() as int;
        proof {
            assert(all.take(n + 1) =~= all.take(n).push(item@));
            all.take(n).lemma_filter_push(item@, pred);
        }
        let (name, description) = item.search_items();
        let name_lower = lowercase(name.as_str());
        let matched = match description {
            Some(d) => {
                let d_lower = lowercase(d.as_str());
                matches_folded(query_lower.as_str(), name_lower.as_str(), Some(d_lower.as_str()))
            },
            None => matches_folded(query_lower.as_str(), name_lower.as_str(), None),
        };
        if matched {
            let ghost prev = kept@;
            kept.push(item);
            assert(items_view(kept@) =~= items_view(prev).push(item@));
        }
    }
    proof {
        assert(all.take(all.len() as int) =~= all);
    }
    kept
}

/// The items after the first `offset` (none when `offset` reaches the
/// end), at most `limit` of them.
pub fn paginate_items(items: Vec<Item>, offset: Option<usize>, limit: Option<usize>) -> (r: Vec<
    Item,
>)
    ensures
        items_view(r@) == paginate(items_view(items@), offset, limit),
{
    let ghost all = items_view(items@);
    let mut items = items;
    let off = match offset {
        Some(o) => o,
        None => 0,
    };
    let mut page = if off >= items.len() {
        Vec::new()
    } else {
        items.split_off(off)
    };
    let ghost skipped = items_view(page@);
    assert(skipped =~= (if off >= all.len() {
        Seq::empty()
    } else {
        all.subrange(off as int, all.len() as int)
    }));
    match limit {
        Some(l) => {
            page.truncate(l);
        },
        None => {},
    }
    assert(items_view(page@) =~= paginate(all, offset, limit));
    page
}

/// The answer to `request` over the items found for its crate: the kind
/// filter, then the text filter, then offset and limit, each when given.
pub fn lookup_crate(request: &LookupCrateRequest, items: Vec<Item>) -> (r: Documentation)
    ensures
        r@ == (DocumentationModel {
            name: request.name@,
            items: query_items(
                items_view(items@),
                opt_view(request.item_type),
                opt_view(request.query),
                request.offset,
                request.limit,
            ),
        }),
{
    let mut items = items;
    match &request.item_type {
        Some(filter_type) => {
            items = filter_by_item_type(items, filter_type.as_str());
        },
        None => {},
    }
    match &request.query {
        Some(search_query) => {
            items = filter_by_query(items, search_query.as_str());
        },
        None => {},
    }
    let items = paginate_items(items, request.offset, request.limit);
    Documentation { name: request.name.clone(), items }
}

/// An offset at or past the end of the items leaves nothing, whatever the
/// filters and the limit.
pub proof fn lemma_offset_past_end(
    items: Seq<ItemModel>,
    item_type: Option<Seq<char>>,
    query: Option<Seq<char>>,
    offset: usize,
    limit: Option<usize>,
)
    requires
        offset >= items.len(),
    ensures
        query_items(items, item_type, query, Some(offset), limit).len() == 0,
{
    let by_kind = match item_type {
        Some(t) => items.filter(|i: ItemModel| kind_matches(i, t)),
        None => items,
    };
    match item_type {
        Some(t) => items.lemma_filter_len(|i: ItemModel| kind_matches(i, t)),
        None => {},
    }
    match query {
        Some(q) => by_kind.lemma_filter_len(|i: ItemModel| text_matches(i, q)),
        None => {},
    }
}

/// The answer never holds more items than the limit.
pub proof fn lemma_limit_bounds(
    items: Seq<ItemModel>,
    item_type: Option<Seq<char>>,
    query: Option<Seq<char>>,
    offset: Option<usize>,
    limit: usize,
)
    ensures
        query_items(items, item_type, query, offset, Some(limit)).len() <= limit,
{
}

} // verus!
