//! Pre-order traversal of a crate's documentation tree, driven from outside:
//! the walker says which directory to list or which file to read next, and
//! takes what was listed or read. Items come out in traversal order.
use vstd::prelude::*;
use crate::catalog::DirEntry;
use crate::chars::{chars_of, ends_with_chars};
use crate::error::{Error, ErrorKind};
use crate::item::{items_view, strings_view, Item, ItemModel};
use crate::page::{page_item, parse_html_file};

verus! {

/// A place in the tree still to visit: its path below the crate's
/// directory, and whether it is a directory.
struct Pending {
    path: Vec<String>,
    is_dir: bool,
}

/// What the walker asks for next.
#[derive(Debug)]
pub enum WalkStep {
    /// List the directory at this path below the crate's directory.
    ListDir(Vec<String>),
    /// Read the file at this path below the crate's directory.
    ReadFile(Vec<String>),
    /// The traversal is complete.
    Done,
}

/// The state of a traversal.
pub struct Walker {
    pending: Vec<Pending>,
    items: Vec<Item>,
}

/// The model of a place still to visit: its path and whether it is a directory.
pub type PendingModel = (Seq<Seq<char>>, bool);

/// The model of a traversal: the places still to visit, the next one last,
/// and the items found so far.
pub struct WalkerModel {
    pub pending: Seq<PendingModel>,
    pub items: Seq<ItemModel>,
}

impl View for Pending {
    type V = PendingModel;

    closed spec fn view(&self) -> PendingModel {
        (strings_view(self.path@), self.is_dir)
    }
}

spec fn pending_view(v: Seq<Pending>) -> Seq<PendingModel> {
    v.map_values(|p: Pending| p@)
}

impl View for Walker {
    type V = WalkerModel;

    closed spec fn view(&self) -> WalkerModel {
        WalkerModel { pending: pending_view(self.pending@), items: items_view(self.items@) }
    }
}

/// Whether a file named `name` has the extension `html`: it ends in
/// `.html` and something comes before that.
pub open spec fn has_html_extension(name: Seq<char>) -> bool {
    name.len() > ".html"@.len() && crate::chars::has_suffix(name, ".html"@)
}

/// The model of a directory listing: each entry's name and whether it is a
/// directory.
pub open spec fn listing_view(entries: Seq<DirEntry>) -> Seq<(Seq<char>, bool)> {
    entries.map_values(|e: DirEntry| (e.name@, e.is_dir))
}

/// Whether a listed entry is visited: a directory, or a file with the
/// extension `html`.
pub open spec fn is_visited(e: (Seq<char>, bool)) -> bool {
    e.1 || has_html_extension(e.0)
}

/// The places below `path` that the first `n` entries of its listing add,
/// in listing order.
pub open spec fn children_upto(path: Seq<Seq<char>>, listing: Seq<(Seq<char>, bool)>, n: int) -> Seq<
    PendingModel,
>
    decreases n,
{
    if n <= 0 {
        Seq::empty()
    } else {
        let prev = children_upto(path, listing, n - 1);
        let e = listing[n - 1];
        if is_visited(e) {
            prev.push((path.push(e.0), e.1))
        } else {
            prev
        }
    }
}

/// `s` in reverse order.
pub open spec fn reversed<A>(s: Seq<A>) -> Seq<A> {
    Seq::new(s.len(), |i: int| s[s.len() - 1 - i])
}

/// The file name at the end of `path`; empty for the crate's directory itself.
pub open spec fn last_name(path: Seq<Seq<char>>) -> Seq<char> {
    if path.len() > 0 {
        path.last()
    } else {
        Seq::empty()
    }
}

/// The traversal after the directory last in `w.pending` was listed as
/// `listing`: the directory is done, and its subdirectories and `html`
/// files, in listing order, are visited next.
pub open spec fn listed(w: WalkerModel, listing: Seq<(Seq<char>, bool)>) -> WalkerModel {
    WalkerModel {
        pending: w.pending.drop_last() + reversed(
            children_upto(w.pending.last().0, listing, listing.len() as int),
        ),
        items: w.items,
    }
}

/// The traversal after the file last in `w.pending` was read as `content`:
/// the file is done and the item it describes, if any, is added; or the
/// failure that extraction reports.
pub open spec fn read(w: WalkerModel, content: Seq<char>) -> Result<WalkerModel, ErrorKind> {
    match page_item(content, last_name(w.pending.last().0)) {
        Ok(Some(m)) => Ok(WalkerModel { pending: w.pending.drop_last(), items: w.items.push(m) }),
        Ok(None) => Ok(WalkerModel { pending: w.pending.drop_last(), items: w.items }),
        Err(kind) => Err(kind),
    }
}

/// Whether a file named `name` has the extension `html`.
pub fn is_html_file(name: &str) -> (r: bool)
    ensures
        r == has_html_extension(name@),
{
    let n = chars_of(name);
    let suffix = chars_of(".html");
    n.len() > suffix.len() && ends_with_chars(&n, &suffix)
}

/// A copy of a path.
fn clone_path(path: &Vec<String>) -> (r: Vec<String>)
    ensures
        strings_view(r@) == strings_view(path@),
{
    let mut out: Vec<String> = Vec::new();
    let mut i: usize = 0;
    while i < path.len()
        invariant
            i <= path@.len(),
            out@ == path@.subrange(0, i as int),
        decreases path.len() - i,
    {
        out.push(path[i].clone());
        assert(out@ =~= path@.subrange(0, i + 1));
        i = i + 1;
    }
    assert(path@.subrange(0, path@.len() as int) =~= path@);
    out
}

impl Walker {
    /// A traversal that starts at the crate's directory.
    pub fn new() -> (r: Walker)
        ensures
            r@.pending == seq![(Seq::<Seq<char>>::empty(), true)],
            r@.items == Seq::<ItemModel>::empty(),
    {
        let mut pending: Vec<Pending> = Vec::new();
        pending.push(Pending { path: Vec::new(), is_dir: true });
        let r = Walker { pending, items: Vec::new() };
        assert(strings_view(r.pending@[0].path@) =~= Seq::<Seq<char>>::empty());
        assert(r@.pending =~= seq![(Seq::<Seq<char>>::empty(), true)]);
        assert(r@.items =~= Seq::<ItemModel>::empty());
        r
    }

    /// What to do next: list or read the last place still to visit, or
    /// finish when none is left.
    pub fn next_step(&self) -> (r: WalkStep)
        ensures
            self@.pending.len() == 0 <==> r is Done,
            r matches WalkStep::ListDir(p) ==> self@.pending.last() == (strings_view(p@), true),
            r matches WalkStep::ReadFile(p) ==> self@.pending.last() == (strings_view(p@), false),
    {
        let n = self.pending.len();
        if n == 0 {
            WalkStep::Done
        } else {
            let top = &self.pending[n - 1];
            let path = clone_path(&top.path);
            if top.is_dir {
                WalkStep::ListDir(path)
            } else {
                WalkStep::ReadFile(path)
            }
        }
    }

    /// Takes the listing of the directory that `next_step` asked for: the
    /// directory is done, and its subdirectories and `html` files, in
    /// listing order, are visited next.
    pub fn dir_listed(&mut self, entries: Vec<DirEntry>)
        requires
            old(self)@.pending.len() > 0,
            old(self)@.pending.last().1,
        ensures
            final(self)@ == listed(old(self)@, listing_view(entries@)),
    {
        let top = self.pending.pop().unwrap();
        let ghost parent = strings_view(top.path@);
        let ghost all = entries@;
        let ghost listing = listing_view(entries@);
        let mut kids: Vec<Pending> = Vec::new();
        for entry in it: entries
            invariant
                all == it.seq(),
                listing == listing_view(all),
                strings_view(top.path@) == parent,
                pending_view(kids@) == children_upto(parent, listing, it.index() as int),
        {
            proof {
                assert(all[it.index() as int] == entry);
                assert(listing[it.index() as int] == (entry.name@, entry.is_dir));
            }
            if entry.is_dir || is_html_file(entry.name.as_str()) {
                let mut path = clone_path(&top.path);
                let ghost before = path@;
                path.push(entry.name);
                assert(strings_view(path@) =~= parent.push(entry.name@)) by {
                    assert(strings_view(path@) =~= strings_view(before).push(path@.last()@));
                }
                let ghost prev = kids@;
                kids.push(Pending { path, is_dir: entry.is_dir });
                assert(pending_view(kids@) =~= pending_view(prev).push(kids@.last()@));
            }
        }
        let ghost base = pending_view(self.pending@);
        let ghost all_kids = pending_view(kids@);
        let ghost n = kids@.len();
        assert(pending_view(self.pending@) =~= base + reversed(all_kids.subrange(n as int, n as int)));
        while kids.len() > 0
            invariant
                n == all_kids.len(),
                kids@.len() <= n,
                pending_view(kids@) == all_kids.subrange(0, kids@.len() as int),
                pending_view(self.pending@) == base + reversed(
                    all_kids.subrange(kids@.len() as int, n as int),
                ),
                self@.items == old(self)@.items,
            decreases kids.len(),
        {
            let ghost m = kids@.len();
            let ghost before = kids@;
            let kid = kids.pop().unwrap();
            assert(pending_view(before)[m - 1] == before[m - 1]@);
            assert(all_kids.subrange(0, m as int)[m - 1] == all_kids[m - 1]);
            assert(kid@ == all_kids[m - 1]);
            let ghost pv_before = pending_view(self.pending@);
            self.pending.push(kid);
            assert(pending_view(self.pending@) =~= pv_before.push(kid@));
            assert(reversed(all_kids.subrange(m - 1, n as int)) =~= reversed(
                all_kids.subrange(m as int, n as int),
            ).push(all_kids[m - 1]));
            assert(pending_view(self.pending@) =~= base + reversed(
                all_kids.subrange(m - 1, n as int),
            ));
            assert(pending_view(kids@) =~= all_kids.subrange(0, m - 1));
        }
        assert(all_kids.subrange(0, n as int) =~= all_kids);
        assert(self@.pending =~= listed(old(self)@, listing).pending);
    }

    /// Takes the content of the file that `next_step` asked for: the file is
    /// done, and the item it describes, if any, is added. A malformed file
    /// name is an error.
    pub fn file_read(&mut self, content: &str) -> (r: Result<(), Error>)
        requires
            old(self)@.pending.len() > 0,
            !old(self)@.pending.last().1,
        ensures
            final(self)@.pending == old(self)@.pending.drop_last(),
            match read(old(self)@, content@) {
                Ok(next) => r is Ok && final(self)@ == next,
                Err(kind) => r matches Err(e) && e.kind == kind,
            },
    {
        let ghost before = self@;
        let top = self.pending.pop().unwrap();
        assert(self@.pending =~= before.pending.drop_last());
        let found = if top.path.len() > 0 {
            parse_html_file(content, top.path[top.path.len() - 1].as_str())
        } else {
            parse_html_file(content, "")
        };
        proof {
            reveal_strlit("");
        }
        match found {
            Ok(Some(item)) => {
                let ghost prev = self.items@;
                self.items.push(item);
                assert(items_view(self.items@) =~= items_view(prev).push(item@));
                assert(self@ == WalkerModel {
                    pending: before.pending.drop_last(),
                    items: before.items.push(item@),
                });
                Ok(())
            },
            Ok(None) => {
                assert(self@ == WalkerModel { pending: before.pending.drop_last(), items: before.items });
                Ok(())
            },
            Err(e) => Err(e),
        }
    }

    /// The items found, in traversal order.
    pub fn into_items(self) -> (r: Vec<Item>)
        ensures
            items_view(r@) == self@.items,
    {
        self.items
    }
}

} // verus!
