//! A documentation tree as a value, its items in pre-order, and the proof
//! that driving the walker over the tree yields exactly those items.
use vstd::prelude::*;
use crate::error::ErrorKind;
use crate::item::ItemModel;
use crate::page::page_item;
use crate::walk::{
    children_upto, has_html_extension, is_visited, last_name, listed, read, reversed, PendingModel,
    WalkerModel,
};

verus! {

/// A documentation tree: a file with its content, or a directory with its
/// entries in listing order.
pub enum FsNode {
    File { name: Seq<char>, content: Seq<char> },
    Dir { name: Seq<char>, entries: Seq<FsNode> },
}

impl FsNode {
    /// The node's file name.
    pub open spec fn name(self) -> Seq<char> {
        match self {
            FsNode::File { name, .. } => name,
            FsNode::Dir { name, .. } => name,
        }
    }

    /// The listing entry of this node: its name and whether it is a directory.
    pub open spec fn entry(self) -> (Seq<char>, bool) {
        (self.name(), self is Dir)
    }
}

/// The listing of a directory with entries `es`.
pub open spec fn listing_of(es: Seq<FsNode>) -> Seq<(Seq<char>, bool)> {
    es.map_values(|e: FsNode| e.entry())
}

/// The items of a file: one at most, and only for an `html` file.
pub open spec fn file_items(name: Seq<char>, content: Seq<char>) -> Result<Seq<ItemModel>, ErrorKind> {
    if has_html_extension(name) {
        match page_item(content, name) {
            Ok(Some(m)) => Ok(seq![m]),
            Ok(None) => Ok(Seq::empty()),
            Err(kind) => Err(kind),
        }
    } else {
        Ok(Seq::empty())
    }
}

/// The items of a tree in pre-order, or the first failure met.
pub open spec fn walk_node(n: FsNode) -> Result<Seq<ItemModel>, ErrorKind>
    decreases n, 0int,
{
    match n {
        FsNode::File { name, content } => file_items(name, content),
        FsNode::Dir { entries, .. } => walk_from(entries, 0),
    }
}

/// The items of the entries `es[k..]`, in order, or the first failure met.
pub open spec fn walk_from(es: Seq<FsNode>, k: int) -> Result<Seq<ItemModel>, ErrorKind>
    decreases es, es.len() - k,
{
    if k < 0 || k >= es.len() {
        Ok(Seq::empty())
    } else {
        match walk_node(es[k]) {
            Err(kind) => Err(kind),
            Ok(first) => match walk_from(es, k + 1) {
                Err(kind) => Err(kind),
                Ok(rest) => Ok(first + rest),
            },
        }
    }
}

/// How many steps the walker takes over a tree: one for each directory
/// listed and each `html` file read.
pub open spec fn steps_node(n: FsNode) -> nat
    decreases n, 0int,
{
    match n {
        FsNode::File { .. } => 1,
        FsNode::Dir { entries, .. } => 1 + steps_from(entries, 0),
    }
}

/// How many steps the walker takes over the visited entries among `es[k..]`.
pub open spec fn steps_from(es: Seq<FsNode>, k: int) -> nat
    decreases es, es.len() - k,
{
    if k < 0 || k >= es.len() {
        0
    } else {
        (if is_visited(es[k].entry()) {
            steps_node(es[k])
        } else {
            0
        }) + steps_from(es, k + 1)
    }
}

/// Whether no two of the entries `es` share a name.
pub open spec fn distinct_names(es: Seq<FsNode>) -> bool {
    forall|i: int, j: int| 0 <= i < j < es.len() ==> #[trigger] es[i].name() != #[trigger] es[j].name()
}

/// Whether every directory of the tree holds entries with distinct names,
/// as a file system's directories do.
pub open spec fn tree_wf(n: FsNode) -> bool
    decreases n, 0int,
{
    match n {
        FsNode::File { .. } => true,
        FsNode::Dir { entries, .. } => distinct_names(entries) && wf_from(entries, 0),
    }
}

/// Whether the entries `es[k..]` are well formed trees.
pub open spec fn wf_from(es: Seq<FsNode>, k: int) -> bool
    decreases es, es.len() - k,
{
    if k < 0 || k >= es.len() {
        true
    } else {
        tree_wf(es[k]) && wf_from(es, k + 1)
    }
}

/// The first of the entries `es` named `name`.
pub open spec fn lookup_entry(es: Seq<FsNode>, name: Seq<char>) -> Option<FsNode>
    decreases es.len(),
{
    if es.len() == 0 {
        None
    } else if es[0].name() == name {
        Some(es[0])
    } else {
        lookup_entry(es.drop_first(), name)
    }
}

/// The node at `path` below the directory `root`.
pub open spec fn resolve(root: FsNode, path: Seq<Seq<char>>) -> Option<FsNode>
    decreases path.len(),
{
    if path.len() == 0 {
        Some(root)
    } else {
        match resolve(root, path.drop_last()) {
            Some(FsNode::Dir { entries, .. }) => lookup_entry(entries, path.last()),
            _ => None,
        }
    }
}

/// The walker's state before its first step.
pub open spec fn initial_walker() -> WalkerModel {
    WalkerModel { pending: seq![(Seq::<Seq<char>>::empty(), true)], items: Seq::empty() }
}

/// The outcome of driving the walker from `w` over the tree `root` for at
/// most `fuel` steps: each directory it asks for is listed as the tree
/// holds it, each file it asks for is read with the tree's content. `None`
/// when the fuel runs out or the walker asks for what the tree does not hold.
pub open spec fn run(w: WalkerModel, root: FsNode, fuel: nat) -> Option<
    Result<Seq<ItemModel>, ErrorKind>,
>
    decreases fuel,
{
    if w.pending.len() == 0 {
        Some(Ok(w.items))
    } else if fuel == 0 {
        None
    } else {
        let top = w.pending.last();
        match resolve(root, top.0) {
            Some(FsNode::Dir { entries, .. }) => if top.1 {
                run(listed(w, listing_of(entries)), root, (fuel - 1) as nat)
            } else {
                None
            },
            Some(FsNode::File { content, .. }) => if !top.1 {
                match read(w, content) {
                    Ok(next) => run(next, root, (fuel - 1) as nat),
                    Err(kind) => Some(Err(kind)),
                }
            } else {
                None
            },
            None => None,
        }
    }
}

/// The places below `path` that the entries `listing[k..]` add, in listing order.
pub open spec fn children_from(path: Seq<Seq<char>>, listing: Seq<(Seq<char>, bool)>, k: int) -> Seq<
    PendingModel,
>
    decreases listing.len() - k,
{
    if k < 0 || k >= listing.len() {
        Seq::empty()
    } else {
        let rest = children_from(path, listing, k + 1);
        if is_visited(listing[k]) {
            seq![(path.push(listing[k].0), listing[k].1)] + rest
        } else {
            rest
        }
    }
}

proof fn lemma_children_split(path: Seq<Seq<char>>, listing: Seq<(Seq<char>, bool)>, n: int)
    requires
        0 <= n <= listing.len(),
    ensures
        children_upto(path, listing, n) + children_from(path, listing, n) == children_from(
            path,
            listing,
            0,
        ),
    decreases n,
{
    if n > 0 {
        lemma_children_split(path, listing, n - 1);
        let c = (path.push(listing[n - 1].0), listing[n - 1].1);
        if is_visited(listing[n - 1]) {
            assert(children_upto(path, listing, n) + children_from(path, listing, n) =~= children_upto(
                path,
                listing,
                n - 1,
            ) + (seq![c] + children_from(path, listing, n)));
        }
    } else {
        assert(Seq::<PendingModel>::empty() + children_from(path, listing, 0) =~= children_from(
            path,
            listing,
            0,
        ));
    }
}

proof fn lemma_reversed_prepend<A>(x: A, s: Seq<A>)
    ensures
        reversed(seq![x] + s) == reversed(s).push(x),
{
    assert(reversed(seq![x] + s) =~= reversed(s).push(x));
}

proof fn lemma_lookup_distinct(es: Seq<FsNode>, k: int)
    requires
        distinct_names(es),
        0 <= k < es.len(),
    ensures
        lookup_entry(es, es[k].name()) == Some(es[k]),
    decreases es.len(),
{
    if k > 0 {
        assert(es[0].name() != es[k].name());
        let rest = es.drop_first();
        assert forall|i: int, j: int| 0 <= i < j < rest.len() implies #[trigger] rest[i].name()
            != #[trigger] rest[j].name() by {
            assert(rest[i] == es[i + 1] && rest[j] == es[j + 1]);
        }
        lemma_lookup_distinct(rest, k - 1);
        assert(rest[k - 1] == es[k]);
    }
}

proof fn lemma_lookup_name(es: Seq<FsNode>, name: Seq<char>)
    ensures
        lookup_entry(es, name) matches Some(n) ==> n.name() == name,
    decreases es.len(),
{
    if es.len() > 0 && es[0].name() != name {
        lemma_lookup_name(es.drop_first(), name);
    }
}

proof fn lemma_wf_entry(es: Seq<FsNode>, k: int, j: int)
    requires
        wf_from(es, k),
        0 <= k <= j < es.len(),
    ensures
        tree_wf(es[j]),
    decreases j - k,
{
    if k < j {
        lemma_wf_entry(es, k + 1, j);
    }
}

proof fn lemma_resolve_child(root: FsNode, path: Seq<Seq<char>>, es: Seq<FsNode>, k: int)
    requires
        resolve(root, path) matches Some(FsNode::Dir { entries, .. }) && entries == es,
        distinct_names(es),
        0 <= k < es.len(),
    ensures
        resolve(root, path.push(es[k].name())) == Some(es[k]),
{
    let child = path.push(es[k].name());
    assert(child.drop_last() =~= path);
    lemma_lookup_distinct(es, k);
}

/// Driving the walker from a state whose last pending place is the node
/// `n`: after the steps that `n` takes, the place is done and the items of
/// `n` follow the earlier ones; or the first failure within `n` ends the run.
proof fn lemma_run_node(
    root: FsNode,
    n: FsNode,
    path: Seq<Seq<char>>,
    base: Seq<PendingModel>,
    items: Seq<ItemModel>,
    fuel: nat,
)
    requires
        resolve(root, path) == Some(n),
        tree_wf(n),
        is_visited(n.entry()),
        n is File ==> path.len() > 0,
    ensures
        run(WalkerModel { pending: base.push((path, n is Dir)), items }, root, steps_node(n) + fuel)
            == match walk_node(n) {
            Ok(found) => run(WalkerModel { pending: base, items: items + found }, root, fuel),
            Err(kind) => Some(Err(kind)),
        },
    decreases n, 0int,
{
    let w = WalkerModel { pending: base.push((path, n is Dir)), items };
    assert(w.pending.drop_last() =~= base);
    match n {
        FsNode::File { name, content } => {
            lemma_lookup_name_at(root, path);
            assert(last_name(path) == name);
            match page_item(content, name) {
                Ok(Some(m)) => {
                    assert(items.push(m) =~= items + seq![m]);
                },
                Ok(None) => {
                    assert(items =~= items + Seq::<ItemModel>::empty());
                },
                Err(_) => {},
            }
        },
        FsNode::Dir { name, entries } => {
            let listing = listing_of(entries);
            lemma_children_split(path, listing, listing.len() as int);
            assert(children_upto(path, listing, listing.len() as int) + Seq::<PendingModel>::empty()
                =~= children_upto(path, listing, listing.len() as int));
            assert(listed(w, listing).pending =~= base + reversed(children_from(path, listing, 0)));
            lemma_run_entries(root, path, name, entries, 0, base, items, fuel);
        },
    }
}

proof fn lemma_lookup_name_at(root: FsNode, path: Seq<Seq<char>>)
    requires
        path.len() > 0,
    ensures
        resolve(root, path) matches Some(n) ==> n.name() == path.last(),
{
    match resolve(root, path.drop_last()) {
        Some(FsNode::Dir { entries, .. }) => lemma_lookup_name(entries, path.last()),
        _ => {},
    }
}

/// Driving the walker from a state whose pending places end with the
/// visited entries of `es[k..]`, first on top: after their steps, they are
/// done and their items follow the earlier ones; or the first failure among
/// them ends the run.
proof fn lemma_run_entries(
    root: FsNode,
    path: Seq<Seq<char>>,
    name: Seq<char>,
    es: Seq<FsNode>,
    k: int,
    base: Seq<PendingModel>,
    items: Seq<ItemModel>,
    fuel: nat,
)
    requires
        resolve(root, path) == Some(FsNode::Dir { name, entries: es }),
        distinct_names(es),
        wf_from(es, 0),
        0 <= k <= es.len(),
    ensures
        run(
            WalkerModel {
                pending: base + reversed(children_from(path, listing_of(es), k)),
                items,
            },
            root,
            steps_from(es, k) + fuel,
        ) == match walk_from(es, k) {
            Ok(found) => run(WalkerModel { pending: base, items: items + found }, root, fuel),
            Err(kind) => Some(Err(kind)),
        },
    decreases es, es.len() - k,
{
    let listing = listing_of(es);
    if k == es.len() {
        assert(base + reversed(children_from(path, listing, k)) =~= base);
        assert(items + Seq::<ItemModel>::empty() =~= items);
    } else {
        let e = es[k];
        assert(listing[k] == e.entry());
        let rest_base = base + reversed(children_from(path, listing, k + 1));
        lemma_wf_entry(es, 0, k);
        if is_visited(e.entry()) {
            let c = (path.push(e.name()), e is Dir);
            lemma_reversed_prepend(c, children_from(path, listing, k + 1));
            assert(base + reversed(children_from(path, listing, k)) =~= rest_base.push(c));
            lemma_resolve_child(root, path, es, k);
            lemma_run_node(root, e, path.push(e.name()), rest_base, items, steps_from(es, k + 1) + fuel);
            assert(steps_node(e) + (steps_from(es, k + 1) + fuel) == steps_from(es, k) + fuel);
            match walk_node(e) {
                Ok(found) => {
                    lemma_run_entries(root, path, name, es, k + 1, base, items + found, fuel);
                    match walk_from(es, k + 1) {
                        Ok(more) => {
                            assert(items + found + more =~= items + (found + more));
                        },
                        Err(_) => {},
                    }
                },
                Err(_) => {},
            }
        } else {
            assert(walk_node(e) == Ok::<Seq<ItemModel>, ErrorKind>(Seq::empty()));
            lemma_run_entries(root, path, name, es, k + 1, base, items, fuel);
            match walk_from(es, k + 1) {
                Ok(more) => {
                    assert(Seq::<ItemModel>::empty() + more =~= more);
                },
                Err(_) => {},
            }
        }
    }
}

/// Driving the walker over a documentation tree, listing each directory and
/// reading each file it asks for as the tree holds them, ends after the
/// tree's steps with the tree's items in pre-order (each directory's
/// entries in listing order, subdirectories in full before the next
/// entry), or with the first failure met in that order.
pub proof fn lemma_walker_traverses(root: FsNode)
    requires
        root is Dir,
        tree_wf(root),
    ensures
        run(initial_walker(), root, steps_node(root)) == Some(walk_node(root)),
{
    let empty_path = Seq::<Seq<char>>::empty();
    assert(Seq::<PendingModel>::empty().push((empty_path, true)) =~= initial_walker().pending);
    lemma_run_node(root, root, empty_path, Seq::empty(), Seq::empty(), 0);
    match walk_node(root) {
        Ok(found) => {
            assert(Seq::<ItemModel>::empty() + found =~= found);
        },
        Err(_) => {},
    }
}

} // verus!
