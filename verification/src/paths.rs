//! Paths, held as strings, and the directory walk that copies a tree.
//!
//! The walk keeps a stack of paths still to visit, starting with the
//! source root. The caller pops a path, looks it up on disk, and either
//! pushes the entries of a directory or copies a file to the destination
//! that the walk computes for it.

use vstd::prelude::*;

verus! {

/// The path that `std::path::Path::join` makes of `base` and `rel` on
/// Unix: an absolute `rel` (one starting with `/`) replaces `base`;
/// otherwise `rel` follows `base`, after a `/` where `base` is non-empty and
/// does not end in one.
pub open spec fn path_join(base: Seq<char>, rel: Seq<char>) -> Seq<char> {
    if rel.len() > 0 && rel[0] == '/' {
        rel
    } else if base.len() > 0 && base.last() != '/' {
        base + seq!['/'] + rel
    } else {
        base + rel
    }
}

/// `base` joined with `rel` by `std::path::Path::join`. Claimed: the result
/// is `path_join`, the rule of `PathBuf::push` on Unix. Joining two strings
/// gives a string, so the lossy conversion loses nothing.
#[verifier::external_body]
pub(crate) fn join_path(base: &str, rel: &str) -> (res: String)
    ensures
        res@ == path_join(base@, rel@),
{
    std::path::Path::new(base).join(rel).to_string_lossy().into_owned()
}

/// The path that `std::path::Path::strip_prefix` leaves of `path` once the
/// leading components `base` are removed, or `None` where `base` is not a
/// prefix of `path`.
pub uninterp spec fn path_relative(path: Seq<char>, base: Seq<char>) -> Option<Seq<char>>;

/// `path` relative to `base`, by `std::path::Path::strip_prefix`. Claimed:
/// the outcome is a function of the two paths alone, named `path_relative`.
#[verifier::external_body]
fn strip_path_prefix(path: &str, base: &str) -> (res: Option<String>)
    ensures
        match res {
            Some(r) => path_relative(path@, base@) == Some(r@),
            None => path_relative(path@, base@) is None,
        },
{
    std::path::Path::new(path).strip_prefix(base).ok().map(|p| p.to_string_lossy().into_owned())
}

/// The extension that `std::path::Path::extension` finds in `path`.
pub uninterp spec fn path_extension(path: Seq<char>) -> Option<Seq<char>>;

/// The extension of the file name of `path`, by
/// `std::path::Path::extension`. Claimed: the outcome is a function of the
/// path alone, named `path_extension`; from its documentation, a path
/// without a `.` has none, and an extension, the part of the file name
/// after its last `.`, holds neither `.` nor `/`.
#[verifier::external_body]
fn extension_of(path: &str) -> (res: Option<String>)
    ensures
        match res {
            Some(e) => path_extension(path@) == Some(e@),
            None => path_extension(path@) is None,
        },
        !path@.contains('.') ==> res is None,
        res matches Some(e) ==> !e@.contains('.') && !e@.contains('/'),
{
    std::path::Path::new(path).extension().map(|e| e.to_string_lossy().into_owned())
}

/// Where one copied file is written; a mapping applied to the file may
/// change it.
pub struct CopyOpts {
    pub dest_path: String,
}

/// Why a path met during a copy could not be placed in the destination.
#[derive(Debug, Clone, Copy, PartialEq, Eq, Structural)]
pub enum CopyError {
    /// The path does not lie under the source root.
    NotUnderSource,
}

/// The walk is depth first: once the entries of a directory are pushed,
/// the next `entries.len()` visits take them, last first, before any path
/// that was pending before them, and those pending paths are then left as
/// they were.
pub proof fn law_walk_visits_entries_first(pending: Seq<Seq<char>>, entries: Seq<Seq<char>>)
    ensures
        forall|k: int|
            0 <= k < entries.len() ==> (#[trigger] (pending + entries).subrange(
                0,
                pending.len() + entries.len() - k,
            )).last() == entries[entries.len() - 1 - k],
        (pending + entries).subrange(0, pending.len() as int) == pending,
{
    assert forall|k: int| 0 <= k < entries.len() implies (#[trigger] (pending + entries).subrange(
        0,
        pending.len() + entries.len() - k,
    )).last() == entries[entries.len() - 1 - k] by {
        let t = (pending + entries).subrange(0, pending.len() + entries.len() - k);
        assert(t.last() == (pending + entries)[pending.len() + entries.len() - k - 1]);
    }
    assert((pending + entries).subrange(0, pending.len() as int) =~= pending);
}

/// A directory tree as the walk meets it: every node has its path, and a
/// directory lists its entries in the order in which they are read.
pub enum DirTree {
    File(Seq<char>),
    Dir(Seq<char>, Seq<DirTree>),
}

/// The path of a node.
pub open spec fn node_path(t: DirTree) -> Seq<char> {
    match t {
        DirTree::File(p) => p,
        DirTree::Dir(p, _) => p,
    }
}

/// The entries of a node: none for a file.
pub open spec fn node_entries(t: DirTree) -> Seq<DirTree> {
    match t {
        DirTree::File(_) => seq![],
        DirTree::Dir(_, kids) => kids,
    }
}

/// The number of nodes of a tree.
pub open spec fn tree_size(t: DirTree) -> nat
    decreases t,
{
    match t {
        DirTree::File(_) => 1,
        DirTree::Dir(_, kids) => 1 + forest_size(kids),
    }
}

/// The number of nodes of a sequence of trees.
pub open spec fn forest_size(ts: Seq<DirTree>) -> nat
    decreases ts,
{
    if ts.len() == 0 {
        0
    } else {
        forest_size(ts.subrange(0, ts.len() - 1)) + tree_size(ts[ts.len() - 1])
    }
}

/// The paths of a tree, each node once, depth first: a node before its
/// entries, and the entries of a directory from the last read to the first.
pub open spec fn tree_order(t: DirTree) -> Seq<Seq<char>>
    decreases t,
{
    match t {
        DirTree::File(p) => seq![p],
        DirTree::Dir(p, kids) => seq![p] + stack_order(kids),
    }
}

/// The paths of a stack of trees, each node once, the trees from the top
/// (last) down.
pub open spec fn stack_order(ts: Seq<DirTree>) -> Seq<Seq<char>>
    decreases ts,
{
    if ts.len() == 0 {
        seq![]
    } else {
        tree_order(ts[ts.len() - 1]) + stack_order(ts.subrange(0, ts.len() - 1))
    }
}

proof fn forest_size_concat(a: Seq<DirTree>, b: Seq<DirTree>)
    ensures
        forest_size(a + b) == forest_size(a) + forest_size(b),
    decreases b.len(),
{
    if b.len() > 0 {
        let c = a + b;
        assert(c.subrange(0, c.len() - 1) =~= a + b.subrange(0, b.len() - 1));
        forest_size_concat(a, b.subrange(0, b.len() - 1));
    } else {
        assert(a + b =~= a);
    }
}

/// What the walk visits from the stack `ts` when, at every step, the
/// caller takes the path on top and pushes the entries that the tree lists
/// for it.
pub open spec fn walk_visits(ts: Seq<DirTree>) -> Seq<Seq<char>>
    decreases forest_size(ts),
    via walk_visits_decreases
{
    if ts.len() == 0 {
        seq![]
    } else {
        let t = ts[ts.len() - 1];
        seq![node_path(t)] + walk_visits(ts.subrange(0, ts.len() - 1) + node_entries(t))
    }
}

/// Taking the top tree of a non-empty stack and pushing its entries leaves
/// one node fewer.
proof fn step_shrinks(ts: Seq<DirTree>)
    requires
        ts.len() > 0,
    ensures
        forest_size(ts.subrange(0, ts.len() - 1) + node_entries(ts[ts.len() - 1])) + 1 == forest_size(ts),
{
    let t = ts[ts.len() - 1];
    forest_size_concat(ts.subrange(0, ts.len() - 1), node_entries(t));
    assert(forest_size(ts) == forest_size(ts.subrange(0, ts.len() - 1)) + tree_size(t));
    match t {
        DirTree::File(_) => {
            assert(node_entries(t) == Seq::<DirTree>::empty());
            assert(forest_size(Seq::<DirTree>::empty()) == 0);
            assert(tree_size(t) == 1);
        },
        DirTree::Dir(_, kids) => {
            assert(tree_size(t) == 1 + forest_size(kids));
        },
    }
}

#[via_fn]
proof fn walk_visits_decreases(ts: Seq<DirTree>) {
    if ts.len() > 0 {
        step_shrinks(ts);
    }
}

proof fn stack_order_concat(a: Seq<DirTree>, b: Seq<DirTree>)
    ensures
        stack_order(a + b) == stack_order(b) + stack_order(a),
    decreases b.len(),
{
    if b.len() > 0 {
        let c = a + b;
        let b1 = b.subrange(0, b.len() - 1);
        assert(c.subrange(0, c.len() - 1) =~= a + b1);
        assert(c[c.len() - 1] == b[b.len() - 1]);
        stack_order_concat(a, b1);
        assert(stack_order(c) =~= stack_order(b) + stack_order(a));
    } else {
        assert(a + b =~= a);
        assert(stack_order(b) + stack_order(a) =~= stack_order(a));
    }
}

proof fn walk_follows_stack_order(ts: Seq<DirTree>)
    ensures
        walk_visits(ts) == stack_order(ts),
    decreases forest_size(ts),
{
    if ts.len() > 0 {
        let t = ts[ts.len() - 1];
        let rest = ts.subrange(0, ts.len() - 1);
        step_shrinks(ts);
        walk_follows_stack_order(rest + node_entries(t));
        stack_order_concat(rest, node_entries(t));
        assert(walk_visits(ts) == seq![node_path(t)] + walk_visits(rest + node_entries(t)));
        assert(stack_order(ts) == tree_order(t) + stack_order(rest));
        match t {
            DirTree::File(p) => {
                assert(stack_order(Seq::<DirTree>::empty()) == Seq::<Seq<char>>::empty());
                assert(tree_order(t) =~= seq![node_path(t)] + stack_order(node_entries(t)));
            },
            DirTree::Dir(p, kids) => {
                assert(tree_order(t) == seq![node_path(t)] + stack_order(node_entries(t)));
            },
        }
        assert(walk_visits(ts) =~= stack_order(ts));
    }
}

proof fn tree_order_length(t: DirTree)
    ensures
        tree_order(t).len() == tree_size(t),
    decreases t,
{
    match t {
        DirTree::File(_) => {},
        DirTree::Dir(_, kids) => {
            stack_order_length(kids);
        },
    }
}

proof fn stack_order_length(ts: Seq<DirTree>)
    ensures
        stack_order(ts).len() == forest_size(ts),
    decreases ts,
{
    if ts.len() > 0 {
        tree_order_length(ts[ts.len() - 1]);
        stack_order_length(ts.subrange(0, ts.len() - 1));
    }
}

/// Copying a tree visits every node exactly once and then stops: started on
/// its root, with the caller pushing the entries of each directory it takes,
/// the walk takes the paths of `tree_order(root)`, as many as the tree has
/// nodes.
pub proof fn law_walk_visits_tree_once(root: DirTree)
    ensures
        walk_visits(seq![root]) == tree_order(root),
        walk_visits(seq![root]).len() == tree_size(root),
{
    walk_follows_stack_order(seq![root]);
    let none = seq![root].subrange(0, 0);
    assert(none =~= Seq::<DirTree>::empty());
    assert(stack_order(none) == Seq::<Seq<char>>::empty());
    assert(seq![root][0] == root);
    assert(stack_order(seq![root]) =~= tree_order(root));
    tree_order_length(root);
}

/// One step of `walk_visits` is what `next_item` and `push_entries` do to the
/// pending paths: the path taken is the top one, and the pending paths
/// become the rest followed by the entries.
pub proof fn law_walk_step_is_pop_then_push(ts: Seq<DirTree>)
    requires
        ts.len() > 0,
    ensures
        ts.map_values(|t: DirTree| node_path(t)).last() == node_path(ts[ts.len() - 1]),
        (ts.subrange(0, ts.len() - 1) + node_entries(ts[ts.len() - 1])).map_values(
            |t: DirTree| node_path(t),
        ) == ts.map_values(|t: DirTree| node_path(t)).drop_last() + node_entries(
            ts[ts.len() - 1],
        ).map_values(|t: DirTree| node_path(t)),
{
    assert((ts.subrange(0, ts.len() - 1) + node_entries(ts[ts.len() - 1])).map_values(
        |t: DirTree| node_path(t),
    ) =~= ts.map_values(|t: DirTree| node_path(t)).drop_last() + node_entries(
        ts[ts.len() - 1],
    ).map_values(|t: DirTree| node_path(t)));
}

/// Every path under the source is placed at the target joined with its
/// path relative to the source, whatever that relative path is (dot files
/// and the source root itself included); only paths outside the source are
/// refused.
pub proof fn law_destination_mirrors_source(w: CopyWalk, item: Seq<char>)
    ensures
        path_relative(item, w.source()) matches Some(rel) ==> w.spec_destination(item) == Ok::<
            Seq<char>,
            CopyError,
        >(path_join(w.target(), rel)),
        path_relative(item, w.source()) is None ==> w.spec_destination(item) == Err::<
            Seq<char>,
            CopyError,
        >(CopyError::NotUnderSource),
        path_relative(item, w.source()) matches Some(rel) ==> (rel.len() > 0 && rel[0] != '/'
            && w.target().len() > 0 && w.target().last() != '/' ==> w.spec_destination(item)
            == Ok::<Seq<char>, CopyError>(w.target() + seq!['/'] + rel)),
{
}

/// The state of a copy of the tree at `source` to `target`.
pub struct CopyWalk {
    source: String,
    target: String,
    pending: Vec<String>,
}

impl CopyWalk {
    /// The root of the tree being copied.
    pub closed spec fn source(&self) -> Seq<char> {
        self.source@
    }

    /// Where the tree is copied to.
    pub closed spec fn target(&self) -> Seq<char> {
        self.target@
    }

    /// The paths still to visit; the last is visited next.
    pub closed spec fn pending(&self) -> Seq<Seq<char>> {
        self.pending@.map_values(|p: String| p@)
    }

    /// Where a path under the source is copied to.
    pub open spec fn spec_destination(&self, item: Seq<char>) -> Result<Seq<char>, CopyError> {
        match path_relative(item, self.source()) {
            Some(rel) => Ok(path_join(self.target(), rel)),
            None => Err(CopyError::NotUnderSource),
        }
    }

    /// A walk that has only the source root left to visit.
    pub fn new(source: &str, target: &str) -> (res: CopyWalk)
        ensures
            res.source() == source@,
            res.target() == target@,
            res.pending() == seq![source@],
    {
        let mut pending: Vec<String> = Vec::new();
        pending.push(source.to_owned());
        let res = CopyWalk { source: source.to_owned(), target: target.to_owned(), pending };
        assert(res.pending() =~= seq![source@]);
        res
    }

    /// Takes the path to visit next: the one pushed last.
    pub fn next_item(&mut self) -> (res: Option<String>)
        ensures
            final(self).source() == old(self).source(),
            final(self).target() == old(self).target(),
            old(self).pending().len() == 0 ==> res is None && final(self).pending() == old(
                self,
            ).pending(),
            old(self).pending().len() > 0 ==> (res matches Some(p) && p@ == old(self).pending().last()
                && final(self).pending() == old(self).pending().drop_last()),
    {
        let res = self.pending.pop();
        proof {
            if old(self).pending@.len() > 0 {
                assert(self.pending() =~= old(self).pending().drop_last());
            }
        }
        res
    }

    /// Queues the entries of a directory that was just visited.
    pub fn push_entries(&mut self, entries: Vec<String>)
        ensures
            final(self).source() == old(self).source(),
            final(self).target() == old(self).target(),
            final(self).pending() == old(self).pending() + entries@.map_values(|p: String| p@),
    {
        let mut i: usize = 0;
        let ghost start = self.pending();
        let ghost all = entries@.map_values(|p: String| p@);
        let n = entries.len();
        while i < n
            invariant
                n == entries.len(),
                i <= n,
                self.source() == old(self).source(),
                self.target() == old(self).target(),
                all == entries@.map_values(|p: String| p@),
                self.pending() == start + all.subrange(0, i as int),
            decreases n - i,
        {
            let p = entries[i].clone();
            let ghost before = self.pending();
            self.pending.push(p);
            assert(self.pending() =~= before + seq![all[i as int]]);
            assert(all.subrange(0, i + 1) =~= all.subrange(0, i as int) + seq![all[i as int]]);
            i = i + 1;
        }
        assert(all.subrange(0, n as int) =~= all);
    }

    /// Where `item`, a path met during the walk, is copied to: its path
    /// relative to the source, joined to the target.
    pub fn destination(&self, item: &str) -> (res: Result<String, CopyError>)
        ensures
            match self.spec_destination(item@) {
                Ok(d) => res matches Ok(r) && r@ == d,
                Err(e) => res matches Err(x) && x == e,
            },
    {
        match strip_path_prefix(item, self.source.as_str()) {
            Some(rel) => Ok(join_path(self.target.as_str(), rel.as_str())),
            None => Err(CopyError::NotUnderSource),
        }
    }

    /// The extension of a file met during the walk, handed to the mapping
    /// that is applied to its contents.
    pub fn file_extension(item: &str) -> (res: Option<String>)
        ensures
            match path_extension(item@) {
                Some(e) => res matches Some(r) && r@ == e,
                None => res is None,
            },
            !item@.contains('.') ==> res is None,
            res matches Some(e) ==> !e@.contains('.') && !e@.contains('/'),
    {
        extension_of(item)
    }

    /// How a file met during the walk is written: to its destination, unless
    /// the mapping changes that.
    pub fn file_options(&self, item: &str) -> (res: Result<CopyOpts, CopyError>)
        ensures
            match self.spec_destination(item@) {
                Ok(d) => res matches Ok(o) && o.dest_path@ == d,
                Err(e) => res matches Err(x) && x == e,
            },
    {
        match self.destination(item) {
            Ok(dest_path) => Ok(CopyOpts { dest_path }),
            Err(e) => Err(e),
        }
    }
}

} // verus!
