//! The folder tree: a lazily materialised view of a directory and what
//! lies below it.
//!
//! The nodes live in an arena and name each other by index. A directory
//! node reads its children only when it is expanded; until then it is
//! unmaterialised and has none. A parent always stands before its children
//! in the arena, so following parent links ends at the root, node 0.

use vstd::prelude::*;
use crate::folder::{entry_views, EntryKind, FileEntry, FileEntryView};
use crate::path::{file_name, path_file_name};

verus! {

/// One node of the tree.
#[derive(Debug)]
pub struct TreeNode {
    /// The file or directory that the node stands for.
    pub entry: FileEntry,
    /// The node's parent; `None` for the root.
    pub parent: Option<usize>,
    /// The node's children, in the order in which they are shown.
    pub children: Vec<usize>,
    /// Whether the children have been read.
    pub materialized: bool,
    /// Whether the children are shown.
    pub expanded: bool,
    /// Whether the node is part of the tree. A discarded node stays in the
    /// arena until the nodes after it are gone too.
    pub live: bool,
}

/// `n` names a node of the tree.
pub open spec fn is_node(t: Seq<TreeNode>, n: int) -> bool {
    0 <= n < t.len() && t[n].live
}

/// `n` names a directory node.
pub open spec fn is_directory(t: Seq<TreeNode>, n: int) -> bool {
    is_node(t, n) && t[n].entry.kind == EntryKind::Directory
}

/// `i` lies below `n`: following parent links from `i` leads to `n`.
pub open spec fn is_under(t: Seq<TreeNode>, i: int, n: int) -> bool
    decreases i,
{
    0 <= i < t.len() && match t[i].parent {
        Some(p) => p < i && (p == n || is_under(t, p as int, n)),
        None => false,
    }
}

/// What holds of every node of a well-formed tree.
pub open spec fn node_ok(t: Seq<TreeNode>, i: int) -> bool {
    &&& i == 0 <==> t[i].parent is None
    &&& t[i].parent matches Some(p) ==> p < i && t[p as int].live
    &&& forall|k: int|
        0 <= k < t[i].children@.len() ==> {
            let c = #[trigger] t[i].children@[k];
            &&& i < c < t.len()
            &&& t[c as int].live
            &&& t[c as int].parent matches Some(q) && q == i
        }
    &&& forall|k1: int, k2: int|
        0 <= k1 < k2 < t[i].children@.len() ==> #[trigger] t[i].children@[k1]
            < #[trigger] t[i].children@[k2]
    &&& t[i].expanded ==> t[i].materialized
    &&& t[i].materialized ==> t[i].entry.kind == EntryKind::Directory
    &&& !t[i].materialized ==> t[i].children@.len() == 0
}

/// The tree is empty, or node 0 is its root and every node is in order:
/// parents are nodes and stand before their children, children are nodes
/// that name their parent and occur once, and only a materialised directory
/// has children.
pub open spec fn well_formed(t: Seq<TreeNode>) -> bool {
    &&& t.len() > 0 ==> t[0].live
    &&& forall|i: int| 0 <= i < t.len() && #[trigger] t[i].live ==> node_ok(t, i)
}

/// The entries of the children of `n`, in order.
pub open spec fn child_entries(t: Seq<TreeNode>, n: int) -> Seq<FileEntryView> {
    Seq::new(t[n].children@.len(), |k: int| t[t[n].children@[k] as int].entry@)
}

/// `after` is `before` with everything below `n` discarded and `n` itself
/// back to unmaterialised and collapsed. Nodes elsewhere are untouched and
/// keep their indices; the discarded nodes at the end of the arena are gone.
pub open spec fn is_reset_of(before: Seq<TreeNode>, after: Seq<TreeNode>, n: int) -> bool {
    &&& 0 <= n < after.len() <= before.len()
    &&& after.len() == n + 1 || after.last().live
    &&& forall|i: int|
        0 <= i < after.len() && i != n && !is_under(before, i, n) ==> #[trigger] after[i]
            == before[i]
    &&& forall|i: int|
        0 <= i < after.len() && is_under(before, i, n) ==> !(#[trigger] after[i]).live
    &&& forall|i: int|
        after.len() <= i < before.len() ==> !(#[trigger] before[i]).live || is_under(before, i, n)
    &&& after[n].entry == before[n].entry
    &&& after[n].parent == before[n].parent
    &&& after[n].live
    &&& after[n].children@.len() == 0
    &&& !after[n].materialized
    &&& !after[n].expanded
}

/// `after` is `before` with `n` materialised and expanded, and with one new
/// unmaterialised node for each of `entries`, in order, as the children of
/// `n`. The new nodes stand at the end of the arena.
pub open spec fn is_filled_from(
    before: Seq<TreeNode>,
    after: Seq<TreeNode>,
    n: int,
    entries: Seq<FileEntryView>,
) -> bool {
    &&& 0 <= n < before.len()
    &&& after.len() == before.len() + entries.len()
    &&& forall|i: int| 0 <= i < before.len() && i != n ==> #[trigger] after[i] == before[i]
    &&& after[n].entry == before[n].entry
    &&& after[n].parent == before[n].parent
    &&& after[n].live
    &&& after[n].materialized
    &&& after[n].expanded
    &&& after[n].children@.len() == entries.len()
    &&& forall|k: int|
        0 <= k < entries.len() ==> (#[trigger] after[n].children@[k]) == before.len() + k
    &&& forall|k: int|
        0 <= k < entries.len() ==> {
            let c = #[trigger] after[before.len() + k];
            &&& c.entry@ == entries[k]
            &&& c.parent matches Some(q) && q == n
            &&& c.children@.len() == 0
            &&& !c.materialized
            &&& !c.expanded
            &&& c.live
        }
}

/// What lies below a node stands after it in the arena.
pub proof fn lemma_under_is_later(t: Seq<TreeNode>, i: int, n: int)
    requires
        is_under(t, i, n),
    ensures
        n < i < t.len(),
    decreases i,
{
    let p = t[i].parent->0;
    if p != n {
        lemma_under_is_later(t, p as int, n);
    }
}

/// Discards what lies below `n` and resets `n`.
fn reset_in(nodes: &mut Vec<TreeNode>, n: usize)
    requires
        well_formed(old(nodes)@),
        is_node(old(nodes)@, n as int),
    ensures
        well_formed(final(nodes)@),
        is_reset_of(old(nodes)@, final(nodes)@, n as int),
{
    let ghost before = nodes@;
    let len: usize = nodes.len();
    let mut i: usize = n + 1;
    while i < len
        invariant
            before == old(nodes)@,
            well_formed(before),
            is_node(before, n as int),
            nodes.len() == len == before.len(),
            n < i <= len,
            forall|j: int| 0 <= j < len && !(n < j < i) ==> #[trigger] nodes@[j] == before[j],
            forall|j: int|
                n < j < i && !is_under(before, j, n as int) ==> #[trigger] nodes@[j] == before[j],
            forall|j: int|
                n < j < i && is_under(before, j, n as int) ==> !(#[trigger] nodes@[j]).live,
        decreases len - i,
    {
        if nodes[i].live {
            assert(before[i as int].live);
            assert(node_ok(before, i as int));
            match nodes[i].parent {
                Some(p) => {
                    proof {
                        if p != n && is_under(before, p as int, n as int) {
                            lemma_under_is_later(before, p as int, n as int);
                        }
                    }
                    if p == n || !nodes[p].live {
                        nodes[i].live = false;
                    }
                },
                None => {},
            }
        }
        i = i + 1;
    }
    nodes[n].children = Vec::new();
    nodes[n].materialized = false;
    nodes[n].expanded = false;
    let ghost marked = nodes@;
    proof {
        assert forall|j: int| 0 <= j < len && is_under(before, j, n as int) implies !(
        #[trigger] marked[j]).live by {
            lemma_under_is_later(before, j, n as int);
        }
        assert forall|j: int| 0 <= j < len && j != n && !is_under(before, j, n as int) implies (
        #[trigger] marked[j]) == before[j] by {}
        lemma_reset_keeps_order(before, marked, n as int);
    }
    while nodes.len() > n + 1 && !nodes[nodes.len() - 1].live
        invariant
            n < nodes.len() <= len,
            marked.len() == len,
            nodes@ == marked.subrange(0, nodes.len() as int),
            forall|j: int| nodes.len() <= j < len ==> !(#[trigger] marked[j]).live,
        decreases nodes.len(),
    {
        nodes.pop();
    }
    proof {
        let after = nodes@;
        assert forall|j: int| after.len() <= j < before.len() implies !(#[trigger] before[j]).live
            || is_under(before, j, n as int) by {
            if !is_under(before, j, n as int) {
                assert(marked[j] == before[j]);
            }
        }
        lemma_truncation_keeps_order(marked, after);
    }
}

/// Marking what lies below `n` as discarded, and resetting `n`, leaves the
/// tree in order.
proof fn lemma_reset_keeps_order(before: Seq<TreeNode>, marked: Seq<TreeNode>, n: int)
    requires
        well_formed(before),
        is_node(before, n),
        marked.len() == before.len(),
        forall|j: int|
            0 <= j < before.len() && j != n && !is_under(before, j, n) ==> #[trigger] marked[j]
                == before[j],
        forall|j: int|
            0 <= j < before.len() && is_under(before, j, n) ==> !(#[trigger] marked[j]).live,
        marked[n].entry == before[n].entry,
        marked[n].parent == before[n].parent,
        marked[n].live,
        marked[n].children@.len() == 0,
        !marked[n].materialized,
        !marked[n].expanded,
    ensures
        well_formed(marked),
{
    assert(!is_under(before, 0, n));
    assert forall|i: int| 0 <= i < marked.len() && #[trigger] marked[i].live implies node_ok(
        marked,
        i,
    ) by {
        assert(!is_under(before, i, n));
        assert(before[i].live);
        assert(node_ok(before, i));
        if let Some(p) = before[i].parent {
            if p != n {
                assert(!is_under(before, p as int, n));
                assert(marked[p as int] == before[p as int]);
            }
        }
        if i != n {
            assert(marked[i] == before[i]);
            assert forall|k: int| 0 <= k < marked[i].children@.len() implies {
                let c = #[trigger] marked[i].children@[k];
                &&& i < c < marked.len()
                &&& marked[c as int].live
                &&& marked[c as int].parent matches Some(q) && q == i
            } by {
                let c = before[i].children@[k];
                assert(before[c as int].parent matches Some(q) && q == i);
                assert(!is_under(before, c as int, n));
                if c != n {
                    assert(marked[c as int] == before[c as int]);
                }
            }
        }
    }
}

/// Dropping discarded nodes from the end of the arena leaves the tree in
/// order.
proof fn lemma_truncation_keeps_order(marked: Seq<TreeNode>, after: Seq<TreeNode>)
    requires
        well_formed(marked),
        0 < after.len() <= marked.len(),
        after == marked.subrange(0, after.len() as int),
        forall|j: int| after.len() <= j < marked.len() ==> !(#[trigger] marked[j]).live,
    ensures
        well_formed(after),
{
    assert forall|i: int| 0 <= i < after.len() && #[trigger] after[i].live implies node_ok(
        after,
        i,
    ) by {
        assert(marked[i].live);
        assert(node_ok(marked, i));
        assert forall|k: int| 0 <= k < after[i].children@.len() implies {
            let c = #[trigger] after[i].children@[k];
            &&& i < c < after.len()
            &&& after[c as int].live
            &&& after[c as int].parent matches Some(q) && q == i
        } by {
            let c = marked[i].children@[k];
            assert(marked[c as int].live);
        }
    }
}

/// Adds one node for each of `entries` as the children of `n`.
fn fill_in(nodes: &mut Vec<TreeNode>, n: usize, entries: &Vec<FileEntry>)
    requires
        well_formed(old(nodes)@),
        is_directory(old(nodes)@, n as int),
        !old(nodes)@[n as int].materialized,
    ensures
        well_formed(final(nodes)@),
        is_filled_from(old(nodes)@, final(nodes)@, n as int, entry_views(entries@)),
{
    let ghost before = nodes@;
    let base: usize = nodes.len();
    let mut kids: Vec<usize> = Vec::new();
    let mut k: usize = 0;
    while k < entries.len()
        invariant
            before == old(nodes)@,
            base == before.len(),
            n < base,
            k <= entries.len(),
            nodes.len() == base + k,
            forall|i: int| 0 <= i < base ==> #[trigger] nodes@[i] == before[i],
            kids@ == Seq::new(k as nat, |j: int| (base + j) as usize),
            forall|j: int|
                0 <= j < k ==> {
                    let c = #[trigger] nodes@[base + j];
                    &&& c.entry@ == entries@[j]@
                    &&& c.parent matches Some(q) && q == n
                    &&& c.children@.len() == 0
                    &&& !c.materialized
                    &&& !c.expanded
                    &&& c.live
                },
        decreases entries.len() - k,
    {
        let id: usize = nodes.len();
        let node = TreeNode {
            entry: entries[k].clone(),
            parent: Some(n),
            children: Vec::new(),
            materialized: false,
            expanded: false,
            live: true,
        };
        nodes.push(node);
        kids.push(id);
        assert(kids@ =~= Seq::new((k + 1) as nat, |j: int| (base + j) as usize));
        k = k + 1;
    }
    nodes[n].children = kids;
    nodes[n].materialized = true;
    nodes[n].expanded = true;
    proof {
        let after = nodes@;
        assert forall|i: int| 0 <= i < after.len() && #[trigger] after[i].live implies node_ok(
            after,
            i,
        ) by {
            if i < base && i != n {
                assert(node_ok(before, i));
                assert forall|j: int| 0 <= j < after[i].children@.len() implies {
                    let c = #[trigger] after[i].children@[j];
                    &&& i < c < after.len()
                    &&& after[c as int].live
                    &&& after[c as int].parent matches Some(q) && q == i
                } by {
                    let c = before[i].children@[j];
                    assert(before[c as int].live);
                }
            } else if i == n {
                assert(node_ok(before, i));
                assert forall|j: int| 0 <= j < after[i].children@.len() implies {
                    let c = #[trigger] after[i].children@[j];
                    &&& i < c < after.len()
                    &&& after[c as int].live
                    &&& after[c as int].parent matches Some(q) && q == i
                } by {
                    assert(after[base + j].live);
                }
            } else {
                assert(after[base + (i - base)].live);
            }
        }
        assert forall|j: int| 0 <= j < entries@.len() implies (#[trigger] after[before.len()
            + j]).entry@ == entry_views(entries@)[j] by {}
    }
}

/// How many nodes stand above `n`.
pub open spec fn depth_of(t: Seq<TreeNode>, n: int) -> nat
    decreases n,
{
    if 0 <= n < t.len() && t[n].parent is Some && t[n].parent->0 < n {
        1 + depth_of(t, t[n].parent->0 as int)
    } else {
        0
    }
}

/// The rows for the children of `n` from the `k`-th on: each child, followed
/// by the rows below it where it is expanded.
pub open spec fn rows_from(t: Seq<TreeNode>, n: int, k: int) -> Seq<usize>
    decreases t.len() - n, t[n].children@.len() - k,
{
    if !(0 <= n < t.len()) || k < 0 || k >= t[n].children@.len() {
        Seq::empty()
    } else {
        let c = t[n].children@[k];
        let below = if n < c < t.len() && t[c as int].expanded {
            rows_from(t, c as int, 0)
        } else {
            Seq::empty()
        };
        seq![c] + below + rows_from(t, n, k + 1)
    }
}

/// The nodes that the side bar shows, from top to bottom: what lies below
/// the root, as far as it is expanded. The root itself is not shown.
pub open spec fn visible_rows(t: Seq<TreeNode>) -> Seq<usize> {
    if t.len() > 0 && t[0].expanded {
        rows_from(t, 0, 0)
    } else {
        Seq::empty()
    }
}

/// Appends the rows below `n` to `out`.
fn rows_into(nodes: &Vec<TreeNode>, n: usize, out: &mut Vec<usize>)
    requires
        well_formed(nodes@),
        is_node(nodes@, n as int),
    ensures
        final(out)@ == old(out)@ + rows_from(nodes@, n as int, 0),
    decreases nodes.len() - n,
{
    let mut k: usize = 0;
    assert(node_ok(nodes@, n as int));
    while k < nodes[n].children.len()
        invariant
            well_formed(nodes@),
            is_node(nodes@, n as int),
            k <= nodes@[n as int].children@.len(),
            out@ + rows_from(nodes@, n as int, k as int) =~= old(out)@ + rows_from(
                nodes@,
                n as int,
                0,
            ),
        decreases nodes@[n as int].children@.len() - k,
    {
        assert(node_ok(nodes@, n as int));
        let c: usize = nodes[n].children[k];
        out.push(c);
        if nodes[c].expanded {
            rows_into(nodes, c, out);
        }
        k = k + 1;
    }
}

/// The entry of the root of a tree over the folder at `path`: a directory
/// named by the path's file name, or by the path itself where it has none.
pub open spec fn root_entry(path: Seq<char>) -> FileEntryView {
    FileEntryView {
        name: match file_name(path) {
            Some(name) => name,
            None => path,
        },
        absolute_path: path,
        kind: EntryKind::Directory,
        hidden: false,
    }
}

/// The tree holds the root of the folder at `path` and nothing else, and
/// the root is unmaterialised.
pub open spec fn is_fresh_root(t: Seq<TreeNode>, path: Seq<char>) -> bool {
    &&& t.len() == 1
    &&& t[0].entry@ == root_entry(path)
    &&& t[0].parent is None
    &&& t[0].children@.len() == 0
    &&& !t[0].materialized
    &&& !t[0].expanded
    &&& t[0].live
}

/// The label of a node's entry: its name, followed by `/` for a directory.
pub open spec fn label_of(entry: FileEntryView) -> Seq<char> {
    if entry.kind == EntryKind::Directory {
        entry.name + seq!['/']
    } else {
        entry.name
    }
}

/// One row of the side bar: a node, and what is shown of it.
#[derive(Debug, PartialEq, Eq)]
pub struct TreeRow {
    pub node: usize,
    /// The node's name, followed by `/` for a directory.
    pub label: String,
    /// How far the row is indented: 1 for the children of the root.
    pub depth: usize,
    pub kind: EntryKind,
    pub expanded: bool,
}

/// The mathematical value of a [`TreeRow`].
pub struct TreeRowView {
    pub node: usize,
    pub label: Seq<char>,
    pub depth: nat,
    pub kind: EntryKind,
    pub expanded: bool,
}

impl View for TreeRow {
    type V = TreeRowView;

    open spec fn view(&self) -> TreeRowView {
        TreeRowView {
            node: self.node,
            label: self.label@,
            depth: self.depth as nat,
            kind: self.kind,
            expanded: self.expanded,
        }
    }
}

/// The row that shows node `n`.
pub open spec fn row_of(t: Seq<TreeNode>, n: usize) -> TreeRowView {
    TreeRowView {
        node: n,
        label: label_of(t[n as int].entry@),
        depth: depth_of(t, n as int),
        kind: t[n as int].entry.kind,
        expanded: t[n as int].expanded,
    }
}

/// Every row stands for a node of the tree.
pub proof fn lemma_rows_are_nodes(t: Seq<TreeNode>, n: int, k: int)
    requires
        well_formed(t),
        is_node(t, n),
        0 <= k,
    ensures
        forall|i: int|
            0 <= i < rows_from(t, n, k).len() ==> is_node(
                t,
                (#[trigger] rows_from(t, n, k)[i]) as int,
            ),
    decreases t.len() - n, t[n].children@.len() - k,
{
    if k < t[n].children@.len() {
        assert(node_ok(t, n));
        let c = t[n].children@[k];
        let below = if n < c < t.len() && t[c as int].expanded {
            rows_from(t, c as int, 0)
        } else {
            Seq::empty()
        };
        if t[c as int].expanded {
            lemma_rows_are_nodes(t, c as int, 0);
        }
        lemma_rows_are_nodes(t, n, k + 1);
        let rest = rows_from(t, n, k + 1);
        assert(rows_from(t, n, k) == seq![c] + below + rest);
        assert forall|i: int| 0 <= i < rows_from(t, n, k).len() implies is_node(
            t,
            (#[trigger] rows_from(t, n, k)[i]) as int,
        ) by {
            if i == 0 {
            } else if i < 1 + below.len() {
                assert(rows_from(t, n, k)[i] == below[i - 1]);
            } else {
                assert(rows_from(t, n, k)[i] == rest[i - 1 - below.len()]);
            }
        }
    }
}

/// The lazily materialised tree over the open folder. Empty while no folder
/// is open.
#[derive(Debug)]
pub struct LazyTree {
    nodes: Vec<TreeNode>,
}

impl View for LazyTree {
    type V = Seq<TreeNode>;

    closed spec fn view(&self) -> Seq<TreeNode> {
        self.nodes@
    }
}

impl LazyTree {
    #[verifier::type_invariant]
    spec fn inv(self) -> bool {
        well_formed(self.nodes@)
    }

    /// The empty tree.
    pub fn new() -> (r: Self)
        ensures
            r@.len() == 0,
            well_formed(r@),
    {
        LazyTree { nodes: Vec::new() }
    }

    /// Discards the whole tree and starts a new one at the folder `path`.
    /// The new root is unmaterialised.
    pub fn set_root(&mut self, path: &str)
        ensures
            well_formed(final(self)@),
            is_fresh_root(final(self)@, path@),
    {
        let name = match path_file_name(path) {
            Some(name) => name,
            None => path.to_owned(),
        };
        let root = TreeNode {
            entry: FileEntry {
                name,
                absolute_path: path.to_owned(),
                kind: EntryKind::Directory,
                hidden: false,
            },
            parent: None,
            children: Vec::new(),
            materialized: false,
            expanded: false,
            live: true,
        };
        let mut nodes: Vec<TreeNode> = Vec::new();
        nodes.push(root);
        assert(node_ok(nodes@, 0));
        core::mem::swap(&mut self.nodes, &mut nodes);
    }

    /// Discards the whole tree.
    pub fn clear(&mut self)
        ensures
            final(self)@.len() == 0,
            well_formed(final(self)@),
    {
        let mut nodes: Vec<TreeNode> = Vec::new();
        core::mem::swap(&mut self.nodes, &mut nodes);
    }

    /// The root, unless the tree is empty.
    pub fn root(&self) -> (r: Option<usize>)
        ensures
            well_formed(self@),
            r == if self@.len() > 0 {
                Some(0usize)
            } else {
                None
            },
            r matches Some(n) ==> is_node(self@, n as int),
    {
        proof {
            use_type_invariant(self);
        }
        if self.nodes.len() > 0 {
            Some(0)
        } else {
            None
        }
    }

    /// Whether `n` names a node of the tree.
    pub fn contains(&self, n: usize) -> (r: bool)
        ensures
            well_formed(self@),
            r == is_node(self@, n as int),
    {
        proof {
            use_type_invariant(self);
        }
        n < self.nodes.len() && self.nodes[n].live
    }

    /// The parent of `n`. `None` for the root and where `n` names no node.
    pub fn parent(&self, n: usize) -> (r: Option<usize>)
        ensures
            well_formed(self@),
            r == if is_node(self@, n as int) {
                self@[n as int].parent
            } else {
                None
            },
            r matches Some(p) ==> is_node(self@, p as int) && p < n,
    {
        proof {
            use_type_invariant(self);
        }
        if n < self.nodes.len() && self.nodes[n].live {
            assert(node_ok(self.nodes@, n as int));
            self.nodes[n].parent
        } else {
            None
        }
    }

    /// The entry of `n`. `None` where `n` names no node.
    pub fn entry(&self, n: usize) -> (r: Option<FileEntry>)
        ensures
            r is Some <==> is_node(self@, n as int),
            r matches Some(e) ==> e@ == self@[n as int].entry@,
    {
        if n < self.nodes.len() && self.nodes[n].live {
            Some(self.nodes[n].entry.clone())
        } else {
            None
        }
    }

    /// The label of `n`: its name, followed by `/` for a directory. `None`
    /// where `n` names no node.
    pub fn label(&self, n: usize) -> (r: Option<String>)
        ensures
            r is Some <==> is_node(self@, n as int),
            r matches Some(text) ==> text@ == label_of(self@[n as int].entry@),
    {
        if n < self.nodes.len() && self.nodes[n].live {
            let mut text = self.nodes[n].entry.name.clone();
            match self.nodes[n].entry.kind {
                EntryKind::Directory => {
                    proof {
                        reveal_strlit("/");
                    }
                    text.append("/");
                    assert(text@ =~= label_of(self@[n as int].entry@));
                },
                _ => {},
            }
            Some(text)
        } else {
            None
        }
    }

    /// The children of `n`, in the order in which they are shown. Empty
    /// where `n` names no node.
    pub fn children(&self, n: usize) -> (r: Vec<usize>)
        ensures
            r@ == if is_node(self@, n as int) {
                self@[n as int].children@
            } else {
                Seq::empty()
            },
    {
        if n < self.nodes.len() && self.nodes[n].live {
            self.nodes[n].children.clone()
        } else {
            Vec::new()
        }
    }

    /// Whether `n` is a node whose children are shown.
    pub fn is_expanded(&self, n: usize) -> (r: bool)
        ensures
            r == (is_node(self@, n as int) && self@[n as int].expanded),
    {
        n < self.nodes.len() && self.nodes[n].live && self.nodes[n].expanded
    }

    /// Whether `n` is a node whose children have been read.
    pub fn is_materialized(&self, n: usize) -> (r: bool)
        ensures
            r == (is_node(self@, n as int) && self@[n as int].materialized),
    {
        n < self.nodes.len() && self.nodes[n].live && self.nodes[n].materialized
    }

    /// How many nodes stand above `n`: 0 for the root, 1 for its children.
    /// `None` where `n` names no node.
    pub fn depth(&self, n: usize) -> (r: Option<usize>)
        ensures
            r is Some <==> is_node(self@, n as int),
            r matches Some(d) ==> d == depth_of(self@, n as int),
    {
        proof {
            use_type_invariant(self);
        }
        if n >= self.nodes.len() || !self.nodes[n].live {
            return None;
        }
        let mut d: usize = 0;
        let mut at: usize = n;
        loop
            invariant
                well_formed(self.nodes@),
                is_node(self.nodes@, at as int),
                is_node(self.nodes@, n as int),
                at <= n,
                d + at <= n,
                depth_of(self.nodes@, n as int) == d + depth_of(self.nodes@, at as int),
            decreases at,
        {
            assert(node_ok(self.nodes@, at as int));
            match self.nodes[at].parent {
                Some(p) => {
                    d = d + 1;
                    at = p;
                },
                None => {
                    return Some(d);
                },
            }
        }
    }

    /// The nodes that the side bar shows, from top to bottom.
    pub fn visible_rows(&self) -> (r: Vec<usize>)
        ensures
            r@ == visible_rows(self@),
    {
        proof {
            use_type_invariant(self);
        }
        let mut rows: Vec<usize> = Vec::new();
        if self.nodes.len() > 0 && self.nodes[0].expanded {
            rows_into(&self.nodes, 0, &mut rows);
        }
        assert(rows@ =~= visible_rows(self@));
        rows
    }

    /// The rows that the side bar shows, from top to bottom, each with its
    /// label, indentation, kind and whether it is expanded.
    pub fn rows(&self) -> (r: Vec<TreeRow>)
        ensures
            r@.len() == visible_rows(self@).len(),
            forall|i: int|
                0 <= i < r@.len() ==> (#[trigger] r@[i])@ == row_of(self@, visible_rows(self@)[i]),
    {
        proof {
            use_type_invariant(self);
            if self.nodes@.len() > 0 {
                lemma_rows_are_nodes(self.nodes@, 0, 0);
            }
        }
        let ids = self.visible_rows();
        let mut rows: Vec<TreeRow> = Vec::new();
        let mut i: usize = 0;
        while i < ids.len()
            invariant
                i <= ids.len(),
                ids@ == visible_rows(self.nodes@),
                well_formed(self.nodes@),
                forall|j: int|
                    0 <= j < ids@.len() ==> is_node(self.nodes@, (#[trigger] ids@[j]) as int),
                rows@.len() == i,
                forall|j: int|
                    0 <= j < i ==> (#[trigger] rows@[j])@ == row_of(self.nodes@, ids@[j]),
            decreases ids.len() - i,
        {
            let node: usize = ids[i];
            let label = self.label(node);
            let depth = self.depth(node);
            let row = TreeRow {
                node,
                label: label.unwrap(),
                depth: depth.unwrap(),
                kind: self.nodes[node].entry.kind,
                expanded: self.nodes[node].expanded,
            };
            rows.push(row);
            i = i + 1;
        }
        rows
    }

    /// Asks to show the children of `n`. Where `n` is a directory whose
    /// children were not read yet, nothing changes and the result is the
    /// path to read; hand what was read to [`LazyTree::materialize`]. Where
    /// the children are there already, `n` is expanded at once. In any other
    /// case nothing happens.
    pub fn expand(&mut self, n: usize) -> (r: Option<String>)
        ensures
            well_formed(final(self)@),
            r is Some <==> is_directory(old(self)@, n as int) && !old(self)@[n as int].materialized,
            r matches Some(p) ==> p@ == old(self)@[n as int].entry.absolute_path@,
            final(self)@ == if is_node(old(self)@, n as int) && old(self)@[n as int].materialized {
                old(self)@.update(n as int, (TreeNode { expanded: true, ..old(self)@[n as int] }))
            } else {
                old(self)@
            },
    {
        proof {
            use_type_invariant(&*self);
        }
        if n >= self.nodes.len() || !self.nodes[n].live {
            return None;
        }
        if self.nodes[n].materialized {
            let ghost before = self.nodes@;
            let mut nodes: Vec<TreeNode> = Vec::new();
            core::mem::swap(&mut self.nodes, &mut nodes);
            nodes[n].expanded = true;
            proof {
                lemma_flag_keeps_order(before, nodes@, n as int);
                assert(nodes@ =~= before.update(
                    n as int,
                    (TreeNode { expanded: true, ..before[n as int] }),
                ));
            }
            core::mem::swap(&mut self.nodes, &mut nodes);
            return None;
        }
        match self.nodes[n].entry.kind {
            EntryKind::Directory => Some(self.nodes[n].entry.absolute_path.clone()),
            _ => None,
        }
    }

    /// Hides the children of `n`. They stay in the tree, so that expanding
    /// `n` again reads nothing.
    pub fn collapse(&mut self, n: usize)
        ensures
            well_formed(final(self)@),
            final(self)@ == if is_node(old(self)@, n as int) {
                old(self)@.update(n as int, (TreeNode { expanded: false, ..old(self)@[n as int] }))
            } else {
                old(self)@
            },
    {
        proof {
            use_type_invariant(&*self);
        }
        if n < self.nodes.len() && self.nodes[n].live {
            let ghost before = self.nodes@;
            let mut nodes: Vec<TreeNode> = Vec::new();
            core::mem::swap(&mut self.nodes, &mut nodes);
            nodes[n].expanded = false;
            proof {
                lemma_flag_keeps_order(before, nodes@, n as int);
                assert(nodes@ =~= before.update(
                    n as int,
                    (TreeNode { expanded: false, ..before[n as int] }),
                ));
            }
            core::mem::swap(&mut self.nodes, &mut nodes);
        }
    }

    /// The path and kind that a selection of `n` resolves to. `None` where
    /// `n` names no node.
    pub fn select(&self, n: usize) -> (r: Option<(String, EntryKind)>)
        ensures
            r is Some <==> is_node(self@, n as int),
            r matches Some(found) ==> found.0@ == self@[n as int].entry.absolute_path@ && found.1
                == self@[n as int].entry.kind,
    {
        if n < self.nodes.len() && self.nodes[n].live {
            Some((self.nodes[n].entry.absolute_path.clone(), self.nodes[n].entry.kind))
        } else {
            None
        }
    }

    /// Sets the children of the unmaterialised directory `n` to one new
    /// node for each of `entries`, in their order, and expands `n`. The
    /// result says whether that was done: where `n` is no directory of the
    /// tree, or has its children already, nothing changes.
    pub fn materialize(&mut self, n: usize, entries: &Vec<FileEntry>) -> (r: bool)
        ensures
            well_formed(final(self)@),
            r == (is_directory(old(self)@, n as int) && !old(self)@[n as int].materialized),
            r ==> is_filled_from(old(self)@, final(self)@, n as int, entry_views(entries@)),
            !r ==> final(self)@ == old(self)@,
    {
        proof {
            use_type_invariant(&*self);
        }
        if n >= self.nodes.len() || !self.nodes[n].live || self.nodes[n].materialized {
            return false;
        }
        match self.nodes[n].entry.kind {
            EntryKind::Directory => {},
            _ => {
                return false;
            },
        }
        let mut nodes: Vec<TreeNode> = Vec::new();
        core::mem::swap(&mut self.nodes, &mut nodes);
        fill_in(&mut nodes, n, entries);
        core::mem::swap(&mut self.nodes, &mut nodes);
        true
    }

    /// Forgets what was read below the directory `n`: everything below it
    /// is discarded and `n` is unmaterialised and collapsed again. Where `n`
    /// was expanded the result is the path to read anew; hand what was read
    /// to [`LazyTree::materialize`]. Where `n` is no directory of the tree
    /// nothing changes.
    pub fn refresh(&mut self, n: usize) -> (r: Option<String>)
        ensures
            well_formed(final(self)@),
            is_directory(old(self)@, n as int) ==> is_reset_of(
                old(self)@,
                final(self)@,
                n as int,
            ),
            !is_directory(old(self)@, n as int) ==> final(self)@ == old(self)@,
            r is Some <==> is_directory(old(self)@, n as int) && old(self)@[n as int].expanded,
            r matches Some(p) ==> p@ == old(self)@[n as int].entry.absolute_path@,
    {
        proof {
            use_type_invariant(&*self);
        }
        if n >= self.nodes.len() || !self.nodes[n].live {
            return None;
        }
        match self.nodes[n].entry.kind {
            EntryKind::Directory => {},
            _ => {
                return None;
            },
        }
        let r = if self.nodes[n].expanded {
            Some(self.nodes[n].entry.absolute_path.clone())
        } else {
            None
        };
        let mut nodes: Vec<TreeNode> = Vec::new();
        core::mem::swap(&mut self.nodes, &mut nodes);
        reset_in(&mut nodes, n);
        core::mem::swap(&mut self.nodes, &mut nodes);
        r
    }
}

/// Only a directory has children.
pub proof fn law_only_directories_have_children(t: Seq<TreeNode>, n: int)
    requires
        well_formed(t),
        is_node(t, n),
        t[n].children@.len() > 0,
    ensures
        is_directory(t, n),
        t[n].materialized,
{
    assert(node_ok(t, n));
}

/// Every node but the root lies below the root.
pub proof fn law_every_node_is_under_the_root(t: Seq<TreeNode>, n: int)
    requires
        well_formed(t),
        is_node(t, n),
        n != 0,
    ensures
        is_under(t, n, 0),
    decreases n,
{
    assert(node_ok(t, n));
    let p = t[n].parent->0;
    if p != 0 {
        law_every_node_is_under_the_root(t, p as int);
    }
}

/// Once the root was reset it stands alone: nothing is left of the old
/// tree, in the arena either.
pub proof fn law_reset_of_the_root_leaves_it_alone(before: Seq<TreeNode>, after: Seq<TreeNode>)
    requires
        well_formed(before),
        is_reset_of(before, after, 0),
    ensures
        after.len() == 1,
{
    if after.len() > 1 {
        let last = after.len() - 1;
        if is_under(before, last, 0) {
            assert(!after[last].live);
        } else {
            assert(after[last] == before[last]);
            law_every_node_is_under_the_root(before, last);
        }
    }
}

/// The children of a node that was materialised are the entries that it was
/// given, in their order.
pub proof fn lemma_filled_children(
    before: Seq<TreeNode>,
    after: Seq<TreeNode>,
    n: int,
    entries: Seq<FileEntryView>,
)
    requires
        is_filled_from(before, after, n, entries),
    ensures
        child_entries(after, n) == entries,
{
    assert forall|k: int| 0 <= k < entries.len() implies child_entries(after, n)[k]
        == entries[k] by {
        assert(after[n].children@[k] == before.len() + k);
        assert(after[before.len() + k].entry@ == entries[k]);
    }
    assert(child_entries(after, n) =~= entries);
}

/// A refresh that reads the same listing as the refresh before it shows
/// the same children in the same order: refreshing is idempotent.
pub proof fn law_refresh_is_idempotent(
    t0: Seq<TreeNode>,
    t1: Seq<TreeNode>,
    t2: Seq<TreeNode>,
    t3: Seq<TreeNode>,
    t4: Seq<TreeNode>,
    n: int,
    listing: Seq<FileEntryView>,
)
    requires
        is_reset_of(t0, t1, n),
        is_filled_from(t1, t2, n, listing),
        is_reset_of(t2, t3, n),
        is_filled_from(t3, t4, n, listing),
    ensures
        child_entries(t4, n) == child_entries(t2, n),
{
    lemma_filled_children(t1, t2, n, listing);
    lemma_filled_children(t3, t4, n, listing);
}

/// After a refresh, a name that the listing does not hold is not among the
/// children, whatever was there before.
pub proof fn law_refresh_forgets_absent_names(
    t0: Seq<TreeNode>,
    t1: Seq<TreeNode>,
    t2: Seq<TreeNode>,
    n: int,
    listing: Seq<FileEntryView>,
    name: Seq<char>,
)
    requires
        is_reset_of(t0, t1, n),
        is_filled_from(t1, t2, n, listing),
        forall|j: int| 0 <= j < listing.len() ==> (#[trigger] listing[j]).name != name,
    ensures
        forall|k: int|
            0 <= k < child_entries(t2, n).len() ==> (#[trigger] child_entries(t2, n)[k]).name
                != name,
{
    lemma_filled_children(t1, t2, n, listing);
}

/// Changing whether a node is expanded leaves the tree in order, as long as
/// only a materialised node is expanded.
proof fn lemma_flag_keeps_order(before: Seq<TreeNode>, after: Seq<TreeNode>, n: int)
    requires
        well_formed(before),
        is_node(before, n),
        after.len() == before.len(),
        forall|i: int| 0 <= i < before.len() && i != n ==> #[trigger] after[i] == before[i],
        after[n].entry == before[n].entry,
        after[n].parent == before[n].parent,
        after[n].children == before[n].children,
        after[n].materialized == before[n].materialized,
        after[n].live,
        after[n].expanded ==> after[n].materialized,
    ensures
        well_formed(after),
{
    assert forall|i: int| 0 <= i < after.len() && #[trigger] after[i].live implies node_ok(
        after,
        i,
    ) by {
        assert(before[i].live);
        assert(node_ok(before, i));
        assert forall|j: int| 0 <= j < after[i].children@.len() implies {
            let c = #[trigger] after[i].children@[j];
            &&& i < c < after.len()
            &&& after[c as int].live
            &&& after[c as int].parent matches Some(q) && q == i
        } by {
            let c = before[i].children@[j];
            assert(before[c as int].live);
        }
    }
}

} // verus!
