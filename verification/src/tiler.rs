//! A layout tree: branches that hold nodes, and nodes that hold leaves.
//!
//! The nodes of a tree live in one arena and name each other by index. A
//! child is always stored behind its parent, so a walk from any node down
//! comes to an end, and a walk up ends at the root, which is node 0.

use vstd::prelude::*;
use vstd::string::StringExecFns;
use crate::text::{decimal, push_char, push_decimal, push_signed_decimal, signed_decimal};

verus! {

/// What can stand in a tree: a value with a text.
pub trait Label {
    /// The text of the value.
    spec fn text(&self) -> Seq<char>;

    /// Appends the text of the value.
    fn write(&self, out: &mut String)
        ensures
            final(out)@ == old(out)@ + self.text(),
    ;
}

impl Label for char {
    open spec fn text(&self) -> Seq<char> {
        seq![*self]
    }

    fn write(&self, out: &mut String) {
        push_char(out, *self);
        proof {
            assert(out@ =~= old(out)@ + seq![*self]);
        }
    }
}

impl Label for i32 {
    open spec fn text(&self) -> Seq<char> {
        signed_decimal(*self as int)
    }

    fn write(&self, out: &mut String) {
        push_signed_decimal(out, *self as i64);
    }
}

impl Label for u32 {
    open spec fn text(&self) -> Seq<char> {
        decimal(*self as nat)
    }

    fn write(&self, out: &mut String) {
        push_decimal(out, *self as u64);
    }
}

impl Label for usize {
    open spec fn text(&self) -> Seq<char> {
        decimal(*self as nat)
    }

    fn write(&self, out: &mut String) {
        push_decimal(out, *self as u64);
    }
}

/// A leaf of the tree.
#[derive(Debug)]
pub struct Leaf<T>(pub T);

impl<T> Leaf<T> {
    pub fn new(inner: T) -> (leaf: Leaf<T>)
        ensures
            leaf.0 == inner,
    {
        Leaf(inner)
    }
}

/// Where a node hangs.
#[derive(Debug, Clone, Copy, PartialEq, Eq)]
pub enum NodeParent {
    /// The node is a root; the index is its own.
    Root(usize),
    /// The node is a child of the node with this index.
    Node(usize),
}

impl NodeParent {
    /// The index of the node itself, if it is a root.
    pub fn as_root(&self) -> (own: Option<usize>)
        ensures
            own == match *self {
                NodeParent::Root(n) => Some(n),
                NodeParent::Node(_) => None,
            },
    {
        match self {
            NodeParent::Root(n) => Some(*n),
            NodeParent::Node(_) => None,
        }
    }

    /// The index of the parent, if the node has one.
    pub fn as_node(&self) -> (parent: Option<usize>)
        ensures
            parent == match *self {
                NodeParent::Node(n) => Some(n),
                NodeParent::Root(_) => None,
            },
    {
        match self {
            NodeParent::Node(n) => Some(*n),
            NodeParent::Root(_) => None,
        }
    }
}

/// What a node holds: other nodes, by their indices, or leaves.
#[derive(Debug)]
pub enum NodeChildren<L> {
    Branch(Vec<usize>),
    Leaves(Vec<Leaf<L>>),
}

impl<L> NodeChildren<L> {
    /// The indices of the child nodes, if the node is a branch.
    pub fn as_branch(&self) -> (children: Option<&Vec<usize>>)
        ensures
            match *self {
                NodeChildren::Branch(nodes) => children == Some(&nodes),
                NodeChildren::Leaves(_) => children is None,
            },
    {
        match self {
            NodeChildren::Branch(children) => Some(children),
            NodeChildren::Leaves(_) => None,
        }
    }

    /// The leaves, if the node holds leaves.
    pub fn as_leaves(&self) -> (children: Option<&Vec<Leaf<L>>>)
        ensures
            match *self {
                NodeChildren::Leaves(leaves) => children == Some(&leaves),
                NodeChildren::Branch(_) => children is None,
            },
    {
        match self {
            NodeChildren::Leaves(children) => Some(children),
            NodeChildren::Branch(_) => None,
        }
    }
}

/// A node of the tree.
#[derive(Debug)]
pub struct Node<B, L> {
    pub inner: Option<B>,
    pub parent: NodeParent,
    pub children: NodeChildren<L>,
}

impl<B, L> Node<B, L> {
    /// A node without a parent that holds no leaves yet.
    pub fn leaves(inner: Option<B>) -> (node: Node<B, L>)
        ensures
            node.inner == inner,
            node.parent == NodeParent::Root(0),
            node.children matches NodeChildren::Leaves(held) && held@.len() == 0,
    {
        Node { inner, parent: NodeParent::Root(0), children: NodeChildren::Leaves(Vec::new()) }
    }

    /// A node without a parent that holds the given leaves.
    pub fn leaves_of(inner: Option<B>, leaves: Vec<Leaf<L>>) -> (node: Node<B, L>)
        ensures
            node.inner == inner,
            node.parent == NodeParent::Root(0),
            node.children == NodeChildren::Leaves(leaves),
    {
        Node { inner, parent: NodeParent::Root(0), children: NodeChildren::Leaves(leaves) }
    }

    /// A node without a parent that holds no nodes yet.
    pub fn branch(inner: Option<B>) -> (node: Node<B, L>)
        ensures
            node.inner == inner,
            node.parent == NodeParent::Root(0),
            node.children matches NodeChildren::Branch(held) && held@.len() == 0,
    {
        Node { inner, parent: NodeParent::Root(0), children: NodeChildren::Branch(Vec::new()) }
    }

    pub fn is_root(&self) -> (root: bool)
        ensures
            root == (self.parent is Root),
    {
        matches!(self.parent, NodeParent::Root(_))
    }

    /// The indices of the nodes that a node holds; none for a node with leaves.
    pub open spec fn child_nodes(self) -> Seq<usize> {
        match self.children {
            NodeChildren::Branch(nodes) => nodes@,
            NodeChildren::Leaves(_) => Seq::empty(),
        }
    }
}

/// Whether `child` is among the nodes that node `parent` holds.
pub open spec fn holds<B, L>(nodes: Seq<Node<B, L>>, parent: int, child: int) -> bool {
    exists|k: int|
        0 <= k < nodes[parent].child_nodes().len() && #[trigger] nodes[parent].child_nodes()[k]
            == child
}

/// The shape of a tree in an arena: node 0 is the root; every other node
/// has a parent in front of it which holds it; a branch holds each of its
/// nodes once, and each of them names the branch as its parent.
pub open spec fn is_tree<B, L>(nodes: Seq<Node<B, L>>) -> bool {
    &&& nodes.len() >= 1
    &&& nodes[0].parent == NodeParent::Root(0)
    &&& forall|i: int|
        0 < i < nodes.len() ==> match (#[trigger] nodes[i]).parent {
            NodeParent::Node(p) => p < i && holds(nodes, p as int, i),
            NodeParent::Root(_) => false,
        }
    &&& forall|i: int, k: int|
        0 <= i < nodes.len() && 0 <= k < nodes[i].child_nodes().len() ==> {
            let child = #[trigger] nodes[i].child_nodes()[k];
            i < child < nodes.len() && nodes[child as int].parent == NodeParent::Node(i as usize)
        }
    &&& forall|i: int| 0 <= i < nodes.len() ==> (#[trigger] nodes[i]).child_nodes().no_duplicates()
}

/// The stroke that stands below an ancestor: blank below a last child, a
/// bar below any other.
pub open spec fn guide(last: bool) -> Seq<char> {
    if last {
        "   "@
    } else {
        " │ "@
    }
}

/// The stroke that ties a line to its parent: a corner for the last child,
/// a tee for any other.
pub open spec fn joint(last: bool) -> Seq<char> {
    if last {
        " └─"@
    } else {
        " ├─"@
    }
}

/// The strokes in front of what hangs below a node. `lasts` says of the
/// node and of each of its ancestors, top down, whether it is the last
/// child of its parent.
pub open spec fn guides(lasts: Seq<bool>) -> Seq<char>
    decreases lasts.len(),
{
    if lasts.len() == 0 {
        Seq::empty()
    } else {
        guides(lasts.drop_last()) + guide(lasts.last())
    }
}

/// The strokes in front of the line of a node itself.
pub open spec fn lead(lasts: Seq<bool>) -> Seq<char> {
    if lasts.len() == 0 {
        Seq::empty()
    } else {
        guides(lasts.drop_last()) + joint(lasts.last())
    }
}

/// The line of a node without the strokes: its kind and, in brackets, what
/// it carries.
pub open spec fn heading<B: Label, L>(node: Node<B, L>) -> Seq<char> {
    let kind = match node.children {
        NodeChildren::Branch(_) => "Branch"@,
        NodeChildren::Leaves(_) => "Leaves"@,
    };
    match node.inner {
        Some(inner) => kind + "("@ + inner.text() + ")"@ + "\n"@,
        None => kind + "\n"@,
    }
}

/// The line of a leaf.
pub open spec fn leaf_line<L: Label>(leaf: Leaf<L>, below: Seq<char>, last: bool) -> Seq<char> {
    below + joint(last) + "Leaf("@ + leaf.0.text() + ")"@ + "\n"@
}

/// The lines of the first `upto` leaves of a node.
pub open spec fn leaf_lines<L: Label>(leaves: Seq<Leaf<L>>, below: Seq<char>, upto: int) -> Seq<char>
    decreases upto,
{
    if upto <= 0 {
        Seq::empty()
    } else {
        leaf_lines(leaves, below, upto - 1) + leaf_line(
            leaves[upto - 1],
            below,
            upto == leaves.len(),
        )
    }
}

/// The lines of node `at` and of all that hangs below it.
pub open spec fn node_lines<B: Label, L: Label>(nodes: Seq<Node<B, L>>, at: int, lasts: Seq<bool>) -> Seq<
    char,
>
    decreases nodes.len() - at, 1int, 0int,
{
    lead(lasts) + heading(nodes[at]) + match nodes[at].children {
        NodeChildren::Branch(held) => child_lines(nodes, at, lasts, held@.len() as int),
        NodeChildren::Leaves(leaves) => leaf_lines(leaves@, guides(lasts), leaves@.len() as int),
    }
}

/// The lines of the first `upto` nodes that node `at` holds.
pub open spec fn child_lines<B: Label, L: Label>(
    nodes: Seq<Node<B, L>>,
    at: int,
    lasts: Seq<bool>,
    upto: int,
) -> Seq<char>
    decreases nodes.len() - at, 0int, upto,
{
    if upto <= 0 {
        Seq::empty()
    } else {
        let held = nodes[at].child_nodes();
        let child = held[upto - 1] as int;
        child_lines(nodes, at, lasts, upto - 1) + if at < child < nodes.len() {
            node_lines(nodes, child, lasts.push(upto == held.len()))
        } else {
            Seq::empty()
        }
    }
}

/// The picture of node `at` and what hangs below it, under a title line if
/// one is given.
pub open spec fn picture<B: Label, L: Label>(
    nodes: Seq<Node<B, L>>,
    at: int,
    title: Option<Seq<char>>,
) -> Seq<char> {
    match title {
        Some(line) => line + "\n"@ + node_lines(nodes, at, seq![true]),
        None => node_lines(nodes, at, Seq::empty()),
    }
}

/// A node as it enters a tree: below `parent`, holding its leaves but no
/// nodes.
pub open spec fn attached<B, L>(node: Node<B, L>, parent: usize, held: NodeChildren<L>) -> Node<B, L> {
    Node { inner: node.inner, parent: NodeParent::Node(parent), children: held }
}

/// Whether appending `node` below node `at` turns `before` into `after`.
///
/// A branch gets the node as its last child. A node that holds leaves
/// becomes a branch without a label of its own: what it carried and its
/// leaves move into a new first child, and the appended node is the second.
/// In both cases the appended node is the last node of the arena, and
/// nothing else changes.
pub open spec fn appended<B, L>(
    before: Seq<Node<B, L>>,
    after: Seq<Node<B, L>>,
    at: int,
    node: Node<B, L>,
) -> bool {
    let old = before[at];
    let new = after[at];
    let n = before.len();
    &&& forall|i: int| 0 <= i < n && i != at ==> after[i] == before[i]
    &&& new.parent == old.parent
    &&& after.last().inner == node.inner
    &&& after.last().parent == NodeParent::Node(at as usize)
    &&& after.last().child_nodes().len() == 0
    &&& (node.children matches NodeChildren::Leaves(leaves) ==> after.last().children
        == node.children)
    &&& (node.children is Branch ==> after.last().children is Branch)
    &&& match old.children {
        NodeChildren::Branch(held) => {
            &&& after.len() == n + 1
            &&& new.inner == old.inner
            &&& new.children is Branch
            &&& new.child_nodes() == held@.push(n as usize)
        },
        NodeChildren::Leaves(leaves) => {
            &&& after.len() == n + 2
            &&& new.inner is None
            &&& new.children is Branch
            &&& new.child_nodes() == seq![n as usize, (n + 1) as usize]
            &&& after[n as int] == attached(old, at as usize, old.children)
        },
    }
}

/// Appending a node keeps the shape of a tree.
pub proof fn lemma_appended_is_tree<B, L>(
    before: Seq<Node<B, L>>,
    after: Seq<Node<B, L>>,
    at: int,
    node: Node<B, L>,
)
    requires
        is_tree(before),
        0 <= at < before.len(),
        before.len() < usize::MAX - 1,
        appended(before, after, at, node),
    ensures
        is_tree(after),
{
    let n = before.len() as int;
    let old = before[at];
    let new = after[at];
    assert(after.last() == after[after.len() - 1]);
    // what a node held before it holds afterwards, at the same place
    assert forall|i: int, k: int| 0 <= i < n && 0 <= k < before[i].child_nodes().len() implies k
        < after[i].child_nodes().len() && after[i].child_nodes()[k] == before[i].child_nodes()[k] by {
        if i == at {
            match old.children {
                NodeChildren::Branch(held) => {},
                NodeChildren::Leaves(leaves) => {},
            }
        }
    }
    assert forall|i: int| 0 < i < after.len() implies match (#[trigger] after[i]).parent {
        NodeParent::Node(p) => p < i && holds(after, p as int, i),
        NodeParent::Root(_) => false,
    } by {
        if i < n {
            assert(after[i].parent == before[i].parent);
            let p = before[i].parent->Node_0 as int;
            let k = choose|k: int|
                0 <= k < before[p].child_nodes().len() && #[trigger] before[p].child_nodes()[k]
                    == i;
            assert(after[p].child_nodes()[k] == i);
        } else if old.children is Branch {
            let k = old.child_nodes().len() as int;
            assert(new.child_nodes()[k] == i);
        } else if i == n {
            assert(new.child_nodes()[0] == i);
        } else {
            assert(new.child_nodes()[1] == i);
        }
    }
    assert forall|i: int, k: int|
        0 <= i < after.len() && 0 <= k < after[i].child_nodes().len() implies {
        let child = #[trigger] after[i].child_nodes()[k];
        i < child < after.len() && after[child as int].parent == NodeParent::Node(i as usize)
    } by {
        let child = after[i].child_nodes()[k];
        if i < n && i != at {
            assert(before[i].child_nodes()[k] == child);
        } else if i == at {
            match old.children {
                NodeChildren::Branch(held) => {
                    if k < held@.len() {
                        assert(before[i].child_nodes()[k] == child);
                    }
                },
                NodeChildren::Leaves(leaves) => {},
            }
        }
    }
    assert forall|i: int| 0 <= i < after.len() implies (#[trigger] after[i]).child_nodes().no_duplicates() by {
        if i == at {
            match old.children {
                NodeChildren::Branch(held) => {
                    assert(before[at].child_nodes().no_duplicates());
                    assert forall|a: int, b: int|
                        0 <= a < new.child_nodes().len() && 0 <= b < new.child_nodes().len() && a
                            != b implies new.child_nodes()[a] != new.child_nodes()[b] by {
                        if a < held@.len() {
                            assert(before[at].child_nodes()[a] < n);
                        }
                        if b < held@.len() {
                            assert(before[at].child_nodes()[b] < n);
                        }
                    }
                },
                NodeChildren::Leaves(leaves) => {},
            }
        } else if i < n {
            assert(before[i].child_nodes().no_duplicates());
        }
    }
}

/// A tree.
pub struct Tree<B, L> {
    nodes: Vec<Node<B, L>>,
}

impl<B, L> View for Tree<B, L> {
    type V = Seq<Node<B, L>>;

    closed spec fn view(&self) -> Seq<Node<B, L>> {
        self.nodes@
    }
}

impl<B, L> Tree<B, L> {
    /// The invariant of a tree. Every operation keeps it.
    pub open spec fn well_formed(&self) -> bool {
        is_tree(self@)
    }

    /// A tree whose root holds no leaves yet and carries nothing.
    pub fn new() -> (tree: Tree<B, L>)
        ensures
            tree.well_formed(),
            tree@.len() == 1,
            tree@[0].inner is None,
            tree@[0].children matches NodeChildren::Leaves(held) && held@.len() == 0,
    {
        let mut nodes: Vec<Node<B, L>> = Vec::new();
        nodes.push(Node::leaves(None));
        Tree { nodes }
    }

    /// A tree with the given root. Nodes that the root claims to hold
    /// are not taken over.
    pub fn with_root(root: Node<B, L>) -> (tree: Tree<B, L>)
        ensures
            tree.well_formed(),
            tree@.len() == 1,
            tree@[0].inner == root.inner,
            tree@[0].child_nodes().len() == 0,
            root.children is Leaves ==> tree@[0].children == root.children,
            root.children is Branch ==> tree@[0].children is Branch,
    {
        let children = match root.children {
            NodeChildren::Branch(_) => NodeChildren::Branch(Vec::new()),
            NodeChildren::Leaves(leaves) => NodeChildren::Leaves(leaves),
        };
        let mut nodes: Vec<Node<B, L>> = Vec::new();
        nodes.push(Node { inner: root.inner, parent: NodeParent::Root(0), children });
        Tree { nodes }
    }

    /// How many nodes the tree has.
    pub fn len(&self) -> (n: usize)
        ensures
            n == self@.len(),
    {
        self.nodes.len()
    }

    /// The node with index `at`.
    pub fn node(&self, at: usize) -> (node: Option<&Node<B, L>>)
        ensures
            match node {
                Some(found) => at < self@.len() && *found == self@[at as int],
                None => at >= self@.len(),
            },
    {
        if at < self.nodes.len() {
            Some(&self.nodes[at])
        } else {
            None
        }
    }
}

impl<B, L> Node<B, L> {
    /// Appends `node` below node `at` of the tree and returns its index:
    /// see [`appended`]. Nodes that `node` claims to hold are not taken over.
    /// Without a node `at`, or in an arena that cannot name two more nodes,
    /// nothing changes.
    pub fn append_child(tree: &mut Tree<B, L>, at: usize, node: Node<B, L>) -> (index: Option<usize>)
        requires
            old(tree).well_formed(),
        ensures
            final(tree).well_formed(),
            match index {
                Some(new) => {
                    &&& at < old(tree)@.len()
                    &&& new == final(tree)@.len() - 1
                    &&& appended(old(tree)@, final(tree)@, at as int, node)
                },
                None => {
                    &&& at >= old(tree)@.len() || old(tree)@.len() >= usize::MAX - 1
                    &&& final(tree)@ == old(tree)@
                },
            },
    {
        let n = tree.nodes.len();
        if at >= n || n >= usize::MAX - 1 {
            return None;
        }
        let held = match node.children {
            NodeChildren::Branch(_) => NodeChildren::Branch(Vec::new()),
            NodeChildren::Leaves(leaves) => NodeChildren::Leaves(leaves),
        };
        let ghost before = tree.nodes@;
        let parent = tree.nodes[at].parent;
        // take the node out of the arena, with a stand-in in its place
        tree.nodes.push(Node::leaves(None));
        let old = tree.nodes.swap_remove(at);
        assert(old == before[at as int]);
        let (inner, children, moved) = match old.children {
            NodeChildren::Branch(mut nodes) => {
                nodes.push(n);
                (old.inner, NodeChildren::Branch(nodes), None)
            },
            NodeChildren::Leaves(leaves) => {
                let mut nodes: Vec<usize> = Vec::new();
                nodes.push(n);
                nodes.push(n + 1);
                assert(nodes@ =~= seq![n, (n + 1) as usize]);
                (
                    None,
                    NodeChildren::Branch(nodes),
                    Some(
                        Node {
                            inner: old.inner,
                            parent: NodeParent::Node(at),
                            children: NodeChildren::Leaves(leaves),
                        },
                    ),
                )
            },
        };
        let replaced = Node { inner, parent, children };
        let ghost new = replaced;
        tree.nodes.push(replaced);
        let _ = tree.nodes.swap_remove(at);
        assert(tree.nodes@ =~= before.update(at as int, new));
        if let Some(first) = moved {
            tree.nodes.push(first);
        }
        tree.nodes.push(Node { inner: node.inner, parent: NodeParent::Node(at), children: held });
        proof {
            let after = tree.nodes@;
            assert(after.last() == after[after.len() - 1]);
            assert(after[at as int] == new);
            assert(appended(before, after, at as int, node));
            lemma_appended_is_tree(before, after, at as int, node);
        }
        Some(tree.nodes.len() - 1)
    }

    /// Appends an empty branch that carries `inner` below node `at` of the
    /// tree and returns its index: see [`appended`].
    pub fn append_branch(tree: &mut Tree<B, L>, at: usize, inner: Option<B>) -> (index: Option<usize>)
        requires
            old(tree).well_formed(),
        ensures
            final(tree).well_formed(),
            match index {
                Some(new) => {
                    &&& at < old(tree)@.len()
                    &&& new == final(tree)@.len() - 1
                    &&& final(tree)@[new as int].children is Branch
                    &&& exists|node: Node<B, L>|
                        node.inner == inner && node.children is Branch && #[trigger] appended(
                            old(tree)@,
                            final(tree)@,
                            at as int,
                            node,
                        )
                },
                None => {
                    &&& at >= old(tree)@.len() || old(tree)@.len() >= usize::MAX - 1
                    &&& final(tree)@ == old(tree)@
                },
            },
    {
        Node::append_child(tree, at, Node::branch(inner))
    }
}

/// Appends the strokes that stand in front of what hangs below a node.
fn write_guides(out: &mut String, lasts: &Vec<bool>, upto: usize)
    requires
        upto <= lasts@.len(),
    ensures
        final(out)@ == old(out)@ + guides(lasts@.subrange(0, upto as int)),
{
    let mut at: usize = 0;
    proof {
        assert(lasts@.subrange(0, 0) =~= Seq::<bool>::empty());
        assert(out@ =~= old(out)@ + guides(lasts@.subrange(0, 0)));
    }
    while at < upto
        invariant
            at <= upto <= lasts@.len(),
            out@ == old(out)@ + guides(lasts@.subrange(0, at as int)),
        decreases upto - at,
    {
        let ghost so_far = out@;
        if lasts[at] {
            out.append("   ");
        } else {
            out.append(" │ ");
        }
        proof {
            let head = lasts@.subrange(0, at + 1);
            assert(head.drop_last() =~= lasts@.subrange(0, at as int));
            assert(head.last() == lasts@[at as int]);
            assert(out@ =~= old(out)@ + guides(head));
        }
        at = at + 1;
    }
}

/// Appends the strokes that stand in front of the line of a node.
fn write_lead(out: &mut String, lasts: &Vec<bool>)
    ensures
        final(out)@ == old(out)@ + lead(lasts@),
{
    let n = lasts.len();
    if n == 0 {
        proof {
            assert(out@ =~= old(out)@ + lead(lasts@));
        }
        return ;
    }
    write_guides(out, lasts, n - 1);
    if lasts[n - 1] {
        out.append(" └─");
    } else {
        out.append(" ├─");
    }
    proof {
        assert(lasts@.subrange(0, n - 1) =~= lasts@.drop_last());
        assert(out@ =~= old(out)@ + lead(lasts@));
    }
}

impl<B: Label, L: Label> Node<B, L> {
    /// Appends the line of the node without the strokes.
    fn write_heading(&self, out: &mut String)
        ensures
            final(out)@ == old(out)@ + heading(*self),
    {
        match self.children {
            NodeChildren::Branch(_) => out.append("Branch"),
            NodeChildren::Leaves(_) => out.append("Leaves"),
        }
        match &self.inner {
            Some(inner) => {
                out.append("(");
                inner.write(out);
                out.append(")");
                out.append("\n");
            },
            None => {
                out.append("\n");
            },
        }
        proof {
            assert(out@ =~= old(out)@ + heading(*self));
        }
    }

    /// Appends the lines of node `at` and of all that hangs below it.
    fn write_tree_inner(out: &mut String, tree: &Tree<B, L>, at: usize, lasts: &mut Vec<bool>)
        requires
            tree.well_formed(),
            at < tree@.len(),
        ensures
            final(out)@ == old(out)@ + node_lines(tree@, at as int, old(lasts)@),
            final(lasts)@ == old(lasts)@,
        decreases tree@.len() - at,
    {
        let node = &tree.nodes[at];
        write_lead(out, lasts);
        node.write_heading(out);
        let ghost start = out@;
        proof {
            assert(start =~= old(out)@ + (lead(lasts@) + heading(*node)));
        }
        match &node.children {
            NodeChildren::Branch(held) => {
                let mut k: usize = 0;
                while k < held.len()
                    invariant
                        tree.well_formed(),
                        at < tree@.len(),
                        *node == tree@[at as int],
                        node.children == NodeChildren::<L>::Branch(*held),
                        k <= held@.len(),
                        lasts@ == old(lasts)@,
                        out@ == start + child_lines(tree@, at as int, lasts@, k as int),
                    decreases held@.len() - k,
                {
                    let child = held[k];
                    proof {
                        assert(tree@[at as int].child_nodes()[k as int] == child);
                    }
                    lasts.push(k + 1 == held.len());
                    Node::write_tree_inner(out, tree, child, lasts);
                    let _ = lasts.pop();
                    proof {
                        assert(lasts@ =~= old(lasts)@);
                        assert(out@ =~= start + child_lines(tree@, at as int, lasts@, k + 1));
                    }
                    k = k + 1;
                }
                proof {
                    assert(out@ =~= old(out)@ + node_lines(tree@, at as int, old(lasts)@));
                }
            },
            NodeChildren::Leaves(leaves) => {
                let mut k: usize = 0;
                while k < leaves.len()
                    invariant
                        k <= leaves@.len(),
                        lasts@ == old(lasts)@,
                        out@ == start + leaf_lines(leaves@, guides(lasts@), k as int),
                    decreases leaves@.len() - k,
                {
                    let ghost so_far = out@;
                    write_guides(out, lasts, lasts.len());
                    if k + 1 == leaves.len() {
                        out.append(" └─");
                    } else {
                        out.append(" ├─");
                    }
                    out.append("Leaf(");
                    leaves[k].0.write(out);
                    out.append(")");
                    out.append("\n");
                    proof {
                        assert(lasts@.subrange(0, lasts@.len() as int) =~= lasts@);
                        assert(out@ =~= so_far + leaf_line(
                            leaves@[k as int],
                            guides(lasts@),
                            k + 1 == leaves@.len(),
                        ));
                        assert(out@ =~= start + leaf_lines(leaves@, guides(lasts@), k + 1));
                    }
                    k = k + 1;
                }
                proof {
                    assert(out@ =~= old(out)@ + node_lines(tree@, at as int, old(lasts)@));
                }
            },
        }
    }

    /// Appends the picture of node `at` of the tree and of what hangs below
    /// it, under the title if one is given: see [`picture`]. Says whether
    /// there is such a node; if not, nothing is written.
    pub fn write_tree(out: &mut String, tree: &Tree<B, L>, at: usize, title: Option<&str>) -> (written:
        bool)
        requires
            tree.well_formed(),
        ensures
            written == (at < tree@.len()),
            final(out)@ == if written {
                old(out)@ + picture(
                    tree@,
                    at as int,
                    match title {
                        Some(line) => Some(line@),
                        None => None,
                    },
                )
            } else {
                old(out)@
            },
    {
        if at >= tree.nodes.len() {
            return false;
        }
        let mut lasts: Vec<bool> = Vec::new();
        match title {
            Some(line) => {
                out.append(line);
                out.append("\n");
                lasts.push(true);
                let ghost start = out@;
                Node::write_tree_inner(out, tree, at, &mut lasts);
                proof {
                    assert(lasts@ =~= seq![true]);
                    assert(out@ =~= old(out)@ + (line@ + "\n"@ + node_lines(
                        tree@,
                        at as int,
                        seq![true],
                    )));
                }
            },
            None => {
                Node::write_tree_inner(out, tree, at, &mut lasts);
                proof {
                    assert(lasts@ =~= Seq::<bool>::empty());
                }
            },
        }
        true
    }

    /// The picture of node `at` of the tree and of what hangs below it. The
    /// text is empty if there is no such node.
    pub fn to_string(tree: &Tree<B, L>, at: usize) -> (text: String)
        requires
            tree.well_formed(),
        ensures
            text@ == if at < tree@.len() {
                picture(tree@, at as int, None)
            } else {
                Seq::empty()
            },
    {
        let mut text = String::new();
        let _ = Node::write_tree(&mut text, tree, at, None);
        proof {
            if at < tree@.len() {
                assert(text@ =~= picture(tree@, at as int, None));
            }
        }
        text
    }
}

impl<B: Label, L: Label> Tree<B, L> {
    /// Appends the picture of the whole tree under the title `Root`.
    pub fn write_tree(out: &mut String, tree: &Tree<B, L>)
        requires
            tree.well_formed(),
        ensures
            final(out)@ == old(out)@ + picture(tree@, 0, Some("Root"@)),
    {
        let _ = Node::write_tree(out, tree, 0, Some("Root"));
    }

    /// The picture of the whole tree under the title `Root`.
    pub fn to_string(&self) -> (text: String)
        requires
            self.well_formed(),
        ensures
            text@ == picture(self@, 0, Some("Root"@)),
    {
        let mut text = String::new();
        Tree::write_tree(&mut text, self);
        proof {
            assert(text@ =~= picture(self@, 0, Some("Root"@)));
        }
        text
    }
}

} // verus!
