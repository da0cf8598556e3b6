//! The abstract provenance graph the builders construct.
//!
//! A node is identified by its `(kind, id)` pair alone; inserting a node
//! or an edge twice is a no-op, and an edge may only join nodes already
//! present.  `GraphView` is the mathematical content of a graph, and the
//! reachability predicates below state connectivity over it.

use vstd::prelude::*;

use crate::entity::EventType;

verus! {

/// Which entity kind a node stands for.
#[derive(Clone, Copy, PartialEq, Eq, Structural, Debug)]
pub enum NodeKind {
    Artifact,
    Execution,
    Context,
}

/// A graph node; the `(kind, id)` pair identifies the entity it stands for.
#[derive(Clone, Copy, PartialEq, Eq, Structural, Debug)]
pub struct GraphNode {
    pub kind: NodeKind,
    pub id: u64,
}

/// A directed edge, labelled with the event direction that produced it.
#[derive(Clone, Copy, PartialEq, Eq, Structural, Debug)]
pub struct GraphEdge {
    pub from: GraphNode,
    pub to: GraphNode,
    pub kind: EventType,
}

/// The mathematical content of a graph: its node and edge sequences in
/// insertion order.
#[verifier::ext_equal]
pub ghost struct GraphView {
    pub nodes: Seq<GraphNode>,
    pub edges: Seq<GraphEdge>,
}

/// No node repeats, no edge repeats, and every edge joins present nodes.
pub open spec fn gv_wf(gv: GraphView) -> bool {
    &&& (forall|i: int, j: int| 0 <= i < j < gv.nodes.len() ==> gv.nodes[i] != gv.nodes[j])
    &&& (forall|i: int, j: int| 0 <= i < j < gv.edges.len() ==> gv.edges[i] != gv.edges[j])
    &&& (forall|i: int|
        0 <= i < gv.edges.len() ==> gv.nodes.contains(#[trigger] gv.edges[i].from)
            && gv.nodes.contains(gv.edges[i].to))
}

/// `gv` with node `n`, added at the end unless already present.
pub open spec fn add_node_spec(gv: GraphView, n: GraphNode) -> GraphView {
    if gv.nodes.contains(n) {
        gv
    } else {
        GraphView { nodes: gv.nodes.push(n), edges: gv.edges }
    }
}

/// `gv` with edge `e`, added at the end unless already present.
pub open spec fn add_edge_spec(gv: GraphView, e: GraphEdge) -> GraphView {
    if gv.edges.contains(e) {
        gv
    } else {
        GraphView { nodes: gv.nodes, edges: gv.edges.push(e) }
    }
}

/// An abstract node/edge graph, build-once and read by the serializer.
#[derive(PartialEq, Eq, Debug)]
pub struct Graph {
    pub nodes: Vec<GraphNode>,
    pub edges: Vec<GraphEdge>,
}

impl View for Graph {
    type V = GraphView;

    open spec fn view(&self) -> GraphView {
        GraphView { nodes: self.nodes@, edges: self.edges@ }
    }
}

impl Graph {
    /// The empty graph.
    pub fn new() -> (res: Graph)
        ensures
            res@.nodes.len() == 0,
            res@.edges.len() == 0,
            gv_wf(res@),
    {
        Graph { nodes: Vec::new(), edges: Vec::new() }
    }

    /// Whether a node with `n`'s kind and id is already present.
    pub fn has_node(&self, n: GraphNode) -> (res: bool)
        ensures
            res == self@.nodes.contains(n),
    {
        let mut i: usize = 0;
        while i < self.nodes.len()
            invariant
                i <= self.nodes@.len(),
                forall|j: int| 0 <= j < i ==> self.nodes@[j] != n,
            decreases self.nodes@.len() - i,
        {
            if self.nodes[i] == n {
                return true;
            }
            i = i + 1;
        }
        false
    }

    /// Inserts `n`; a node already present is left alone.
    pub fn add_node(&mut self, n: GraphNode)
        ensures
            final(self)@ == add_node_spec(old(self)@, n),
    {
        if !self.has_node(n) {
            self.nodes.push(n);
            proof {
                assert(final(self)@ =~= add_node_spec(old(self)@, n));
            }
        }
    }

    /// Inserts `e`; an edge already present is left alone.  Both endpoints
    /// must already stand in the graph.
    pub fn add_edge(&mut self, e: GraphEdge)
        requires
            old(self)@.nodes.contains(e.from),
            old(self)@.nodes.contains(e.to),
        ensures
            final(self)@ == add_edge_spec(old(self)@, e),
    {
        let mut i: usize = 0;
        while i < self.edges.len()
            invariant
                i <= self.edges@.len(),
                forall|j: int| 0 <= j < i ==> self.edges@[j] != e,
            decreases self.edges@.len() - i,
        {
            if self.edges[i] == e {
                return ;
            }
            i = i + 1;
        }
        self.edges.push(e);
        proof {
            assert(final(self)@ =~= add_edge_spec(old(self)@, e));
        }
    }
}

/// Why a graph could not be built: the requested root entity is not in
/// the store.  Store transport failures stay with the store client and
/// never arise from a snapshot.
#[derive(Clone, Copy, PartialEq, Eq, Structural, Debug)]
pub enum GraphError {
    NotFound,
}

impl GraphError {
    /// A short human-readable description.
    pub fn message(&self) -> (res: &'static str)
        ensures
            res@ == "no such entity in the store"@,
    {
        "no such entity in the store"
    }
}

/// The node standing for artifact `id`.
pub open spec fn artifact_node(id: u64) -> GraphNode {
    GraphNode { kind: NodeKind::Artifact, id }
}

/// The node standing for execution `id`.
pub open spec fn execution_node(id: u64) -> GraphNode {
    GraphNode { kind: NodeKind::Execution, id }
}

/// The edge drawn when execution `eid` produced artifact `aid`.
pub open spec fn output_edge(eid: u64, aid: u64) -> GraphEdge {
    GraphEdge { from: execution_node(eid), to: artifact_node(aid), kind: EventType::Output }
}

/// The edge drawn when execution `eid` consumed artifact `aid`.
pub open spec fn input_edge(aid: u64, eid: u64) -> GraphEdge {
    GraphEdge { from: artifact_node(aid), to: execution_node(eid), kind: EventType::Input }
}

/// Pushing keeps every element present and makes the new one present.
pub proof fn lemma_contains_after_push<T>(s: Seq<T>, x: T, y: T)
    ensures
        s.contains(y) ==> s.push(x).contains(y),
        s.push(x).contains(x),
{
    if s.contains(y) {
        let i = choose|i: int| 0 <= i < s.len() && s[i] == y;
        assert(s.push(x)[i] == y);
    }
    assert(s.push(x)[s.len() as int] == x);
}

/// Adding a node keeps the graph well formed.
pub proof fn lemma_add_node_wf(gv: GraphView, n: GraphNode)
    requires
        gv_wf(gv),
    ensures
        gv_wf(add_node_spec(gv, n)),
        forall|x: GraphNode| gv.nodes.contains(x) ==> add_node_spec(gv, n).nodes.contains(x),
        add_node_spec(gv, n).nodes.contains(n),
{
    let gv1 = add_node_spec(gv, n);
    assert forall|x: GraphNode| gv.nodes.contains(x) implies gv1.nodes.contains(x) by {
        lemma_contains_after_push(gv.nodes, n, x);
    }
    if !gv.nodes.contains(n) {
        lemma_contains_after_push(gv.nodes, n, n);
        assert forall|i: int, j: int| 0 <= i < j < gv1.nodes.len() implies gv1.nodes[i]
            != gv1.nodes[j] by {
            if j == gv.nodes.len() {
                assert(gv.nodes[i] == gv1.nodes[i]);
                assert(!gv.nodes.contains(n) ==> gv.nodes[i] != n);
            }
        }
    }
}

/// Adding an edge between present nodes keeps the graph well formed.
pub proof fn lemma_add_edge_wf(gv: GraphView, e: GraphEdge)
    requires
        gv_wf(gv),
        gv.nodes.contains(e.from),
        gv.nodes.contains(e.to),
    ensures
        gv_wf(add_edge_spec(gv, e)),
        add_edge_spec(gv, e).nodes == gv.nodes,
        add_edge_spec(gv, e).edges.contains(e),
        forall|x: GraphEdge| gv.edges.contains(x) ==> add_edge_spec(gv, e).edges.contains(x),
{
    let gv1 = add_edge_spec(gv, e);
    assert forall|x: GraphEdge| gv.edges.contains(x) implies gv1.edges.contains(x) by {
        lemma_contains_after_push(gv.edges, e, x);
    }
    if !gv.edges.contains(e) {
        lemma_contains_after_push(gv.edges, e, e);
        assert forall|i: int, j: int| 0 <= i < j < gv1.edges.len() implies gv1.edges[i]
            != gv1.edges[j] by {
            if j == gv.edges.len() {
                assert(gv.edges[i] == gv1.edges[i]);
            }
        }
    }
}

/// Whether the edge `e` joins `a` and `b`, in either direction.
pub open spec fn edge_links(e: GraphEdge, a: GraphNode, b: GraphNode) -> bool {
    (e.from == a && e.to == b) || (e.from == b && e.to == a)
}

/// Whether some edge of `gv` joins `a` and `b`.
pub open spec fn adjacent(gv: GraphView, a: GraphNode, b: GraphNode) -> bool {
    exists|i: int| 0 <= i < gv.edges.len() && edge_links(#[trigger] gv.edges[i], a, b)
}

/// Whether consecutive members of `p` are all adjacent in `gv`.
pub open spec fn linked_path(gv: GraphView, p: Seq<GraphNode>) -> bool {
    forall|i: int| 0 <= i < p.len() - 1 ==> adjacent(gv, #[trigger] p[i], p[i + 1])
}

/// Whether an edge path of `gv` leads from `root` to `n`.
pub open spec fn reaches(gv: GraphView, root: GraphNode, n: GraphNode) -> bool {
    exists|p: Seq<GraphNode>|
        p.len() > 0 && p[0] == root && p.last() == n && #[trigger] linked_path(gv, p)
}

/// Whether every node of `gv` is reachable from `root`.
pub open spec fn connected_from(gv: GraphView, root: GraphNode) -> bool {
    forall|i: int| 0 <= i < gv.nodes.len() ==> reaches(gv, root, #[trigger] gv.nodes[i])
}

/// Every node reaches itself, by the one-node path.
pub proof fn lemma_reaches_self(gv: GraphView, root: GraphNode)
    ensures
        reaches(gv, root, root),
{
    let p = seq![root];
    assert(linked_path(gv, p));
    assert(p.len() > 0 && p[0] == root && p.last() == root);
}

/// A path stays linked in any graph holding every edge it used.
pub proof fn lemma_path_monotonic(gv1: GraphView, gv2: GraphView, p: Seq<GraphNode>)
    requires
        linked_path(gv1, p),
        forall|x: GraphEdge| gv1.edges.contains(x) ==> gv2.edges.contains(x),
    ensures
        linked_path(gv2, p),
{
    assert forall|i: int| 0 <= i < p.len() - 1 implies adjacent(gv2, #[trigger] p[i], p[i + 1]) by {
        assert(adjacent(gv1, p[i], p[i + 1]));
        let k = choose|k: int| 0 <= k < gv1.edges.len() && edge_links(#[trigger] gv1.edges[k], p[i], p[i + 1]);
        assert(gv1.edges.contains(gv1.edges[k]));
        assert(gv2.edges.contains(gv1.edges[k]));
        let m = choose|m: int| 0 <= m < gv2.edges.len() && gv2.edges[m] == gv1.edges[k];
        assert(edge_links(gv2.edges[m], p[i], p[i + 1]));
    }
}

/// Reachability carries over to any graph holding every edge used.
pub proof fn lemma_reaches_monotonic(gv1: GraphView, gv2: GraphView, root: GraphNode, n: GraphNode)
    requires
        reaches(gv1, root, n),
        forall|x: GraphEdge| gv1.edges.contains(x) ==> gv2.edges.contains(x),
    ensures
        reaches(gv2, root, n),
{
    let p = choose|p: Seq<GraphNode>|
        p.len() > 0 && p[0] == root && p.last() == n && #[trigger] linked_path(gv1, p);
    lemma_path_monotonic(gv1, gv2, p);
}

/// A node adjacent to a reachable node is reachable.
pub proof fn lemma_reaches_step(gv: GraphView, root: GraphNode, m: GraphNode, n: GraphNode)
    requires
        reaches(gv, root, m),
        adjacent(gv, m, n),
    ensures
        reaches(gv, root, n),
{
    let p = choose|p: Seq<GraphNode>|
        p.len() > 0 && p[0] == root && p.last() == m && #[trigger] linked_path(gv, p);
    let q = p.push(n);
    assert forall|i: int| 0 <= i < q.len() - 1 implies adjacent(gv, #[trigger] q[i], q[i + 1]) by {
        if i < p.len() - 1 {
            assert(q[i] == p[i] && q[i + 1] == p[i + 1]);
            assert(adjacent(gv, p[i], p[i + 1]));
        } else {
            assert(q[i] == m && q[i + 1] == n);
        }
    }
    assert(q.len() > 0 && q[0] == root && q.last() == n && linked_path(gv, q));
}

/// Inserting node `n` together with an edge joining it to the present
/// node `m` keeps the graph well formed and keeps every node reachable.
pub proof fn lemma_linked_insert(gv: GraphView, root: GraphNode, n: GraphNode, m: GraphNode, e: GraphEdge)
    requires
        gv_wf(gv),
        connected_from(gv, root),
        gv.nodes.contains(m),
        reaches(gv, root, m),
        edge_links(e, n, m),
        e.from == n || e.from == m,
        e.to == n || e.to == m,
    ensures
        gv_wf(add_edge_spec(add_node_spec(gv, n), e)),
        connected_from(add_edge_spec(add_node_spec(gv, n), e), root),
        add_edge_spec(add_node_spec(gv, n), e).nodes == add_node_spec(gv, n).nodes,
        forall|x: GraphNode|
            gv.nodes.contains(x) ==> add_edge_spec(add_node_spec(gv, n), e).nodes.contains(x),
        add_edge_spec(add_node_spec(gv, n), e).nodes.contains(n),
        forall|x: GraphNode|
            reaches(gv, root, x) ==> reaches(add_edge_spec(add_node_spec(gv, n), e), root, x),
        reaches(add_edge_spec(add_node_spec(gv, n), e), root, n),
{
    let gv1 = add_node_spec(gv, n);
    let gv2 = add_edge_spec(gv1, e);
    lemma_add_node_wf(gv, n);
    lemma_add_edge_wf(gv1, e);
    assert forall|x: GraphEdge| gv.edges.contains(x) implies gv2.edges.contains(x) by {
        lemma_contains_after_push(gv.edges, e, x);
    }
    assert forall|x: GraphNode| reaches(gv, root, x) implies reaches(gv2, root, x) by {
        lemma_reaches_monotonic(gv, gv2, root, x);
    }
    lemma_reaches_monotonic(gv, gv2, root, m);
    let k = choose|k: int| 0 <= k < gv2.edges.len() && gv2.edges[k] == e;
    assert(edge_links(gv2.edges[k], m, n));
    assert(adjacent(gv2, m, n));
    lemma_reaches_step(gv2, root, m, n);
    assert forall|i: int| 0 <= i < gv2.nodes.len() implies reaches(gv2, root, #[trigger] gv2.nodes[i]) by {
        if i < gv.nodes.len() {
            assert(gv.nodes[i] == gv2.nodes[i]);
            assert(reaches(gv, root, gv.nodes[i]));
            lemma_reaches_monotonic(gv, gv2, root, gv.nodes[i]);
        } else {
            assert(gv2.nodes[i] == n);
        }
    }
}

} // verus!
