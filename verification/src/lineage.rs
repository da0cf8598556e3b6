//! The lineage graph builder: the ancestry of an artifact.
//!
//! The traversal is a levelled breadth-first search.  Each level takes the
//! frontier of newly visited artifacts in ascending id order, draws each
//! artifact's producing executions (output-family events) with an edge
//! execution -> artifact, and for each execution seen for the first time
//! draws its consumed artifacts (input-family events) with an edge
//! artifact -> execution; artifacts seen for the first time form the next
//! frontier.  Visited sets guard against cycles, so the build ends even
//! on a store that is not acyclic.  The whole construction is a function
//! of the store, the root and the depth, so repeated builds agree.

use vstd::prelude::*;

use crate::entity::EventType;
use crate::graph::{
    add_edge_spec, add_node_spec, artifact_node, connected_from, execution_node, gv_wf, input_edge,
    lemma_add_node_wf, lemma_linked_insert, output_edge, Graph, GraphEdge, GraphError, GraphNode,
    GraphView, NodeKind,
};
use crate::order::contains_id;
use crate::store::{input_artifact_ids_spec, producer_ids_spec, Store};

verus! {

/// The traversal state: the graph so far, the visited execution and
/// artifact ids, and the artifacts discovered for the next level.
#[verifier::ext_equal]
pub ghost struct BuildState {
    pub gv: GraphView,
    pub ve: Seq<u64>,
    pub va: Seq<u64>,
    pub next: Seq<u64>,
}

/// Assembles a traversal state from its four parts.
pub open spec fn st_of(gv: GraphView, ve: Seq<u64>, va: Seq<u64>, next: Seq<u64>) -> BuildState {
    BuildState { gv, ve, va, next }
}

/// Absorbs one consumed artifact `xid` of execution `eid`: its node and
/// the edge artifact -> execution, and, when first seen, the visited mark
/// and a place on the next frontier.
pub open spec fn absorb_input(st: BuildState, eid: u64, xid: u64) -> BuildState {
    let gv = add_edge_spec(add_node_spec(st.gv, artifact_node(xid)), input_edge(xid, eid));
    if st.va.contains(xid) {
        BuildState { gv, ve: st.ve, va: st.va, next: st.next }
    } else {
        BuildState { gv, ve: st.ve, va: st.va.push(xid), next: st.next.push(xid) }
    }
}

/// Absorbs the consumed artifacts `xs[k..]` of execution `eid` in order.
pub open spec fn absorb_inputs(st: BuildState, eid: u64, xs: Seq<u64>, k: int) -> BuildState
    decreases xs.len() - k,
{
    if k < 0 || k >= xs.len() {
        st
    } else {
        absorb_inputs(absorb_input(st, eid, xs[k]), eid, xs, k + 1)
    }
}

/// Absorbs one producing execution `eid` of artifact `aid`: its node and
/// the edge execution -> artifact, and, when first seen, its consumed
/// artifacts.
pub open spec fn absorb_producer(s: Store, st: BuildState, aid: u64, eid: u64) -> BuildState {
    let gv = add_edge_spec(add_node_spec(st.gv, execution_node(eid)), output_edge(eid, aid));
    if st.ve.contains(eid) {
        BuildState { gv, ve: st.ve, va: st.va, next: st.next }
    } else {
        absorb_inputs(
            BuildState { gv, ve: st.ve.push(eid), va: st.va, next: st.next },
            eid,
            input_artifact_ids_spec(s, eid),
            0,
        )
    }
}

/// Absorbs the producing executions `es[k..]` of artifact `aid` in order.
pub open spec fn absorb_producers(s: Store, st: BuildState, aid: u64, es: Seq<u64>, k: int) -> BuildState
    decreases es.len() - k,
{
    if k < 0 || k >= es.len() {
        st
    } else {
        absorb_producers(s, absorb_producer(s, st, aid, es[k]), aid, es, k + 1)
    }
}

/// Expands the frontier artifacts `frontier[k..]` in order.
pub open spec fn expand_level(s: Store, st: BuildState, frontier: Seq<u64>, k: int) -> BuildState
    decreases frontier.len() - k,
{
    if k < 0 || k >= frontier.len() {
        st
    } else {
        expand_level(
            s,
            absorb_producers(s, st, frontier[k], producer_ids_spec(s, frontier[k]), 0),
            frontier,
            k + 1,
        )
    }
}

/// Runs up to `fuel` levels, stopping early on an empty frontier.
pub open spec fn run_levels(
    s: Store,
    gv: GraphView,
    ve: Seq<u64>,
    va: Seq<u64>,
    frontier: Seq<u64>,
    fuel: nat,
) -> GraphView
    decreases fuel,
{
    if fuel == 0 || frontier.len() == 0 {
        gv
    } else {
        let st = expand_level(s, BuildState { gv, ve, va, next: Seq::empty() }, frontier, 0);
        run_levels(s, st.gv, st.ve, st.va, st.next, (fuel - 1) as nat)
    }
}

/// How many levels a depth setting allows: the given depth, or, for the
/// unbounded default, one level per artifact, which no traversal can
/// exhaust before its frontier empties.
pub open spec fn lineage_fuel(s: Store, depth: Option<u64>) -> nat {
    match depth {
        Some(d) => d as nat,
        None => s.artifacts@.len() as nat,
    }
}

/// The lineage graph of artifact `root` under depth bound `depth`.
pub open spec fn lineage_spec(s: Store, root: u64, depth: Option<u64>) -> GraphView {
    run_levels(
        s,
        GraphView { nodes: seq![artifact_node(root)], edges: Seq::empty() },
        Seq::empty(),
        seq![root],
        seq![root],
        lineage_fuel(s, depth),
    )
}

/// The invariants every builder step keeps: a well-formed graph whose
/// first node is the root and whose nodes all reach it.
pub open spec fn build_ok(gv: GraphView, root: GraphNode) -> bool {
    &&& gv_wf(gv)
    &&& connected_from(gv, root)
    &&& gv.nodes.len() > 0 && gv.nodes[0] == root
}

#[verifier::rlimit(60)]
fn absorb_inputs_exec(
    s: &Store,
    g: &mut Graph,
    ve: &Vec<u64>,
    va: &mut Vec<u64>,
    next: &mut Vec<u64>,
    eid: u64,
    root: Ghost<GraphNode>,
)
    requires
        s.wf(),
        build_ok(old(g)@, root@),
        old(g)@.nodes.contains(execution_node(eid)),
        forall|j: int|
            0 <= j < old(next)@.len() ==> #[trigger] old(g)@.nodes.contains(
                artifact_node(old(next)@[j]),
            ),
    ensures
        build_ok(final(g)@, root@),
        forall|x: GraphNode| old(g)@.nodes.contains(x) ==> final(g)@.nodes.contains(x),
        forall|j: int|
            0 <= j < final(next)@.len() ==> #[trigger] final(g)@.nodes.contains(
                artifact_node(final(next)@[j]),
            ),
        st_of(final(g)@, ve@, final(va)@, final(next)@) == absorb_inputs(
            st_of(old(g)@, ve@, old(va)@, old(next)@),
            eid,
            input_artifact_ids_spec(*s, eid),
            0,
        ),
{
    let inputs = s.input_artifact_ids(eid);
    let ghost st0 = st_of(g@, ve@, va@, next@);
    let mut q: usize = 0;
    while q < inputs.len()
        invariant
            s.wf(),
            q <= inputs@.len(),
            inputs@ == input_artifact_ids_spec(*s, eid),
            build_ok(g@, root@),
            g@.nodes.contains(execution_node(eid)),
            forall|x: GraphNode| old(g)@.nodes.contains(x) ==> g@.nodes.contains(x),
            forall|j: int|
                0 <= j < next@.len() ==> #[trigger] g@.nodes.contains(artifact_node(next@[j])),
            absorb_inputs(
                st_of(g@, ve@, va@, next@),
                eid,
                inputs@,
                q as int,
            ) == absorb_inputs(st0, eid, inputs@, 0),
        decreases inputs@.len() - q,
    {
        let xid = inputs[q];
        let ghost stq = st_of(g@, ve@, va@, next@);
        let xn = GraphNode { kind: NodeKind::Artifact, id: xid };
        let ghost gvx = g@;
        proof {
            lemma_add_node_wf(gvx, artifact_node(xid));
        }
        g.add_node(xn);
        g.add_edge(GraphEdge { from: xn, to: GraphNode { kind: NodeKind::Execution, id: eid }, kind: EventType::Input });
        proof {
            let i = choose|i: int|
                0 <= i < gvx.nodes.len() && gvx.nodes[i] == execution_node(eid);
            assert(crate::graph::reaches(gvx, root@, execution_node(eid)));
            lemma_linked_insert(gvx, root@, artifact_node(xid), execution_node(eid), input_edge(xid, eid));
            assert(g@ == add_edge_spec(add_node_spec(stq.gv, artifact_node(xid)), input_edge(xid, eid)));
            assert forall|j: int|
                0 <= j < next@.len() implies #[trigger] g@.nodes.contains(
                artifact_node(next@[j]),
            ) by {
                assert(gvx.nodes.contains(artifact_node(next@[j])));
            }
            assert forall|x: GraphNode| old(g)@.nodes.contains(x) implies g@.nodes.contains(x) by {
                assert(gvx.nodes.contains(x));
            }
            assert(g@.nodes.contains(artifact_node(xid)));
        }
        if !contains_id(va, xid) {
            va.push(xid);
            next.push(xid);
            proof {
                assert(!stq.va.contains(xid));
                assert(st_of(g@, ve@, va@, next@) =~= absorb_input(stq, eid, xid));
                assert(g@.nodes.contains(artifact_node(next@[next@.len() - 1])));
            }
        } else {
            proof {
                assert(stq.va.contains(xid));
                assert(st_of(g@, ve@, va@, next@) =~= absorb_input(stq, eid, xid));
            }
        }
        q = q + 1;
    }
}

#[verifier::rlimit(60)]
fn absorb_producers_exec(
    s: &Store,
    g: &mut Graph,
    ve: &mut Vec<u64>,
    va: &mut Vec<u64>,
    next: &mut Vec<u64>,
    aid: u64,
    root: Ghost<GraphNode>,
)
    requires
        s.wf(),
        build_ok(old(g)@, root@),
        old(g)@.nodes.contains(artifact_node(aid)),
        forall|j: int|
            0 <= j < old(next)@.len() ==> #[trigger] old(g)@.nodes.contains(
                artifact_node(old(next)@[j]),
            ),
    ensures
        build_ok(final(g)@, root@),
        forall|x: GraphNode| old(g)@.nodes.contains(x) ==> final(g)@.nodes.contains(x),
        forall|j: int|
            0 <= j < final(next)@.len() ==> #[trigger] final(g)@.nodes.contains(
                artifact_node(final(next)@[j]),
            ),
        st_of(final(g)@, final(ve)@, final(va)@, final(next)@)
            == absorb_producers(
            *s,
            st_of(old(g)@, old(ve)@, old(va)@, old(next)@),
            aid,
            producer_ids_spec(*s, aid),
            0,
        ),
{
    let prods = s.producer_ids(aid);
    let ghost st0 = st_of(g@, ve@, va@, next@);
    let mut p: usize = 0;
    while p < prods.len()
        invariant
            s.wf(),
            p <= prods@.len(),
            prods@ == producer_ids_spec(*s, aid),
            build_ok(g@, root@),
            g@.nodes.contains(artifact_node(aid)),
            forall|x: GraphNode| old(g)@.nodes.contains(x) ==> g@.nodes.contains(x),
            forall|j: int|
                0 <= j < next@.len() ==> #[trigger] g@.nodes.contains(artifact_node(next@[j])),
            absorb_producers(
                *s,
                st_of(g@, ve@, va@, next@),
                aid,
                prods@,
                p as int,
            ) == absorb_producers(*s, st0, aid, prods@, 0),
        decreases prods@.len() - p,
    {
        let eid = prods[p];
        let ghost stp = st_of(g@, ve@, va@, next@);
        let en = GraphNode { kind: NodeKind::Execution, id: eid };
        let ghost gv0 = g@;
        proof {
            lemma_add_node_wf(gv0, execution_node(eid));
        }
        g.add_node(en);
        g.add_edge(GraphEdge { from: en, to: GraphNode { kind: NodeKind::Artifact, id: aid }, kind: EventType::Output });
        proof {
            let i = choose|i: int| 0 <= i < gv0.nodes.len() && gv0.nodes[i] == artifact_node(aid);
            assert(crate::graph::reaches(gv0, root@, artifact_node(aid)));
            lemma_linked_insert(gv0, root@, execution_node(eid), artifact_node(aid), output_edge(eid, aid));
            assert forall|j: int|
                0 <= j < next@.len() implies #[trigger] g@.nodes.contains(
                artifact_node(next@[j]),
            ) by {
                assert(gv0.nodes.contains(artifact_node(next@[j])));
            }
            assert(g@.nodes.contains(execution_node(eid)));
        }
        if !contains_id(ve, eid) {
            ve.push(eid);
            let ghost gvmid = g@;
            absorb_inputs_exec(s, g, ve, va, next, eid, root);
            proof {
                assert forall|x: GraphNode| gv0.nodes.contains(x) implies g@.nodes.contains(
                    x,
                ) by {
                    assert(gvmid.nodes.contains(x));
                }
                assert forall|x: GraphNode| old(g)@.nodes.contains(x) implies g@.nodes.contains(
                    x,
                ) by {
                    assert(gv0.nodes.contains(x));
                }
                assert(gv0.nodes.contains(artifact_node(aid)));
                assert(g@.nodes.contains(artifact_node(aid)));
                assert(st_of(g@, ve@, va@, next@) == absorb_producer(*s, stp, aid, eid));
            }
        } else {
            proof {
                assert forall|x: GraphNode| old(g)@.nodes.contains(x) implies g@.nodes.contains(
                    x,
                ) by {
                    assert(gv0.nodes.contains(x));
                }
                assert(g@.nodes.contains(artifact_node(aid)));
                assert(st_of(g@, ve@, va@, next@) =~= absorb_producer(*s, stp, aid, eid));
            }
        }
        p = p + 1;
    }
}

fn expand_level_exec(
    s: &Store,
    g: &mut Graph,
    ve: &mut Vec<u64>,
    va: &mut Vec<u64>,
    frontier: &Vec<u64>,
    root: Ghost<GraphNode>,
) -> (next: Vec<u64>)
    requires
        s.wf(),
        build_ok(old(g)@, root@),
        forall|j: int|
            0 <= j < frontier@.len() ==> #[trigger] old(g)@.nodes.contains(
                artifact_node(frontier@[j]),
            ),
    ensures
        build_ok(final(g)@, root@),
        forall|j: int|
            0 <= j < next@.len() ==> #[trigger] final(g)@.nodes.contains(artifact_node(next@[j])),
        st_of(final(g)@, final(ve)@, final(va)@, next@) == expand_level(
            *s,
            st_of(old(g)@, old(ve)@, old(va)@, Seq::empty()),
            frontier@,
            0,
        ),
{
    let mut next: Vec<u64> = Vec::new();
    let ghost st0 = st_of(g@, ve@, va@, Seq::empty());
    proof {
        assert(next@ =~= Seq::<u64>::empty());
    }
    let mut k: usize = 0;
    while k < frontier.len()
        invariant
            s.wf(),
            k <= frontier@.len(),
            build_ok(g@, root@),
            forall|x: GraphNode| old(g)@.nodes.contains(x) ==> g@.nodes.contains(x),
            forall|j: int|
                0 <= j < frontier@.len() ==> #[trigger] old(g)@.nodes.contains(
                    artifact_node(frontier@[j]),
                ),
            forall|j: int|
                0 <= j < next@.len() ==> #[trigger] g@.nodes.contains(artifact_node(next@[j])),
            expand_level(
                *s,
                st_of(g@, ve@, va@, next@),
                frontier@,
                k as int,
            ) == expand_level(*s, st0, frontier@, 0),
        decreases frontier@.len() - k,
    {
        let aid = frontier[k];
        proof {
            assert(old(g)@.nodes.contains(artifact_node(frontier@[k as int])));
            assert(g@.nodes.contains(artifact_node(aid)));
        }
        let ghost gbefore = g@;
        absorb_producers_exec(s, g, ve, va, &mut next, aid, root);
        proof {
            assert forall|x: GraphNode| old(g)@.nodes.contains(x) implies g@.nodes.contains(x) by {
                assert(gbefore.nodes.contains(x));
            }
        }
        k = k + 1;
    }
    next
}

/// Builds the ancestry graph of artifact `root`: exactly the graph
/// `lineage_spec` describes, well formed, with every node reachable from
/// the root, the root node first.  A root id the store does not know
/// yields `NotFound`, never an empty graph.
pub fn lineage_graph(s: &Store, root: u64, depth: Option<u64>) -> (res: Result<Graph, GraphError>)
    requires
        s.wf(),
    ensures
        match res {
            Ok(g) => {
                &&& s.artifact_by_id(root) is Some
                &&& g@ == lineage_spec(*s, root, depth)
                &&& gv_wf(g@)
                &&& connected_from(g@, artifact_node(root))
                &&& g@.nodes.len() > 0 && g@.nodes[0] == artifact_node(root)
            },
            Err(e) => e == GraphError::NotFound && s.artifact_by_id(root) is None,
        },
{
    if s.find_artifact(root).is_none() {
        return Err(GraphError::NotFound);
    }
    let ghost rootn = artifact_node(root);
    let mut g = Graph::new();
    g.add_node(GraphNode { kind: NodeKind::Artifact, id: root });
    proof {
        crate::graph::lemma_reaches_self(g@, rootn);
        assert(g@.nodes =~= seq![rootn]);
        assert(g@.edges =~= Seq::<GraphEdge>::empty());
        assert(g@.nodes[0] == artifact_node(root));
        assert(g@.nodes.contains(artifact_node(root)));
    }
    let mut ve: Vec<u64> = Vec::new();
    let mut va: Vec<u64> = Vec::new();
    va.push(root);
    let mut frontier: Vec<u64> = Vec::new();
    frontier.push(root);
    let mut fuel: u64 = match depth {
        Some(d) => d,
        None => s.artifacts.len() as u64,
    };
    let ghost target = lineage_spec(*s, root, depth);
    proof {
        assert(frontier@ =~= seq![root]);
        assert(va@ =~= seq![root]);
        assert(ve@ =~= Seq::<u64>::empty());
        assert(run_levels(*s, g@, ve@, va@, frontier@, fuel as nat) == target);
    }
    while fuel > 0 && frontier.len() > 0
        invariant
            s.wf(),
            build_ok(g@, rootn),
            forall|j: int|
                0 <= j < frontier@.len() ==> #[trigger] g@.nodes.contains(
                    artifact_node(frontier@[j]),
                ),
            run_levels(*s, g@, ve@, va@, frontier@, fuel as nat) == target,
        decreases fuel,
    {
        let ghost gv_top = g@;
        let ghost ve_top = ve@;
        let ghost va_top = va@;
        let ghost frontier_top = frontier@;
        let ghost fuel_top = fuel as nat;
        let next = expand_level_exec(s, &mut g, &mut ve, &mut va, &frontier, Ghost(rootn));
        proof {
            let st = expand_level(
                *s,
                st_of(gv_top, ve_top, va_top, Seq::empty()),
                frontier_top,
                0,
            );
            assert(st == st_of(g@, ve@, va@, next@));
            assert(run_levels(*s, gv_top, ve_top, va_top, frontier_top, fuel_top) == run_levels(
                *s,
                st.gv,
                st.ve,
                st.va,
                st.next,
                (fuel_top - 1) as nat,
            ));
        }
        frontier = next;
        fuel = fuel - 1;
    }
    Ok(g)
}

/// Building the lineage of the same artifact twice against an unchanged
/// store gives the same graph: the result is a function of store, root
/// and depth alone, so its serialized text is byte-identical too.
pub proof fn lemma_lineage_deterministic(
    s: Store,
    root: u64,
    depth: Option<u64>,
    g1: GraphView,
    g2: GraphView,
)
    requires
        g1 == lineage_spec(s, root, depth),
        g2 == lineage_spec(s, root, depth),
    ensures
        g1 == g2,
{
}

} // verus!
