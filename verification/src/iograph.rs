//! The IO graph builder: the single-hop bipartite graph of one
//! execution's direct inputs and outputs.
//!
//! Events naming the execution are partitioned by direction: each
//! input-family event draws artifact -> execution, each output-family
//! event draws execution -> artifact.  Referenced artifacts appear once
//! each, in ascending id order, inputs before outputs; there is no
//! recursion.  An execution id the store does not know yields `NotFound`.

use vstd::prelude::*;

use crate::entity::EventType;
use crate::graph::{
    add_edge_spec, add_node_spec, artifact_node, connected_from, execution_node, gv_wf, input_edge,
    lemma_add_node_wf, lemma_linked_insert, output_edge, Graph, GraphEdge, GraphError, GraphNode,
    GraphView, NodeKind,
};
use crate::store::{input_artifact_ids_spec, output_artifact_ids_spec, Store};

verus! {

/// Draws the consumed artifacts `xs[k..]` with edges into execution `eid`.
pub open spec fn draw_inputs(gv: GraphView, eid: u64, xs: Seq<u64>, k: int) -> GraphView
    decreases xs.len() - k,
{
    if k < 0 || k >= xs.len() {
        gv
    } else {
        draw_inputs(
            add_edge_spec(add_node_spec(gv, artifact_node(xs[k])), input_edge(xs[k], eid)),
            eid,
            xs,
            k + 1,
        )
    }
}

/// Draws the produced artifacts `xs[k..]` with edges out of execution `eid`.
pub open spec fn draw_outputs(gv: GraphView, eid: u64, xs: Seq<u64>, k: int) -> GraphView
    decreases xs.len() - k,
{
    if k < 0 || k >= xs.len() {
        gv
    } else {
        draw_outputs(
            add_edge_spec(add_node_spec(gv, artifact_node(xs[k])), output_edge(eid, xs[k])),
            eid,
            xs,
            k + 1,
        )
    }
}

/// The IO graph of execution `eid`: its node, then its distinct consumed
/// artifacts, then its distinct produced artifacts.
pub open spec fn io_spec(s: Store, eid: u64) -> GraphView {
    let g0 = GraphView { nodes: seq![execution_node(eid)], edges: Seq::empty() };
    draw_outputs(
        draw_inputs(g0, eid, input_artifact_ids_spec(s, eid), 0),
        eid,
        output_artifact_ids_spec(s, eid),
        0,
    )
}

#[verifier::rlimit(60)]
fn draw_inputs_exec(s: &Store, g: &mut Graph, eid: u64)
    requires
        s.wf(),
        gv_wf(old(g)@),
        connected_from(old(g)@, execution_node(eid)),
        old(g)@.nodes.len() > 0 && old(g)@.nodes[0] == execution_node(eid),
        old(g)@.nodes.contains(execution_node(eid)),
    ensures
        gv_wf(final(g)@),
        connected_from(final(g)@, execution_node(eid)),
        final(g)@.nodes.len() > 0 && final(g)@.nodes[0] == execution_node(eid),
        final(g)@.nodes.contains(execution_node(eid)),
        final(g)@ == draw_inputs(old(g)@, eid, input_artifact_ids_spec(*s, eid), 0),
{
    let inputs = s.input_artifact_ids(eid);
    let ghost gv0 = g@;
    let mut q: usize = 0;
    while q < inputs.len()
        invariant
            s.wf(),
            q <= inputs@.len(),
            inputs@ == input_artifact_ids_spec(*s, eid),
            gv_wf(g@),
            connected_from(g@, execution_node(eid)),
            g@.nodes.len() > 0 && g@.nodes[0] == execution_node(eid),
            g@.nodes.contains(execution_node(eid)),
            draw_inputs(g@, eid, inputs@, q as int) == draw_inputs(gv0, eid, inputs@, 0),
        decreases inputs@.len() - q,
    {
        let xid = inputs[q];
        let xn = GraphNode { kind: NodeKind::Artifact, id: xid };
        let ghost gvx = g@;
        proof {
            lemma_add_node_wf(gvx, artifact_node(xid));
        }
        g.add_node(xn);
        g.add_edge(
            GraphEdge {
                from: xn,
                to: GraphNode { kind: NodeKind::Execution, id: eid },
                kind: EventType::Input,
            },
        );
        proof {
            crate::graph::lemma_reaches_self(gvx, execution_node(eid));
            lemma_linked_insert(
                gvx,
                execution_node(eid),
                artifact_node(xid),
                execution_node(eid),
                input_edge(xid, eid),
            );
            assert(g@ == add_edge_spec(add_node_spec(gvx, artifact_node(xid)), input_edge(xid, eid)));
        }
        q = q + 1;
    }
}

#[verifier::rlimit(60)]
fn draw_outputs_exec(s: &Store, g: &mut Graph, eid: u64)
    requires
        s.wf(),
        gv_wf(old(g)@),
        connected_from(old(g)@, execution_node(eid)),
        old(g)@.nodes.len() > 0 && old(g)@.nodes[0] == execution_node(eid),
        old(g)@.nodes.contains(execution_node(eid)),
    ensures
        gv_wf(final(g)@),
        connected_from(final(g)@, execution_node(eid)),
        final(g)@.nodes.len() > 0 && final(g)@.nodes[0] == execution_node(eid),
        final(g)@ == draw_outputs(old(g)@, eid, output_artifact_ids_spec(*s, eid), 0),
{
    let outputs = s.output_artifact_ids(eid);
    let ghost gv0 = g@;
    let mut q: usize = 0;
    while q < outputs.len()
        invariant
            s.wf(),
            q <= outputs@.len(),
            outputs@ == output_artifact_ids_spec(*s, eid),
            gv_wf(g@),
            connected_from(g@, execution_node(eid)),
            g@.nodes.len() > 0 && g@.nodes[0] == execution_node(eid),
            g@.nodes.contains(execution_node(eid)),
            draw_outputs(g@, eid, outputs@, q as int) == draw_outputs(gv0, eid, outputs@, 0),
        decreases outputs@.len() - q,
    {
        let xid = outputs[q];
        let xn = GraphNode { kind: NodeKind::Artifact, id: xid };
        let ghost gvx = g@;
        proof {
            lemma_add_node_wf(gvx, artifact_node(xid));
        }
        g.add_node(xn);
        g.add_edge(
            GraphEdge {
                from: GraphNode { kind: NodeKind::Execution, id: eid },
                to: xn,
                kind: EventType::Output,
            },
        );
        proof {
            crate::graph::lemma_reaches_self(gvx, execution_node(eid));
            lemma_linked_insert(
                gvx,
                execution_node(eid),
                artifact_node(xid),
                execution_node(eid),
                output_edge(eid, xid),
            );
            assert(g@ == add_edge_spec(add_node_spec(gvx, artifact_node(xid)), output_edge(eid, xid)));
        }
        q = q + 1;
    }
}

/// Builds the single-hop input/output graph of execution `eid`: exactly
/// the graph `io_spec` describes, well formed, with every node reachable
/// from the execution node, which stands first.  An execution id the
/// store does not know yields `NotFound`, never an empty graph.
pub fn io_graph(s: &Store, eid: u64) -> (res: Result<Graph, GraphError>)
    requires
        s.wf(),
    ensures
        match res {
            Ok(g) => {
                &&& s.execution_by_id(eid) is Some
                &&& g@ == io_spec(*s, eid)
                &&& gv_wf(g@)
                &&& connected_from(g@, execution_node(eid))
                &&& g@.nodes.len() > 0 && g@.nodes[0] == execution_node(eid)
            },
            Err(e) => e == GraphError::NotFound && s.execution_by_id(eid) is None,
        },
{
    if s.find_execution(eid).is_none() {
        return Err(GraphError::NotFound);
    }
    let mut g = Graph::new();
    g.add_node(GraphNode { kind: NodeKind::Execution, id: eid });
    proof {
        assert(g@.nodes =~= seq![execution_node(eid)]);
        assert(g@.edges =~= Seq::<GraphEdge>::empty());
        assert(g@.nodes[0] == execution_node(eid));
        assert(g@.nodes.contains(execution_node(eid)));
        crate::graph::lemma_reaches_self(g@, execution_node(eid));
    }
    draw_inputs_exec(s, &mut g, eid);
    draw_outputs_exec(s, &mut g, eid);
    Ok(g)
}

/// Building the IO graph of the same execution twice against an
/// unchanged store gives the same graph.
pub proof fn lemma_io_deterministic(s: Store, eid: u64, g1: GraphView, g2: GraphView)
    requires
        g1 == io_spec(s, eid),
        g2 == io_spec(s, eid),
    ensures
        g1 == g2,
{
}

} // verus!
