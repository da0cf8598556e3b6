use mlmdquery::entity::{Artifact, ArtifactState, Event, EventType, Execution, ExecutionState};
use mlmdquery::graph::{GraphError, GraphNode, NodeKind};
use mlmdquery::iograph::io_graph;
use mlmdquery::lineage::lineage_graph;
use mlmdquery::store::Store;

fn artifact(id: u64, uri: &str) -> Artifact {
    Artifact {
        id,
        type_id: 100,
        uri: uri.to_string(),
        name: None,
        state: ArtifactState::Live,
        create_time: 1,
        update_time: 2,
    }
}

fn execution(id: u64) -> Execution {
    Execution {
        id,
        type_id: 200,
        name: None,
        state: ExecutionState::Complete,
        create_time: 3,
        update_time: 4,
    }
}

fn event(artifact_id: u64, execution_id: u64, event_type: EventType, timestamp: u64) -> Event {
    Event { artifact_id, execution_id, event_type, timestamp }
}

fn anode(id: u64) -> GraphNode {
    GraphNode { kind: NodeKind::Artifact, id }
}

fn enode(id: u64) -> GraphNode {
    GraphNode { kind: NodeKind::Execution, id }
}

/// A1 (id 1) was produced by E1 (id 10), which consumed A2 (id 2).
fn small_lineage_store() -> Store {
    let mut s = Store::new();
    assert!(s.add_artifact(artifact(1, "s3://a1")));
    assert!(s.add_artifact(artifact(2, "s3://a2")));
    assert!(s.add_execution(execution(10)));
    s.add_event(event(1, 10, EventType::Output, 40));
    s.add_event(event(2, 10, EventType::Input, 39));
    s
}

#[test]
fn lineage_scenario_nodes_and_edges() {
    let s = small_lineage_store();
    let g = lineage_graph(&s, 1, None).unwrap();
    assert_eq!(g.nodes, vec![anode(1), enode(10), anode(2)]);
    assert_eq!(g.edges.len(), 2);
    assert_eq!(g.edges[0].from, enode(10));
    assert_eq!(g.edges[0].to, anode(1));
    assert_eq!(g.edges[0].kind, EventType::Output);
    assert_eq!(g.edges[1].from, anode(2));
    assert_eq!(g.edges[1].to, enode(10));
    assert_eq!(g.edges[1].kind, EventType::Input);
}

#[test]
fn lineage_of_unknown_artifact_is_not_found() {
    let s = small_lineage_store();
    assert_eq!(lineage_graph(&s, 999, None), Err(GraphError::NotFound));
}

#[test]
fn io_of_unknown_execution_is_not_found() {
    let s = small_lineage_store();
    assert_eq!(io_graph(&s, 99999), Err(GraphError::NotFound));
}

#[test]
fn depth_one_stops_after_the_first_producer_ring() {
    // A1 <- E10 <- {A2, A3}; A2 itself was produced by E20.
    let mut s = Store::new();
    assert!(s.add_artifact(artifact(1, "s3://a1")));
    assert!(s.add_artifact(artifact(2, "s3://a2")));
    assert!(s.add_artifact(artifact(3, "s3://a3")));
    assert!(s.add_execution(execution(10)));
    assert!(s.add_execution(execution(20)));
    s.add_event(event(1, 10, EventType::Output, 1));
    s.add_event(event(2, 10, EventType::Input, 2));
    s.add_event(event(3, 10, EventType::Input, 3));
    s.add_event(event(2, 20, EventType::Output, 4));

    let bounded = lineage_graph(&s, 1, Some(1)).unwrap();
    assert_eq!(bounded.nodes, vec![anode(1), enode(10), anode(2), anode(3)]);
    assert_eq!(bounded.edges.len(), 3);

    let full = lineage_graph(&s, 1, None).unwrap();
    assert!(full.nodes.contains(&enode(20)));
    assert_eq!(full.nodes.len(), 5);
    assert_eq!(full.edges.len(), 4);
}

#[test]
fn no_node_repeats_even_with_shared_ancestors() {
    // A1 was produced by both E10 and E20, and both consumed A2.
    let mut s = Store::new();
    assert!(s.add_artifact(artifact(1, "s3://a1")));
    assert!(s.add_artifact(artifact(2, "s3://a2")));
    assert!(s.add_execution(execution(10)));
    assert!(s.add_execution(execution(20)));
    s.add_event(event(1, 10, EventType::Output, 1));
    s.add_event(event(1, 20, EventType::Output, 2));
    s.add_event(event(2, 10, EventType::Input, 3));
    s.add_event(event(2, 20, EventType::Input, 4));

    let g = lineage_graph(&s, 1, None).unwrap();
    for i in 0..g.nodes.len() {
        for j in 0..i {
            assert_ne!(g.nodes[i], g.nodes[j]);
        }
    }
    assert_eq!(g.nodes, vec![anode(1), enode(10), anode(2), enode(20)]);
    assert_eq!(g.edges.len(), 4);
}

#[test]
fn cyclic_event_structure_terminates() {
    // A1 <- E10 <- A2 <- E20 <- A1: a cycle the guard must not loop on.
    let mut s = Store::new();
    assert!(s.add_artifact(artifact(1, "s3://a1")));
    assert!(s.add_artifact(artifact(2, "s3://a2")));
    assert!(s.add_execution(execution(10)));
    assert!(s.add_execution(execution(20)));
    s.add_event(event(1, 10, EventType::Output, 1));
    s.add_event(event(2, 10, EventType::Input, 2));
    s.add_event(event(2, 20, EventType::Output, 3));
    s.add_event(event(1, 20, EventType::Input, 4));

    let g = lineage_graph(&s, 1, None).unwrap();
    assert_eq!(g.nodes.len(), 4);
    for i in 0..g.nodes.len() {
        for j in 0..i {
            assert_ne!(g.nodes[i], g.nodes[j]);
        }
    }
}

#[test]
fn declared_and_internal_events_count_toward_their_direction() {
    let mut s = Store::new();
    assert!(s.add_artifact(artifact(1, "s3://a1")));
    assert!(s.add_artifact(artifact(2, "s3://a2")));
    assert!(s.add_execution(execution(10)));
    s.add_event(event(1, 10, EventType::DeclaredOutput, 1));
    s.add_event(event(2, 10, EventType::InternalInput, 2));

    let g = lineage_graph(&s, 1, None).unwrap();
    assert_eq!(g.nodes, vec![anode(1), enode(10), anode(2)]);
}

#[test]
fn unknown_events_draw_nothing() {
    let mut s = Store::new();
    assert!(s.add_artifact(artifact(1, "s3://a1")));
    assert!(s.add_execution(execution(10)));
    s.add_event(event(1, 10, EventType::Unknown, 1));

    let g = lineage_graph(&s, 1, None).unwrap();
    assert_eq!(g.nodes, vec![anode(1)]);
    assert!(g.edges.is_empty());
}

#[test]
fn events_naming_absent_entities_are_skipped() {
    let mut s = Store::new();
    assert!(s.add_artifact(artifact(1, "s3://a1")));
    assert!(s.add_execution(execution(10)));
    s.add_event(event(1, 10, EventType::Output, 1));
    s.add_event(event(7, 10, EventType::Input, 2));
    s.add_event(event(1, 77, EventType::Output, 3));

    let g = lineage_graph(&s, 1, None).unwrap();
    assert_eq!(g.nodes, vec![anode(1), enode(10)]);
    assert_eq!(g.edges.len(), 1);
}

#[test]
fn io_graph_shape_two_inputs_one_output() {
    let mut s = Store::new();
    assert!(s.add_artifact(artifact(1, "s3://in1")));
    assert!(s.add_artifact(artifact(2, "s3://in2")));
    assert!(s.add_artifact(artifact(3, "s3://out")));
    assert!(s.add_execution(execution(10)));
    s.add_event(event(1, 10, EventType::Input, 1));
    s.add_event(event(2, 10, EventType::Input, 2));
    s.add_event(event(3, 10, EventType::Output, 3));

    let g = io_graph(&s, 10).unwrap();
    assert_eq!(g.nodes.len(), 4);
    assert_eq!(g.edges.len(), 3);
    assert_eq!(g.nodes, vec![enode(10), anode(1), anode(2), anode(3)]);
    assert_eq!(g.edges[0].from, anode(1));
    assert_eq!(g.edges[0].to, enode(10));
    assert_eq!(g.edges[1].from, anode(2));
    assert_eq!(g.edges[2].from, enode(10));
    assert_eq!(g.edges[2].to, anode(3));
}

#[test]
fn io_graph_artifact_both_read_and_written_appears_once() {
    let mut s = Store::new();
    assert!(s.add_artifact(artifact(1, "s3://both")));
    assert!(s.add_execution(execution(10)));
    s.add_event(event(1, 10, EventType::Input, 1));
    s.add_event(event(1, 10, EventType::Output, 2));

    let g = io_graph(&s, 10).unwrap();
    assert_eq!(g.nodes, vec![enode(10), anode(1)]);
    assert_eq!(g.edges.len(), 2);
}

#[test]
fn building_twice_gives_equal_graphs() {
    let s = small_lineage_store();
    let g1 = lineage_graph(&s, 1, None).unwrap();
    let g2 = lineage_graph(&s, 1, None).unwrap();
    assert_eq!(g1, g2);
    let h1 = io_graph(&s, 10).unwrap();
    let h2 = io_graph(&s, 10).unwrap();
    assert_eq!(h1, h2);
}
