use mlmdquery::dot::to_dot;
use mlmdquery::entity::{Artifact, ArtifactState, Event, EventType, Execution, ExecutionState};
use mlmdquery::graph::Graph;
use mlmdquery::iograph::io_graph;
use mlmdquery::lineage::lineage_graph;
use mlmdquery::store::Store;

fn store_with(uri: &str) -> Store {
    let mut s = Store::new();
    assert!(s.add_artifact(Artifact {
        id: 1,
        type_id: 100,
        uri: uri.to_string(),
        name: None,
        state: ArtifactState::Live,
        create_time: 1,
        update_time: 2,
    }));
    assert!(s.add_artifact(Artifact {
        id: 2,
        type_id: 100,
        uri: "s3://a2".to_string(),
        name: None,
        state: ArtifactState::Pending,
        create_time: 3,
        update_time: 4,
    }));
    assert!(s.add_execution(Execution {
        id: 10,
        type_id: 200,
        name: Some("train".to_string()),
        state: ExecutionState::Complete,
        create_time: 5,
        update_time: 6,
    }));
    s.add_event(Event {
        artifact_id: 1,
        execution_id: 10,
        event_type: EventType::Output,
        timestamp: 40,
    });
    s.add_event(Event {
        artifact_id: 2,
        execution_id: 10,
        event_type: EventType::Input,
        timestamp: 39,
    });
    s
}

#[test]
fn lineage_serializes_to_the_exact_expected_text() {
    let s = store_with("s3://a1");
    let g = lineage_graph(&s, 1, None).unwrap();
    let text = to_dot(&s, &g);
    let expected: String = [
        "digraph {\n",
        "  \"artifact_1\" [shape=box, label=\"Artifact 1: s3://a1 [LIVE]\"];\n",
        "  \"execution_10\" [shape=ellipse, label=\"Execution 10: train [COMPLETE]\"];\n",
        "  \"artifact_2\" [shape=box, label=\"Artifact 2: s3://a2 [PENDING]\"];\n",
        "  \"execution_10\" -> \"artifact_1\" [label=\"OUTPUT\"];\n",
        "  \"artifact_2\" -> \"execution_10\" [label=\"INPUT\"];\n",
        "}\n",
    ]
    .concat();
    assert_eq!(text, expected);
}

#[test]
fn serializing_the_same_lineage_twice_is_byte_identical() {
    let s = store_with("s3://a1");
    let g1 = lineage_graph(&s, 1, None).unwrap();
    let t1 = to_dot(&s, &g1);
    let g2 = lineage_graph(&s, 1, None).unwrap();
    let t2 = to_dot(&s, &g2);
    assert_eq!(t1, t2);
}

#[test]
fn node_declarations_precede_every_edge() {
    let s = store_with("s3://a1");
    let g = io_graph(&s, 10).unwrap();
    let text = to_dot(&s, &g);
    let first_edge = text.find("->").unwrap();
    let last_shape = text.rfind("shape=").unwrap();
    assert!(last_shape < first_edge);
}

#[test]
fn labels_escape_quotes_and_backslashes() {
    let s = store_with("s3://a\"b\\c");
    let g = lineage_graph(&s, 1, Some(0)).unwrap();
    let text = to_dot(&s, &g);
    assert!(text.contains("label=\"Artifact 1: s3://a\\\"b\\\\c [LIVE]\""));
}

#[test]
fn empty_graph_renders_header_and_brace_only() {
    let s = Store::new();
    let g = Graph { nodes: Vec::new(), edges: Vec::new() };
    assert_eq!(to_dot(&s, &g), "digraph {\n}\n");
}

#[test]
fn large_and_zero_ids_render_in_full_decimal() {
    let mut s = Store::new();
    assert!(s.add_artifact(Artifact {
        id: 0,
        type_id: 100,
        uri: "s3://zero".to_string(),
        name: None,
        state: ArtifactState::Unknown,
        create_time: 0,
        update_time: 0,
    }));
    assert!(s.add_artifact(Artifact {
        id: u64::MAX,
        type_id: 100,
        uri: "s3://max".to_string(),
        name: None,
        state: ArtifactState::Deleted,
        create_time: 0,
        update_time: 0,
    }));
    let g0 = lineage_graph(&s, 0, None).unwrap();
    assert!(to_dot(&s, &g0).contains("\"artifact_0\" [shape=box, label=\"Artifact 0: s3://zero [UNKNOWN]\"];"));
    let gm = lineage_graph(&s, u64::MAX, None).unwrap();
    assert!(to_dot(&s, &gm).contains("artifact_18446744073709551615"));
}

#[test]
fn nodes_the_store_no_longer_knows_keep_id_only_labels() {
    let s = store_with("s3://a1");
    let g = lineage_graph(&s, 1, None).unwrap();
    let bare = Store::new();
    let text = to_dot(&bare, &g);
    assert!(text.contains("label=\"Artifact 1\""));
    assert!(text.contains("label=\"Execution 10\""));
}
