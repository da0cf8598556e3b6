use mlmdquery::entity::{Artifact, ArtifactState, Event, EventType, Execution, ExecutionState};
use mlmdquery::graph::GraphError;
use mlmdquery::store::Store;

fn artifact(id: u64) -> Artifact {
    Artifact {
        id,
        type_id: 100,
        uri: format!("s3://a{}", id),
        name: None,
        state: ArtifactState::Live,
        create_time: 1,
        update_time: 2,
    }
}

fn execution(id: u64) -> Execution {
    Execution {
        id,
        type_id: 200,
        name: None,
        state: ExecutionState::Complete,
        create_time: 3,
        update_time: 4,
    }
}

fn event(artifact_id: u64, execution_id: u64, event_type: EventType, timestamp: u64) -> Event {
    Event { artifact_id, execution_id, event_type, timestamp }
}

fn resolver_store() -> Store {
    let mut s = Store::new();
    assert!(s.add_artifact(artifact(1)));
    assert!(s.add_artifact(artifact(2)));
    assert!(s.add_artifact(artifact(3)));
    assert!(s.add_execution(execution(20)));
    assert!(s.add_execution(execution(10)));
    s.add_event(event(1, 20, EventType::Output, 5));
    s.add_event(event(1, 10, EventType::Output, 6));
    s.add_event(event(1, 10, EventType::Output, 7));
    s.add_event(event(2, 10, EventType::Input, 8));
    s.add_event(event(3, 10, EventType::DeclaredInput, 9));
    s.add_event(event(3, 10, EventType::Output, 10));
    s
}

#[test]
fn events_for_artifact_keeps_log_order() {
    let s = resolver_store();
    let evs = s.events_for_artifact(1);
    assert_eq!(evs.len(), 3);
    assert_eq!(evs[0].execution_id, 20);
    assert_eq!(evs[1].execution_id, 10);
    assert_eq!(evs[2].timestamp, 7);
}

#[test]
fn events_for_execution_keeps_log_order() {
    let s = resolver_store();
    let evs = s.events_for_execution(10);
    assert_eq!(evs.len(), 5);
    assert!(evs.iter().all(|e| e.execution_id == 10));
}

#[test]
fn producer_ids_are_ascending_and_unique() {
    let s = resolver_store();
    assert_eq!(s.producer_ids(1), vec![10, 20]);
    assert_eq!(s.producer_ids(3), vec![10]);
    assert_eq!(s.producer_ids(2), Vec::<u64>::new());
}

#[test]
fn input_and_output_artifact_ids_partition_by_direction() {
    let s = resolver_store();
    assert_eq!(s.input_artifact_ids(10), vec![2, 3]);
    assert_eq!(s.output_artifact_ids(10), vec![1, 3]);
    assert_eq!(s.input_artifact_ids(20), Vec::<u64>::new());
}

#[test]
fn producers_referencing_absent_executions_are_dropped() {
    let mut s = resolver_store();
    s.add_event(event(1, 777, EventType::Output, 11));
    assert_eq!(s.producer_ids(1), vec![10, 20]);
}

#[test]
fn find_looks_entities_up_by_id() {
    let s = resolver_store();
    assert_eq!(s.find_artifact(2).map(|a| a.id), Some(2));
    assert!(s.find_artifact(9).is_none());
    assert_eq!(s.find_execution(20).map(|e| e.id), Some(20));
    assert!(s.find_execution(9).is_none());
}

#[test]
fn batch_resolution_keeps_order_and_drops_unknown_ids() {
    let s = resolver_store();
    let got = s.resolve_artifacts(&vec![3, 99, 1]);
    let ids: Vec<u64> = got.iter().map(|a| a.id).collect();
    assert_eq!(ids, vec![3, 1]);
    let got = s.resolve_executions(&vec![10, 20, 10]);
    let ids: Vec<u64> = got.iter().map(|e| e.id).collect();
    assert_eq!(ids, vec![10, 20, 10]);
}

#[test]
fn not_found_error_carries_a_message() {
    assert_eq!(GraphError::NotFound.message(), "no such entity in the store");
}
