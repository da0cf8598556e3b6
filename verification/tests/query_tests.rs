use mlmdquery::entity::{
    Artifact, ArtifactState, Context, Event, EventType, Execution, ExecutionState, TypeKind,
    TypeRecord,
};
use mlmdquery::filter::{EntityFilter, EventFilter, OrderField, TypeFilter};
use mlmdquery::query::{
    count_artifact_types, count_artifacts, count_contexts, count_events, count_executions,
    get_artifact_types, get_artifacts, get_contexts, get_events, get_executions,
};
use mlmdquery::store::Store;

fn artifact(id: u64, type_id: u64, uri: &str, create: u64, update: u64) -> Artifact {
    Artifact {
        id,
        type_id,
        uri: uri.to_string(),
        name: None,
        state: ArtifactState::Live,
        create_time: create,
        update_time: update,
    }
}

fn execution(id: u64, type_id: u64, name: Option<&str>) -> Execution {
    Execution {
        id,
        type_id,
        name: name.map(|s| s.to_string()),
        state: ExecutionState::Complete,
        create_time: 5,
        update_time: 6,
    }
}

fn sample_store() -> Store {
    let mut s = Store::new();
    assert!(s.add_type(TypeRecord {
        id: 100,
        kind: TypeKind::Artifact,
        name: "DataSet".to_string(),
    }));
    assert!(s.add_type(TypeRecord {
        id: 101,
        kind: TypeKind::Artifact,
        name: "Model".to_string(),
    }));
    assert!(s.add_type(TypeRecord {
        id: 200,
        kind: TypeKind::Execution,
        name: "Trainer".to_string(),
    }));
    assert!(s.add_artifact(artifact(3, 100, "s3://a3", 30, 31)));
    assert!(s.add_artifact(artifact(1, 100, "s3://a1", 10, 11)));
    assert!(s.add_artifact(artifact(2, 101, "s3://a2", 20, 21)));
    assert!(s.add_execution(execution(10, 200, Some("train"))));
    assert!(s.add_execution(execution(11, 200, None)));
    assert!(s.add_context(Context {
        id: 50,
        type_id: 300,
        name: "run-1".to_string(),
        create_time: 1,
        update_time: 2,
    }));
    s.add_attribution(50, 1);
    s.add_association(50, 10);
    s.add_event(Event {
        artifact_id: 1,
        execution_id: 10,
        event_type: EventType::Output,
        timestamp: 40,
    });
    s.add_event(Event {
        artifact_id: 2,
        execution_id: 10,
        event_type: EventType::Input,
        timestamp: 39,
    });
    s
}

#[test]
fn get_orders_by_id_ascending_by_default() {
    let s = sample_store();
    let got = get_artifacts(&s, &EntityFilter::default());
    let ids: Vec<u64> = got.iter().map(|a| a.id).collect();
    assert_eq!(ids, vec![1, 2, 3]);
}

#[test]
fn get_respects_descending_order() {
    let s = sample_store();
    let mut f = EntityFilter::default();
    f.is_asc = false;
    let ids: Vec<u64> = get_artifacts(&s, &f).iter().map(|a| a.id).collect();
    assert_eq!(ids, vec![3, 2, 1]);
}

#[test]
fn get_orders_by_create_time() {
    let s = sample_store();
    let mut f = EntityFilter::default();
    f.order_by = OrderField::CreateTime;
    let ids: Vec<u64> = get_artifacts(&s, &f).iter().map(|a| a.id).collect();
    assert_eq!(ids, vec![1, 2, 3]);
}

#[test]
fn get_applies_limit_after_ordering() {
    let s = sample_store();
    let mut f = EntityFilter::default();
    f.limit = Some(2);
    let ids: Vec<u64> = get_artifacts(&s, &f).iter().map(|a| a.id).collect();
    assert_eq!(ids, vec![1, 2]);
}

#[test]
fn count_ignores_limit() {
    let s = sample_store();
    let mut f = EntityFilter::default();
    f.limit = Some(1);
    assert_eq!(count_artifacts(&s, &f), 3);
}

#[test]
fn get_twice_yields_identical_sequences() {
    let s = sample_store();
    let mut f = EntityFilter::default();
    f.order_by = OrderField::UpdateTime;
    f.is_asc = false;
    let first = get_artifacts(&s, &f);
    let second = get_artifacts(&s, &f);
    assert_eq!(first, second);
}

#[test]
fn count_agrees_with_unlimited_get_for_any_filter() {
    let s = sample_store();
    let mut f = EntityFilter::default();
    f.ty_name = Some("DataSet".to_string());
    assert_eq!(count_artifacts(&s, &f), get_artifacts(&s, &f).len());
    let g = EntityFilter::default();
    assert_eq!(count_artifacts(&s, &g), get_artifacts(&s, &g).len());
    let e = EventFilter::default();
    assert_eq!(count_events(&s, &e), get_events(&s, &e).len());
}

#[test]
fn filter_by_ids_keeps_listed_entities_only() {
    let s = sample_store();
    let mut f = EntityFilter::default();
    f.ids = Some(vec![2, 3, 99]);
    let ids: Vec<u64> = get_artifacts(&s, &f).iter().map(|a| a.id).collect();
    assert_eq!(ids, vec![2, 3]);
}

#[test]
fn filter_by_uri_matches_exactly() {
    let s = sample_store();
    let mut f = EntityFilter::default();
    f.uri = Some("s3://a2".to_string());
    let got = get_artifacts(&s, &f);
    assert_eq!(got.len(), 1);
    assert_eq!(got[0].id, 2);
}

#[test]
fn filter_by_type_name_resolves_through_registry() {
    let s = sample_store();
    let mut f = EntityFilter::default();
    f.ty_name = Some("DataSet".to_string());
    let ids: Vec<u64> = get_artifacts(&s, &f).iter().map(|a| a.id).collect();
    assert_eq!(ids, vec![1, 3]);
}

#[test]
fn filter_by_type_name_list_accepts_any_listed_name() {
    let s = sample_store();
    let mut f = EntityFilter::default();
    f.type_names = Some(vec!["Model".to_string(), "NoSuch".to_string()]);
    let ids: Vec<u64> = get_artifacts(&s, &f).iter().map(|a| a.id).collect();
    assert_eq!(ids, vec![2]);
}

#[test]
fn filter_by_context_membership() {
    let s = sample_store();
    let mut f = EntityFilter::default();
    f.context_id = Some(50);
    let ids: Vec<u64> = get_artifacts(&s, &f).iter().map(|a| a.id).collect();
    assert_eq!(ids, vec![1]);
    let eids: Vec<u64> = get_executions(&s, &f).iter().map(|e| e.id).collect();
    assert_eq!(eids, vec![10]);
}

#[test]
fn time_bounds_are_inclusive_on_both_ends() {
    let s = sample_store();
    let mut f = EntityFilter::default();
    f.create_time_since = Some(10);
    f.create_time_until = Some(20);
    let ids: Vec<u64> = get_artifacts(&s, &f).iter().map(|a| a.id).collect();
    assert_eq!(ids, vec![1, 2]);
}

#[test]
fn overconstrained_filter_matches_nothing_rather_than_failing() {
    let s = sample_store();
    let mut f = EntityFilter::default();
    f.ids = Some(vec![1]);
    f.uri = Some("s3://a2".to_string());
    assert_eq!(count_artifacts(&s, &f), 0);
    assert!(get_artifacts(&s, &f).is_empty());
}

#[test]
fn executions_filter_by_name() {
    let s = sample_store();
    let mut f = EntityFilter::default();
    f.name = Some("train".to_string());
    let got = get_executions(&s, &f);
    assert_eq!(got.len(), 1);
    assert_eq!(got[0].id, 10);
    assert_eq!(count_executions(&s, &f), 1);
}

#[test]
fn contexts_are_counted_and_fetched() {
    let s = sample_store();
    let f = EntityFilter::default();
    assert_eq!(count_contexts(&s, &f), 1);
    let got = get_contexts(&s, &f);
    assert_eq!(got[0].name, "run-1".to_string());
}

#[test]
fn type_registry_queries_filter_by_name_and_id() {
    let s = sample_store();
    let f = TypeFilter::default();
    assert_eq!(count_artifact_types(&s, &f), 2);
    let all = get_artifact_types(&s, &f);
    let ids: Vec<u64> = all.iter().map(|t| t.id).collect();
    assert_eq!(ids, vec![100, 101]);
    let named = TypeFilter {
        ids: None,
        name: Some("Model".to_string()),
        limit: None,
        is_asc: true,
    };
    let got = get_artifact_types(&s, &named);
    assert_eq!(got.len(), 1);
    assert_eq!(got[0].id, 101);
}

#[test]
fn events_are_ordered_by_timestamp() {
    let s = sample_store();
    let f = EventFilter::default();
    let got = get_events(&s, &f);
    let stamps: Vec<u64> = got.iter().map(|e| e.timestamp).collect();
    assert_eq!(stamps, vec![39, 40]);
}

#[test]
fn events_filter_by_execution_and_artifact_ids() {
    let s = sample_store();
    let mut f = EventFilter::default();
    f.execution_ids = Some(vec![10]);
    assert_eq!(count_events(&s, &f), 2);
    f.artifact_ids = Some(vec![1]);
    let got = get_events(&s, &f);
    assert_eq!(got.len(), 1);
    assert_eq!(got[0].event_type, EventType::Output);
}

#[test]
fn duplicate_ids_are_refused_by_the_snapshot() {
    let mut s = sample_store();
    assert!(!s.add_artifact(artifact(1, 100, "s3://dup", 1, 1)));
    assert!(!s.add_execution(execution(10, 200, None)));
    assert_eq!(count_artifacts(&s, &EntityFilter::default()), 3);
}
