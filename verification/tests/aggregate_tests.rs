use logship::buffer::Buffer;
use logship::entry::LabelPair;
use logship::layer::{is_self_event, Layer};
use logship::level::Severity;
use logship::scope::ScopeTable;
use logship::Builder;

fn pair(name: &str, value: &str) -> LabelPair {
    LabelPair::new(name, value)
}

fn names_and_values(ps: &[LabelPair]) -> Vec<(String, String)> {
    ps.iter().map(|p| (p.name.clone(), p.value.clone())).collect()
}

#[test]
fn aggregation_orders_root_to_leaf() {
    let mut table = ScopeTable::new();
    table.on_scope_created(1, None, &vec![pair("a", "1")]);
    table.on_scope_created(2, Some(1), &vec![pair("b", "2")]);
    let agg = table.aggregate(2);
    assert_eq!(
        names_and_values(&agg),
        vec![("a".to_string(), "1".to_string()), ("b".to_string(), "2".to_string())]
    );
}

#[test]
fn event_fields_follow_aggregated_scope_fields() {
    let (mut layer, _task) = Builder::new("http://localhost:3100/push").unwrap().build();
    layer.scopes.on_scope_created(1, None, &vec![pair("a", "1")]);
    layer.scopes.on_scope_created(2, Some(1), &vec![pair("b", "2")]);
    let mut buf = Buffer::new();
    layer.on_event(
        &mut buf,
        "myapp::handlers",
        "logship",
        Some(2),
        Severity::Info,
        "hello".to_string(),
        vec![pair("c", "3")],
        7,
        9,
    );
    let drained = buf.drain_all();
    assert_eq!(drained.len(), 1);
    let e = &drained[0].entry;
    assert_eq!(e.line, "hello");
    assert_eq!(e.ts_secs, 7);
    assert_eq!(e.ts_nanos, 9);
    assert_eq!(
        names_and_values(&e.structured_metadata),
        vec![
            ("a".to_string(), "1".to_string()),
            ("b".to_string(), "2".to_string()),
            ("c".to_string(), "3".to_string()),
        ]
    );
    assert!(e.parsed.is_empty());
}

#[test]
fn later_recorded_fields_replace_earlier_values() {
    let mut table = ScopeTable::new();
    table.on_scope_created(5, None, &vec![pair("x", "old"), pair("y", "1")]);
    table.on_fields_recorded(5, &vec![pair("x", "new")]);
    let agg = table.aggregate(5);
    assert_eq!(
        names_and_values(&agg),
        vec![("x".to_string(), "new".to_string()), ("y".to_string(), "1".to_string())]
    );
}

#[test]
fn scope_without_fields_contributes_nothing() {
    let mut table = ScopeTable::new();
    table.on_scope_created(1, None, &vec![]);
    table.on_scope_created(2, Some(1), &vec![pair("b", "2")]);
    let agg = table.aggregate(2);
    assert_eq!(names_and_values(&agg), vec![("b".to_string(), "2".to_string())]);
    assert!(table.aggregate(1).is_empty());
}

#[test]
fn duplicate_scope_creation_is_ignored() {
    let mut table = ScopeTable::new();
    table.on_scope_created(1, None, &vec![pair("a", "1")]);
    table.on_scope_created(1, None, &vec![pair("a", "other")]);
    let agg = table.aggregate(1);
    assert_eq!(names_and_values(&agg), vec![("a".to_string(), "1".to_string())]);
}

#[test]
fn self_events_never_reach_the_buffer() {
    let (layer, _task) = Builder::new("http://localhost:3100/push").unwrap().build();
    let mut buf = Buffer::new();
    layer.on_event(
        &mut buf,
        "logship::task",
        "logship",
        None,
        Severity::Error,
        "internal failure".to_string(),
        vec![],
        1,
        0,
    );
    assert!(buf.is_empty());
    layer.on_event(
        &mut buf,
        "other_crate::module",
        "logship",
        None,
        Severity::Error,
        "real event".to_string(),
        vec![],
        1,
        0,
    );
    assert_eq!(buf.len(), 1);
}

#[test]
fn self_origin_is_a_prefix_test() {
    assert!(is_self_event("logship", "logship"));
    assert!(is_self_event("logship::layer", "logship"));
    assert!(!is_self_event("logshi", "logship"));
    assert!(!is_self_event("my_logship", "logship"));
    assert!(!is_self_event("", "logship"));
    assert!(is_self_event("shipd::sender", "shipd"));
    assert!(!is_self_event("shipd::sender", "logship"));
}
