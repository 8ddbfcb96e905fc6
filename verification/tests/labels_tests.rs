use logship::labels::{format_labels, LabelMap};
use logship::level::{all_severities, Severity};

#[test]
fn severities_are_totally_ordered_by_rank() {
    let sevs = all_severities();
    assert_eq!(sevs.len(), 5);
    assert_eq!(sevs[0], Severity::Trace);
    assert_eq!(sevs[4], Severity::Error);
    for (i, s) in sevs.iter().enumerate() {
        assert_eq!(s.rank() as usize, i);
    }
    assert_eq!(Severity::Warn.name(), "warn");
}

#[test]
fn labels_include_level_and_keep_insertion_order() {
    let mut m = LabelMap::new();
    m.insert("app", "shop");
    m.insert("host", "web1");
    let s = format_labels(&m, Severity::Info);
    assert_eq!(s, "{app=\"shop\",host=\"web1\",level=\"info\"}");
}

#[test]
fn level_label_replaces_a_configured_level() {
    let mut m = LabelMap::new();
    m.insert("level", "configured");
    m.insert("app", "shop");
    let s = format_labels(&m, Severity::Error);
    assert_eq!(s, "{level=\"error\",app=\"shop\"}");
}

#[test]
fn empty_label_set_serializes_to_level_alone() {
    let m = LabelMap::new();
    assert_eq!(format_labels(&m, Severity::Trace), "{level=\"trace\"}");
    assert_eq!(format_labels(&m, Severity::Debug), "{level=\"debug\"}");
    assert_eq!(format_labels(&m, Severity::Warn), "{level=\"warn\"}");
}

#[test]
fn label_values_are_escaped_like_debug_strings() {
    let mut m = LabelMap::new();
    m.insert("k", "a\"b\\c");
    assert_eq!(
        format_labels(&m, Severity::Info),
        "{k=\"a\\\"b\\\\c\",level=\"info\"}"
    );
    let mut n = LabelMap::new();
    n.insert("k", "x\ny");
    assert_eq!(format_labels(&n, Severity::Info), "{k=\"x\\ny\",level=\"info\"}");
}

#[test]
fn inserting_an_existing_name_replaces_in_place() {
    let mut m = LabelMap::new();
    m.insert("a", "1");
    m.insert("b", "2");
    m.insert("a", "3");
    assert_eq!(m.len(), 2);
    let items = m.items();
    assert_eq!(items[0].name, "a");
    assert_eq!(items[0].value, "3");
    assert_eq!(items[1].name, "b");
    assert_eq!(items[1].value, "2");
}
