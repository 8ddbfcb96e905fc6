use logship::batch::{build_streams, encode_batch};
use logship::entry::{Entry, EventWrapper, LabelPair};
use logship::labels::LabelMap;
use logship::level::Severity;
use logship::Builder;

fn event(line: &str, level: Severity) -> EventWrapper {
    EventWrapper {
        entry: Entry {
            ts_secs: 10,
            ts_nanos: 20,
            line: line.to_string(),
            structured_metadata: vec![],
            parsed: vec![],
        },
        level,
    }
}

#[test]
fn grouping_yields_one_stream_per_severity_present() {
    let drained = vec![
        event("first info", Severity::Info),
        event("the error", Severity::Error),
        event("second info", Severity::Info),
    ];
    let labels = LabelMap::new();
    let streams = build_streams(&drained, &labels, &vec![]);
    assert_eq!(streams.len(), 2);
    assert_eq!(streams[0].labels, "{level=\"info\"}");
    assert_eq!(streams[0].entries.len(), 2);
    assert_eq!(streams[0].entries[0].line, "first info");
    assert_eq!(streams[0].entries[1].line, "second info");
    assert_eq!(streams[1].labels, "{level=\"error\"}");
    assert_eq!(streams[1].entries.len(), 1);
    assert_eq!(streams[1].entries[0].line, "the error");
}

#[test]
fn static_fields_are_appended_to_each_entry() {
    let drained = vec![event("x", Severity::Warn)];
    let labels = LabelMap::new();
    let fields = vec![LabelPair::new("env", "prod")];
    let streams = build_streams(&drained, &labels, &fields);
    assert_eq!(streams.len(), 1);
    let meta = &streams[0].entries[0].structured_metadata;
    assert_eq!(meta.len(), 1);
    assert_eq!(meta[0].name, "env");
    assert_eq!(meta[0].value, "prod");
}

#[test]
fn empty_cycle_sends_nothing() {
    let (_layer, mut task) = Builder::new("http://localhost:3100/push").unwrap().build();
    assert!(!task.has_pending());
    let (send, rejected) = task.begin_cycle(vec![]);
    assert!(!send);
    assert!(rejected.is_none());
    assert!(!task.has_pending());
    assert!(task.pending_data().is_empty());
}

#[test]
fn failed_send_retries_the_identical_bytes() {
    let (_layer, mut task) = Builder::new("http://localhost:3100/push").unwrap().build();
    let (send, rejected) = task.begin_cycle(vec![event("hello", Severity::Info)]);
    assert!(send);
    assert!(rejected.is_none());
    let first_attempt = task.pending_data().clone();
    assert!(!first_attempt.is_empty());
    task.on_send_result(false);
    assert!(task.has_pending());
    let second_attempt = task.pending_data().clone();
    assert_eq!(first_attempt, second_attempt);
    task.on_send_result(true);
    assert!(!task.has_pending());
    assert!(task.pending_data().is_empty());
}

#[test]
fn pending_batch_survives_cycles_without_redraining() {
    let (_layer, mut task) = Builder::new("http://localhost:3100/push").unwrap().build();
    assert!(task.begin_cycle(vec![event("a", Severity::Debug)]).0);
    let bytes = task.pending_data().clone();
    task.on_send_result(false);
    // The next cycle must not re-encode: nothing was drained, and the
    // bytes stay as they were.
    assert!(task.begin_cycle(vec![]).0);
    assert_eq!(*task.pending_data(), bytes);
}

#[test]
fn pending_bytes_decompress_to_the_batch_encoding() {
    let (_layer, mut task) = Builder::new("http://localhost:3100/push").unwrap().build();
    let drained = vec![event("hello", Severity::Info), event("boom", Severity::Error)];
    let expected = encode_batch(&drained, &LabelMap::new(), &vec![]);
    assert!(task.begin_cycle(drained).0);
    let compressed = task.pending_data().clone();
    assert_ne!(compressed, expected);
    let raw = snap::raw::Decoder::new().decompress_vec(&compressed).unwrap();
    assert_eq!(raw, expected);
}

#[test]
fn builder_rejects_a_malformed_url() {
    assert!(Builder::new("http://localhost:3100/push").is_ok());
    assert!(Builder::new("not a url").is_err());
    assert!(Builder::new("relative/path").is_err());
}

#[test]
fn builder_labels_and_fields_reach_the_streams() {
    let (_layer, mut task) = Builder::new("http://localhost:3100/push")
        .unwrap()
        .add_label("app", "shop")
        .add_field("env", "prod")
        .build();
    assert!(task.begin_cycle(vec![event("hi", Severity::Info)]).0);
    let raw = snap::raw::Decoder::new().decompress_vec(task.pending_data()).unwrap();
    let drained = vec![event("hi", Severity::Info)];
    let mut labels = LabelMap::new();
    labels.insert("app", "shop");
    let fields = vec![LabelPair::new("env", "prod")];
    assert_eq!(raw, encode_batch(&drained, &labels, &fields));
    let streams = build_streams(&drained, &labels, &fields);
    assert_eq!(streams[0].labels, "{app=\"shop\",level=\"info\"}");
    assert_eq!(streams[0].entries[0].structured_metadata[0].name, "env");
}
