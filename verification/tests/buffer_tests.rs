use logship::buffer::{Buffer, CAPACITY};
use logship::entry::{Entry, EventWrapper, LabelPair};
use logship::level::Severity;

fn event(line: &str, level: Severity) -> EventWrapper {
    EventWrapper {
        entry: Entry {
            ts_secs: 1,
            ts_nanos: 0,
            line: line.to_string(),
            structured_metadata: vec![],
            parsed: vec![],
        },
        level,
    }
}

#[test]
fn append_below_capacity_keeps_everything() {
    let mut buf = Buffer::new();
    for i in 0..10 {
        buf.append(event(&format!("{}", i), Severity::Info));
    }
    assert_eq!(buf.len(), 10);
    let drained = buf.drain_all();
    assert_eq!(drained.len(), 10);
    for (i, w) in drained.iter().enumerate() {
        assert_eq!(w.entry.line, format!("{}", i));
    }
}

#[test]
fn append_past_capacity_evicts_oldest() {
    let mut buf = Buffer::new();
    let extra = 3;
    for i in 0..(CAPACITY + extra) {
        buf.append(event(&format!("{}", i), Severity::Info));
        assert!(buf.len() <= CAPACITY);
    }
    assert_eq!(buf.len(), CAPACITY);
    let drained = buf.drain_all();
    assert_eq!(drained.len(), CAPACITY);
    for (i, w) in drained.iter().enumerate() {
        assert_eq!(w.entry.line, format!("{}", i + extra));
    }
}

#[test]
fn drain_takes_everything_and_leaves_nothing() {
    let mut buf = Buffer::new();
    buf.append(event("a", Severity::Warn));
    buf.append(event("b", Severity::Error));
    let drained = buf.drain_all();
    assert_eq!(drained.len(), 2);
    assert_eq!(drained[0].entry.line, "a");
    assert_eq!(drained[1].entry.line, "b");
    assert!(buf.is_empty());
    let again = buf.drain_all();
    assert!(again.is_empty());
}

#[test]
fn label_pair_copy_matches() {
    let p = LabelPair::new("k", "v");
    let q = p.copy_pair();
    assert_eq!(q.name, "k");
    assert_eq!(q.value, "v");
}
