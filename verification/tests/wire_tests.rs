use logship::entry::{Entry, LabelPair};
use logship::wire::{
    encode_entry, encode_label_pair, encode_push_request, encode_stream, encode_varint, Stream,
};

#[test]
fn varint_single_byte() {
    let mut out = vec![];
    encode_varint(&mut out, 0);
    assert_eq!(out, vec![0x00]);
    let mut out = vec![];
    encode_varint(&mut out, 127);
    assert_eq!(out, vec![0x7F]);
}

#[test]
fn varint_multi_byte() {
    let mut out = vec![];
    encode_varint(&mut out, 128);
    assert_eq!(out, vec![0x80, 0x01]);
    let mut out = vec![];
    encode_varint(&mut out, 300);
    assert_eq!(out, vec![0xAC, 0x02]);
    let mut out = vec![];
    encode_varint(&mut out, u64::MAX);
    assert_eq!(out, vec![0xFF, 0xFF, 0xFF, 0xFF, 0xFF, 0xFF, 0xFF, 0xFF, 0xFF, 0x01]);
}

#[test]
fn label_pair_encodes_name_then_value() {
    let p = LabelPair::new("a", "b");
    assert_eq!(encode_label_pair(&p), vec![0x0A, 0x01, b'a', 0x12, 0x01, b'b']);
    let empty = LabelPair::new("", "");
    assert_eq!(encode_label_pair(&empty), Vec::<u8>::new());
}

#[test]
fn entry_encodes_timestamp_line_and_metadata() {
    let e = Entry {
        ts_secs: 1,
        ts_nanos: 2,
        line: "hi".to_string(),
        structured_metadata: vec![LabelPair::new("a", "b")],
        parsed: vec![],
    };
    let expected = vec![
        0x0A, 0x04, 0x08, 0x01, 0x10, 0x02, // timestamp { seconds: 1, nanos: 2 }
        0x12, 0x02, b'h', b'i', // line "hi"
        0x1A, 0x06, 0x0A, 0x01, b'a', 0x12, 0x01, b'b', // structured metadata [a=b]
    ];
    assert_eq!(encode_entry(&e), expected);
}

#[test]
fn default_entry_still_carries_its_timestamp_message() {
    let e = Entry {
        ts_secs: 0,
        ts_nanos: 0,
        line: String::new(),
        structured_metadata: vec![],
        parsed: vec![],
    };
    assert_eq!(encode_entry(&e), vec![0x0A, 0x00]);
}

#[test]
fn push_request_wraps_each_stream() {
    let s = Stream {
        labels: "{}".to_string(),
        entries: vec![],
    };
    let stream_bytes = encode_stream(&s);
    assert_eq!(stream_bytes, vec![0x0A, 0x02, b'{', b'}']);
    let req = encode_push_request(&vec![Stream { labels: "{}".to_string(), entries: vec![] }]);
    assert_eq!(req, vec![0x0A, 0x04, 0x0A, 0x02, b'{', b'}']);
}
