use vstd::prelude::*;
use vstd::utf8::encode_utf8;
use crate::entry::{pairs_view, Entry, EntryModel, LabelPair};

verus! {

// The push payload travels as a protocol-buffer message. Its schema is the
// fixed wire contract of the ingestion endpoint:
//   PushRequest { repeated Stream streams = 1 }
//   Stream      { string labels = 1; repeated Entry entries = 2 }
//   Entry       { Timestamp timestamp = 1; string line = 2;
//                 repeated LabelPair structured_metadata = 3;
//                 repeated LabelPair parsed = 4 }
//   LabelPair   { string name = 1; string value = 2 }
//   Timestamp   { int64 seconds = 1; int32 nanos = 2 }
// Scalar fields holding their default value are not written; the timestamp
// message itself is always written.
/// The base-128 varint encoding of `n`: seven bits per byte, least
/// significant group first, the high bit set on every byte but the last.
pub open spec fn varint(n: nat) -> Seq<u8>
    decreases n,
{
    if n < 128 {
        seq![n as u8]
    } else {
        seq![(n % 128 + 128) as u8] + varint(n / 128)
    }
}

/// A length-delimited field: its tag byte, the payload length as a
/// varint, then the payload.
pub open spec fn len_delim(tag: u8, payload: Seq<u8>) -> Seq<u8> {
    seq![tag] + varint(payload.len()) + payload
}

/// A varint-typed field, omitted when it holds the default value zero.
pub open spec fn varint_field(tag: u8, v: nat) -> Seq<u8> {
    if v == 0 {
        Seq::<u8>::empty()
    } else {
        seq![tag] + varint(v)
    }
}

/// A string field: its UTF-8 bytes, length-delimited; omitted when empty.
pub open spec fn str_field(tag: u8, s: Seq<char>) -> Seq<u8> {
    if encode_utf8(s).len() == 0 {
        Seq::<u8>::empty()
    } else {
        len_delim(tag, encode_utf8(s))
    }
}

pub fn encode_varint(out: &mut Vec<u8>, n: u64)
    ensures
        final(out)@ == old(out)@ + varint(n as nat),
{
    let mut x: u64 = n;
    while x >= 128
        invariant
            old(out)@ + varint(n as nat) == out@ + varint(x as nat),
        decreases x,
    {
        let ghost pre = out@;
        out.push((x % 128 + 128) as u8);
        proof {
            assert(out@ + varint((x / 128) as nat) =~= pre + varint(x as nat));
        }
        x = x / 128;
    }
    out.push(x as u8);
    proof {
        assert(varint(x as nat) =~= seq![x as u8]);
        assert(final(out)@ =~= old(out)@ + varint(n as nat));
    }
}

pub fn write_len_delim(out: &mut Vec<u8>, tag: u8, payload: &Vec<u8>)
    ensures
        final(out)@ == old(out)@ + len_delim(tag, payload@),
{
    out.push(tag);
    encode_varint(out, payload.len() as u64);
    out.extend_from_slice(payload.as_slice());
    proof {
        assert(final(out)@ =~= old(out)@ + len_delim(tag, payload@));
    }
}

pub fn write_varint_field(out: &mut Vec<u8>, tag: u8, v: u64)
    ensures
        final(out)@ == old(out)@ + varint_field(tag, v as nat),
{
    if v > 0 {
        out.push(tag);
        encode_varint(out, v);
        proof {
            assert(final(out)@ =~= old(out)@ + varint_field(tag, v as nat));
        }
    } else {
        proof {
            assert(final(out)@ =~= old(out)@ + varint_field(tag, v as nat));
        }
    }
}

pub fn write_str_field(out: &mut Vec<u8>, tag: u8, s: &str)
    ensures
        final(out)@ == old(out)@ + str_field(tag, s@),
{
    let b = s.as_bytes();
    if b.len() > 0 {
        out.push(tag);
        encode_varint(out, b.len() as u64);
        out.extend_from_slice(b);
        proof {
            assert(final(out)@ =~= old(out)@ + str_field(tag, s@));
        }
    } else {
        proof {
            assert(final(out)@ =~= old(out)@ + str_field(tag, s@));
        }
    }
}

/// The timestamp message: seconds then nanoseconds, defaults omitted.
pub open spec fn enc_timestamp(secs: u64, nanos: u32) -> Seq<u8> {
    varint_field(0x08, secs as nat) + varint_field(0x10, nanos as nat)
}

/// The label-pair message: name then value, empty strings omitted.
pub open spec fn enc_label_pair(name: Seq<char>, value: Seq<char>) -> Seq<u8> {
    str_field(0x0A, name) + str_field(0x12, value)
}

/// A repeated label-pair field under the given tag, in list order.
pub open spec fn enc_pairs(ps: Seq<(Seq<char>, Seq<char>)>, tag: u8) -> Seq<u8>
    decreases ps.len(),
{
    if ps.len() == 0 {
        Seq::<u8>::empty()
    } else {
        enc_pairs(ps.drop_last(), tag) + len_delim(tag, enc_label_pair(ps.last().0, ps.last().1))
    }
}

/// The entry message: timestamp, line, structured metadata, parsed.
pub open spec fn enc_entry(m: EntryModel) -> Seq<u8> {
    len_delim(0x0A, enc_timestamp(m.secs, m.nanos)) + str_field(0x12, m.line) + enc_pairs(
        m.meta,
        0x1A,
    ) + enc_pairs(m.parsed, 0x22)
}

pub fn encode_label_pair(p: &LabelPair) -> (r: Vec<u8>)
    ensures
        r@ == enc_label_pair(p.name@, p.value@),
{
    let mut out: Vec<u8> = Vec::new();
    write_str_field(&mut out, 0x0A, p.name.as_str());
    write_str_field(&mut out, 0x12, p.value.as_str());
    proof {
        assert(out@ =~= enc_label_pair(p.name@, p.value@));
    }
    out
}

fn write_pairs(out: &mut Vec<u8>, ps: &Vec<LabelPair>, tag: u8)
    ensures
        final(out)@ == old(out)@ + enc_pairs(pairs_view(ps@), tag),
{
    let ghost pv = pairs_view(ps@);
    let ghost base = out@;
    let mut i: usize = 0;
    proof {
        assert(out@ =~= base + enc_pairs(pv.subrange(0, 0), tag));
    }
    while i < ps.len()
        invariant
            i <= ps@.len(),
            pv == pairs_view(ps@),
            out@ == base + enc_pairs(pv.subrange(0, i as int), tag),
        decreases ps@.len() - i,
    {
        let pb = encode_label_pair(&ps[i]);
        write_len_delim(out, tag, &pb);
        proof {
            let pre = pv.subrange(0, i as int);
            let post = pv.subrange(0, i + 1 as int);
            assert(post.drop_last() =~= pre);
            assert(post.last() == ps@[i as int]@);
            assert(out@ =~= base + enc_pairs(post, tag));
        }
        i = i + 1;
    }
    proof {
        assert(pv.subrange(0, pv.len() as int) =~= pv);
    }
}

pub fn encode_entry(e: &Entry) -> (r: Vec<u8>)
    ensures
        r@ == enc_entry(e@),
{
    let mut ts: Vec<u8> = Vec::new();
    write_varint_field(&mut ts, 0x08, e.ts_secs);
    write_varint_field(&mut ts, 0x10, e.ts_nanos as u64);
    proof {
        assert(ts@ =~= enc_timestamp(e.ts_secs, e.ts_nanos));
    }
    let mut out: Vec<u8> = Vec::new();
    write_len_delim(&mut out, 0x0A, &ts);
    write_str_field(&mut out, 0x12, e.line.as_str());
    write_pairs(&mut out, &e.structured_metadata, 0x1A);
    write_pairs(&mut out, &e.parsed, 0x22);
    proof {
        assert(out@ =~= enc_entry(e@));
    }
    out
}

/// One stream of the push payload: a serialized label set and the entries
/// that share it, in buffer order.
pub struct Stream {
    pub labels: String,
    pub entries: Vec<Entry>,
}

/// The mathematical content of a stream.
pub ghost struct StreamModel {
    pub labels: Seq<char>,
    pub entries: Seq<EntryModel>,
}

impl Stream {
    pub open spec fn view(self) -> StreamModel {
        StreamModel { labels: self.labels@, entries: self.entries@.map_values(|e: Entry| e@) }
    }
}

/// The streams of `ss`, as their models.
pub open spec fn streams_view(ss: Seq<Stream>) -> Seq<StreamModel> {
    ss.map_values(|s: Stream| s@)
}

/// The repeated entries field of a stream, in list order.
pub open spec fn enc_entries(es: Seq<EntryModel>) -> Seq<u8>
    decreases es.len(),
{
    if es.len() == 0 {
        Seq::<u8>::empty()
    } else {
        enc_entries(es.drop_last()) + len_delim(0x12, enc_entry(es.last()))
    }
}

/// The stream message: its label set, then its entries.
pub open spec fn enc_stream(m: StreamModel) -> Seq<u8> {
    str_field(0x0A, m.labels) + enc_entries(m.entries)
}

/// The push-request message: its streams, in list order.
pub open spec fn enc_push_request(ms: Seq<StreamModel>) -> Seq<u8>
    decreases ms.len(),
{
    if ms.len() == 0 {
        Seq::<u8>::empty()
    } else {
        enc_push_request(ms.drop_last()) + len_delim(0x0A, enc_stream(ms.last()))
    }
}

pub fn encode_stream(s: &Stream) -> (r: Vec<u8>)
    ensures
        r@ == enc_stream(s@),
{
    let mut out: Vec<u8> = Vec::new();
    write_str_field(&mut out, 0x0A, s.labels.as_str());
    let ghost base = out@;
    let mut i: usize = 0;
    let ghost ems = s@.entries;
    proof {
        assert(out@ =~= base + enc_entries(ems.subrange(0, 0)));
    }
    while i < s.entries.len()
        invariant
            i <= s.entries@.len(),
            ems == s@.entries,
            out@ == base + enc_entries(ems.subrange(0, i as int)),
            base == str_field(0x0A, s.labels@),
        decreases s.entries@.len() - i,
    {
        let eb = encode_entry(&s.entries[i]);
        write_len_delim(&mut out, 0x12, &eb);
        proof {
            let pre = ems.subrange(0, i as int);
            let post = ems.subrange(0, i + 1 as int);
            assert(post.drop_last() =~= pre);
            assert(post.last() == s.entries@[i as int]@);
            assert(out@ =~= base + enc_entries(post));
        }
        i = i + 1;
    }
    proof {
        assert(ems.subrange(0, ems.len() as int) =~= ems);
        assert(out@ =~= enc_stream(s@));
    }
    out
}

/// Serializes the whole push request to its wire bytes.
pub fn encode_push_request(ss: &Vec<Stream>) -> (r: Vec<u8>)
    ensures
        r@ == enc_push_request(streams_view(ss@)),
{
    let ghost ms = streams_view(ss@);
    let mut out: Vec<u8> = Vec::new();
    let mut i: usize = 0;
    proof {
        assert(out@ =~= enc_push_request(ms.subrange(0, 0)));
    }
    while i < ss.len()
        invariant
            i <= ss@.len(),
            ms == streams_view(ss@),
            out@ == enc_push_request(ms.subrange(0, i as int)),
        decreases ss@.len() - i,
    {
        let sb = encode_stream(&ss[i]);
        write_len_delim(&mut out, 0x0A, &sb);
        proof {
            let pre = ms.subrange(0, i as int);
            let post = ms.subrange(0, i + 1 as int);
            assert(post.drop_last() =~= pre);
            assert(post.last() == ss@[i as int]@);
            assert(out@ =~= enc_push_request(post));
        }
        i = i + 1;
    }
    proof {
        assert(ms.subrange(0, ms.len() as int) =~= ms);
    }
    out
}

} // verus!
