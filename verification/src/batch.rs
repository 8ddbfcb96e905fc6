use vstd::prelude::*;
use crate::entry::{extend_pairs, pairs_view, Entry, EntryModel, EventWrapper, LabelPair};
use crate::labels::{format_labels, spec_format_labels, LabelMap};
use crate::level::{all_severities, severity_order, Severity};
use crate::wire::{enc_push_request, encode_push_request, streams_view, Stream, StreamModel};

verus! {

/// The entry model `m` with the static per-shipper fields appended after
/// its own fields, existing names not overwritten.
pub open spec fn with_static_fields(m: EntryModel, fs: Seq<(Seq<char>, Seq<char>)>) -> EntryModel {
    EntryModel { meta: m.meta + fs, ..m }
}

/// The entries of one severity in a drained batch, in buffer order, each
/// extended with the static fields.
pub open spec fn level_entries(
    ws: Seq<EventWrapper>,
    l: Severity,
    fs: Seq<(Seq<char>, Seq<char>)>,
) -> Seq<EntryModel>
    decreases ws.len(),
{
    if ws.len() == 0 {
        Seq::<EntryModel>::empty()
    } else {
        level_entries(ws.drop_last(), l, fs) + if ws.last().level == l {
            seq![with_static_fields(ws.last().entry@, fs)]
        } else {
            Seq::<EntryModel>::empty()
        }
    }
}

/// The streams a batch yields for the given severities, in that order:
/// one labeled stream per severity that has entries, none for the rest.
pub open spec fn streams_for(
    levels: Seq<Severity>,
    ws: Seq<EventWrapper>,
    lm: Seq<(Seq<char>, Seq<char>)>,
    fs: Seq<(Seq<char>, Seq<char>)>,
) -> Seq<StreamModel>
    decreases levels.len(),
{
    if levels.len() == 0 {
        Seq::<StreamModel>::empty()
    } else {
        streams_for(levels.drop_last(), ws, lm, fs) + if level_entries(
            ws,
            levels.last(),
            fs,
        ).len() > 0 {
            seq![
                StreamModel {
                    labels: spec_format_labels(lm, levels.last()),
                    entries: level_entries(ws, levels.last(), fs),
                },
            ]
        } else {
            Seq::<StreamModel>::empty()
        }
    }
}

/// The streams of a drained batch: one per severity present, from least
/// to most severe; within a stream, buffer order is preserved.
pub open spec fn batch_streams(
    ws: Seq<EventWrapper>,
    lm: Seq<(Seq<char>, Seq<char>)>,
    fs: Seq<(Seq<char>, Seq<char>)>,
) -> Seq<StreamModel> {
    streams_for(severity_order(), ws, lm, fs)
}

/// The wire bytes of a drained batch, before compression.
pub open spec fn batch_encoding(
    ws: Seq<EventWrapper>,
    lm: Seq<(Seq<char>, Seq<char>)>,
    fs: Seq<(Seq<char>, Seq<char>)>,
) -> Seq<u8> {
    enc_push_request(batch_streams(ws, lm, fs))
}

/// Collects the entries of one severity, in buffer order, each extended
/// with the static fields.
fn collect_level(drained: &Vec<EventWrapper>, l: Severity, fields: &Vec<LabelPair>) -> (r: Vec<
    Entry,
>)
    ensures
        r@.map_values(|e: Entry| e@) == level_entries(drained@, l, pairs_view(fields@)),
{
    let ghost fs = pairs_view(fields@);
    let mut out: Vec<Entry> = Vec::new();
    let mut i: usize = 0;
    proof {
        assert(out@.map_values(|e: Entry| e@) =~= level_entries(drained@.subrange(0, 0), l, fs));
    }
    while i < drained.len()
        invariant
            i <= drained@.len(),
            fs == pairs_view(fields@),
            out@.map_values(|e: Entry| e@) == level_entries(drained@.subrange(0, i as int), l, fs),
        decreases drained@.len() - i,
    {
        let ghost pre = drained@.subrange(0, i as int);
        let ghost post = drained@.subrange(0, i + 1 as int);
        proof {
            assert(post.drop_last() =~= pre);
            assert(post.last() == drained@[i as int]);
        }
        if drained[i].level == l {
            let src = &drained[i].entry;
            let mut meta: Vec<LabelPair> = Vec::new();
            proof {
                assert(pairs_view(meta@) =~= Seq::<(Seq<char>, Seq<char>)>::empty());
            }
            extend_pairs(&mut meta, &src.structured_metadata);
            proof {
                assert(pairs_view(meta@) =~= pairs_view(src.structured_metadata@));
            }
            extend_pairs(&mut meta, fields);
            let mut parsed: Vec<LabelPair> = Vec::new();
            proof {
                assert(pairs_view(parsed@) =~= Seq::<(Seq<char>, Seq<char>)>::empty());
            }
            extend_pairs(&mut parsed, &src.parsed);
            proof {
                assert(pairs_view(parsed@) =~= pairs_view(src.parsed@));
            }
            let ghost outpre = out@;
            let e = Entry {
                ts_secs: src.ts_secs,
                ts_nanos: src.ts_nanos,
                line: src.line.clone(),
                structured_metadata: meta,
                parsed,
            };
            proof {
                assert(e@ == with_static_fields(drained@[i as int].entry@, fs));
            }
            out.push(e);
            proof {
                assert(out@.map_values(|x: Entry| x@) =~= outpre.map_values(|x: Entry| x@).push(
                    e@,
                ));
                assert(out@.map_values(|x: Entry| x@) =~= level_entries(post, l, fs));
            }
        } else {
            proof {
                assert(level_entries(post, l, fs) =~= level_entries(pre, l, fs));
            }
        }
        i = i + 1;
    }
    proof {
        assert(drained@.subrange(0, drained@.len() as int) =~= drained@);
    }
    out
}

/// Builds the labeled streams of one drained batch: the entries grouped
/// by severity, stably (buffer order kept within a group), one stream per
/// severity present, its labels carrying `level=<severity name>`, every
/// entry extended with the static per-shipper fields.
pub fn build_streams(
    drained: &Vec<EventWrapper>,
    labels: &LabelMap,
    fields: &Vec<LabelPair>,
) -> (r: Vec<Stream>)
    requires
        labels.wf(),
    ensures
        streams_view(r@) == batch_streams(drained@, labels@, pairs_view(fields@)),
{
    let ghost fs = pairs_view(fields@);
    let sevs = all_severities();
    let mut out: Vec<Stream> = Vec::new();
    let mut k: usize = 0;
    proof {
        assert(streams_view(out@) =~= streams_for(
            severity_order().subrange(0, 0),
            drained@,
            labels@,
            fs,
        ));
    }
    while k < sevs.len()
        invariant
            k <= 5,
            sevs@ == severity_order(),
            labels.wf(),
            fs == pairs_view(fields@),
            streams_view(out@) == streams_for(
                severity_order().subrange(0, k as int),
                drained@,
                labels@,
                fs,
            ),
        decreases sevs@.len() - k,
    {
        let l = sevs[k];
        let ghost pre = severity_order().subrange(0, k as int);
        let ghost post = severity_order().subrange(0, k + 1 as int);
        proof {
            assert(post.drop_last() =~= pre);
            assert(post.last() == l);
        }
        let entries = collect_level(drained, l, fields);
        if entries.len() > 0 {
            proof {
                assert(level_entries(drained@, l, fs).len() == entries@.len());
            }
            let ghost outpre = out@;
            let lab = format_labels(labels, l);
            let s = Stream { labels: lab, entries };
            proof {
                assert(s@ == StreamModel {
                    labels: spec_format_labels(labels@, l),
                    entries: level_entries(drained@, l, fs),
                });
            }
            out.push(s);
            proof {
                assert(streams_view(out@) =~= streams_view(outpre).push(s@));
                assert(streams_view(out@) =~= streams_for(post, drained@, labels@, fs));
            }
        } else {
            proof {
                assert(level_entries(drained@, l, fs).len() == 0);
                assert(streams_for(post, drained@, labels@, fs) =~= streams_for(
                    pre,
                    drained@,
                    labels@,
                    fs,
                ));
            }
        }
        k = k + 1;
    }
    proof {
        assert(severity_order().subrange(0, severity_order().len() as int) =~= severity_order());
    }
    out
}

/// Serializes one drained batch: the grouped, labeled streams as one push
/// request in the wire format.
pub fn encode_batch(
    drained: &Vec<EventWrapper>,
    labels: &LabelMap,
    fields: &Vec<LabelPair>,
) -> (r: Vec<u8>)
    requires
        labels.wf(),
    ensures
        r@ == batch_encoding(drained@, labels@, pairs_view(fields@)),
{
    let streams = build_streams(drained, labels, fields);
    encode_push_request(&streams)
}

} // verus!
