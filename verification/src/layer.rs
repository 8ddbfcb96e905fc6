use vstd::prelude::*;
use vstd::string::StringSliceAdditionalSpecFns;
use crate::buffer::{buf_append, Buffer};
use crate::entry::{pairs_view, Entry, EventWrapper, LabelPair};
use crate::level::Severity;
use crate::scope::ScopeTable;

verus! {

/// The bytes `p` are a prefix of `s`.
pub open spec fn spec_starts_with(s: Seq<u8>, p: Seq<u8>) -> bool {
    p.len() <= s.len() && s.subrange(0, p.len() as int) == p
}

/// An event of the shipper's own internal diagnostics: its module path
/// starts with the crate prefix under which the shipper runs.
pub open spec fn is_self_origin(origin_path: &str, own_prefix: &str) -> bool {
    spec_starts_with(origin_path.spec_bytes(), own_prefix.spec_bytes())
}

/// Decides whether an event comes from the shipper itself: whether its
/// module path starts with the shipper's own crate prefix.
pub fn is_self_event(origin_path: &str, own_prefix: &str) -> (r: bool)
    ensures
        r == is_self_origin(origin_path, own_prefix),
{
    let sb = origin_path.as_bytes();
    let pb = own_prefix.as_bytes();
    if sb.len() < pb.len() {
        return false;
    }
    let mut i: usize = 0;
    while i < pb.len()
        invariant
            i <= pb@.len(),
            pb@.len() <= sb@.len(),
            sb@ == origin_path.spec_bytes(),
            pb@ == own_prefix.spec_bytes(),
            forall|j: int| 0 <= j < i ==> sb@[j] == pb@[j],
        decreases pb@.len() - i,
    {
        if sb[i] != pb[i] {
            proof {
                assert(sb@.subrange(0, pb@.len() as int)[i as int] == sb@[i as int]);
            }
            return false;
        }
        i = i + 1;
    }
    proof {
        assert(sb@.subrange(0, pb@.len() as int) =~= pb@);
    }
    true
}

/// The capture adapter: it bridges the host framework's callbacks to
/// buffered entries. Scope callbacks land in the scope table; an event
/// callback, unless it originates from the shipper itself, becomes one
/// entry carrying the aggregated scope fields followed by the event's own
/// fields, appended to the shared buffer under its eviction policy.
pub struct Layer {
    pub scopes: ScopeTable,
}

impl Layer {
    pub(crate) fn new() -> (r: Layer)
        ensures
            r.scopes@ =~= Seq::<crate::scope::Scope>::empty(),
            r.scopes.wf(),
    {
        Layer { scopes: ScopeTable::new() }
    }

    /// Captures one emitted event: a no-op for the shipper's own
    /// diagnostics, recognized by the crate prefix `own_prefix` that the
    /// integration names; otherwise appends one entry, built from the
    /// rendered line, the capture time, the owning scope's aggregated
    /// fields and the event's own fields, to the buffer.
    pub fn on_event(
        &self,
        buf: &mut Buffer,
        origin_path: &str,
        own_prefix: &str,
        scope: Option<u64>,
        level: Severity,
        line: String,
        event_fields: Vec<LabelPair>,
        ts_secs: u64,
        ts_nanos: u32,
    )
        requires
            old(buf).wf(),
            self.scopes.wf(),
            scope is Some ==> self.scopes.registered(scope.unwrap()),
        ensures
            final(buf).wf(),
            is_self_origin(origin_path, own_prefix) ==> final(buf)@ == old(buf)@,
            !is_self_origin(origin_path, own_prefix) ==> {
                &&& final(buf)@.len() > 0
                &&& final(buf)@ == buf_append(old(buf)@, final(buf)@.last())
                &&& {
                    let w = final(buf)@.last();
                    &&& w.level == level
                    &&& w.entry@.secs == ts_secs
                    &&& w.entry@.nanos == ts_nanos
                    &&& w.entry@.line == line@
                    &&& w.entry@.meta == (match scope {
                        Option::Some(id) => self.scopes.spec_aggregate(id),
                        Option::None => Seq::<(Seq<char>, Seq<char>)>::empty(),
                    }) + pairs_view(event_fields@)
                    &&& w.entry@.parsed =~= Seq::<(Seq<char>, Seq<char>)>::empty()
                }
            },
    {
        if is_self_event(origin_path, own_prefix) {
            return ;
        }
        let mut meta: Vec<LabelPair> = match scope {
            Option::Some(id) => self.scopes.aggregate(id),
            Option::None => Vec::new(),
        };
        let ghost agg = pairs_view(meta@);
        proof {
            assert(agg =~= (match scope {
                Option::Some(id) => self.scopes.spec_aggregate(id),
                Option::None => Seq::<(Seq<char>, Seq<char>)>::empty(),
            }));
        }
        let mut ef = event_fields;
        let ghost efv = pairs_view(ef@);
        meta.append(&mut ef);
        proof {
            assert(pairs_view(meta@) =~= agg + efv);
        }
        let entry = Entry {
            ts_secs,
            ts_nanos,
            line,
            structured_metadata: meta,
            parsed: Vec::new(),
        };
        let w = EventWrapper { entry, level };
        buf.append(w);
        proof {
            assert(final(buf)@.last() == w);
            assert(w.entry@.parsed =~= Seq::<(Seq<char>, Seq<char>)>::empty());
        }
    }
}

} // verus!
