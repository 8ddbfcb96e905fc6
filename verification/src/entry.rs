use vstd::prelude::*;
use crate::level::Severity;

verus! {

/// One structured field: a name and a string value.
pub struct LabelPair {
    pub name: String,
    pub value: String,
}

impl LabelPair {
    pub open spec fn view(self) -> (Seq<char>, Seq<char>) {
        (self.name@, self.value@)
    }

    pub fn new(name: &str, value: &str) -> (r: LabelPair)
        ensures
            r.name@ == name@,
            r.value@ == value@,
    {
        LabelPair { name: name.to_owned(), value: value.to_owned() }
    }

    /// A fresh pair holding the same name and value.
    pub fn copy_pair(&self) -> (r: LabelPair)
        ensures
            r.name@ == self.name@,
            r.value@ == self.value@,
            r@ == self@,
    {
        LabelPair { name: self.name.clone(), value: self.value.clone() }
    }
}

/// The pairs of `ps`, as name/value character sequences.
pub open spec fn pairs_view(ps: Seq<LabelPair>) -> Seq<(Seq<char>, Seq<char>)> {
    ps.map_values(|p: LabelPair| p@)
}

/// Copies every pair of `src` onto the end of `dst`.
pub fn extend_pairs(dst: &mut Vec<LabelPair>, src: &Vec<LabelPair>)
    ensures
        pairs_view(final(dst)@) == pairs_view(old(dst)@) + pairs_view(src@),
{
    let ghost orig = dst@;
    let mut i: usize = 0;
    while i < src.len()
        invariant
            i <= src@.len(),
            pairs_view(dst@) == pairs_view(orig) + pairs_view(src@.subrange(0, i as int)),
        decreases src@.len() - i,
    {
        let ghost before = dst@;
        let p = src[i].copy_pair();
        let ghost pv = p@;
        dst.push(p);
        proof {
            let pre = src@.subrange(0, i as int);
            let post = src@.subrange(0, i + 1 as int);
            assert(pairs_view(dst@) =~= pairs_view(before).push(pv));
            assert(pairs_view(post) =~= pairs_view(pre).push(src@[i as int]@));
            assert(pairs_view(dst@) =~= pairs_view(orig) + pairs_view(post));
        }
        i = i + 1;
    }
    proof {
        assert(src@.subrange(0, src@.len() as int) =~= src@);
    }
}

/// One captured, enriched log event, ready for transmission.
///
/// The timestamp is the event's capture time as seconds and nanoseconds
/// since the Unix epoch; `structured_metadata` holds the fields inherited
/// from the enclosing scopes followed by the event's own fields; `parsed`
/// is reserved by the wire schema and stays empty here.
pub struct Entry {
    pub ts_secs: u64,
    pub ts_nanos: u32,
    pub line: String,
    pub structured_metadata: Vec<LabelPair>,
    pub parsed: Vec<LabelPair>,
}

/// The mathematical content of an entry: its timestamp, its rendered
/// line, and its fields as name/value character sequences.
pub ghost struct EntryModel {
    pub secs: u64,
    pub nanos: u32,
    pub line: Seq<char>,
    pub meta: Seq<(Seq<char>, Seq<char>)>,
    pub parsed: Seq<(Seq<char>, Seq<char>)>,
}

impl Entry {
    pub open spec fn view(self) -> EntryModel {
        EntryModel {
            secs: self.ts_secs,
            nanos: self.ts_nanos,
            line: self.line@,
            meta: pairs_view(self.structured_metadata@),
            parsed: pairs_view(self.parsed@),
        }
    }
}

/// A buffered event: an entry together with its severity.
pub struct EventWrapper {
    pub entry: Entry,
    pub level: Severity,
}

} // verus!
