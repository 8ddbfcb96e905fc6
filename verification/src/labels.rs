use vstd::prelude::*;
use crate::entry::{pairs_view, LabelPair};
use crate::level::{spec_severity_name, Severity};

verus! {

/// Index of the first pair named `k`, or `-1` when no pair is.
pub open spec fn find_name(ps: Seq<(Seq<char>, Seq<char>)>, k: Seq<char>) -> int
    decreases ps.len(),
{
    if ps.len() == 0 {
        -1
    } else if ps[0].0 == k {
        0
    } else {
        let r = find_name(ps.drop_first(), k);
        if r < 0 {
            -1
        } else {
            r + 1
        }
    }
}

/// Last-write-wins insertion: the first pair named `k` is given the value
/// `v`; when no pair is named `k`, the pair is appended.
pub open spec fn spec_upsert(
    ps: Seq<(Seq<char>, Seq<char>)>,
    k: Seq<char>,
    v: Seq<char>,
) -> Seq<(Seq<char>, Seq<char>)> {
    let i = find_name(ps, k);
    if i < 0 {
        ps.push((k, v))
    } else {
        ps.update(i, (k, v))
    }
}

/// Last-write-wins merge of `src` into `dst`, in `src` order.
pub open spec fn spec_merge(
    dst: Seq<(Seq<char>, Seq<char>)>,
    src: Seq<(Seq<char>, Seq<char>)>,
) -> Seq<(Seq<char>, Seq<char>)>
    decreases src.len(),
{
    if src.len() == 0 {
        dst
    } else {
        spec_upsert(spec_merge(dst, src.drop_last()), src.last().0, src.last().1)
    }
}

pub open spec fn unique_names(ps: Seq<(Seq<char>, Seq<char>)>) -> bool {
    forall|i: int, j: int| 0 <= i < j < ps.len() ==> (#[trigger] ps[i]).0 != (#[trigger] ps[j]).0
}

pub proof fn lemma_find_name_first(ps: Seq<(Seq<char>, Seq<char>)>, k: Seq<char>, i: int)
    requires
        0 <= i < ps.len(),
        ps[i].0 == k,
        forall|j: int| 0 <= j < i ==> (#[trigger] ps[j]).0 != k,
    ensures
        find_name(ps, k) == i,
    decreases i,
{
    if i > 0 {
        lemma_find_name_first(ps.drop_first(), k, i - 1);
    }
}

pub proof fn lemma_find_name_none(ps: Seq<(Seq<char>, Seq<char>)>, k: Seq<char>)
    requires
        forall|j: int| 0 <= j < ps.len() ==> (#[trigger] ps[j]).0 != k,
    ensures
        find_name(ps, k) == -1,
    decreases ps.len(),
{
    if ps.len() > 0 {
        lemma_find_name_none(ps.drop_first(), k);
    }
}

/// Upserting keeps the names of a pair list unique.
pub proof fn lemma_upsert_unique(ps: Seq<(Seq<char>, Seq<char>)>, k: Seq<char>, v: Seq<char>)
    requires
        unique_names(ps),
    ensures
        unique_names(spec_upsert(ps, k, v)),
        spec_upsert(ps, k, v).len() <= ps.len() + 1,
    decreases ps.len(),
{
    let i = find_name(ps, k);
    if i < 0 {
        lemma_find_name_absent(ps, k);
        assert forall|a: int, b: int|
            0 <= a < b < ps.push((k, v)).len() implies (#[trigger] ps.push((k, v))[a]).0 != (
        #[trigger] ps.push((k, v))[b]).0 by {
            if b < ps.len() {
            } else {
                assert(ps.push((k, v))[a] == ps[a]);
            }
        }
    } else {
        lemma_find_name_found(ps, k);
        assert(ps[i].0 == k);
        assert forall|a: int, b: int|
            0 <= a < b < ps.update(i, (k, v)).len() implies (#[trigger] ps.update(i, (k, v))[a]).0
            != (#[trigger] ps.update(i, (k, v))[b]).0 by {
            assert(ps[a].0 != ps[b].0);
        }
    }
}

/// When `find_name` fails, no pair has the name.
pub proof fn lemma_find_name_absent(ps: Seq<(Seq<char>, Seq<char>)>, k: Seq<char>)
    requires
        find_name(ps, k) < 0,
    ensures
        forall|j: int| 0 <= j < ps.len() ==> (#[trigger] ps[j]).0 != k,
    decreases ps.len(),
{
    if ps.len() > 0 {
        lemma_find_name_absent(ps.drop_first(), k);
        assert forall|j: int| 0 <= j < ps.len() implies (#[trigger] ps[j]).0 != k by {
            if j > 0 {
                assert(ps.drop_first()[j - 1] == ps[j]);
            }
        }
    }
}

/// When `find_name` succeeds, it points at a pair with the name.
pub proof fn lemma_find_name_found(ps: Seq<(Seq<char>, Seq<char>)>, k: Seq<char>)
    requires
        find_name(ps, k) >= 0,
    ensures
        find_name(ps, k) < ps.len(),
        ps[find_name(ps, k)].0 == k,
    decreases ps.len(),
{
    if ps.len() > 0 && ps[0].0 != k {
        lemma_find_name_found(ps.drop_first(), k);
    }
}

/// Replaces the value of the first pair named as `p`, or appends `p`.
pub fn upsert_pair(items: &mut Vec<LabelPair>, p: LabelPair)
    ensures
        pairs_view(final(items)@) == spec_upsert(pairs_view(old(items)@), p.name@, p.value@),
{
    let ghost ps = pairs_view(items@);
    let mut i: usize = 0;
    while i < items.len()
        invariant
            i <= items@.len(),
            ps == pairs_view(items@),
            ps == pairs_view(old(items)@),
            forall|j: int| 0 <= j < i ==> (#[trigger] ps[j]).0 != p.name@,
        decreases items@.len() - i,
    {
        if items[i].name == p.name {
            proof {
                lemma_find_name_first(ps, p.name@, i as int);
            }
            let ghost pv = p@;
            let ghost orig = items@;
            items.remove(i);
            items.insert(i, p);
            proof {
                assert(items@ =~= orig.update(i as int, p));
                assert(pairs_view(items@) =~= ps.update(i as int, pv));
                assert(pairs_view(items@) =~= spec_upsert(ps, pv.0, pv.1));
                assert(pairs_view(items@) == spec_upsert(
                    pairs_view(old(items)@),
                    p.name@,
                    p.value@,
                ));
            }
            return ;
        }
        i = i + 1;
    }
    proof {
        lemma_find_name_none(ps, p.name@);
    }
    items.push(p);
    proof {
        assert(pairs_view(items@) =~= spec_upsert(ps, p.name@, p.value@));
    }
}

/// Merges `src` into `dst`, last write winning per name.
pub fn merge_pairs(dst: &mut Vec<LabelPair>, src: &Vec<LabelPair>)
    ensures
        pairs_view(final(dst)@) == spec_merge(pairs_view(old(dst)@), pairs_view(src@)),
{
    let ghost d0 = pairs_view(old(dst)@);
    let mut i: usize = 0;
    while i < src.len()
        invariant
            i <= src@.len(),
            pairs_view(dst@) == spec_merge(d0, pairs_view(src@.subrange(0, i as int))),
        decreases src@.len() - i,
    {
        let p = src[i].copy_pair();
        upsert_pair(dst, p);
        proof {
            let pre = src@.subrange(0, i as int);
            let post = src@.subrange(0, i + 1 as int);
            assert(pairs_view(post).drop_last() =~= pairs_view(pre));
            assert(pairs_view(post).last() == src@[i as int]@);
            assert(spec_merge(d0, pairs_view(post)) == spec_upsert(
                spec_merge(d0, pairs_view(pre)),
                src@[i as int].name@,
                src@[i as int].value@,
            ));
        }
        i = i + 1;
    }
    proof {
        assert(pairs_view(src@.subrange(0, src@.len() as int)) =~= pairs_view(src@));
    }
}

/// An insertion-ordered mapping from label or field names to values.
///
/// Later insertions of an existing name replace its value in place, so a
/// map never holds two pairs with one name, and its serialization order is
/// deterministic: the order in which names were first inserted.
pub struct LabelMap {
    items: Vec<LabelPair>,
}

impl LabelMap {
    pub closed spec fn view(self) -> Seq<(Seq<char>, Seq<char>)> {
        pairs_view(self.items@)
    }

    pub open spec fn wf(self) -> bool {
        unique_names(self@)
    }

    pub fn new() -> (r: LabelMap)
        ensures
            r@ =~= Seq::<(Seq<char>, Seq<char>)>::empty(),
            r.wf(),
    {
        let r = LabelMap { items: Vec::new() };
        proof {
            assert(pairs_view(r.items@) =~= Seq::<(Seq<char>, Seq<char>)>::empty());
        }
        r
    }

    /// Inserts a name/value pair, last write winning per name.
    pub fn insert(&mut self, name: &str, value: &str)
        requires
            old(self).wf(),
        ensures
            final(self)@ == spec_upsert(old(self)@, name@, value@),
            final(self).wf(),
    {
        let p = LabelPair::new(name, value);
        proof {
            lemma_upsert_unique(self@, name@, value@);
        }
        upsert_pair(&mut self.items, p);
    }

    /// The pairs of the map, in insertion order.
    pub fn items(&self) -> (r: &Vec<LabelPair>)
        ensures
            pairs_view(r@) == self@,
    {
        &self.items
    }

    pub fn len(&self) -> (r: usize)
        ensures
            r == self@.len(),
    {
        self.items.len()
    }

    /// A fresh map holding the same pairs in the same order.
    pub fn copy_map(&self) -> (r: LabelMap)
        ensures
            r@ == self@,
    {
        let mut items: Vec<LabelPair> = Vec::new();
        crate::entry::extend_pairs(&mut items, &self.items);
        proof {
            assert(pairs_view(items@) =~= pairs_view(self.items@));
        }
        LabelMap { items }
    }
}

/// The debug quoting of a string: the characters between double quotes,
/// with quotes, backslashes and unprintable characters escaped. A pure
/// function of the characters.
pub uninterp spec fn debug_quoted(s: Seq<char>) -> Seq<char>;

/// Relies on the Debug formatting of str (through `format!`): it quotes
/// the string and escapes quotes, backslashes and unprintable characters,
/// on the characters alone.
#[verifier::external_body]
fn debug_quote(s: &str) -> (r: String)
    ensures
        r@ == debug_quoted(s@),
{
    format!("{:?}", s)
}

/// The serialized form of one pair: the name, `=`, then the value quoted
/// and escaped by the debug formatting of strings.
pub open spec fn pair_str(p: (Seq<char>, Seq<char>)) -> Seq<char> {
    p.0 + "="@ + debug_quoted(p.1)
}

/// The serialized pairs joined with commas, in list order.
pub open spec fn pairs_str(ps: Seq<(Seq<char>, Seq<char>)>) -> Seq<char>
    decreases ps.len(),
{
    if ps.len() == 0 {
        Seq::<char>::empty()
    } else if ps.len() == 1 {
        pair_str(ps[0])
    } else {
        pairs_str(ps.drop_last()) + ","@ + pair_str(ps.last())
    }
}

/// The serialized label set of one stream: the configured labels with the
/// entry `level=<severity name>` written in (replacing any configured
/// `level`), joined with commas in map order, inside braces.
pub open spec fn spec_format_labels(ps: Seq<(Seq<char>, Seq<char>)>, level: Severity) -> Seq<
    char,
> {
    "{"@ + pairs_str(spec_upsert(ps, "level"@, spec_severity_name(level))) + "}"@
}

/// Serializes the label set of a stream of the given severity.
///
/// Each value is quoted and escaped by the debug formatting of strings;
/// names are expected to be plain identifiers. The order is the map's
/// insertion order, so one process always serializes a given
/// configuration the same way.
pub fn format_labels(labels: &LabelMap, level: Severity) -> (r: String)
    requires
        labels.wf(),
    ensures
        r@ == spec_format_labels(labels@, level),
{
    let mut with_level = labels.copy_map();
    with_level.insert("level", level.name());
    let ghost ps = with_level@;
    let items = with_level.items();
    let mut out = String::from_str("{");
    let mut i: usize = 0;
    while i < items.len()
        invariant
            i <= items@.len(),
            ps == pairs_view(items@),
            out@ == "{"@ + pairs_str(ps.subrange(0, i as int)),
        decreases items@.len() - i,
    {
        if i > 0 {
            out.append(",");
        }
        out.append(items[i].name.as_str());
        out.append("=");
        let quoted = debug_quote(items[i].value.as_str());
        out.append(quoted.as_str());
        proof {
            let post = ps.subrange(0, i + 1 as int);
            assert(post.drop_last() =~= ps.subrange(0, i as int));
            assert(post.last() == items@[i as int]@);
            if i == 0 {
                assert(out@ =~= "{"@ + pairs_str(post));
            } else {
                assert(out@ =~= "{"@ + pairs_str(post));
            }
        }
        i = i + 1;
    }
    out.append("}");
    proof {
        assert(ps.subrange(0, ps.len() as int) =~= ps);
        assert(out@ =~= spec_format_labels(labels@, level));
    }
    out
}

} // verus!
