use vstd::prelude::*;
use crate::entry::{extend_pairs, pairs_view, LabelPair};
use crate::labels::{merge_pairs, spec_merge};

verus! {

/// One execution scope: its identifier, the identifiers of its ancestors
/// from the root down to its parent, and its own structured fields.
pub struct Scope {
    pub id: u64,
    pub chain: Vec<u64>,
    pub fields: Vec<LabelPair>,
}

/// Index of the first scope with identifier `id`, or `-1`.
pub open spec fn find_scope(s: Seq<Scope>, id: u64) -> int
    decreases s.len(),
{
    if s.len() == 0 {
        -1
    } else if s[0].id == id {
        0
    } else {
        let r = find_scope(s.drop_first(), id);
        if r < 0 {
            -1
        } else {
            r + 1
        }
    }
}

/// The per-scope field sets, keyed by scope identifier.
///
/// The table is the aggregator's whole state: each scope is registered
/// once, on creation, with an explicit ancestor chain, and its field set
/// grows by last-write-wins merges as fields are recorded on it.
pub struct ScopeTable {
    scopes: Vec<Scope>,
}

impl ScopeTable {
    pub closed spec fn view(self) -> Seq<Scope> {
        self.scopes@
    }

    pub open spec fn registered(self, id: u64) -> bool {
        find_scope(self@, id) >= 0
    }

    /// The fields recorded on the scope `id`.
    pub open spec fn spec_fields_of(self, id: u64) -> Seq<(Seq<char>, Seq<char>)> {
        pairs_view(self@[find_scope(self@, id)].fields@)
    }

    /// The ancestor chain of the scope `id`, root first.
    pub open spec fn spec_chain_of(self, id: u64) -> Seq<u64> {
        self@[find_scope(self@, id)].chain@
    }

    /// Every scope is registered once, and every ancestor a chain names is
    /// itself registered.
    pub open spec fn wf(self) -> bool {
        &&& forall|i: int, j: int|
            0 <= i < j < self@.len() ==> (#[trigger] self@[i]).id != (#[trigger] self@[j]).id
        &&& forall|i: int, j: int|
            0 <= i < self@.len() && 0 <= j < self@[i].chain@.len() ==> find_scope(
                self@,
                #[trigger] self@[i].chain@[j],
            ) >= 0
    }

    /// The fields of the chain's scopes, concatenated root first.
    pub open spec fn chain_fields(self, chain: Seq<u64>) -> Seq<(Seq<char>, Seq<char>)>
        decreases chain.len(),
    {
        if chain.len() == 0 {
            Seq::<(Seq<char>, Seq<char>)>::empty()
        } else {
            self.chain_fields(chain.drop_last()) + self.spec_fields_of(chain.last())
        }
    }

    /// What aggregation over the scope `id` returns: the fields of each
    /// scope from the root ancestor down to `id` itself, concatenated in
    /// that order, duplicates across scopes retained.
    pub open spec fn spec_aggregate(self, id: u64) -> Seq<(Seq<char>, Seq<char>)> {
        self.chain_fields(self.spec_chain_of(id)) + self.spec_fields_of(id)
    }

    pub fn new() -> (r: ScopeTable)
        ensures
            r@ =~= Seq::<Scope>::empty(),
            r.wf(),
    {
        ScopeTable { scopes: Vec::new() }
    }

    /// Index of the scope `id` in the table, when it is registered.
    pub fn find_index(&self, id: u64) -> (r: Option<usize>)
        ensures
            r is Some <==> self.registered(id),
            r is Some ==> r.unwrap() == find_scope(self@, id),
    {
        let ghost s = self@;
        let mut i: usize = 0;
        while i < self.scopes.len()
            invariant
                i <= s.len(),
                s == self@,
                forall|j: int| 0 <= j < i ==> (#[trigger] s[j]).id != id,
            decreases s.len() - i,
        {
            if self.scopes[i].id == id {
                proof {
                    lemma_find_scope_first(s, id, i as int);
                }
                return Some(i);
            }
            i = i + 1;
        }
        proof {
            lemma_find_scope_none(s, id);
        }
        None
    }

    pub fn is_registered(&self, id: u64) -> (r: bool)
        ensures
            r == self.registered(id),
    {
        self.find_index(id).is_some()
    }

    /// Registers a fresh scope under its parent and records its initial
    /// fields; a scope already registered is left untouched.
    pub fn on_scope_created(&mut self, id: u64, parent: Option<u64>, fields: &Vec<LabelPair>)
        requires
            old(self).wf(),
            parent is Some ==> old(self).registered(parent.unwrap()),
        ensures
            final(self).wf(),
            final(self).registered(id),
            old(self).registered(id) ==> *final(self) == *old(self),
            !old(self).registered(id) ==> {
                &&& final(self)@.len() == old(self)@.len() + 1
                &&& final(self)@.subrange(0, old(self)@.len() as int) == old(self)@
                &&& final(self)@.last().id == id
                &&& pairs_view(final(self)@.last().fields@) == spec_merge(
                    Seq::<(Seq<char>, Seq<char>)>::empty(),
                    pairs_view(fields@),
                )
                &&& final(self)@.last().chain@ == match parent {
                    Option::None => Seq::<u64>::empty(),
                    Option::Some(p) => old(self).spec_chain_of(p).push(p),
                }
            },
    {
        let ghost s0 = self@;
        if self.find_index(id).is_some() {
            return ;
        }
        let mut chain: Vec<u64> = Vec::new();
        match parent {
            Option::None => {},
            Option::Some(p) => {
                let pi = match self.find_index(p) {
                    Option::Some(pi) => pi,
                    Option::None => {
                        proof {
                            assert(false);
                        }
                        0
                    },
                };
                proof {
                    lemma_find_scope_found(self@, p);
                }
                let plen = self.scopes[pi].chain.len();
                let mut j: usize = 0;
                while j < plen
                    invariant
                        j <= plen,
                        self@ == s0,
                        0 <= pi < self@.len(),
                        plen == self@[pi as int].chain@.len(),
                        chain@ == self@[pi as int].chain@.subrange(0, j as int),
                    decreases plen - j,
                {
                    let a = self.scopes[pi].chain[j];
                    chain.push(a);
                    proof {
                        assert(chain@ =~= self@[pi as int].chain@.subrange(0, j + 1 as int));
                    }
                    j = j + 1;
                }
                proof {
                    assert(chain@ =~= self@[pi as int].chain@);
                }
                chain.push(p);
            },
        }
        let mut merged: Vec<LabelPair> = Vec::new();
        proof {
            assert(pairs_view(merged@) =~= Seq::<(Seq<char>, Seq<char>)>::empty());
        }
        merge_pairs(&mut merged, fields);
        self.scopes.push(Scope { id, chain, fields: merged });
        proof {
            assert(self@.subrange(0, s0.len() as int) =~= s0);
            lemma_find_scope_extends(s0, self@.last(), id);
            assert(find_scope(self@, id) == s0.len());
            assert forall|i: int, j: int|
                0 <= i < self@.len() && 0 <= j < self@[i].chain@.len() implies find_scope(
                self@,
                #[trigger] self@[i].chain@[j],
            ) >= 0 by {
                let cid = self@[i].chain@[j];
                if i < s0.len() {
                    lemma_find_scope_grows(s0, self@.last(), cid);
                } else {
                    match parent {
                        Option::None => {},
                        Option::Some(p) => {
                            let pidx = find_scope(s0, p);
                            lemma_find_scope_found(s0, p);
                            if j < self@[i].chain@.len() - 1 {
                                assert(cid == s0[pidx].chain@[j]);
                            } else {
                                assert(cid == p);
                            }
                            lemma_find_scope_grows(s0, self@.last(), cid);
                        },
                    }
                }
            }
            assert forall|i: int, j: int|
                0 <= i < j < self@.len() implies (#[trigger] self@[i]).id != (
            #[trigger] self@[j]).id by {
                if j == s0.len() {
                    lemma_find_scope_absent(s0, id);
                }
            }
        }
    }

    /// Records further fields on an already-registered scope,
    /// last write winning per name.
    pub fn on_fields_recorded(&mut self, id: u64, fields: &Vec<LabelPair>)
        requires
            old(self).wf(),
            old(self).registered(id),
        ensures
            final(self).wf(),
            final(self).registered(id),
            final(self).spec_fields_of(id) == spec_merge(
                old(self).spec_fields_of(id),
                pairs_view(fields@),
            ),
            final(self)@.len() == old(self)@.len(),
            forall|i: int|
                0 <= i < old(self)@.len() && i != find_scope(old(self)@, id) ==> final(self)@[i]
                    == old(self)@[i],
            final(self)@[find_scope(old(self)@, id)].id == old(self)@[find_scope(
                old(self)@,
                id,
            )].id,
            final(self)@[find_scope(old(self)@, id)].chain@ == old(self)@[find_scope(
                old(self)@,
                id,
            )].chain@,
            find_scope(final(self)@, id) == find_scope(old(self)@, id),
    {
        let ghost s0 = self@;
        let i = match self.find_index(id) {
            Option::Some(i) => i,
            Option::None => {
                proof {
                    assert(false);
                }
                0
            },
        };
        proof {
            lemma_find_scope_found(s0, id);
        }
        let mut sc = self.scopes.remove(i);
        merge_pairs(&mut sc.fields, fields);
        self.scopes.insert(i, sc);
        proof {
            let snew = self@;
            assert forall|j: int| 0 <= j < s0.len() && j != i as int implies snew[j] == s0[j] by {}
            assert(snew[i as int].id == id);
            lemma_find_scope_same_ids(s0, snew, id);
            assert(find_scope(snew, id) == find_scope(s0, id));
            assert forall|a: int, b: int|
                0 <= a < b < snew.len() implies (#[trigger] snew[a]).id != (
            #[trigger] snew[b]).id by {
                assert(snew[a].id == s0[a].id);
                assert(snew[b].id == s0[b].id);
            }
            assert forall|a: int, b: int|
                0 <= a < snew.len() && 0 <= b < snew[a].chain@.len() implies find_scope(
                snew,
                #[trigger] snew[a].chain@[b],
            ) >= 0 by {
                assert(snew[a].chain@ == s0[a].chain@);
                assert(find_scope(s0, s0[a].chain@[b]) >= 0);
                lemma_find_scope_same_ids(s0, snew, s0[a].chain@[b]);
            }
        }
    }

    /// Aggregates the structured fields visible from the scope `id`: the
    /// fields of each scope from the root ancestor down to `id` itself,
    /// concatenated in that order; duplicate names across scopes are all
    /// retained, deeper scopes after shallower ones.
    pub fn aggregate(&self, id: u64) -> (r: Vec<LabelPair>)
        requires
            self.wf(),
            self.registered(id),
        ensures
            pairs_view(r@) == self.spec_aggregate(id),
    {
        let i = match self.find_index(id) {
            Option::Some(i) => i,
            Option::None => {
                proof {
                    assert(false);
                }
                0
            },
        };
        proof {
            lemma_find_scope_found(self@, id);
        }
        let mut out: Vec<LabelPair> = Vec::new();
        let clen = self.scopes[i].chain.len();
        let mut j: usize = 0;
        proof {
            assert(pairs_view(out@) =~= self.chain_fields(self@[i as int].chain@.subrange(0, 0)));
        }
        while j < clen
            invariant
                j <= clen,
                self.wf(),
                0 <= i < self@.len(),
                clen == self@[i as int].chain@.len(),
                pairs_view(out@) == self.chain_fields(self@[i as int].chain@.subrange(0, j as int)),
            decreases clen - j,
        {
            let aid = self.scopes[i].chain[j];
            let ai = match self.find_index(aid) {
                Option::Some(ai) => ai,
                Option::None => {
                    proof {
                        assert(false);
                    }
                    0
                },
            };
            proof {
                lemma_find_scope_found(self@, aid);
            }
            extend_pairs(&mut out, &self.scopes[ai].fields);
            proof {
                let pre = self@[i as int].chain@.subrange(0, j as int);
                let post = self@[i as int].chain@.subrange(0, j + 1 as int);
                assert(post.drop_last() =~= pre);
                assert(post.last() == aid);
                assert(pairs_view(out@) =~= self.chain_fields(post));
            }
            j = j + 1;
        }
        proof {
            assert(self@[i as int].chain@.subrange(0, clen as int) =~= self@[i as int].chain@);
        }
        extend_pairs(&mut out, &self.scopes[i].fields);
        proof {
            assert(pairs_view(out@) =~= self.spec_aggregate(id));
        }
        out
    }
}

pub proof fn lemma_find_scope_first(s: Seq<Scope>, id: u64, i: int)
    requires
        0 <= i < s.len(),
        s[i].id == id,
        forall|j: int| 0 <= j < i ==> (#[trigger] s[j]).id != id,
    ensures
        find_scope(s, id) == i,
    decreases i,
{
    if i > 0 {
        lemma_find_scope_first(s.drop_first(), id, i - 1);
    }
}

pub proof fn lemma_find_scope_none(s: Seq<Scope>, id: u64)
    requires
        forall|j: int| 0 <= j < s.len() ==> (#[trigger] s[j]).id != id,
    ensures
        find_scope(s, id) == -1,
    decreases s.len(),
{
    if s.len() > 0 {
        lemma_find_scope_none(s.drop_first(), id);
    }
}

pub proof fn lemma_find_scope_found(s: Seq<Scope>, id: u64)
    requires
        find_scope(s, id) >= 0,
    ensures
        find_scope(s, id) < s.len(),
        s[find_scope(s, id)].id == id,
    decreases s.len(),
{
    if s.len() > 0 && s[0].id != id {
        lemma_find_scope_found(s.drop_first(), id);
    }
}

pub proof fn lemma_find_scope_absent(s: Seq<Scope>, id: u64)
    requires
        find_scope(s, id) < 0,
    ensures
        forall|j: int| 0 <= j < s.len() ==> (#[trigger] s[j]).id != id,
    decreases s.len(),
{
    if s.len() > 0 {
        lemma_find_scope_absent(s.drop_first(), id);
        assert forall|j: int| 0 <= j < s.len() implies (#[trigger] s[j]).id != id by {
            if j > 0 {
                assert(s.drop_first()[j - 1] == s[j]);
            }
        }
    }
}

/// A scope found in a table is still found, at the same index, after a
/// push; a fresh scope pushed at the end is found at the end.
pub proof fn lemma_find_scope_grows(s: Seq<Scope>, sc: Scope, id: u64)
    requires
        find_scope(s, id) >= 0,
    ensures
        find_scope(s.push(sc), id) == find_scope(s, id),
    decreases s.len(),
{
    lemma_find_scope_found(s, id);
    let i = find_scope(s, id);
    assert forall|j: int| 0 <= j < i implies (#[trigger] s.push(sc)[j]).id != id by {
        lemma_find_scope_prefix_distinct(s, id, j);
    }
    lemma_find_scope_first(s.push(sc), id, i);
}

pub proof fn lemma_find_scope_extends(s: Seq<Scope>, sc: Scope, id: u64)
    requires
        find_scope(s, id) < 0,
        sc.id == id,
        s.push(sc).last() == sc,
    ensures
        find_scope(s.push(sc), id) == s.len(),
{
    lemma_find_scope_absent(s, id);
    assert forall|j: int| 0 <= j < s.len() implies (#[trigger] s.push(sc)[j]).id != id by {
        assert(s.push(sc)[j] == s[j]);
    }
    lemma_find_scope_first(s.push(sc), id, s.len() as int);
}

/// Everything before the found index has another identifier.
pub proof fn lemma_find_scope_prefix_distinct(s: Seq<Scope>, id: u64, j: int)
    requires
        find_scope(s, id) >= 0,
        0 <= j < find_scope(s, id),
    ensures
        s[j].id != id,
    decreases j,
{
    lemma_find_scope_found(s, id);
    assert(s[0].id != id);
    if j > 0 {
        lemma_find_scope_prefix_distinct(s.drop_first(), id, j - 1);
        assert(s.drop_first()[j - 1] == s[j]);
    }
}

/// Two tables whose scopes carry the same identifiers in the same order
/// agree on every lookup.
pub proof fn lemma_find_scope_same_ids(s0: Seq<Scope>, s1: Seq<Scope>, id: u64)
    requires
        s0.len() == s1.len(),
        forall|i: int| 0 <= i < s0.len() ==> (#[trigger] s0[i]).id == (#[trigger] s1[i]).id,
    ensures
        find_scope(s0, id) == find_scope(s1, id),
    decreases s0.len(),
{
    if s0.len() > 0 {
        assert forall|i: int|
            0 <= i < s0.drop_first().len() implies (#[trigger] s0.drop_first()[i]).id == (
        #[trigger] s1.drop_first()[i]).id by {
            assert(s0.drop_first()[i] == s0[i + 1]);
            assert(s1.drop_first()[i] == s1[i + 1]);
        }
        lemma_find_scope_same_ids(s0.drop_first(), s1.drop_first(), id);
    }
}

} // verus!
