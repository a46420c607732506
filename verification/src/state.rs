//! The account-balance ledger. Balances live in an association list with
//! unique keys, viewed as a map from address to balance; a missing address
//! means balance 0.
use vstd::prelude::*;
use crate::strutil::str_eq;

verus! {

/// The balance of `a` in `m`, reading 0 for a missing key.
pub open spec fn balance_of(m: Map<Seq<char>, u64>, a: Seq<char>) -> u64 {
    if m.contains_key(a) {
        m[a]
    } else {
        0
    }
}

spec fn keys_unique(s: Seq<(String, u64)>) -> bool {
    forall|i: int, j: int| 0 <= i < j < s.len() ==> s[i].0@ != s[j].0@
}

spec fn entries_map(s: Seq<(String, u64)>) -> Map<Seq<char>, u64>
    decreases s.len(),
{
    if s.len() == 0 {
        Map::empty()
    } else {
        entries_map(s.drop_last()).insert(s.last().0@, s.last().1)
    }
}

spec fn entries_total(s: Seq<(String, u64)>) -> int
    decreases s.len(),
{
    if s.len() == 0 {
        0
    } else {
        entries_total(s.drop_last()) + s.last().1
    }
}

proof fn lemma_map_index(s: Seq<(String, u64)>, i: int)
    requires
        keys_unique(s),
        0 <= i < s.len(),
    ensures
        entries_map(s).contains_key(s[i].0@),
        entries_map(s)[s[i].0@] == s[i].1,
    decreases s.len(),
{
    if i < s.len() - 1 {
        lemma_map_index(s.drop_last(), i);
    }
}

proof fn lemma_map_absent(s: Seq<(String, u64)>, a: Seq<char>)
    requires
        forall|i: int| 0 <= i < s.len() ==> s[i].0@ != a,
    ensures
        !entries_map(s).contains_key(a),
    decreases s.len(),
{
    if s.len() > 0 {
        lemma_map_absent(s.drop_last(), a);
    }
}

proof fn lemma_update(s: Seq<(String, u64)>, i: int, p: (String, u64))
    requires
        keys_unique(s),
        0 <= i < s.len(),
        p.0@ == s[i].0@,
    ensures
        keys_unique(s.update(i, p)),
        entries_map(s.update(i, p)) == entries_map(s).insert(p.0@, p.1),
        entries_total(s.update(i, p)) == entries_total(s) - s[i].1 + p.1,
    decreases s.len(),
{
    if i == s.len() - 1 {
        assert(s.update(i, p).drop_last() =~= s.drop_last());
        assert(entries_map(s.update(i, p)) =~= entries_map(s).insert(p.0@, p.1));
    } else {
        lemma_update(s.drop_last(), i, p);
        assert(s.update(i, p).drop_last() =~= s.drop_last().update(i, p));
        assert(entries_map(s.update(i, p)) =~= entries_map(s).insert(p.0@, p.1));
    }
}

proof fn lemma_congruent(s1: Seq<(String, u64)>, s2: Seq<(String, u64)>)
    requires
        s1.len() == s2.len(),
        forall|i: int| 0 <= i < s1.len() ==> s1[i].0@ == s2[i].0@ && s1[i].1 == s2[i].1,
    ensures
        entries_map(s1) == entries_map(s2),
        entries_total(s1) == entries_total(s2),
        keys_unique(s1) == keys_unique(s2),
    decreases s1.len(),
{
    if s1.len() > 0 {
        lemma_congruent(s1.drop_last(), s2.drop_last());
        assert(entries_map(s1) =~= entries_map(s2));
    }
    assert(keys_unique(s1) == keys_unique(s2));
}

/// A finite map from address to balance, with unique keys.
pub struct StateMap {
    entries: Vec<(String, u64)>,
}

impl View for StateMap {
    type V = Map<Seq<char>, u64>;

    closed spec fn view(&self) -> Map<Seq<char>, u64> {
        entries_map(self.entries@)
    }
}

impl StateMap {
    /// Keys are pairwise distinct.
    pub closed spec fn wf(self) -> bool {
        keys_unique(self.entries@)
    }

    /// The sum of all balances, each address counted once.
    pub closed spec fn spec_total(self) -> int {
        entries_total(self.entries@)
    }

    /// The empty ledger: every balance is 0.
    pub fn new() -> (r: StateMap)
        ensures
            r.wf(),
            r@ == Map::<Seq<char>, u64>::empty(),
            r.spec_total() == 0,
    {
        StateMap { entries: Vec::new() }
    }

    /// The balance of `a`, 0 when absent.
    pub fn get_balance(&self, a: &str) -> (r: u64)
        requires
            self.wf(),
        ensures
            r == balance_of(self@, a@),
    {
        let n = self.entries.len();
        let mut i: usize = 0;
        while i < n
            invariant
                n == self.entries.len(),
                i <= n,
                self.wf(),
                forall|k: int| 0 <= k < i ==> self.entries@[k].0@ != a@,
            decreases n - i,
        {
            if str_eq(self.entries[i].0.as_str(), a) {
                proof {
                    lemma_map_index(self.entries@, i as int);
                }
                return self.entries[i].1;
            }
            i = i + 1;
        }
        proof {
            lemma_map_absent(self.entries@, a@);
        }
        0
    }

    /// Set the balance of `a` to `v`.
    pub fn set_balance(&mut self, a: &str, v: u64)
        requires
            old(self).wf(),
        ensures
            final(self).wf(),
            final(self)@ == old(self)@.insert(a@, v),
            final(self).spec_total() == old(self).spec_total() - balance_of(old(self)@, a@) + v,
    {
        let n = self.entries.len();
        let mut i: usize = 0;
        while i < n
            invariant
                n == self.entries.len(),
                i <= n,
                self.wf(),
                *self == *old(self),
                forall|k: int| 0 <= k < i ==> self.entries@[k].0@ != a@,
            decreases n - i,
        {
            if str_eq(self.entries[i].0.as_str(), a) {
                proof {
                    lemma_map_index(self.entries@, i as int);
                }
                let key = a.to_owned();
                self.entries.set(i, (key, v));
                proof {
                    lemma_update(old(self).entries@, i as int, self.entries@[i as int]);
                }
                return;
            }
            i = i + 1;
        }
        proof {
            lemma_map_absent(self.entries@, a@);
        }
        let key = a.to_owned();
        self.entries.push((key, v));
        proof {
            assert(self.entries@.drop_last() =~= old(self).entries@);
        }
    }

    /// A copy with the same contents.
    pub fn duplicate(&self) -> (r: StateMap)
        requires
            self.wf(),
        ensures
            r.wf(),
            r@ == self@,
            r.spec_total() == self.spec_total(),
    {
        let n = self.entries.len();
        let mut out: Vec<(String, u64)> = Vec::new();
        let mut i: usize = 0;
        while i < n
            invariant
                n == self.entries.len(),
                i <= n,
                out@.len() == i,
                forall|k: int|
                    0 <= k < i ==> out@[k].0@ == self.entries@[k].0@ && out@[k].1
                        == self.entries@[k].1,
            decreases n - i,
        {
            let key = self.entries[i].0.clone();
            let v = self.entries[i].1;
            out.push((key, v));
            i = i + 1;
        }
        let r = StateMap { entries: out };
        proof {
            lemma_congruent(r.entries@, self.entries@);
        }
        r
    }
}

} // verus!
