//! A map from strings to strings, held as a list of distinct keys.

use vstd::prelude::*;
use crate::text::{owned, str_eq};

verus! {

/// The map that a list of key/value pairs stands for, later pairs winning.
pub open spec fn pairs_map<V>(s: Seq<(Seq<char>, V)>) -> Map<Seq<char>, V>
    decreases s.len(),
{
    if s.len() == 0 {
        Map::empty()
    } else {
        pairs_map(s.drop_last()).insert(s.last().0, s.last().1)
    }
}

/// No key occurs twice in the list.
pub open spec fn distinct_keys<V>(s: Seq<(Seq<char>, V)>) -> bool {
    forall|i: int, j: int| 0 <= i < j < s.len() ==> s[i].0 != s[j].0
}

/// With distinct keys, a key is in the map exactly when a pair has it, and
/// maps to that pair's value.
pub proof fn lemma_pairs_map_lookup<V>(s: Seq<(Seq<char>, V)>, k: Seq<char>)
    requires
        distinct_keys(s),
    ensures
        pairs_map(s).dom().contains(k) <==> exists|i: int| 0 <= i < s.len() && s[i].0 == k,
        forall|i: int| 0 <= i < s.len() && s[i].0 == k ==> pairs_map(s)[k] == s[i].1,
        pairs_map(s).dom().finite(),
    decreases s.len(),
{
    if s.len() > 0 {
        let t = s.drop_last();
        assert(distinct_keys(t));
        lemma_pairs_map_lookup(t, k);
        if exists|i: int| 0 <= i < s.len() && s[i].0 == k {
            let i = choose|i: int| 0 <= i < s.len() && s[i].0 == k;
            if i < s.len() - 1 {
                assert(t[i].0 == k);
            }
        }
        assert forall|i: int| 0 <= i < s.len() && s[i].0 == k implies pairs_map(s)[k] == s[i].1 by {
            if i < s.len() - 1 {
                assert(t[i].0 == k);
                assert(s.last().0 != k);
            }
        }
    }
}

/// Replacing the value of one pair keeps the keys distinct and sets that
/// key in the map.
pub proof fn lemma_pairs_map_set<V>(s: Seq<(Seq<char>, V)>, i: int, v: V)
    requires
        distinct_keys(s),
        0 <= i < s.len(),
    ensures
        distinct_keys(s.update(i, (s[i].0, v))),
        pairs_map(s.update(i, (s[i].0, v))) == pairs_map(s).insert(s[i].0, v),
{
    let u = s.update(i, (s[i].0, v));
    assert(distinct_keys(u));
    lemma_pairs_map_lookup(s, s[i].0);
    lemma_pairs_map_lookup(u, s[i].0);
    assert forall|k: Seq<char>| pairs_map(u).dom().contains(k) <==> pairs_map(s).insert(
        s[i].0,
        v,
    ).dom().contains(k) by {
        lemma_pairs_map_lookup(s, k);
        lemma_pairs_map_lookup(u, k);
        if exists|j: int| 0 <= j < s.len() && s[j].0 == k {
            let j = choose|j: int| 0 <= j < s.len() && s[j].0 == k;
            assert(u[j].0 == k);
        }
        if exists|j: int| 0 <= j < u.len() && u[j].0 == k {
            let j = choose|j: int| 0 <= j < u.len() && u[j].0 == k;
            assert(s[j].0 == k);
        }
    }
    assert forall|k: Seq<char>| #[trigger] pairs_map(u).dom().contains(k) implies pairs_map(u)[k]
        == pairs_map(s).insert(s[i].0, v)[k] by {
        lemma_pairs_map_lookup(s, k);
        lemma_pairs_map_lookup(u, k);
        let j = choose|j: int| 0 <= j < u.len() && u[j].0 == k;
        assert(u[i].0 == s[i].0);
        if j != i {
            assert(s[j].0 == k);
        }
    }
    assert(pairs_map(u) =~= pairs_map(s).insert(s[i].0, v));
}

/// Removing one pair keeps the keys distinct and removes its key from the
/// map.
pub proof fn lemma_pairs_map_remove<V>(s: Seq<(Seq<char>, V)>, i: int)
    requires
        distinct_keys(s),
        0 <= i < s.len(),
    ensures
        distinct_keys(s.remove(i)),
        pairs_map(s.remove(i)) == pairs_map(s).remove(s[i].0),
{
    let u = s.remove(i);
    assert forall|a: int, b: int| 0 <= a < b < u.len() implies u[a].0 != u[b].0 by {
        let a2 = if a < i { a } else { a + 1 };
        let b2 = if b < i { b } else { b + 1 };
        assert(u[a] == s[a2]);
        assert(u[b] == s[b2]);
    }
    assert forall|k: Seq<char>| pairs_map(u).dom().contains(k) <==> pairs_map(s).remove(
        s[i].0,
    ).dom().contains(k) by {
        lemma_pairs_map_lookup(s, k);
        lemma_pairs_map_lookup(u, k);
        if exists|j: int| 0 <= j < u.len() && u[j].0 == k {
            let j = choose|j: int| 0 <= j < u.len() && u[j].0 == k;
            let j2 = if j < i { j } else { j + 1 };
            assert(s[j2].0 == k);
            assert(j2 != i);
        }
        if exists|j: int| 0 <= j < s.len() && s[j].0 == k && k != s[i].0 {
            let j = choose|j: int| 0 <= j < s.len() && s[j].0 == k && k != s[i].0;
            if j < i {
                assert(u[j].0 == k);
            } else {
                assert(u[j - 1].0 == k);
            }
        }
    }
    assert forall|k: Seq<char>| #[trigger] pairs_map(u).dom().contains(k) implies pairs_map(u)[k]
        == pairs_map(s).remove(s[i].0)[k] by {
        lemma_pairs_map_lookup(s, k);
        lemma_pairs_map_lookup(u, k);
        let j = choose|j: int| 0 <= j < u.len() && u[j].0 == k;
        let j2 = if j < i { j } else { j + 1 };
        assert(s[j2] == u[j]);
    }
    assert(pairs_map(u) =~= pairs_map(s).remove(s[i].0));
}

/// A map from string keys to string values.
pub struct TextMap {
    entries: Vec<(String, String)>,
}

impl TextMap {
    /// The entries as key/value character sequences.
    pub closed spec fn pairs(&self) -> Seq<(Seq<char>, Seq<char>)> {
        self.entries@.map_values(|e: (String, String)| (e.0@, e.1@))
    }

    /// The map from keys to values.
    pub closed spec fn view(&self) -> Map<Seq<char>, Seq<char>> {
        pairs_map(self.pairs())
    }

    /// Each key is held once.
    pub closed spec fn wf(&self) -> bool {
        distinct_keys(self.pairs())
    }

    /// An empty map.
    pub fn new() -> (m: Self)
        ensures
            m.wf(),
            m.view() == Map::<Seq<char>, Seq<char>>::empty(),
    {
        let m = TextMap { entries: Vec::new() };
        assert(m.pairs() =~= Seq::<(Seq<char>, Seq<char>)>::empty());
        m
    }

    /// The number of keys.
    pub fn len(&self) -> (n: usize)
        requires
            self.wf(),
        ensures
            n == self.view().len(),
            self.view().dom().finite(),
    {
        proof {
            self.lemma_len();
        }
        self.entries.len()
    }

    /// A well-formed map holds finitely many keys.
    pub proof fn lemma_finite(&self)
        requires
            self.wf(),
        ensures
            self.view().dom().finite(),
    {
        self.lemma_len();
    }

    proof fn lemma_len(&self)
        requires
            self.wf(),
        ensures
            self.view().len() == self.entries@.len(),
            self.view().dom().finite(),
    {
        lemma_pairs_map_len(self.pairs());
    }

    fn find(&self, key: &str) -> (r: Option<usize>)
        requires
            self.wf(),
        ensures
            r is None ==> !self.view().dom().contains(key@),
            r matches Some(i) ==> i < self.entries@.len() && self.pairs()[i as int].0 == key@
                && self.view().dom().contains(key@) && self.view()[key@] == self.pairs()[i as int].1,
    {
        let mut i: usize = 0;
        while i < self.entries.len()
            invariant
                self.wf(),
                i <= self.entries@.len(),
                forall|j: int| 0 <= j < i ==> self.pairs()[j].0 != key@,
            decreases self.entries@.len() - i,
        {
            if str_eq(self.entries[i].0.as_str(), key) {
                proof {
                    lemma_pairs_map_lookup(self.pairs(), key@);
                }
                return Some(i);
            }
            i = i + 1;
        }
        proof {
            lemma_pairs_map_lookup(self.pairs(), key@);
        }
        None
    }

    /// Whether `key` is in the map.
    pub fn contains_key(&self, key: &str) -> (b: bool)
        requires
            self.wf(),
        ensures
            b == self.view().dom().contains(key@),
    {
        self.find(key).is_some()
    }

    /// The value held under `key`, if any.
    pub fn get(&self, key: &str) -> (r: Option<String>)
        requires
            self.wf(),
        ensures
            r is Some <==> self.view().dom().contains(key@),
            r matches Some(v) ==> v@ == self.view()[key@],
    {
        match self.find(key) {
            Some(i) => Some(self.entries[i].1.clone()),
            None => None,
        }
    }

    /// Holds `value` under `key`, in place of any earlier value.
    pub fn insert(&mut self, key: &str, value: String)
        requires
            old(self).wf(),
        ensures
            final(self).wf(),
            final(self).view() == old(self).view().insert(key@, value@),
            final(self).view().dom().finite(),
    {
        match self.find(key) {
            Some(i) => {
                let k = self.entries[i].0.clone();
                let ghost before = self.pairs();
                self.entries.set(i, (k, value));
                proof {
                    assert(self.pairs() =~= before.update(i as int, (before[i as int].0, value@)));
                    lemma_pairs_map_set(before, i as int, value@);
                }
            },
            None => {
                let ghost before = self.pairs();
                self.entries.push((owned(key), value));
                proof {
                    assert(self.pairs() =~= before.push((key@, value@)));
                    assert(self.pairs().drop_last() =~= before);
                    lemma_pairs_map_lookup(before, key@);
                    assert forall|i: int, j: int|
                        0 <= i < j < self.pairs().len() implies self.pairs()[i].0
                        != self.pairs()[j].0 by {
                        if j == before.len() {
                            assert(before[i].0 == self.pairs()[i].0);
                        }
                    }
                }
            },
        }
        proof {
            self.lemma_len();
        }
    }

    /// Drops `key` and its value, if held.
    pub fn remove(&mut self, key: &str)
        requires
            old(self).wf(),
        ensures
            final(self).wf(),
            final(self).view() == old(self).view().remove(key@),
            final(self).view().dom().finite(),
    {
        match self.find(key) {
            Some(i) => {
                let ghost before = self.pairs();
                self.entries.remove(i);
                proof {
                    assert(self.pairs() =~= before.remove(i as int));
                    lemma_pairs_map_remove(before, i as int);
                }
            },
            None => {
                assert(self.view() =~= self.view().remove(key@));
            },
        }
        proof {
            self.lemma_len();
        }
    }
}

/// With distinct keys, the map has one entry per pair.
pub proof fn lemma_pairs_map_len<V>(s: Seq<(Seq<char>, V)>)
    requires
        distinct_keys(s),
    ensures
        pairs_map(s).len() == s.len(),
        pairs_map(s).dom().finite(),
    decreases s.len(),
{
    if s.len() > 0 {
        let t = s.drop_last();
        assert(distinct_keys(t));
        lemma_pairs_map_len(t);
        lemma_pairs_map_lookup(t, s.last().0);
        if pairs_map(t).dom().contains(s.last().0) {
            let i = choose|i: int| 0 <= i < t.len() && t[i].0 == s.last().0;
            assert(s[i].0 == s[s.len() - 1].0);
        }
    }
}

} // verus!
