//! A finite map held as a vector of key/value pairs, standing for one
//! keyed collection of the contract's storage.

use vstd::prelude::*;

verus! {

/// A key that a `Table` can hold: its value as a key is its view.
pub trait TableKey: View + Sized {
    /// Whether `self` and `other` are the same key.
    fn same_key(&self, other: &Self) -> (r: bool)
        ensures
            r == (self@ == other@),
    ;

    /// A copy of the key.
    fn copy_key(&self) -> (r: Self)
        ensures
            r@ == self@,
    ;
}

impl TableKey for u64 {
    fn same_key(&self, other: &Self) -> (r: bool) {
        *self == *other
    }

    fn copy_key(&self) -> (r: Self) {
        *self
    }
}

/// The map that a sequence of pairs stands for, a later pair for a key
/// taking the place of an earlier one.
pub open spec fn pairs_map<A, B>(s: Seq<(A, B)>) -> Map<A, B>
    decreases s.len(),
{
    if s.len() == 0 {
        Map::empty()
    } else {
        pairs_map(s.drop_last()).insert(s.last().0, s.last().1)
    }
}

/// No key occurs twice in `s`.
pub open spec fn distinct_keys<A, B>(s: Seq<(A, B)>) -> bool {
    forall|i: int, j: int| 0 <= i < j < s.len() ==> s[i].0 != s[j].0
}

proof fn lemma_pairs_map_absent<A, B>(s: Seq<(A, B)>, k: A)
    requires
        forall|i: int| 0 <= i < s.len() ==> s[i].0 != k,
    ensures
        !pairs_map(s).contains_key(k),
    decreases s.len(),
{
    if s.len() > 0 {
        lemma_pairs_map_absent(s.drop_last(), k);
    }
}

proof fn lemma_pairs_map_at<A, B>(s: Seq<(A, B)>, i: int)
    requires
        distinct_keys(s),
        0 <= i < s.len(),
    ensures
        pairs_map(s).contains_key(s[i].0),
        pairs_map(s)[s[i].0] == s[i].1,
    decreases s.len(),
{
    if i < s.len() - 1 {
        lemma_pairs_map_at(s.drop_last(), i);
    }
}

proof fn lemma_pairs_map_update<A, B>(s: Seq<(A, B)>, i: int, v: B)
    requires
        distinct_keys(s),
        0 <= i < s.len(),
    ensures
        pairs_map(s.update(i, (s[i].0, v))) == pairs_map(s).insert(s[i].0, v),
    decreases s.len(),
{
    let t = s.update(i, (s[i].0, v));
    if i == s.len() - 1 {
        assert(t.drop_last() =~= s.drop_last());
        assert(pairs_map(t) =~= pairs_map(s).insert(s[i].0, v));
    } else {
        assert(t.drop_last() =~= s.drop_last().update(i, (s[i].0, v)));
        lemma_pairs_map_update(s.drop_last(), i, v);
        assert(pairs_map(t) =~= pairs_map(s).insert(s[i].0, v));
    }
}

/// A finite map from keys to values, each key held once.
pub struct Table<K: TableKey, T: Copy> {
    entries: Vec<(K, T)>,
}

impl<K: TableKey, T: Copy> Table<K, T> {
    /// The entries as pairs of key views and values.
    pub closed spec fn pairs(&self) -> Seq<(K::V, T)> {
        self.entries@.map_values(|e: (K, T)| (e.0@, e.1))
    }

    #[verifier::type_invariant]
    closed spec fn keys_distinct(&self) -> bool {
        distinct_keys(self.pairs())
    }

    /// The map that the table holds.
    pub closed spec fn map(&self) -> Map<K::V, T> {
        pairs_map(self.pairs())
    }

    /// An empty table.
    pub fn new() -> (t: Self)
        ensures
            t.map() == Map::<K::V, T>::empty(),
    {
        let t = Table { entries: Vec::new() };
        assert(t.pairs() =~= Seq::<(K::V, T)>::empty());
        t
    }

    /// The value held for `k`, if any.
    pub fn get(&self, k: &K) -> (r: Option<T>)
        ensures
            r == (if self.map().contains_key(k@) {
                Some(self.map()[k@])
            } else {
                None
            }),
    {
        proof { use_type_invariant(self); }
        let mut i: usize = 0;
        while i < self.entries.len()
            invariant
                i <= self.entries@.len(),
                self.pairs().len() == self.entries@.len(),
                distinct_keys(self.pairs()),
                forall|j: int| 0 <= j < i ==> self.pairs()[j].0 != k@,
            decreases self.entries@.len() - i,
        {
            let e = &self.entries[i];
            if e.0.same_key(k) {
                proof { lemma_pairs_map_at(self.pairs(), i as int); }
                return Some(e.1);
            }
            i = i + 1;
        }
        proof { lemma_pairs_map_absent(self.pairs(), k@); }
        None
    }

    /// Holds `v` for `k`, in place of any value held for it before.
    pub fn insert(&mut self, k: K, v: T)
        ensures
            final(self).map() == old(self).map().insert(k@, v),
    {
        proof { use_type_invariant(&*self); }
        let ghost old_pairs = self.pairs();
        let ghost kv = k@;
        let mut entries: Vec<(K, T)> = Vec::new();
        std::mem::swap(&mut entries, &mut self.entries);
        assert(entries@.map_values(|e: (K, T)| (e.0@, e.1)) == old_pairs);
        let mut i: usize = 0;
        while i < entries.len()
            invariant
                i <= entries@.len(),
                entries@.map_values(|e: (K, T)| (e.0@, e.1)) == old_pairs,
                old_pairs.len() == entries@.len(),
                distinct_keys(old_pairs),
                kv == k@,
                old(self).map() == pairs_map(old_pairs),
                forall|j: int| 0 <= j < i ==> old_pairs[j].0 != k@,
            decreases entries@.len() - i,
        {
            if entries[i].0.same_key(&k) {
                proof {
                    assert(old_pairs[i as int] == (entries@[i as int].0@, entries@[i as int].1));
                    lemma_pairs_map_update(old_pairs, i as int, v);
                }
                entries.set(i, (k, v));
                assert(entries@.map_values(|e: (K, T)| (e.0@, e.1)) =~= old_pairs.update(
                    i as int,
                    (old_pairs[i as int].0, v),
                ));
                assert(pairs_map(entries@.map_values(|e: (K, T)| (e.0@, e.1))) == pairs_map(
                    old_pairs,
                ).insert(kv, v));
                self.entries = entries;
                assert(self.map() == pairs_map(old_pairs).insert(kv, v));
                return;
            }
            i = i + 1;
        }
        entries.push((k, v));
        assert(entries@.map_values(|e: (K, T)| (e.0@, e.1)) =~= old_pairs.push((kv, v)));
        assert(old_pairs.push((kv, v)).drop_last() =~= old_pairs);
        self.entries = entries;
    }

    /// All the pairs that the table holds, each key once.
    pub fn to_pairs(&self) -> (r: Vec<(K, T)>)
        ensures
            forall|i: int, j: int| 0 <= i < j < r@.len() ==> r@[i].0@ != r@[j].0@,
            forall|i: int| 0 <= i < r@.len() ==> #[trigger] self.map().contains_key(r@[i].0@)
                && self.map()[r@[i].0@] == r@[i].1,
            forall|k: K::V| self.map().contains_key(k) ==> exists|i: int|
                0 <= i < r@.len() && #[trigger] r@[i].0@ == k,
    {
        proof { use_type_invariant(self); }
        let mut r: Vec<(K, T)> = Vec::new();
        let mut i: usize = 0;
        while i < self.entries.len()
            invariant
                i <= self.entries@.len(),
                r@.len() == i,
                self.pairs().len() == self.entries@.len(),
                distinct_keys(self.pairs()),
                forall|j: int| 0 <= j < i ==> r@[j].0@ == #[trigger] self.pairs()[j].0
                    && r@[j].1 == self.pairs()[j].1,
            decreases self.entries@.len() - i,
        {
            let e = &self.entries[i];
            r.push((e.0.copy_key(), e.1));
            i = i + 1;
        }
        proof {
            assert forall|i: int, j: int| 0 <= i < j < r@.len() implies r@[i].0@ != r@[j].0@ by {
                assert(r@[i].0@ == self.pairs()[i].0);
                assert(r@[j].0@ == self.pairs()[j].0);
            }
            assert forall|j: int| 0 <= j < r@.len() implies #[trigger] self.map().contains_key(
                r@[j].0@,
            ) && self.map()[r@[j].0@] == r@[j].1 by {
                lemma_pairs_map_at(self.pairs(), j);
            }
            assert forall|k: K::V| self.map().contains_key(k) implies exists|j: int|
                0 <= j < r@.len() && #[trigger] r@[j].0@ == k by {
                if forall|j: int| 0 <= j < self.pairs().len() ==> self.pairs()[j].0 != k {
                    lemma_pairs_map_absent(self.pairs(), k);
                }
                let j = choose|j: int| 0 <= j < self.pairs().len() && self.pairs()[j].0 == k;
                assert(r@[j].0@ == k);
            }
        }
        r
    }
}

} // verus!
