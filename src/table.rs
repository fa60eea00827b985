//! A small association table with unique keys, viewed as a `Map`.
use vstd::prelude::*;
use vstd::seq_lib::seq_to_set_is_finite;
use vstd::set_lib::{lemma_int_range, lemma_len_subset, set_int_range};

verus! {

/// A key that can be compared by its view.
pub trait TableKey: View + Sized {
    fn same_key(&self, other: &Self) -> (r: bool)
        ensures
            r == (self@ == other@),
    ;
}

impl TableKey for u128 {
    fn same_key(&self, other: &Self) -> (r: bool) {
        *self == *other
    }
}

/// Entries kept in insertion order; no two entries share a key.
pub struct Table<K, V> {
    entries: Vec<(K, V)>,
}

impl<K: TableKey, V> Table<K, V> {
    pub closed spec fn has_at(&self, i: int, k: K::V) -> bool {
        0 <= i < self.entries@.len() && self.entries@[i].0@ == k
    }

    /// No key appears twice.
    pub closed spec fn wf(&self) -> bool {
        forall|i: int, j: int|
            0 <= i < j < self.entries@.len() ==> self.entries@[i].0@ != self.entries@[j].0@
    }

    pub closed spec fn contents(&self) -> Map<K::V, V> {
        Map::new(
            |k: K::V| exists|i: int| self.has_at(i, k),
            |k: K::V| self.entries@[choose|i: int| self.has_at(i, k)].1,
        )
    }

    proof fn lemma_entry(&self, i: int)
        requires
            self.wf(),
            0 <= i < self.entries@.len(),
        ensures
            self.contents().contains_key(self.entries@[i].0@),
            self.contents()[self.entries@[i].0@] == self.entries@[i].1,
    {
        let k = self.entries@[i].0@;
        assert(self.has_at(i, k));
        let j = choose|j: int| self.has_at(j, k);
        assert(j == i);
    }

    proof fn lemma_absent(&self, k: K::V)
        requires
            forall|i: int| 0 <= i < self.entries@.len() ==> self.entries@[i].0@ != k,
        ensures
            !self.contents().contains_key(k),
    {
    }

    pub fn new() -> (r: Self)
        ensures
            r.wf(),
            r@ == Map::<K::V, V>::empty(),
    {
        let r = Table { entries: Vec::new() };
        assert(r@ =~= Map::<K::V, V>::empty());
        r
    }

    fn find(&self, k: &K) -> (r: Option<usize>)
        requires
            self.wf(),
        ensures
            match r {
                Some(i) => i < self.entries@.len() && self.entries@[i as int].0@ == k@,
                None => forall|i: int|
                    0 <= i < self.entries@.len() ==> self.entries@[i].0@ != k@,
            },
    {
        let mut i: usize = 0;
        while i < self.entries.len()
            invariant
                i <= self.entries@.len(),
                forall|j: int| 0 <= j < i ==> self.entries@[j].0@ != k@,
            decreases self.entries@.len() - i,
        {
            if self.entries[i].0.same_key(k) {
                return Some(i);
            }
            i = i + 1;
        }
        None
    }

    pub fn contains_key(&self, k: &K) -> (r: bool)
        requires
            self.wf(),
        ensures
            r == self@.contains_key(k@),
    {
        match self.find(k) {
            Some(i) => {
                proof {
                    self.lemma_entry(i as int);
                }
                true
            },
            None => {
                proof {
                    self.lemma_absent(k@);
                }
                false
            },
        }
    }

    pub fn get(&self, k: &K) -> (r: Option<&V>)
        requires
            self.wf(),
        ensures
            match r {
                Some(v) => self@.contains_key(k@) && *v == self@[k@],
                None => !self@.contains_key(k@),
            },
    {
        match self.find(k) {
            Some(i) => {
                proof {
                    self.lemma_entry(i as int);
                }
                Some(&self.entries[i].1)
            },
            None => {
                proof {
                    self.lemma_absent(k@);
                }
                None
            },
        }
    }

    /// Binds `k` to `v`; an earlier binding of `k` is replaced and handed back.
    pub fn insert(&mut self, k: K, v: V) -> (r: Option<V>)
        requires
            old(self).wf(),
        ensures
            final(self).wf(),
            final(self)@ == old(self)@.insert(k@, v),
            match r {
                Some(w) => old(self)@.contains_key(k@) && w == old(self)@[k@],
                None => !old(self)@.contains_key(k@),
            },
    {
        let ghost kv = k@;
        match self.find(&k) {
            Some(i) => {
                proof {
                    self.lemma_entry(i as int);
                }
                let ghost prev = self.entries@;
                let (_, w) = self.entries.remove(i);
                self.entries.insert(i, (k, v));
                proof {
                    assert(self.entries@ == prev.update(i as int, (k, v)));
                    assert forall|a: int, b: int|
                        0 <= a < b < self.entries@.len() implies self.entries@[a].0@
                        != self.entries@[b].0@ by {
                        assert(prev[a].0@ != prev[b].0@);
                    }
                    self.lemma_new_contents(prev, i as int);
                    assert forall|q: K::V| #![auto]
                        self@.contains_key(q) == old(self)@.insert(kv, v).contains_key(q) by {
                        if old(self)@.contains_key(q) {
                            let j = choose|j: int| old(self).has_at(j, q);
                            assert(0 <= j < prev.len() && prev[j].0@ == q);
                        }
                        if exists|j: int| 0 <= j < prev.len() && prev[j].0@ == q {
                            let j = choose|j: int| 0 <= j < prev.len() && prev[j].0@ == q;
                            assert(old(self).has_at(j, q));
                        }
                    }
                    assert forall|q: K::V| #![auto]
                        self@.contains_key(q) implies self@[q] == old(self)@.insert(kv, v)[q] by {
                        let j = choose|j: int| self.has_at(j, q);
                        self.lemma_entry(j);
                        if j != i {
                            old(self).lemma_entry(j);
                        }
                    }
                    assert(self@ =~= old(self)@.insert(kv, v));
                }
                Some(w)
            },
            None => {
                let ghost prev = self.entries@;
                self.entries.push((k, v));
                proof {
                    let n = prev.len() as int;
                    assert(self.entries@ == prev.push((k, v)));
                    assert forall|q: K::V| #![auto]
                        self@.contains_key(q) == old(self)@.insert(kv, v).contains_key(q) by {
                        if q != kv {
                            if self@.contains_key(q) {
                                let j = choose|j: int| self.has_at(j, q);
                                assert(old(self).has_at(j, q));
                            }
                            if old(self)@.contains_key(q) {
                                let j = choose|j: int| old(self).has_at(j, q);
                                assert(self.has_at(j, q));
                            }
                        } else {
                            assert(self.has_at(n, q));
                        }
                    }
                    assert forall|q: K::V| #![auto]
                        self@.contains_key(q) implies self@[q] == old(self)@.insert(kv, v)[q] by {
                        if q == kv {
                            self.lemma_entry(n);
                        } else {
                            let j = choose|j: int| self.has_at(j, q);
                            self.lemma_entry(j);
                            old(self).lemma_entry(j);
                        }
                    }
                    assert(self@ =~= old(self)@.insert(kv, v));
                }
                None
            },
        }
    }

    proof fn lemma_new_contents(&self, prev: Seq<(K, V)>, i: int)
        requires
            self.wf(),
            0 <= i < prev.len(),
            self.entries@ == prev.update(i, self.entries@[i]),
            self.entries@[i].0@ == prev[i].0@,
        ensures
            forall|q: K::V|
                #![auto]
                (exists|j: int| 0 <= j < prev.len() && prev[j].0@ == q) == self@.contains_key(q),
    {
        assert forall|q: K::V| #![auto]
            (exists|j: int| 0 <= j < prev.len() && prev[j].0@ == q) == self@.contains_key(q) by {
            if exists|j: int| 0 <= j < prev.len() && prev[j].0@ == q {
                let j = choose|j: int| 0 <= j < prev.len() && prev[j].0@ == q;
                assert(self.has_at(j, q));
            }
            if self@.contains_key(q) {
                let j = choose|j: int| self.has_at(j, q);
                assert(0 <= j < prev.len() && prev[j].0@ == q);
            }
        }
    }

    /// Removes the binding of `k`, handing back its value.
    pub fn remove(&mut self, k: &K) -> (r: Option<V>)
        requires
            old(self).wf(),
        ensures
            final(self).wf(),
            final(self)@ == old(self)@.remove(k@),
            match r {
                Some(w) => old(self)@.contains_key(k@) && w == old(self)@[k@],
                None => !old(self)@.contains_key(k@),
            },
    {
        match self.find(k) {
            Some(i) => {
                proof {
                    self.lemma_entry(i as int);
                }
                let ghost prev = self.entries@;
                let (_, w) = self.entries.remove(i);
                proof {
                    assert(self.entries@ == prev.remove(i as int));
                    assert forall|a: int, b: int|
                        0 <= a < b < self.entries@.len() implies self.entries@[a].0@
                        != self.entries@[b].0@ by {
                        let a2 = if a < i { a } else { a + 1 };
                        let b2 = if b < i { b } else { b + 1 };
                        assert(prev[a2].0@ != prev[b2].0@);
                    }
                    assert forall|q: K::V| #![auto]
                        self@.contains_key(q) == old(self)@.remove(k@).contains_key(q) by {
                        if self@.contains_key(q) {
                            let j = choose|j: int| self.has_at(j, q);
                            let j2 = if j < i { j } else { j + 1 };
                            assert(old(self).has_at(j2, q));
                            assert(j2 != i);
                        }
                        if old(self)@.remove(k@).contains_key(q) {
                            let j = choose|j: int| old(self).has_at(j, q);
                            assert(j != i);
                            let j2 = if j < i { j } else { j - 1 };
                            assert(self.has_at(j2, q));
                        }
                    }
                    assert forall|q: K::V| #![auto]
                        self@.contains_key(q) implies self@[q] == old(self)@.remove(k@)[q] by {
                        let j = choose|j: int| self.has_at(j, q);
                        let j2 = if j < i { j } else { j + 1 };
                        self.lemma_entry(j);
                        old(self).lemma_entry(j2);
                    }
                    assert(self@ =~= old(self)@.remove(k@));
                }
                Some(w)
            },
            None => {
                proof {
                    self.lemma_absent(k@);
                    assert(self@ =~= old(self)@.remove(k@));
                }
                None
            },
        }
    }
}

impl<V> Table<u128, V> {
    /// When every key below `c` is bound, there are at least `c` entries.
    proof fn lemma_full_prefix(&self, c: int)
        requires
            self.wf(),
            0 <= c <= u128::MAX as int + 1,
            forall|x: u128| (x as int) < c ==> #[trigger] self@.contains_key(x),
        ensures
            c <= self.entries@.len(),
    {
        let keys = self.entries@.map_values(|e: (u128, V)| e.0 as int);
        let range = set_int_range(0, c);
        assert forall|i: int| range.contains(i) implies keys.to_set().contains(i) by {
            let x = i as u128;
            assert(self@.contains_key(x));
            let j = choose|j: int| self.has_at(j, x);
            assert(self.entries@[j].0 == x);
            assert(x as int == i);
            assert(keys[j] == i);
        }
        lemma_int_range(0, c);
        seq_to_set_is_finite(keys);
        lemma_len_subset(range, keys.to_set());
        keys.lemma_cardinality_of_set();
    }

    /// The least key that no entry holds.
    pub fn unused_key(&self) -> (r: u128)
        requires
            self.wf(),
        ensures
            !self@.contains_key(r),
            forall|x: u128| x < r ==> #[trigger] self@.contains_key(x),
    {
        let n = self.entries.len();
        let mut c: u128 = 0;
        while self.contains_key(&c)
            invariant
                self.wf(),
                n == self.entries@.len(),
                c <= n,
                forall|x: u128| x < c ==> #[trigger] self@.contains_key(x),
            decreases n + 1 - c,
        {
            proof {
                assert forall|x: u128| (x as int) < c + 1 implies #[trigger] self@.contains_key(x) by {
                    if x < c {
                    }
                }
                self.lemma_full_prefix(c + 1);
            }
            c = c + 1;
        }
        c
    }
}

impl<K: TableKey, V> View for Table<K, V> {
    type V = Map<K::V, V>;

    closed spec fn view(&self) -> Map<K::V, V> {
        self.contents()
    }
}

} // verus!
