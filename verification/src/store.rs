//! A small keyed collection: values stored under distinct string keys, kept
//! in insertion order.

use vstd::prelude::*;
use crate::text::{chars_eq, chars_of};

verus! {

/// Values stored under distinct string keys, in insertion order.
pub struct KeyedVec<T: View> {
    items: Vec<(String, T)>,
}

impl<T: View> KeyedVec<T> {
    #[verifier::type_invariant]
    closed spec fn keys_distinct(&self) -> bool {
        forall|i: int, j: int|
            0 <= i < j < self.items@.len() ==> (#[trigger] self.items@[i]).0@
                != (#[trigger] self.items@[j]).0@
    }

    /// The keys, in insertion order.
    pub closed spec fn keys(&self) -> Seq<Seq<char>> {
        self.items@.map_values(|e: (String, T)| e.0@)
    }

    /// The index of `key` among the keys.
    pub closed spec fn index_of(&self, key: Seq<char>) -> int {
        choose|i: int| 0 <= i < self.items@.len() && self.items@[i].0@ == key
    }

    /// Whether `key` is present.
    pub open spec fn has(&self, key: Seq<char>) -> bool {
        self.keys().contains(key)
    }

    /// The value stored under each key.
    pub closed spec fn map(&self) -> Map<Seq<char>, T::V> {
        Map::new(|k: Seq<char>| self.has(k), |k: Seq<char>| self.items@[self.index_of(k)].1@)
    }

    /// The values, in key order.
    pub closed spec fn values(&self) -> Seq<T::V> {
        self.items@.map_values(|e: (String, T)| e.1@)
    }

    proof fn lemma_index_of(&self, i: int)
        requires
            self.keys_distinct(),
            0 <= i < self.items@.len(),
        ensures
            self.has(self.items@[i].0@),
            self.index_of(self.items@[i].0@) == i,
            self.keys()[i] == self.items@[i].0@,
    {
        let key = self.items@[i].0@;
        assert(self.keys()[i] == key);
        let j = self.index_of(key);
        if j != i {
            if j < i {
                assert(self.items@[j].0@ != self.items@[i].0@);
            } else {
                assert(self.items@[i].0@ != self.items@[j].0@);
            }
        }
    }

    proof fn lemma_has(&self, key: Seq<char>)
        requires
            self.keys_distinct(),
        ensures
            self.has(key) <==> exists|i: int|
                0 <= i < self.items@.len() && #[trigger] self.items@[i].0@ == key,
            self.has(key) ==> 0 <= self.index_of(key) < self.items@.len() && self.items@[self.index_of(key)].0@ == key,
    {
        if self.has(key) {
            let i = choose|i: int| 0 <= i < self.keys().len() && self.keys()[i] == key;
            assert(self.items@[i].0@ == key);
        }
        if exists|i: int| 0 <= i < self.items@.len() && #[trigger] self.items@[i].0@ == key {
            let i = choose|i: int| 0 <= i < self.items@.len() && #[trigger] self.items@[i].0@ == key;
            assert(self.keys()[i] == key);
        }
    }

    /// Facts about the views, for callers' proofs (no run-time effect).
    pub fn view_facts(&self)
        ensures
            self.keys().len() == self.values().len(),
            self.keys().no_duplicates(),
            forall|k: Seq<char>| #[trigger] self.map().contains_key(k) <==> self.keys().contains(k),
            forall|i: int|
                0 <= i < self.keys().len() ==> #[trigger] self.map()[self.keys()[i]]
                    == self.values()[i],
    {
        proof {
            use_type_invariant(self);
        }
        assert forall|i: int| 0 <= i < self.keys().len() implies #[trigger] self.map()[self.keys()[i]]
            == self.values()[i] by {
            self.lemma_index_of(i);
        }
        assert forall|i: int, j: int| 0 <= i < self.keys().len() && 0 <= j < self.keys().len() && i != j
            implies self.keys()[i] != self.keys()[j] by {
            if i < j {
                assert(self.items@[i].0@ != self.items@[j].0@);
            } else {
                assert(self.items@[j].0@ != self.items@[i].0@);
            }
        }
    }

    /// An empty collection.
    pub fn new() -> (r: Self)
        ensures
            r.keys() == Seq::<Seq<char>>::empty(),
            r.map() == Map::<Seq<char>, T::V>::empty(),
    {
        let r = KeyedVec { items: Vec::new() };
        assert(r.keys() =~= Seq::<Seq<char>>::empty());
        assert(r.map() =~= Map::<Seq<char>, T::V>::empty());
        r
    }

    /// The number of keys.
    pub fn len(&self) -> (n: usize)
        ensures
            n == self.keys().len(),
    {
        self.items.len()
    }

    /// The key and value at position `i` of the key order.
    pub fn at(&self, i: usize) -> (r: (&String, &T))
        requires
            i < self.keys().len(),
        ensures
            r.0@ == self.keys()[i as int],
            r.1@ == self.values()[i as int],
            r.1@ == self.map()[self.keys()[i as int]],
    {
        proof {
            use_type_invariant(self);
            self.lemma_index_of(i as int);
        }
        let e = &self.items[i];
        (&e.0, &e.1)
    }

    /// The position of `key` in the key order, if present.
    pub fn find(&self, key: &str) -> (r: Option<usize>)
        ensures
            r is Some <==> self.map().contains_key(key@),
            r matches Some(i) ==> i < self.keys().len() && self.keys()[i as int] == key@,
    {
        proof {
            use_type_invariant(self);
            self.lemma_has(key@);
        }
        let k = chars_of(key);
        let mut i: usize = 0;
        while i < self.items.len()
            invariant
                i <= self.items@.len(),
                k@ == key@,
                self.keys_distinct(),
                forall|j: int| 0 <= j < i ==> self.items@[j].0@ != key@,
            decreases self.items@.len() - i,
        {
            if chars_eq(&chars_of(self.items[i].0.as_str()), &k) {
                proof {
                    self.lemma_index_of(i as int);
                }
                return Some(i);
            }
            i = i + 1;
        }
        None
    }

    /// The value stored under `key`, if any.
    pub fn get(&self, key: &str) -> (r: Option<&T>)
        ensures
            r is Some <==> self.map().contains_key(key@),
            r matches Some(v) ==> v@ == self.map()[key@],
    {
        match self.find(key) {
            Some(i) => {
                let (_, v) = self.at(i);
                Some(v)
            },
            None => None,
        }
    }

    /// Stores `value` under `key`, in place of any value stored there; a new key
    /// goes last in the key order.
    pub fn insert(&mut self, key: String, value: T)
        ensures
            final(self).map() == old(self).map().insert(key@, value@),
            old(self).has(key@) ==> final(self).keys() == old(self).keys(),
            !old(self).has(key@) ==> final(self).keys() == old(self).keys().push(key@),
    {
        proof {
            use_type_invariant(&*self);
        }
        let found = self.find(key.as_str());
        let ghost old_items = self.items@;
        let ghost old_self = *self;
        match found {
            Some(i) => {
                let mut items = Vec::new();
                std::mem::swap(&mut items, &mut self.items);
                items.set(i, (key, value));
                proof {
                    assert forall|a: int, b: int|
                        0 <= a < b < items@.len() implies (#[trigger] items@[a]).0@
                        != (#[trigger] items@[b]).0@ by {
                        assert(old_items[a].0@ != old_items[b].0@);
                    }
                }
                self.items = items;
                proof {
                    old_self.lemma_index_of(i as int);
                    assert(self.keys() =~= old_self.keys());
                    assert forall|k: Seq<char>| #[trigger] self.has(k) == old_self.insert_has(k, key@) by {
                        self.lemma_has(k);
                        old_self.lemma_has(k);
                    }
                    assert forall|k: Seq<char>| self.has(k) implies #[trigger] self.items@[self.index_of(k)].1@
                        == old_self.map().insert(key@, value@)[k] by {
                        self.lemma_has(k);
                        let j = self.index_of(k);
                        self.lemma_index_of(j);
                        if k != key@ {
                            old_self.lemma_index_of(j);
                        }
                    }
                    assert(self.map() =~= old_self.map().insert(key@, value@));
                }
            },
            None => {
                let ghost kv = key@;
                let mut items = Vec::new();
                std::mem::swap(&mut items, &mut self.items);
                items.push((key, value));
                proof {
                    assert forall|a: int, b: int|
                        0 <= a < b < items@.len() implies (#[trigger] items@[a]).0@
                        != (#[trigger] items@[b]).0@ by {
                        if b == old_items.len() {
                            old_self.lemma_index_of(a);
                        } else {
                            assert(old_items[a].0@ != old_items[b].0@);
                        }
                    }
                }
                self.items = items;
                proof {
                    assert(self.items@.len() == old_items.len() + 1);
                    assert forall|j: int| 0 <= j < self.items@.len() implies #[trigger] self.keys()[j]
                        == old_self.keys().push(kv)[j] by {
                        if j < old_items.len() {
                            assert(self.items@[j] == old_items[j]);
                        }
                    }
                    assert(self.keys() =~= old_self.keys().push(kv));
                    assert forall|k: Seq<char>| #[trigger] self.has(k) == old_self.insert_has(k, kv) by {
                        let ks = self.keys();
                        let oks = old_self.keys();
                        if k == kv {
                            assert(ks[oks.len() as int] == kv);
                        }
                        if oks.contains(k) {
                            let j = choose|j: int| 0 <= j < oks.len() && oks[j] == k;
                            assert(ks[j] == k);
                        }
                        if ks.contains(k) && k != kv {
                            let j = choose|j: int| 0 <= j < ks.len() && ks[j] == k;
                            assert(oks[j] == k);
                        }
                    }
                    assert forall|k: Seq<char>| self.has(k) implies #[trigger] self.items@[self.index_of(k)].1@
                        == old_self.map().insert(kv, value@)[k] by {
                        self.lemma_has(k);
                        let j = self.index_of(k);
                        self.lemma_index_of(j);
                        if k != kv {
                            old_self.lemma_index_of(j);
                        }
                    }
                    assert(self.map() =~= old_self.map().insert(kv, value@));
                }
            },
        }
    }

    spec fn insert_has(&self, k: Seq<char>, key: Seq<char>) -> bool {
        self.has(k) || k == key
    }

    /// Removes `key` and returns the value stored under it, if any; the other
    /// keys keep their order.
    pub fn remove(&mut self, key: &str) -> (r: Option<T>)
        ensures
            final(self).map() == old(self).map().remove(key@),
            r is Some <==> old(self).map().contains_key(key@),
            r matches Some(v) ==> v@ == old(self).map()[key@],
            !old(self).has(key@) ==> final(self).keys() == old(self).keys(),
            old(self).has(key@) ==> exists|i: int|
                0 <= i < old(self).keys().len() && old(self).keys()[i] == key@ && final(self).keys()
                    == old(self).keys().remove(i),
    {
        proof {
            use_type_invariant(&*self);
        }
        let found = self.find(key);
        let ghost old_items = self.items@;
        let ghost old_self = *self;
        match found {
            Some(i) => {
                let mut items = Vec::new();
                std::mem::swap(&mut items, &mut self.items);
                let (_, v) = items.remove(i);
                proof {
                    old_self.lemma_index_of(i as int);
                    assert forall|a: int, b: int|
                        0 <= a < b < items@.len() implies (#[trigger] items@[a]).0@
                        != (#[trigger] items@[b]).0@ by {
                        let oa = if a < i { a } else { a + 1 };
                        let ob = if b < i { b } else { b + 1 };
                        assert(items@[a] == old_items[oa]);
                        assert(items@[b] == old_items[ob]);
                        assert(old_items[oa].0@ != old_items[ob].0@);
                    }
                }
                self.items = items;
                proof {
                    assert forall|k: Seq<char>| #[trigger] self.has(k) == (old_self.has(k) && k != key@) by {
                        self.lemma_has(k);
                        old_self.lemma_has(k);
                        if old_self.has(k) && k != key@ {
                            let j = old_self.index_of(k);
                            let nj = if j < i { j } else { j - 1 };
                            assert(j != i);
                            assert(self.items@[nj] == old_items[j]);
                        }
                        if self.has(k) {
                            let j = self.index_of(k);
                            let oj = if j < i { j } else { j + 1 };
                            assert(self.items@[j] == old_items[oj]);
                            if k == key@ {
                                old_self.lemma_index_of(oj);
                            }
                        }
                    }
                    assert forall|k: Seq<char>| self.has(k) implies #[trigger] self.items@[self.index_of(k)].1@
                        == old_self.map().remove(key@)[k] by {
                        self.lemma_has(k);
                        let j = self.index_of(k);
                        let oj = if j < i { j } else { j + 1 };
                        assert(self.items@[j] == old_items[oj]);
                        old_self.lemma_index_of(oj);
                    }
                    assert(self.map() =~= old_self.map().remove(key@));
                    assert(self.keys() =~= old_self.keys().remove(i as int));
                    assert(old_self.keys()[i as int] == key@);
                }
                Some(v)
            },
            None => {
                proof {
                    assert(self.map() =~= old_self.map().remove(key@));
                    old_self.lemma_has(key@);
                }
                None
            },
        }
    }

    /// Replaces the value stored under an existing key.
    pub fn replace(&mut self, i: usize, value: T)
        requires
            i < old(self).keys().len(),
        ensures
            final(self).map() == old(self).map().insert(old(self).keys()[i as int], value@),
            final(self).keys() == old(self).keys(),
    {
        proof {
            use_type_invariant(&*self);
        }
        let ghost old_items = self.items@;
        let ghost old_self = *self;
        let ghost key = old_items[i as int].0@;
        let mut items = Vec::new();
        std::mem::swap(&mut items, &mut self.items);
        let (k, _) = items.remove(i);
        items.insert(i, (k, value));
        proof {
            assert(items@ =~= old_items.update(i as int, items@[i as int]));
            assert forall|a: int, b: int|
                0 <= a < b < items@.len() implies (#[trigger] items@[a]).0@
                != (#[trigger] items@[b]).0@ by {
                assert(old_items[a].0@ != old_items[b].0@);
            }
        }
        self.items = items;
        proof {
            old_self.lemma_index_of(i as int);
            assert(self.keys() =~= old_self.keys());
            assert forall|k: Seq<char>| #[trigger] self.has(k) == old_self.has(k) by {
                self.lemma_has(k);
                old_self.lemma_has(k);
            }
            assert forall|k: Seq<char>| self.has(k) implies #[trigger] self.items@[self.index_of(k)].1@
                == old_self.map().insert(key, value@)[k] by {
                self.lemma_has(k);
                let j = self.index_of(k);
                self.lemma_index_of(j);
                if k != key {
                    old_self.lemma_index_of(j);
                }
            }
            assert(self.map() =~= old_self.map().insert(key, value@));
        }
    }
}

} // verus!
