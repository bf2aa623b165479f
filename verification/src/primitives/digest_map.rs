//! A map keyed by 32-byte digests, kept in insertion order.

use vstd::prelude::*;
use crate::crypto::hashing::same_digest;

verus! {

/// A finite map from 32-byte keys to values. No key occurs twice; the entries
/// stay in the order in which their keys first came in.
#[derive(Clone, Debug)]
pub struct DigestMap<V> {
    keys: Vec<[u8; 32]>,
    values: Vec<V>,
}

impl<V> View for DigestMap<V> {
    type V = Map<Seq<u8>, V>;

    closed spec fn view(&self) -> Map<Seq<u8>, V> {
        Map::new(
            |k: Seq<u8>| self.order().contains(k),
            |k: Seq<u8>| self.values@[self.order().index_of(k)],
        )
    }
}

impl<V> DigestMap<V> {
    /// The representation invariant: one value per key, and no key twice.
    pub closed spec fn wf(&self) -> bool {
        &&& self.keys@.len() == self.values@.len()
        &&& self.order().no_duplicates()
    }

    /// The keys, in the order in which they were first inserted.
    pub closed spec fn order(&self) -> Seq<Seq<u8>> {
        Seq::new(self.keys@.len(), |i: int| self.keys@[i]@)
    }

    /// The insertion order lists every key of the map exactly once.
    pub proof fn lemma_order(&self)
        requires
            self.wf(),
        ensures
            self.order().no_duplicates(),
            self.order().to_set() == self@.dom(),
            self@.dom().finite(),
            self@.dom().len() == self.order().len(),
            forall|i: int| 0 <= i < self.order().len() ==> (#[trigger] self.order()[i]).len() == 32,
    {
        assert(self.order().to_set() =~= self@.dom());
        self.order().unique_seq_to_set();
        vstd::seq_lib::seq_to_set_is_finite(self.order());
    }

    /// The value under the `i`-th key is the one stored `i`-th.
    proof fn lemma_value_at(&self, i: int)
        requires
            self.wf(),
            0 <= i < self.keys@.len(),
        ensures
            self@.contains_key(self.keys@[i]@),
            self@[self.keys@[i]@] == self.values@[i],
            self.order()[i] == self.keys@[i]@,
    {
        let k = self.keys@[i]@;
        assert(self.order()[i] == k);
        let j = self.order().index_of(k);
        assert(0 <= j < self.order().len() && self.order()[j] == k);
    }

    /// An empty map.
    pub fn new() -> (map: Self)
        ensures
            map.wf(),
            map@ == Map::<Seq<u8>, V>::empty(),
            map.order() == Seq::<Seq<u8>>::empty(),
    {
        let map = DigestMap { keys: Vec::new(), values: Vec::new() };
        assert(map@ =~= Map::<Seq<u8>, V>::empty());
        assert(map.order() =~= Seq::<Seq<u8>>::empty());
        map
    }

    /// Position of `key` among the stored keys.
    fn position(&self, key: &[u8; 32]) -> (found: Option<usize>)
        requires
            self.wf(),
        ensures
            match found {
                Some(i) => i < self.keys@.len() && self.keys@[i as int]@ == key@,
                None => !self@.contains_key(key@),
            },
    {
        let mut i: usize = 0;
        while i < self.keys.len()
            invariant
                i <= self.keys@.len(),
                forall|j: int| 0 <= j < i ==> self.keys@[j]@ != key@,
            decreases self.keys@.len() - i,
        {
            if same_digest(&self.keys[i], key) {
                return Some(i);
            }
            i += 1;
        }
        None
    }

    /// Number of entries.
    pub fn len(&self) -> (n: usize)
        requires
            self.wf(),
        ensures
            n == self@.dom().len(),
            n == self.order().len(),
    {
        proof {
            self.lemma_order();
        }
        self.keys.len()
    }

    /// Whether the map holds a value under `key`.
    pub fn contains_key(&self, key: &[u8; 32]) -> (found: bool)
        requires
            self.wf(),
        ensures
            found == self@.contains_key(key@),
    {
        match self.position(key) {
            Some(i) => {
                proof {
                    self.lemma_value_at(i as int);
                }
                true
            },
            None => false,
        }
    }

    /// The value stored under `key`, if there is one.
    pub fn get(&self, key: &[u8; 32]) -> (found: Option<&V>)
        requires
            self.wf(),
        ensures
            match found {
                Some(value) => self@.contains_key(key@) && *value == self@[key@],
                None => !self@.contains_key(key@),
            },
    {
        match self.position(key) {
            Some(i) => {
                proof {
                    self.lemma_value_at(i as int);
                }
                Some(&self.values[i])
            },
            None => None,
        }
    }

    /// The `i`-th key in insertion order.
    pub fn key_at(&self, i: usize) -> (key: &[u8; 32])
        requires
            self.wf(),
            i < self.order().len(),
        ensures
            key@ == self.order()[i as int],
            self@.contains_key(key@),
    {
        proof {
            self.lemma_value_at(i as int);
        }
        &self.keys[i]
    }

    /// The value under the `i`-th key in insertion order.
    pub fn value_at(&self, i: usize) -> (value: &V)
        requires
            self.wf(),
            i < self.order().len(),
        ensures
            self@.contains_key(self.order()[i as int]),
            *value == self@[self.order()[i as int]],
    {
        proof {
            self.lemma_value_at(i as int);
        }
        &self.values[i]
    }

    /// Stores `value` under `key`. A key that is already present keeps its
    /// place in the order and gets the new value; a new key goes to the end.
    pub fn insert(&mut self, key: [u8; 32], value: V)
        requires
            old(self).wf(),
        ensures
            final(self).wf(),
            final(self)@ == old(self)@.insert(key@, value),
            final(self).order() == if old(self)@.contains_key(key@) {
                old(self).order()
            } else {
                old(self).order().push(key@)
            },
    {
        let ghost before = *self;
        match self.position(&key) {
            Some(i) => {
                self.values.set(i, value);
                proof {
                    before.lemma_value_at(i as int);
                    assert(self.order() =~= before.order());
                    assert forall|k: Seq<u8>| self@.contains_key(k) implies #[trigger] self@[k]
                        == before@.insert(key@, value)[k] by {
                        let j = self.order().index_of(k);
                        assert(0 <= j < self.order().len() && self.order()[j] == k);
                    }
                    assert(self@ =~= before@.insert(key@, value));
                }
            },
            None => {
                self.keys.push(key);
                self.values.push(value);
                proof {
                    let n = before.keys@.len() as int;
                    assert(self.order() =~= before.order().push(key@));
                    assert(!before.order().contains(key@));
                    assert(self.order().no_duplicates());
                    assert forall|k: Seq<u8>| #[trigger] self@.contains_key(k)
                        == before@.insert(key@, value).contains_key(k) by {
                        if before.order().contains(k) {
                            let j = before.order().index_of(k);
                            assert(self.order()[j] == k);
                        }
                        if k == key@ {
                            assert(self.order()[n] == k);
                        }
                    }
                    assert forall|k: Seq<u8>| self@.contains_key(k) implies #[trigger] self@[k]
                        == before@.insert(key@, value)[k] by {
                        let j = self.order().index_of(k);
                        assert(0 <= j < self.order().len() && self.order()[j] == k);
                        if k != key@ {
                            let j0 = before.order().index_of(k);
                            assert(0 <= j0 < before.order().len() && before.order()[j0] == k);
                            assert(self.order()[j0] == k);
                        } else {
                            assert(self.order()[n] == k);
                        }
                    }
                    assert(self@ =~= before@.insert(key@, value));
                }
            },
        }
    }
}

} // verus!
