//! A map keyed by digest.

use crate::types::{digest_eq, Block, Digest};
use vstd::prelude::*;

verus! {

/// Whether some entry is filed under `key`.
spec fn holds<V>(entries: Seq<(Digest, V)>, key: Digest) -> bool {
    exists|i: int| 0 <= i < entries.len() && (#[trigger] entries[i]).0 == key
}

/// The position of an entry filed under `key`.
spec fn position<V>(entries: Seq<(Digest, V)>, key: Digest) -> int {
    choose|i: int| 0 <= i < entries.len() && (#[trigger] entries[i]).0 == key
}

/// Whether no two entries share a key.
spec fn distinct<V>(entries: Seq<(Digest, V)>) -> bool {
    forall|i: int, j: int|
        0 <= i < entries.len() && 0 <= j < entries.len() && i != j ==> (#[trigger] entries[i]).0
            != (#[trigger] entries[j]).0
}

/// The map that a sequence of entries with distinct keys stands for.
spec fn as_map<V>(entries: Seq<(Digest, V)>) -> Map<Digest, V> {
    Map::new(|key: Digest| holds(entries, key), |key: Digest| entries[position(entries, key)].1)
}

/// A map from digests to values, held as a list in which no key occurs twice.
pub struct DigestMap<V> {
    entries: Vec<(Digest, V)>,
}

impl<V> View for DigestMap<V> {
    type V = Map<Digest, V>;

    closed spec fn view(&self) -> Map<Digest, V> {
        as_map(self.entries@)
    }
}

impl<V> DigestMap<V> {
    /// No key occurs twice.
    pub closed spec fn wf(&self) -> bool {
        distinct(self.entries@)
    }

    /// The keys in the order in which they are stored.
    pub closed spec fn keys(&self) -> Seq<Digest> {
        Seq::new(self.entries@.len(), |i: int| self.entries@[i].0)
    }

    /// The stored keys are exactly the keys of the map.
    pub proof fn lemma_keys(&self)
        ensures
            forall|key: Digest| #[trigger] self@.contains_key(key) <==> self.keys().contains(key),
    {
        assert forall|key: Digest| #[trigger] self@.contains_key(key) implies self.keys().contains(
            key,
        ) by {
            let i = position(self.entries@, key);
            assert(self.keys()[i] == key);
        }
        assert forall|key: Digest| self.keys().contains(key) implies self@.contains_key(key) by {
            let i = choose|i: int| 0 <= i < self.keys().len() && self.keys()[i] == key;
            assert(self.entries@[i].0 == key);
        }
    }

    proof fn lemma_entry(&self, i: int)
        requires
            self.wf(),
            0 <= i < self.entries@.len(),
        ensures
            self@.contains_key(self.entries@[i].0),
            self@[self.entries@[i].0] == self.entries@[i].1,
    {
        let key = self.entries@[i].0;
        assert(holds(self.entries@, key));
        let j = position(self.entries@, key);
        assert(self.entries@[j].0 == key);
        assert(i == j);
    }

    /// An empty map.
    pub fn new() -> (map: Self)
        ensures
            map.wf(),
            map@ == Map::<Digest, V>::empty(),
    {
        let map = DigestMap { entries: Vec::new() };
        assert(map@ =~= Map::<Digest, V>::empty());
        map
    }

    /// The number of entries.
    pub fn len(&self) -> (n: usize)
        ensures
            n == self.keys().len(),
    {
        self.entries.len()
    }

    /// The key stored at a position.
    pub fn key_at(&self, i: usize) -> (key: Digest)
        requires
            i < self.keys().len(),
        ensures
            key == self.keys()[i as int],
    {
        self.entries[i].0
    }

    fn find(&self, key: &Digest) -> (found: Option<usize>)
        ensures
            match found {
                Some(i) => i < self.entries@.len() && self.entries@[i as int].0 == *key,
                None => !holds(self.entries@, *key),
            },
    {
        let mut i: usize = 0;
        while i < self.entries.len()
            invariant
                i <= self.entries@.len(),
                forall|j: int| 0 <= j < i ==> (#[trigger] self.entries@[j]).0 != *key,
            decreases self.entries@.len() - i,
        {
            if digest_eq(&self.entries[i].0, key) {
                return Some(i);
            }
            i += 1;
        }
        None
    }

    /// Whether a value is filed under `key`.
    pub fn contains_key(&self, key: &Digest) -> (found: bool)
        ensures
            found == self@.contains_key(*key),
    {
        self.find(key).is_some()
    }

    /// The value filed under `key`.
    pub fn get(&self, key: &Digest) -> (value: Option<&V>)
        requires
            self.wf(),
        ensures
            match value {
                Some(v) => self@.contains_key(*key) && self@[*key] == *v,
                None => !self@.contains_key(*key),
            },
    {
        match self.find(key) {
            Some(i) => {
                proof {
                    self.lemma_entry(i as int);
                }
                Some(&self.entries[i].1)
            },
            None => None,
        }
    }

    /// Files `value` under `key`, in place of the value filed there before.
    pub fn insert(&mut self, key: Digest, value: V)
        requires
            old(self).wf(),
        ensures
            final(self).wf(),
            final(self)@ == old(self)@.insert(key, value),
    {
        let ghost before = *self;
        self.remove(&key);
        let ghost rest = *self;
        self.entries.push((key, value));
        proof {
            assert(!rest@.contains_key(key));
            assert(!holds(rest.entries@, key));
            assert(self.entries@ == rest.entries@.push((key, value)));
            assert forall|i: int, j: int|
                0 <= i < self.entries@.len() && 0 <= j < self.entries@.len() && i != j implies (
            #[trigger] self.entries@[i]).0 != (#[trigger] self.entries@[j]).0 by {
                if i < rest.entries@.len() {
                    assert(self.entries@[i] == rest.entries@[i]);
                }
                if j < rest.entries@.len() {
                    assert(self.entries@[j] == rest.entries@[j]);
                }
            }
            assert(self@ =~= before@.insert(key, value)) by {
                assert forall|k: Digest| #[trigger]
                    self@.contains_key(k) implies before@.insert(key, value).contains_key(k) && self@[k]
                    == before@.insert(key, value)[k] by {
                    let i = position(self.entries@, k);
                    self.lemma_entry(i);
                    if i < rest.entries@.len() {
                        assert(self.entries@[i] == rest.entries@[i]);
                        rest.lemma_entry(i);
                    }
                }
                assert forall|k: Digest| #[trigger]
                    before@.insert(key, value).contains_key(k) implies self@.contains_key(k) by {
                    if k == key {
                        self.lemma_entry(rest.entries@.len() as int);
                    } else {
                        assert(rest@.contains_key(k));
                        let i = position(rest.entries@, k);
                        assert(self.entries@[i] == rest.entries@[i]);
                        self.lemma_entry(i);
                    }
                }
            }
        }
    }

    /// Drops whatever is filed under `key`.
    pub fn remove(&mut self, key: &Digest)
        requires
            old(self).wf(),
        ensures
            final(self).wf(),
            final(self)@ == old(self)@.remove(*key),
    {
        let ghost before = *self;
        match self.find(key) {
            Some(i) => {
                self.remove_at(i);
            },
            None => {
                assert(self@ =~= before@.remove(*key));
            },
        }
    }

    /// Drops the entry at a position.
    fn remove_at(&mut self, i: usize)
        requires
            old(self).wf(),
            i < old(self).entries@.len(),
        ensures
            final(self).wf(),
            final(self).entries@ == old(self).entries@.remove(i as int),
            final(self)@ == old(self)@.remove(old(self).entries@[i as int].0),
    {
        let ghost before = *self;
        let ghost key = self.entries@[i as int].0;
        self.entries.remove(i);
        proof {
            let n = before.entries@.len();
            assert forall|j: int| 0 <= j < self.entries@.len() implies #[trigger] self.entries@[j]
                == before.entries@[if j < i { j } else { j + 1 }] by {}
            assert forall|a: int, b: int|
                0 <= a < self.entries@.len() && 0 <= b < self.entries@.len() && a != b implies (
            #[trigger] self.entries@[a]).0 != (#[trigger] self.entries@[b]).0 by {
                let a0 = if a < i { a } else { a + 1 };
                let b0 = if b < i { b } else { b + 1 };
                assert(self.entries@[a] == before.entries@[a0]);
                assert(self.entries@[b] == before.entries@[b0]);
            }
            assert(self@ =~= before@.remove(key)) by {
                assert forall|k: Digest| #[trigger]
                    self@.contains_key(k) implies before@.remove(key).contains_key(k) && self@[k]
                    == before@.remove(key)[k] by {
                    let j = position(self.entries@, k);
                    self.lemma_entry(j);
                    let j0 = if j < i { j } else { j + 1 };
                    assert(self.entries@[j] == before.entries@[j0]);
                    before.lemma_entry(j0);
                }
                assert forall|k: Digest| #[trigger]
                    before@.remove(key).contains_key(k) implies self@.contains_key(k) by {
                    assert(before@.contains_key(k));
                    let j0 = position(before.entries@, k);
                    assert(j0 != i);
                    let j = if j0 < i { j0 } else { j0 - 1 };
                    assert(self.entries@[j] == before.entries@[j0]);
                    self.lemma_entry(j);
                }
            }
        }
    }
}

impl DigestMap<Block> {
    /// Drops every block below height `floor`.
    pub fn retain_from(&mut self, floor: u64)
        requires
            old(self).wf(),
        ensures
            final(self).wf(),
            final(self)@ == Map::new(
                |key: Digest| old(self)@.contains_key(key) && old(self)@[key].height >= floor,
                |key: Digest| old(self)@[key],
            ),
    {
        let ghost before = *self;
        let mut i: usize = 0;
        while i < self.entries.len()
            invariant
                self.wf(),
                i <= self.entries@.len(),
                forall|key: Digest| #[trigger]
                    self@.contains_key(key) ==> before@.contains_key(key) && self@[key]
                        == before@[key],
                forall|key: Digest| #[trigger]
                    before@.contains_key(key) && before@[key].height >= floor ==> self@.contains_key(
                        key,
                    ),
                forall|j: int| 0 <= j < i ==> (#[trigger] self.entries@[j]).1.height >= floor,
            decreases self.entries@.len() - i,
        {
            let ghost here = *self;
            proof {
                here.lemma_entry(i as int);
            }
            if self.entries[i].1.height < floor {
                self.remove_at(i);
                assert forall|j: int| 0 <= j < i implies (#[trigger] self.entries@[j]).1.height
                    >= floor by {
                    assert(self.entries@[j] == here.entries@[j]);
                }
            } else {
                i += 1;
            }
        }
        proof {
            assert forall|key: Digest| #[trigger] self@.contains_key(key) implies self@[key].height
                >= floor by {
                let j = position(self.entries@, key);
                self.lemma_entry(j);
            }
            assert(self@ =~= Map::new(
                |key: Digest| before@.contains_key(key) && before@[key].height >= floor,
                |key: Digest| before@[key],
            ));
        }
    }
}

} // verus!
