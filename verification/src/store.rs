//! Keyed storage with at most one entry under each key.

use soroban_sdk::Address;
use vstd::prelude::*;

use crate::host::same_address;

verus! {

/// A key under which a [`Store`] keeps an entry.
pub trait Key: Sized {
    /// Tells whether two keys are one and the same.
    fn same(&self, other: &Self) -> (same: bool)
        ensures
            same == (*self == *other),
    ;
}

impl Key for u32 {
    fn same(&self, other: &Self) -> (same: bool) {
        *self == *other
    }
}

impl Key for (u32, u32) {
    fn same(&self, other: &Self) -> (same: bool) {
        self.0 == other.0 && self.1 == other.1
    }
}

impl Key for Address {
    fn same(&self, other: &Self) -> (same: bool) {
        same_address(self, other)
    }
}

/// A list of entries, each under a key of its own.
#[verifier::reject_recursive_types(K)]
#[verifier::reject_recursive_types(V)]
pub struct Store<K: Key, V> {
    entries: Vec<(K, V)>,
}

impl<K: Key, V> Store<K, V> {
    #[verifier::type_invariant]
    spec fn distinct(self) -> bool {
        forall|i: int, j: int|
            #![trigger self.entries@[i], self.entries@[j]]
            0 <= i < j < self.entries@.len() ==> self.entries@[i].0 != self.entries@[j].0
    }

    spec fn holds(self, i: int, key: K) -> bool {
        0 <= i < self.entries@.len() && self.entries@[i].0 == key
    }

    /// The entries as a map.
    pub closed spec fn view(&self) -> Map<K, V> {
        Map::new(
            |key: K| exists|i: int| self.holds(i, key),
            |key: K| self.entries@[choose|i: int| self.holds(i, key)].1,
        )
    }

    /// A store without entries.
    pub fn new() -> (r: Self)
        ensures
            r@ == Map::<K, V>::empty(),
    {
        let r: Self = Store { entries: Vec::new() };
        assert(r@ =~= Map::<K, V>::empty());
        r
    }

    fn position(&self, key: &K) -> (r: Option<usize>)
        ensures
            match r {
                Some(i) => self.holds(i as int, *key),
                None => forall|i: int| !self.holds(i, *key),
            },
    {
        let mut i: usize = 0;
        while i < self.entries.len()
            invariant
                i <= self.entries@.len(),
                forall|j: int| 0 <= j < i ==> !self.holds(j, *key),
            decreases self.entries@.len() - i,
        {
            if self.entries[i].0.same(key) {
                return Some(i);
            }
            i = i + 1;
        }
        None
    }

    /// The entry under `key`.
    pub fn get(&self, key: &K) -> (r: Option<&V>)
        ensures
            r == if self@.contains_key(*key) {
                Some(&self@[*key])
            } else {
                None
            },
    {
        proof {
            use_type_invariant(self);
        }
        match self.position(key) {
            Some(i) => {
                assert(self.holds(i as int, *key));
                Some(&self.entries[i].1)
            },
            None => None,
        }
    }

    /// Whether there is an entry under `key`.
    pub fn has(&self, key: &K) -> (r: bool)
        ensures
            r == self@.contains_key(*key),
    {
        self.get(key).is_some()
    }

    /// Takes the entry under `key` out.
    pub fn remove(&mut self, key: &K) -> (r: Option<V>)
        ensures
            final(self)@ == old(self)@.remove(*key),
            r == if old(self)@.contains_key(*key) {
                Some(old(self)@[*key])
            } else {
                None
            },
    {
        proof {
            use_type_invariant(&*self);
        }
        match self.position(key) {
            Some(i) => {
                let ghost before = *self;
                let mut entries: Vec<(K, V)> = Vec::new();
                std::mem::swap(&mut entries, &mut self.entries);
                let (_, value) = entries.swap_remove(i);
                self.entries = entries;
                proof {
                    let last = before.entries@.len() - 1;
                    assert(before.holds(i as int, *key));
                    assert forall|k: K, j: int| self.holds(j, k) implies k != *key && before.holds(
                        if j == i { last } else { j },
                        k,
                    ) by {}
                    assert forall|k: K, j: int| before.holds(j, k) && k != *key implies self.holds(
                        if j == last { i as int } else { j },
                        k,
                    ) by {}
                    assert(self@ =~= before@.remove(*key));
                }
                Some(value)
            },
            None => {
                assert(self@ =~= self@.remove(*key));
                None
            },
        }
    }

    /// Puts `value` under `key`, in place of what was there.
    pub fn set(&mut self, key: K, value: V)
        ensures
            final(self)@ == old(self)@.insert(key, value),
    {
        let _ = self.remove(&key);
        proof {
            use_type_invariant(&*self);
        }
        let ghost before = *self;
        let mut entries: Vec<(K, V)> = Vec::new();
        std::mem::swap(&mut entries, &mut self.entries);
        entries.push((key, value));
        proof {
            assert(!before@.contains_key(key));
            assert forall|i: int| 0 <= i < before.entries@.len() implies before.entries@[i].0
                != key by {
                if before.entries@[i].0 == key {
                    assert(before.holds(i, key));
                }
            }
        }
        self.entries = entries;
        proof {
            let last = before.entries@.len() as int;
            assert(self.holds(last, key));
            assert forall|k: K, j: int| before.holds(j, k) implies self.holds(j, k) by {}
            assert forall|k: K, j: int| self.holds(j, k) && j != last implies before.holds(j, k) by {}
            assert forall|k: K| before@.contains_key(k) implies self@.contains_key(k) && self@[k]
                == before@[k] by {
                let i = choose|i: int| before.holds(i, k);
                let j = choose|j: int| self.holds(j, k);
                assert(self.holds(i, k));
                assert(self.entries@[i].0 == self.entries@[j].0);
            }
            assert(self@.contains_key(key) && self@[key] == value) by {
                let j = choose|j: int| self.holds(j, key);
                assert(self.entries@[j].0 == self.entries@[last].0);
            }
            assert forall|k: K| self@.contains_key(k) && k != key implies before@.contains_key(
                k,
            ) by {
                let j = choose|j: int| self.holds(j, k);
                assert(before.holds(j, k));
            }
            assert(self@ =~= before@.insert(key, value));
            assert(self@ =~= old(self)@.insert(key, value));
        }
    }
}

} // verus!
