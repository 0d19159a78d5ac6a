//! A small keyed table: the persistent key-value storage of a contract,
//! one table per kind of storage key.

use vstd::prelude::*;

verus! {

/// A key that can be compared at run time exactly as it is compared in
/// specifications.
pub trait TableKey: Copy + Sized {
    fn same_key(&self, other: &Self) -> (r: bool)
        ensures
            r == (*self == *other),
    ;
}

impl TableKey for u64 {
    fn same_key(&self, other: &Self) -> (r: bool) {
        *self == *other
    }
}

/// A key made of two identifiers, such as an event and an account.
#[derive(Copy, Clone, Debug, PartialEq, Eq, Structural)]
pub struct PairKey {
    pub first: u64,
    pub second: u64,
}

impl TableKey for PairKey {
    fn same_key(&self, other: &Self) -> (r: bool) {
        self.first == other.first && self.second == other.second
    }
}

/// A finite map from keys to values, stored as a list of entries in which
/// no key occurs twice.
pub struct Table<K: TableKey, V> {
    entries: Vec<(K, V)>,
}

impl<K: TableKey, V> View for Table<K, V> {
    type V = Map<K, V>;

    closed spec fn view(&self) -> Map<K, V> {
        Map::new(
            |k: K| exists|i: int| 0 <= i < self.entries@.len() && #[trigger] self.entries@[i].0 == k,
            |k: K| self.entries@[Self::position(self.entries@, k)].1,
        )
    }
}

impl<K: TableKey, V> Table<K, V> {
    #[verifier::type_invariant]
    closed spec fn keys_unique(self) -> bool {
        forall|i: int, j: int|
            0 <= i < self.entries@.len() && 0 <= j < self.entries@.len() && i != j
                ==> #[trigger] self.entries@[i].0 != #[trigger] self.entries@[j].0
    }

    closed spec fn position(s: Seq<(K, V)>, k: K) -> int {
        choose|i: int| 0 <= i < s.len() && #[trigger] s[i].0 == k
    }

    /// The table with no entries.
    pub fn new() -> (t: Self)
        ensures
            t@ == Map::<K, V>::empty(),
    {
        let t = Table { entries: Vec::new() };
        assert(t@ =~= Map::<K, V>::empty());
        t
    }

    /// Index of the entry holding `k`, if any.
    fn find(&self, k: &K) -> (r: Option<usize>)
        ensures
            match r {
                Some(i) => i < self.entries@.len() && self.entries@[i as int].0 == *k,
                None => forall|i: int| 0 <= i < self.entries@.len() ==> #[trigger] self.entries@[i].0 != *k,
            },
    {
        let mut i: usize = 0;
        while i < self.entries.len()
            invariant
                i <= self.entries@.len(),
                forall|j: int| 0 <= j < i ==> #[trigger] self.entries@[j].0 != *k,
            decreases self.entries@.len() - i,
        {
            if self.entries[i].0.same_key(k) {
                return Some(i);
            }
            i = i + 1;
        }
        None
    }

    proof fn lemma_position(&self, i: int)
        requires
            self.keys_unique(),
            0 <= i < self.entries@.len(),
        ensures
            self@.dom().contains(self.entries@[i].0),
            self@[self.entries@[i].0] == self.entries@[i].1,
    {
        let k = self.entries@[i].0;
        assert(self.entries@[i].0 == k);
        let p = Self::position(self.entries@, k);
        assert(0 <= p < self.entries@.len() && self.entries@[p].0 == k);
        if p != i {
            assert(self.entries@[p].0 != self.entries@[i].0);
        }
    }

    /// A reference to the value stored under `k`, if any.
    pub fn get_ref(&self, k: &K) -> (r: Option<&V>)
        ensures
            match r {
                Some(v) => self@.dom().contains(*k) && *v == self@[*k],
                None => !self@.dom().contains(*k),
            },
    {
        proof {
            use_type_invariant(self);
        }
        match self.find(k) {
            Some(i) => {
                proof {
                    self.lemma_position(i as int);
                }
                Some(&self.entries[i].1)
            },
            None => None,
        }
    }

    /// Whether a value is stored under `k`.
    pub fn contains(&self, k: &K) -> (r: bool)
        ensures
            r == self@.dom().contains(*k),
    {
        proof {
            use_type_invariant(self);
        }
        match self.find(k) {
            Some(i) => {
                proof {
                    self.lemma_position(i as int);
                }
                true
            },
            None => false,
        }
    }

    /// Stores `v` under `k`, replacing what was stored there.
    pub fn set(&mut self, k: K, v: V)
        ensures
            final(self)@ == old(self)@.insert(k, v),
    {
        proof {
            use_type_invariant(&*self);
        }
        let ghost old_self = *self;
        match self.find(&k) {
            Some(i) => {
                let ghost old_entries = self.entries@;
                let mut entries = Vec::new();
                std::mem::swap(&mut entries, &mut self.entries);
                entries.set(i, (k, v));
                self.entries = entries;
                assert forall|a: int, b: int|
                    0 <= a < self.entries@.len() && 0 <= b < self.entries@.len() && a != b
                        implies #[trigger] self.entries@[a].0 != #[trigger] self.entries@[b].0 by {
                    assert(old_entries[a].0 != old_entries[b].0);
                }
                proof {
                    self.lemma_position(i as int);
                    assert forall|key: K| #[trigger] self@.dom().contains(key) == old_self@.insert(k, v).dom().contains(key) by {
                        if old_self@.dom().contains(key) {
                            let j = Self::position(old_entries, key);
                            assert(self.entries@[j].0 == key);
                        }
                        if self@.dom().contains(key) {
                            let j = Self::position(self.entries@, key);
                            if j != i {
                                assert(old_entries[j].0 == key);
                            }
                        }
                    }
                    assert forall|key: K| #[trigger] self@.dom().contains(key) && key != k implies self@[key] == old_self@[key] by {
                        let j = Self::position(self.entries@, key);
                        assert(j != i);
                        self.lemma_position(j);
                        old_self.lemma_position(j);
                    }
                    assert(self@ =~= old_self@.insert(k, v));
                }
            },
            None => {
                let ghost old_entries = self.entries@;
                let mut entries = Vec::new();
                std::mem::swap(&mut entries, &mut self.entries);
                entries.push((k, v));
                self.entries = entries;
                assert forall|a: int, b: int|
                    0 <= a < self.entries@.len() && 0 <= b < self.entries@.len() && a != b
                        implies #[trigger] self.entries@[a].0 != #[trigger] self.entries@[b].0 by {
                    if a < old_entries.len() && b < old_entries.len() {
                        assert(old_entries[a].0 != old_entries[b].0);
                    }
                }
                proof {
                    let n = old_entries.len() as int;
                    self.lemma_position(n);
                    assert forall|key: K| #[trigger] self@.dom().contains(key) == old_self@.insert(k, v).dom().contains(key) by {
                        if old_self@.dom().contains(key) {
                            let j = Self::position(old_entries, key);
                            assert(self.entries@[j].0 == key);
                        }
                        if self@.dom().contains(key) {
                            let j = Self::position(self.entries@, key);
                            if j != n {
                                assert(old_entries[j].0 == key);
                            }
                        }
                    }
                    assert forall|key: K| #[trigger] self@.dom().contains(key) && key != k implies self@[key] == old_self@[key] by {
                        let j = Self::position(self.entries@, key);
                        assert(j != n);
                        self.lemma_position(j);
                        old_self.lemma_position(j);
                    }
                    assert(self@ =~= old_self@.insert(k, v));
                }
            },
        }
    }
}

impl<K: TableKey, V: Copy> Table<K, V> {
    /// The value stored under `k`, if any.
    pub fn get(&self, k: &K) -> (r: Option<V>)
        ensures
            r == (if self@.dom().contains(*k) {
                Some(self@[*k])
            } else {
                None::<V>
            }),
    {
        proof {
            use_type_invariant(self);
        }
        match self.find(k) {
            Some(i) => {
                proof {
                    self.lemma_position(i as int);
                }
                Some(self.entries[i].1)
            },
            None => {
                assert(!self@.dom().contains(*k));
                None
            },
        }
    }
}

} // verus!
