//! A keyed store: at most one value per key, looked up by exact key equality.
//! An absent key is told apart from any stored value.

use vstd::prelude::*;

verus! {

/// A key of a [`Store`]: a plain value whose run-time equality test agrees
/// with equality of values.
pub trait StoreKey: Sized {
    /// Whether the two keys are the same key.
    fn same_key(&self, other: &Self) -> (r: bool)
        ensures
            r == (*self == *other),
    ;
}

impl StoreKey for u32 {
    fn same_key(&self, other: &u32) -> (r: bool) {
        *self == *other
    }
}

/// Key-value storage in insertion order. The `i`-th key belongs to the
/// `i`-th value, and no key occurs twice.
pub struct Store<K, V> {
    keys: Vec<K>,
    values: Vec<V>,
}

impl<K: StoreKey, V> Store<K, V> {
    /// Keys and values pair up, and every key occurs once.
    pub closed spec fn wf(&self) -> bool {
        &&& self.keys@.len() == self.values@.len()
        &&& self.keys@.no_duplicates()
    }

    /// The store as a map from each stored key to its value.
    pub closed spec fn view(&self) -> Map<K, V> {
        Map::new(
            |k: K| self.keys@.contains(k),
            |k: K| self.values@[self.keys@.index_of(k)],
        )
    }

    /// The store without any entry.
    pub fn new() -> (s: Store<K, V>)
        ensures
            s.wf(),
            s.view() == Map::<K, V>::empty(),
    {
        let s = Store { keys: Vec::new(), values: Vec::new() };
        proof {
            assert(s.view() =~= Map::<K, V>::empty());
        }
        s
    }

    /// Where `key` stands among the keys, if it is stored.
    fn position(&self, key: &K) -> (r: Option<usize>)
        requires
            self.wf(),
        ensures
            match r {
                Some(i) => i < self.keys@.len() && self.keys@[i as int] == *key,
                None => !self.keys@.contains(*key),
            },
    {
        let mut i: usize = 0;
        while i < self.keys.len()
            invariant
                i <= self.keys@.len(),
                forall|j: int| 0 <= j < i ==> self.keys@[j] != *key,
            decreases self.keys@.len() - i,
        {
            if self.keys[i].same_key(key) {
                return Some(i);
            }
            i += 1;
        }
        None
    }

    /// Whether a value is stored under `key`.
    pub fn contains_key(&self, key: &K) -> (r: bool)
        requires
            self.wf(),
        ensures
            r == self.view().contains_key(*key),
    {
        self.position(key).is_some()
    }

    /// The value stored under `key`, or `None` where there is none.
    pub fn get(&self, key: &K) -> (r: Option<&V>)
        requires
            self.wf(),
        ensures
            match r {
                Some(v) => self.view().contains_key(*key) && *v == self.view()[*key],
                None => !self.view().contains_key(*key),
            },
    {
        match self.position(key) {
            Some(i) => {
                proof {
                    self.lemma_index_of(i as int);
                }
                Some(&self.values[i])
            },
            None => None,
        }
    }

    /// Stores `value` under `key`, in place of any value stored there before.
    pub fn insert(&mut self, key: K, value: V)
        requires
            old(self).wf(),
        ensures
            final(self).wf(),
            final(self).view() == old(self).view().insert(key, value),
    {
        let ghost before = *self;
        match self.position(&key) {
            Some(i) => {
                self.values.set(i, value);
                proof {
                    assert forall|k: K| self.keys@.contains(k) implies #[trigger] self.view()[k]
                        == before.view().insert(key, value)[k] by {
                        let j = self.keys@.index_of(k);
                        self.lemma_index_of(j);
                    }
                    assert(self.view() =~= before.view().insert(key, value));
                }
            },
            None => {
                self.keys.push(key);
                self.values.push(value);
                proof {
                    let n = before.keys@.len() as int;
                    assert(self.keys@[n] == key);
                    assert forall|k: K| #[trigger]
                        self.keys@.contains(k) <==> (k == key || before.keys@.contains(k)) by {
                        if before.keys@.contains(k) {
                            let j = before.keys@.index_of(k);
                            assert(self.keys@[j] == k);
                        }
                    }
                    assert forall|k: K| self.keys@.contains(k) implies #[trigger] self.view()[k]
                        == before.view().insert(key, value)[k] by {
                        let j = self.keys@.index_of(k);
                        self.lemma_index_of(j);
                        if k != key {
                            before.lemma_index_of(j);
                        }
                    }
                    assert(self.view() =~= before.view().insert(key, value));
                }
            },
        }
    }

    /// Removes `key` and its value; a store without `key` stays as it is.
    pub fn remove(&mut self, key: &K)
        requires
            old(self).wf(),
        ensures
            final(self).wf(),
            final(self).view() == old(self).view().remove(*key),
    {
        let ghost before = *self;
        match self.position(key) {
            Some(i) => {
                self.keys.remove(i);
                self.values.remove(i);
                proof {
                    let at = i as int;
                    assert forall|k: K| #[trigger]
                        self.keys@.contains(k) <==> (k != *key && before.keys@.contains(k)) by {
                        if self.keys@.contains(k) {
                            let j = self.keys@.index_of(k);
                            let src = if j < at { j } else { j + 1 };
                            assert(before.keys@[src] == k);
                        }
                        if k != *key && before.keys@.contains(k) {
                            let j = before.keys@.index_of(k);
                            let dst = if j < at { j } else { j - 1 };
                            assert(self.keys@[dst] == k);
                        }
                    }
                    assert forall|k: K| self.keys@.contains(k) implies #[trigger] self.view()[k]
                        == before.view().remove(*key)[k] by {
                        let j = self.keys@.index_of(k);
                        let src = if j < at { j } else { j + 1 };
                        self.lemma_index_of(j);
                        before.lemma_index_of(src);
                    }
                    assert(self.view() =~= before.view().remove(*key));
                }
            },
            None => {
                proof {
                    assert(self.view() =~= before.view().remove(*key));
                }
            },
        }
    }

    /// In a store whose keys occur once, a key is found where it stands.
    proof fn lemma_index_of(&self, i: int)
        requires
            self.keys@.no_duplicates(),
            0 <= i < self.keys@.len(),
        ensures
            self.keys@.contains(self.keys@[i]),
            self.keys@.index_of(self.keys@[i]) == i,
    {
        let k = self.keys@[i];
        assert(self.keys@.contains(k));
        let j = self.keys@.index_of(k);
        assert(0 <= j < self.keys@.len() && self.keys@[j] == k);
    }
}

} // verus!
