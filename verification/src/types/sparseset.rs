use std::collections::HashMap;
use vstd::prelude::*;

verus! {

broadcast use vstd::std_specs::hash::group_hash_axioms;

/// A sparse set: a map from small integer keys (below a fixed capacity) to
/// values, stored densely so that iteration and removal are cheap.
///
/// `sparse[k]` is the position in `dense` of the value under key `k`, or
/// `usize::MAX` when `k` holds nothing; `dense_keys[i]` is the key of
/// `dense[i]`; `keys` holds every key in use.
pub struct SparseSet<T> {
    dense: Vec<T>,
    dense_keys: Vec<usize>,
    sparse: Vec<usize>,
    keys: HashMap<usize, ()>,
}

/// The marker in the sparse index for an empty key.
pub const EMPTY_SLOT: usize = usize::MAX;

impl<T> SparseSet<T> {
    /// The keys that hold a value, and the value each holds.
    pub closed spec fn view(&self) -> Map<usize, T> {
        Map::new(
            |k: usize| k < self.sparse@.len() && self.sparse@[k as int] != EMPTY_SLOT,
            |k: usize| self.dense@[self.sparse@[k as int] as int],
        )
    }

    /// The number of keys the set can hold: keys are below this bound.
    pub closed spec fn capacity(&self) -> nat {
        self.sparse@.len()
    }

    /// The internal consistency of the three indexes.
    pub closed spec fn wf(&self) -> bool {
        &&& self.dense@.len() == self.dense_keys@.len()
        &&& forall|i: int|
            0 <= i < self.dense_keys@.len() ==> {
                &&& #[trigger] self.dense_keys@[i] < self.sparse@.len()
                &&& self.sparse@[self.dense_keys@[i] as int] == i
            }
        &&& forall|k: int|
            0 <= k < self.sparse@.len() && #[trigger] self.sparse@[k] != EMPTY_SLOT ==> {
                &&& self.sparse@[k] < self.dense_keys@.len()
                &&& self.dense_keys@[self.sparse@[k] as int] == k
            }
        &&& forall|k: usize| #[trigger]
            self.keys@.contains_key(k) <==> (k < self.sparse@.len() && self.sparse@[k as int]
                != EMPTY_SLOT)
    }

    /// Every key that holds a value is below the capacity.
    pub proof fn lemma_keys_below_capacity(&self)
        ensures
            forall|k: usize| #[trigger] self@.contains_key(k) ==> k < self.capacity(),
    {
    }

    /// An empty set for keys below `size`.
    pub fn new(size: usize) -> (r: Self)
        ensures
            r.wf(),
            r@ == Map::<usize, T>::empty(),
            r.capacity() == size,
    {
        let r = Self {
            dense: Vec::new(),
            dense_keys: Vec::new(),
            keys: HashMap::new(),
            sparse: vec![EMPTY_SLOT; size],
        };
        assert(r@ =~= Map::<usize, T>::empty());
        r
    }

    /// Removes every value; the capacity is unchanged.
    pub fn clear(&mut self)
        requires
            old(self).wf(),
        ensures
            final(self).wf(),
            final(self)@ == Map::<usize, T>::empty(),
            final(self).capacity() == old(self).capacity(),
    {
        self.dense.clear();
        self.dense_keys.clear();
        self.keys.clear();
        let n = self.sparse.len();
        let mut i: usize = 0;
        while i < n
            invariant
                n == self.sparse@.len(),
                0 <= i <= n,
                forall|j: int| 0 <= j < i ==> self.sparse@[j] == EMPTY_SLOT,
                self.keys@ == Map::<usize, ()>::empty(),
                self.dense@.len() == 0,
                self.dense_keys@.len() == 0,
            decreases n - i,
        {
            self.sparse.set(i, EMPTY_SLOT);
            i += 1;
        }
        assert forall|k: usize| #[trigger]
            self.keys@.contains_key(k) <==> (k < self.sparse@.len() && self.sparse@[k as int]
                != EMPTY_SLOT) by {}
        assert(self@ =~= Map::<usize, T>::empty());
    }

    /// Stores `data` under `key`, replacing any value already there.
    pub fn insert(&mut self, key: usize, data: T)
        requires
            old(self).wf(),
            key < old(self).capacity(),
        ensures
            final(self).wf(),
            final(self)@ == old(self)@.insert(key, data),
            final(self).capacity() == old(self).capacity(),
    {
        if self.sparse[key] != EMPTY_SLOT {
            let index = self.sparse[key];
            self.dense.set(index, data);
            assert(self@ =~= old(self)@.insert(key, data));
        } else {
            let index = self.dense.len();
            let cap = self.sparse.len();
            proof {
                assert forall|i: int| 0 <= i < self.dense_keys@.len() implies self.dense_keys@[i]
                    < self.sparse@.len() && self.dense_keys@[i] != key by {
                    assert(self.sparse@[self.dense_keys@[i] as int] == i);
                }
                lemma_free_slot_bounds_len(self.dense_keys@, self.sparse@.len(), key);
                assert forall|i: int, j: int|
                    0 <= i < self.dense_keys@.len() && 0 <= j < self.dense_keys@.len() && i
                        != j implies self.dense_keys@[i] != self.dense_keys@[j] by {
                    assert(self.sparse@[self.dense_keys@[i] as int] == i);
                    assert(self.sparse@[self.dense_keys@[j] as int] == j);
                }
            }
            self.dense.push(data);
            self.dense_keys.push(key);
            self.sparse.set(key, index);
            self.keys.insert(key, ());
            proof {
                assert forall|i: int| 0 <= i < self.dense_keys@.len() implies {
                    &&& #[trigger] self.dense_keys@[i] < self.sparse@.len()
                    &&& self.sparse@[self.dense_keys@[i] as int] == i
                } by {
                    if i < index {
                        assert(old(self).sparse@[old(self).dense_keys@[i] as int] == i);
                    }
                }
                assert forall|k: usize| #[trigger]
                    self.keys@.contains_key(k) <==> (k < self.sparse@.len() && self.sparse@[k as int]
                        != EMPTY_SLOT) by {
                    assert(old(self).keys@.contains_key(k) <==> (k < old(self).sparse@.len()
                        && old(self).sparse@[k as int] != EMPTY_SLOT));
                }
                assert(self@ =~= old(self)@.insert(key, data));
            }
        }
    }

    /// The value under `key`, if any.
    pub fn get(&self, key: usize) -> (r: Option<&T>)
        requires
            self.wf(),
        ensures
            r == (if self@.contains_key(key) {
                Some(&self@[key])
            } else {
                None
            }),
    {
        if key >= self.sparse.len() {
            return None;
        }
        let index = self.sparse[key];
        if index == EMPTY_SLOT {
            None
        } else {
            Some(&self.dense[index])
        }
    }

    /// A mutable reference to the value under `key`, if any.
    pub fn get_mut(&mut self, key: usize) -> (r: Option<&mut T>)
        requires
            old(self).wf(),
        ensures
            r is Some <==> old(self)@.contains_key(key),
            r matches Some(v) ==> {
                &&& *v == old(self)@[key]
                &&& final(self)@ == old(self)@.insert(key, *final(v))
                &&& final(self).wf()
                &&& final(self).capacity() == old(self).capacity()
            },
            r is None ==> *final(self) == *old(self),
    {
        if key >= self.sparse.len() {
            return None;
        }
        let index = self.sparse[key];
        if index == EMPTY_SLOT {
            None
        } else {
            let ghost old_self = *self;
            let v = vec_slot_mut(&mut self.dense, index);
            Some(v)
        }
    }

    /// Whether `key` holds a value.
    pub fn is_filled(&self, key: usize) -> (r: bool)
        requires
            self.wf(),
            key < self.capacity(),
        ensures
            r == self@.contains_key(key),
    {
        self.sparse[key] != EMPTY_SLOT
    }

    /// Takes the value out from under `key`, if any. The last stored value
    /// moves into the freed slot of the dense storage and its key is pointed
    /// at that slot, so every other key keeps its value.
    pub fn remove(&mut self, key: usize) -> (r: Option<T>)
        requires
            old(self).wf(),
        ensures
            final(self).wf(),
            final(self).capacity() == old(self).capacity(),
            r == (if old(self)@.contains_key(key) {
                Some(old(self)@[key])
            } else {
                None
            }),
            final(self)@ == old(self)@.remove(key),
    {
        if key >= self.sparse.len() {
            assert(self@ =~= old(self)@.remove(key));
            return None;
        }
        let index = self.sparse[key];
        if index == EMPTY_SLOT {
            assert(self@ =~= old(self)@.remove(key));
            return None;
        }
        let len = self.dense.len();
        let ghost n = self.dense@.len();
        let ghost last_key = self.dense_keys@[n - 1];
        let rm = self.dense.swap_remove(index);
        self.dense_keys.swap_remove(index);
        if index < self.dense_keys.len() {
            let moved = self.dense_keys[index];
            self.sparse.set(moved, index);
        }
        self.sparse.set(key, EMPTY_SLOT);
        self.keys.remove(&key);
        proof {
            assert forall|i: int| 0 <= i < self.dense_keys@.len() implies {
                &&& #[trigger] self.dense_keys@[i] < self.sparse@.len()
                &&& self.sparse@[self.dense_keys@[i] as int] == i
            } by {
                if i == index {
                    assert(self.dense_keys@[i] == last_key);
                    assert(old(self).sparse@[last_key as int] == n - 1);
                } else {
                    assert(old(self).sparse@[old(self).dense_keys@[i] as int] == i);
                }
            }
            assert forall|k: int|
                0 <= k < self.sparse@.len() && #[trigger] self.sparse@[k] != EMPTY_SLOT implies {
                &&& self.sparse@[k] < self.dense_keys@.len()
                &&& self.dense_keys@[self.sparse@[k] as int] == k
            } by {
                if k != key && k != last_key {
                    let p = old(self).sparse@[k];
                    assert(old(self).dense_keys@[p as int] == k);
                }
            }
            assert forall|k: usize| #[trigger]
                self.keys@.contains_key(k) <==> (k < self.sparse@.len() && self.sparse@[k as int]
                    != EMPTY_SLOT) by {
                assert(old(self).keys@.contains_key(k) <==> (k < old(self).sparse@.len()
                    && old(self).sparse@[k as int] != EMPTY_SLOT));
                if k == last_key && k != key {
                    assert(old(self).sparse@[k as int] == n - 1);
                    assert(index < len);
                    assert(self.sparse@[k as int] == index);
                }
            }
            assert forall|k: usize| #[trigger] self@.dom().contains(k) implies old(self)@.remove(key).dom().contains(k) && self@[k] == old(self)@[k] by {
                let p = self.sparse@[k as int];
                if p == index {
                    assert(k == last_key);
                } else {
                    assert(old(self).dense_keys@[p as int] == k);
                }
            }
            assert forall|k: usize| #[trigger] old(self)@.remove(key).dom().contains(k) implies self@.dom().contains(k) by {
                let p = old(self).sparse@[k as int];
                assert(old(self).dense_keys@[p as int] == k);
            }
            assert(self@ =~= old(self)@.remove(key));
        }
        Some(rm)
    }

    /// Every key that holds a value, each once, in the order in which the
    /// key index is walked.
    pub fn all_keys(&self) -> (r: Vec<usize>)
        requires
            self.wf(),
        ensures
            r@.to_set() == self@.dom(),
            r@.no_duplicates(),
    {
        let mut r: Vec<usize> = Vec::new();
        let ghost walk = vstd::std_specs::iter::IteratorSpec::remaining(&vstd::std_specs::hash::spec_keys_iter(&self.keys));
        for k in it: self.keys.keys()
            invariant
                it.seq() == walk,
                r@ == walk.take(it.index() as int).map_values(|x: &usize| *x),
        {
            r.push(*k);
        }
        proof {
            let all = walk.map_values(|x: &usize| *x);
            assert(walk.unref() =~= all);
            assert(r@ =~= all);
            assert(all.to_set() =~= self@.dom());
            assert forall|i: int, j: int| 0 <= i < all.len() && 0 <= j < all.len() && i != j implies all[i] != all[j] by {
                assert(walk[i] != walk[j]);
            }
        }
        r
    }
}

/// A mutable reference to slot `i` of `v`.
fn vec_slot_mut<T>(v: &mut Vec<T>, i: usize) -> (r: &mut T)
    requires
        i < old(v).len(),
    ensures
        *r == old(v)@[i as int],
        final(v)@ == old(v)@.update(i as int, *final(r)),
{
    &mut v[i]
}

/// Distinct keys below `n` that leave `free` unused number fewer than `n`.
proof fn lemma_free_slot_bounds_len(keys: Seq<usize>, n: nat, free: usize)
    requires
        free < n,
        forall|i: int| 0 <= i < keys.len() ==> keys[i] < n && keys[i] != free,
        forall|i: int, j: int| 0 <= i < keys.len() && 0 <= j < keys.len() && i != j ==> keys[i] != keys[j],
    ensures
        keys.len() < n,
{
    let all = keys.push(free);
    assert forall|i: int, j: int| 0 <= i < all.len() && 0 <= j < all.len() && i != j implies all[i]
        != all[j] by {}
    lemma_distinct_below_len(all, n);
}

/// Distinct keys below `n` number at most `n`.
proof fn lemma_distinct_below_len(keys: Seq<usize>, n: nat)
    requires
        forall|i: int| 0 <= i < keys.len() ==> keys[i] < n,
        forall|i: int, j: int| 0 <= i < keys.len() && 0 <= j < keys.len() && i != j ==> keys[i] != keys[j],
    ensures
        keys.len() <= n,
    decreases n,
{
    if n == 0 {
        if keys.len() > 0 {
            assert(keys[0] < 0);
        }
    } else {
        let top = (n - 1) as nat;
        if exists|j: int| 0 <= j < keys.len() && keys[j] == top {
            let j = choose|j: int| 0 <= j < keys.len() && keys[j] == top;
            let rest = keys.remove(j);
            assert forall|i: int| 0 <= i < rest.len() implies rest[i] < top by {
                if i < j {
                    assert(rest[i] == keys[i]);
                } else {
                    assert(rest[i] == keys[i + 1]);
                }
            }
            assert forall|a: int, b: int| 0 <= a < rest.len() && 0 <= b < rest.len() && a != b implies rest[a] != rest[b] by {
                let a2 = if a < j { a } else { a + 1 };
                let b2 = if b < j { b } else { b + 1 };
                assert(rest[a] == keys[a2]);
                assert(rest[b] == keys[b2]);
            }
            lemma_distinct_below_len(rest, top);
        } else {
            lemma_distinct_below_len(keys, top);
        }
    }
}

/// A value stored under a key is what a lookup of that key then gives.
pub proof fn law_get_after_insert<T>(m: Map<usize, T>, key: usize, data: T)
    ensures
        m.insert(key, data).contains_key(key),
        m.insert(key, data)[key] == data,
{
}

/// Storing or removing under one key leaves every other key as it was.
pub proof fn law_other_keys_untouched<T>(m: Map<usize, T>, key: usize, other: usize, data: T)
    requires
        key != other,
    ensures
        m.insert(key, data).contains_key(other) == m.contains_key(other),
        m.remove(key).contains_key(other) == m.contains_key(other),
        m.contains_key(other) ==> m.insert(key, data)[other] == m[other] && m.remove(key)[other] == m[other],
{
}

/// Removing a key that was just stored under a free key gives back the
/// set as it was; a removed key holds nothing.
pub proof fn law_remove_undoes_insert<T>(m: Map<usize, T>, key: usize, data: T)
    requires
        !m.contains_key(key),
    ensures
        m.insert(key, data).remove(key) == m,
        !m.remove(key).contains_key(key),
{
    assert(m.insert(key, data).remove(key) =~= m);
}

} // verus!
