//! A keyed table of records: the shape every record family is stored in.
//!
//! A table holds at most one record under a key. Its view is the map from
//! the keys in use to their records.

use vstd::prelude::*;
use crate::address::Address;

verus! {

/// A key of a record family: a plain value that can be told apart from
/// another of its kind.
pub trait Key: Copy {
    /// Whether the two keys are the same.
    fn same(&self, other: &Self) -> (r: bool)
        ensures
            r == (*self == *other),
    ;
}

impl Key for u64 {
    fn same(&self, other: &u64) -> (r: bool) {
        *self == *other
    }
}

impl Key for Address {
    fn same(&self, other: &Address) -> (r: bool) {
        *self == *other
    }
}

/// One record with the key it is stored under.
struct Slot<K, T> {
    key: K,
    value: T,
}

impl<K: Copy, T: Copy> Clone for Slot<K, T> {
    fn clone(&self) -> (copy: Self)
        ensures
            copy == *self,
    {
        *self
    }
}

impl<K: Copy, T: Copy> Copy for Slot<K, T> {

}

/// No key occurs twice in `s`.
spec fn distinct_keys<K, T>(s: Seq<Slot<K, T>>) -> bool {
    forall|i: int, j: int| 0 <= i < j < s.len() ==> (#[trigger] s[i]).key != (#[trigger] s[j]).key
}

/// Some slot of `s` has the key `k`.
spec fn has_key<K, T>(s: Seq<Slot<K, T>>, k: K) -> bool {
    exists|i: int| 0 <= i < s.len() && (#[trigger] s[i]).key == k
}

/// The place of the key `k` in `s`.
spec fn slot_index<K, T>(s: Seq<Slot<K, T>>, k: K) -> int {
    choose|i: int| 0 <= i < s.len() && (#[trigger] s[i]).key == k
}

/// The map that the slots of `s` stand for.
spec fn slots_map<K, T>(s: Seq<Slot<K, T>>) -> Map<K, T> {
    Map::new(|k: K| has_key(s, k), |k: K| s[slot_index(s, k)].value)
}

/// Each slot is found under its key.
proof fn lemma_slot_present<K, T>(s: Seq<Slot<K, T>>, i: int)
    requires
        distinct_keys(s),
        0 <= i < s.len(),
    ensures
        slots_map(s).contains_key(s[i].key),
        slots_map(s)[s[i].key] == s[i].value,
        slot_index(s, s[i].key) == i,
{
    let k = s[i].key;
    assert(s[i].key == k);
    let j = slot_index(s, k);
    assert(0 <= j < s.len() && s[j].key == k);
    if j < i {
        assert(s[j].key != s[i].key);
    } else if i < j {
        assert(s[i].key != s[j].key);
    }
}

/// A new key at the end adds one entry to the map.
proof fn lemma_push_slot<K, T>(s: Seq<Slot<K, T>>, slot: Slot<K, T>)
    requires
        distinct_keys(s),
        !slots_map(s).contains_key(slot.key),
    ensures
        distinct_keys(s.push(slot)),
        slots_map(s.push(slot)) == slots_map(s).insert(slot.key, slot.value),
{
    let t = s.push(slot);
    assert forall|i: int, j: int| 0 <= i < j < t.len() implies (#[trigger] t[i]).key != (
    #[trigger] t[j]).key by {
        if j < s.len() {
            assert(s[i].key != s[j].key);
        } else {
            assert(t[i] == s[i]);
            assert(has_key(s, s[i].key));
        }
    }
    assert forall|k: K| #[trigger] slots_map(t).contains_key(k) <==> slots_map(s).insert(
        slot.key,
        slot.value,
    ).contains_key(k) by {
        if has_key(t, k) {
            let i = slot_index(t, k);
            if i < s.len() {
                assert(s[i].key == k);
            }
        }
        if has_key(s, k) {
            let i = slot_index(s, k);
            assert(t[i].key == k);
        }
        if k == slot.key {
            assert(t[s.len() as int].key == k);
        }
    }
    assert forall|k: K| #[trigger] slots_map(t).contains_key(k) implies slots_map(t)[k]
        == slots_map(s).insert(slot.key, slot.value)[k] by {
        let i = slot_index(t, k);
        lemma_slot_present(t, i);
        if i < s.len() {
            assert(t[i] == s[i]);
            lemma_slot_present(s, i);
        }
    }
    assert(slots_map(t) =~= slots_map(s).insert(slot.key, slot.value));
}

/// A new record in a slot replaces the entry of that slot's key.
proof fn lemma_update_slot<K, T>(s: Seq<Slot<K, T>>, i: int, value: T)
    requires
        distinct_keys(s),
        0 <= i < s.len(),
    ensures
        distinct_keys(s.update(i, Slot { key: s[i].key, value })),
        slots_map(s.update(i, Slot { key: s[i].key, value })) == slots_map(s).insert(
            s[i].key,
            value,
        ),
{
    let key = s[i].key;
    let t = s.update(i, Slot { key, value });
    assert forall|a: int, b: int| 0 <= a < b < t.len() implies (#[trigger] t[a]).key != (
    #[trigger] t[b]).key by {
        assert(t[a].key == s[a].key);
        assert(t[b].key == s[b].key);
    }
    assert forall|k: K| #[trigger] slots_map(t).contains_key(k) <==> slots_map(s).insert(
        key,
        value,
    ).contains_key(k) by {
        if has_key(t, k) {
            let j = slot_index(t, k);
            assert(s[j].key == k);
        }
        if has_key(s, k) {
            let j = slot_index(s, k);
            assert(t[j].key == k);
        }
        if k == key {
            assert(t[i].key == k);
        }
    }
    assert forall|k: K| #[trigger] slots_map(t).contains_key(k) implies slots_map(t)[k]
        == slots_map(s).insert(key, value)[k] by {
        let j = slot_index(t, k);
        lemma_slot_present(t, j);
        if j != i {
            assert(t[j] == s[j]);
            lemma_slot_present(s, j);
            lemma_slot_present(s, i);
        }
    }
    assert(slots_map(t) =~= slots_map(s).insert(key, value));
}

/// Taking a slot out takes its key out of the map.
proof fn lemma_remove_slot<K, T>(s: Seq<Slot<K, T>>, i: int)
    requires
        distinct_keys(s),
        0 <= i < s.len(),
    ensures
        distinct_keys(s.remove(i)),
        slots_map(s.remove(i)) == slots_map(s).remove(s[i].key),
{
    let key = s[i].key;
    let t = s.remove(i);
    assert forall|a: int| 0 <= a < t.len() implies #[trigger] t[a] == s[if a < i {
        a
    } else {
        a + 1
    }] by {}
    assert forall|a: int, b: int| 0 <= a < b < t.len() implies (#[trigger] t[a]).key != (
    #[trigger] t[b]).key by {
        let a2 = if a < i { a } else { a + 1 };
        let b2 = if b < i { b } else { b + 1 };
        assert(t[a] == s[a2]);
        assert(t[b] == s[b2]);
        assert(s[a2].key != s[b2].key);
    }
    assert forall|k: K| #[trigger] slots_map(t).contains_key(k) <==> slots_map(s).remove(
        key,
    ).contains_key(k) by {
        if has_key(t, k) {
            let j = slot_index(t, k);
            let j2 = if j < i { j } else { j + 1 };
            assert(t[j] == s[j2]);
            assert(s[j2].key == k);
            if j2 < i {
                assert(s[j2].key != s[i].key);
            } else {
                assert(s[i].key != s[j2].key);
            }
        }
        if has_key(s, k) && k != key {
            let j = slot_index(s, k);
            let j2 = if j < i { j } else { j - 1 };
            assert(t[j2] == s[j]);
            assert(t[j2].key == k);
        }
    }
    assert forall|k: K| #[trigger] slots_map(t).contains_key(k) implies slots_map(t)[k]
        == slots_map(s).remove(key)[k] by {
        let j = slot_index(t, k);
        lemma_slot_present(t, j);
        let j2 = if j < i { j } else { j + 1 };
        assert(t[j] == s[j2]);
        lemma_slot_present(s, j2);
    }
    assert(slots_map(t) =~= slots_map(s).remove(key));
}

/// A table of records of type `T` under keys of type `K`.
pub struct Table<K: Key, T: Copy> {
    slots: Vec<Slot<K, T>>,
}

impl<K: Key, T: Copy> View for Table<K, T> {
    type V = Map<K, T>;

    closed spec fn view(&self) -> Map<K, T> {
        slots_map(self.slots@)
    }
}

impl<K: Key, T: Copy> Table<K, T> {
    #[verifier::type_invariant]
    spec fn no_key_twice(self) -> bool {
        distinct_keys(self.slots@)
    }

    /// The table with no record.
    pub fn new() -> (t: Self)
        ensures
            t@ == Map::<K, T>::empty(),
    {
        let t = Table { slots: Vec::new() };
        assert(t@ =~= Map::<K, T>::empty());
        t
    }

    /// The place of `key` among the slots, if it is in use.
    fn position(&self, key: &K) -> (r: Option<usize>)
        ensures
            match r {
                Some(i) => i < self.slots@.len() && self.slots@[i as int].key == *key,
                None => !has_key(self.slots@, *key),
            },
    {
        let mut i: usize = 0;
        while i < self.slots.len()
            invariant
                i <= self.slots@.len(),
                forall|j: int| 0 <= j < i ==> (#[trigger] self.slots@[j]).key != *key,
            decreases self.slots@.len() - i,
        {
            if self.slots[i].key.same(key) {
                return Some(i);
            }
            i = i + 1;
        }
        None
    }

    /// The record under `key`, if there is one.
    pub fn get(&self, key: &K) -> (r: Option<T>)
        ensures
            r == (if self@.contains_key(*key) {
                Some(self@[*key])
            } else {
                None
            }),
    {
        proof {
            use_type_invariant(self);
        }
        match self.position(key) {
            Some(i) => {
                proof {
                    lemma_slot_present(self.slots@, i as int);
                }
                Some(self.slots[i].value)
            },
            None => None,
        }
    }

    /// Whether a record is stored under `key`.
    pub fn has(&self, key: &K) -> (r: bool)
        ensures
            r == self@.contains_key(*key),
    {
        proof {
            use_type_invariant(self);
        }
        match self.position(key) {
            Some(i) => {
                proof {
                    lemma_slot_present(self.slots@, i as int);
                }
                true
            },
            None => false,
        }
    }

    /// Stores `value` under `key`, in place of what was there.
    pub fn set(&mut self, key: K, value: T)
        ensures
            final(self)@ == old(self)@.insert(key, value),
    {
        proof {
            use_type_invariant(&*self);
        }
        let found = self.position(&key);
        let mut slots: Vec<Slot<K, T>> = Vec::new();
        std::mem::swap(&mut slots, &mut self.slots);
        match found {
            Some(i) => {
                proof {
                    lemma_update_slot(slots@, i as int, value);
                }
                slots.set(i, Slot { key, value });
            },
            None => {
                proof {
                    lemma_push_slot(slots@, Slot { key, value });
                }
                slots.push(Slot { key, value });
            },
        }
        self.slots = slots;
    }

    /// Takes the record under `key` out, if there is one.
    pub fn remove(&mut self, key: &K)
        ensures
            final(self)@ == old(self)@.remove(*key),
    {
        proof {
            use_type_invariant(&*self);
        }
        let found = self.position(key);
        match found {
            Some(i) => {
                let mut slots: Vec<Slot<K, T>> = Vec::new();
                std::mem::swap(&mut slots, &mut self.slots);
                proof {
                    lemma_remove_slot(slots@, i as int);
                }
                slots.remove(i);
                self.slots = slots;
            },
            None => {
                assert(self@ =~= self@.remove(*key));
            },
        }
    }

    /// A table with the same records.
    pub fn duplicate(&self) -> (t: Self)
        ensures
            t@ == self@,
    {
        proof {
            use_type_invariant(self);
        }
        let mut slots: Vec<Slot<K, T>> = Vec::new();
        let mut i: usize = 0;
        while i < self.slots.len()
            invariant
                i <= self.slots@.len(),
                slots@ == self.slots@.take(i as int),
            decreases self.slots@.len() - i,
        {
            slots.push(self.slots[i]);
            assert(self.slots@.take(i as int).push(self.slots@[i as int]) =~= self.slots@.take(
                i + 1,
            ));
            i = i + 1;
        }
        assert(slots@ =~= self.slots@);
        Table { slots }
    }
}

} // verus!
