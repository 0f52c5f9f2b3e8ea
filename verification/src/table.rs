//! A storage table keyed by account address.
//!
//! Contract storage keeps one entry per key of the form `Key(address)`; a
//! `Table<V>` holds all entries of one such key family.  Its mathematical model
//! is a finite map from the address text to the stored value.
use vstd::prelude::*;

verus! {

/// Values that can be copied exactly.
pub trait Duplicate: Sized + View {
    fn duplicate(&self) -> (r: Self)
        ensures
            r@ == self@,
    ;
}

impl Duplicate for u64 {
    fn duplicate(&self) -> (r: Self) {
        *self
    }
}

impl Duplicate for bool {
    fn duplicate(&self) -> (r: Self) {
        *self
    }
}

/// One stored entry: the address it is keyed by and the stored value.
pub struct Slot<V> {
    pub key: String,
    pub value: V,
}

/// Entries of one key family, at most one per address.
pub struct Table<V> {
    slots: Vec<Slot<V>>,
}

/// Whether some slot of `s` is keyed by `k`.
pub open spec fn slots_have<V>(s: Seq<Slot<V>>, k: Seq<char>) -> bool {
    exists|i: int| 0 <= i < s.len() && (#[trigger] s[i]).key@ == k
}

/// The position of a slot keyed by `k` (meaningful when `slots_have(s, k)`).
pub open spec fn slot_index<V>(s: Seq<Slot<V>>, k: Seq<char>) -> int {
    choose|i: int| 0 <= i < s.len() && (#[trigger] s[i]).key@ == k
}

/// No two slots share a key.
pub open spec fn keys_distinct<V>(s: Seq<Slot<V>>) -> bool {
    forall|i: int, j: int|
        0 <= i < s.len() && 0 <= j < s.len() && i != j ==> (#[trigger] s[i]).key@ != (#[trigger] s[j]).key@
}

/// The map that a sequence of slots with distinct keys stands for.
pub open spec fn slots_map<V>(s: Seq<Slot<V>>) -> Map<Seq<char>, V> {
    Map::new(|k: Seq<char>| slots_have(s, k), |k: Seq<char>| s[slot_index(s, k)].value)
}

proof fn lemma_index_unique<V>(s: Seq<Slot<V>>, i: int)
    requires
        keys_distinct(s),
        0 <= i < s.len(),
    ensures
        slots_have(s, s[i].key@),
        slot_index(s, s[i].key@) == i,
{
    let k = s[i].key@;
    assert(slots_have(s, k));
    let j = slot_index(s, k);
    assert(s[j].key@ == k);
}

impl<V> View for Table<V> {
    type V = Map<Seq<char>, V>;

    /// The stored entries as a map from address to value.
    closed spec fn view(&self) -> Map<Seq<char>, V> {
        slots_map(self.slots@)
    }
}

impl<V> Table<V> {
    #[verifier::type_invariant]
    spec fn inv(self) -> bool {
        keys_distinct(self.slots@)
    }

    /// An empty table.
    pub fn new() -> (t: Self)
        ensures
            t@ == Map::<Seq<char>, V>::empty(),
    {
        let t = Table { slots: Vec::new() };
        assert(t@ =~= Map::<Seq<char>, V>::empty());
        t
    }

    /// Position of the slot keyed by `key`, if any.
    fn position(&self, key: &String) -> (r: Option<usize>)
        ensures
            match r {
                Some(i) => i < self.slots@.len() && self.slots@[i as int].key@ == key@
                    && slots_have(self.slots@, key@) && slot_index(self.slots@, key@) == i,
                None => !slots_have(self.slots@, key@),
            },
    {
        proof {
            use_type_invariant(self);
        }
        let mut i: usize = 0;
        while i < self.slots.len()
            invariant
                i <= self.slots@.len(),
                keys_distinct(self.slots@),
                forall|j: int| 0 <= j < i ==> (#[trigger] self.slots@[j]).key@ != key@,
            decreases self.slots@.len() - i,
        {
            if self.slots[i].key == *key {
                proof {
                    lemma_index_unique(self.slots@, i as int);
                }
                return Some(i);
            }
            i = i + 1;
        }
        None
    }

    /// Whether an entry is stored under `key`.
    pub fn contains_key(&self, key: &String) -> (b: bool)
        ensures
            b == self@.contains_key(key@),
    {
        self.position(key).is_some()
    }

    /// The entry stored under `key`, if any.
    pub fn get(&self, key: &String) -> (r: Option<&V>)
        ensures
            match r {
                Some(v) => self@.contains_key(key@) && *v == self@[key@],
                None => !self@.contains_key(key@),
            },
    {
        match self.position(key) {
            Some(i) => Some(&self.slots[i].value),
            None => None,
        }
    }

    /// Stores `value` under `key`, replacing any earlier entry.
    pub fn insert(&mut self, key: String, value: V)
        ensures
            final(self)@ == old(self)@.insert(key@, value),
    {
        proof {
            use_type_invariant(&*self);
        }
        let ghost k = key@;
        let ghost old_slots = self.slots@;
        match self.position(&key) {
            Some(i) => {
                let mut slots = Vec::new();
                std::mem::swap(&mut slots, &mut self.slots);
                slots.set(i, Slot { key, value });
                let ghost s = slots@;
                assert(s =~= old_slots.update(i as int, Slot { key: s[i as int].key, value }));
                assert(keys_distinct(s)) by {
                    assert forall|a: int, b: int|
                        0 <= a < s.len() && 0 <= b < s.len() && a != b implies (#[trigger] s[a]).key@
                        != (#[trigger] s[b]).key@ by {
                        if a != i && b != i {
                            assert(old_slots[a] == s[a]);
                            assert(old_slots[b] == s[b]);
                        } else if a == i {
                            assert(old_slots[b] == s[b]);
                        } else {
                            assert(old_slots[a] == s[a]);
                        }
                    }
                }
                self.slots = slots;
                proof {
                    assert forall|k2: Seq<char>| #[trigger] slots_have(s, k2) == slots_have(old_slots, k2)
                        by {
                        if slots_have(s, k2) {
                            let j = slot_index(s, k2);
                            if j != i {
                                assert(old_slots[j] == s[j]);
                            }
                            assert(slots_have(old_slots, k2));
                        }
                        if slots_have(old_slots, k2) {
                            let j = slot_index(old_slots, k2);
                            if j != i {
                                assert(old_slots[j] == s[j]);
                            }
                            assert(slots_have(s, k2));
                        }
                    }
                    assert forall|k2: Seq<char>| slots_have(s, k2) implies s[slot_index(s, k2)].value
                        == (if k2 == k { value } else { old_slots[slot_index(old_slots, k2)].value }) by {
                        let j = slot_index(s, k2);
                        lemma_index_unique(s, j);
                        if j != i {
                            assert(old_slots[j] == s[j]);
                            lemma_index_unique(old_slots, j);
                        }
                    }
                    assert(slots_map(s) =~= slots_map(old_slots).insert(k, value));
                }
            },
            None => {
                let mut slots = Vec::new();
                std::mem::swap(&mut slots, &mut self.slots);
                slots.push(Slot { key, value });
                let ghost s = slots@;
                let ghost n = old_slots.len() as int;
                assert(keys_distinct(s)) by {
                    assert forall|a: int, b: int|
                        0 <= a < s.len() && 0 <= b < s.len() && a != b implies (#[trigger] s[a]).key@
                        != (#[trigger] s[b]).key@ by {
                        if a != n {
                            assert(s[a] == old_slots[a]);
                        }
                        if b != n {
                            assert(s[b] == old_slots[b]);
                        }
                    }
                }
                self.slots = slots;
                proof {
                    assert(s[n].key@ == k);
                    assert forall|k2: Seq<char>| #[trigger] slots_have(s, k2) == (slots_have(
                        old_slots,
                        k2,
                    ) || k2 == k) by {
                        if slots_have(s, k2) {
                            let j = slot_index(s, k2);
                            if j != n {
                                assert(old_slots[j] == s[j]);
                            }
                        }
                        if slots_have(old_slots, k2) {
                            let j = slot_index(old_slots, k2);
                            assert(old_slots[j] == s[j]);
                        }
                    }
                    lemma_index_unique(s, n);
                    assert forall|k2: Seq<char>| slots_have(s, k2) implies s[slot_index(s, k2)].value
                        == (if k2 == k { value } else { old_slots[slot_index(old_slots, k2)].value }) by {
                        let j = slot_index(s, k2);
                        lemma_index_unique(s, j);
                        if j != n {
                            assert(old_slots[j] == s[j]);
                            lemma_index_unique(old_slots, j);
                        }
                    }
                    assert(slots_map(s) =~= slots_map(old_slots).insert(k, value));
                }
            },
        }
    }

    /// Removes the entry stored under `key` and hands it back, if there was one.
    pub fn take(&mut self, key: &String) -> (r: Option<V>)
        ensures
            final(self)@ == old(self)@.remove(key@),
            match r {
                Some(v) => old(self)@.contains_key(key@) && v == old(self)@[key@],
                None => !old(self)@.contains_key(key@),
            },
    {
        proof {
            use_type_invariant(&*self);
        }
        let ghost k = key@;
        let ghost old_slots = self.slots@;
        match self.position(key) {
            Some(i) => {
                let mut slots = Vec::new();
                std::mem::swap(&mut slots, &mut self.slots);
                let slot = slots.remove(i);
                let ghost s = slots@;
                assert(keys_distinct(s)) by {
                    assert forall|a: int, b: int|
                        0 <= a < s.len() && 0 <= b < s.len() && a != b implies (#[trigger] s[a]).key@
                        != (#[trigger] s[b]).key@ by {
                        let oa = if a < i { a } else { a + 1 };
                        let ob = if b < i { b } else { b + 1 };
                        assert(s[a] == old_slots[oa]);
                        assert(s[b] == old_slots[ob]);
                    }
                }
                self.slots = slots;
                proof {
                    assert forall|k2: Seq<char>| #[trigger] slots_have(s, k2) == (slots_have(
                        old_slots,
                        k2,
                    ) && k2 != k) by {
                        if slots_have(s, k2) {
                            let j = slot_index(s, k2);
                            let oj = if j < i { j } else { j + 1 };
                            assert(s[j] == old_slots[oj]);
                            assert(oj != i);
                            lemma_index_unique(old_slots, oj);
                        }
                        if slots_have(old_slots, k2) && k2 != k {
                            let j = slot_index(old_slots, k2);
                            assert(j != i);
                            let nj = if j < i { j } else { j - 1 };
                            assert(s[nj] == old_slots[j]);
                        }
                    }
                    assert forall|k2: Seq<char>| slots_have(s, k2) implies s[slot_index(s, k2)].value
                        == old_slots[slot_index(old_slots, k2)].value by {
                        let j = slot_index(s, k2);
                        let oj = if j < i { j } else { j + 1 };
                        assert(s[j] == old_slots[oj]);
                        lemma_index_unique(old_slots, oj);
                    }
                    assert(slots_map(s) =~= slots_map(old_slots).remove(k));
                }
                Some(slot.value)
            },
            None => {
                proof {
                    assert(slots_map(old_slots) =~= slots_map(old_slots).remove(k));
                }
                None
            },
        }
    }

    /// A copy of all the entries, each value copied to one of the same view.
    pub fn copy(&self) -> (r: Self)
        where
            V: Duplicate,
        ensures
            r@.dom() == self@.dom(),
            forall|k: Seq<char>| #[trigger] r@.contains_key(k) ==> r@[k]@ == self@[k]@,
    {
        proof {
            use_type_invariant(self);
        }
        let mut slots: Vec<Slot<V>> = Vec::new();
        let mut i: usize = 0;
        while i < self.slots.len()
            invariant
                i <= self.slots@.len(),
                slots@.len() == i,
                forall|j: int|
                    0 <= j < i ==> (#[trigger] slots@[j]).key == self.slots@[j].key && slots@[j].value@
                        == self.slots@[j].value@,
                keys_distinct(self.slots@),
            decreases self.slots@.len() - i,
        {
            let slot = &self.slots[i];
            slots.push(Slot { key: slot.key.clone(), value: slot.value.duplicate() });
            i = i + 1;
        }
        let ghost s = slots@;
        let ghost o = self.slots@;
        assert(keys_distinct(s)) by {
            assert forall|a: int, b: int|
                0 <= a < s.len() && 0 <= b < s.len() && a != b implies (#[trigger] s[a]).key@
                != (#[trigger] s[b]).key@ by {
                assert(o[a].key == s[a].key);
                assert(o[b].key == s[b].key);
            }
        }
        let r = Table { slots };
        proof {
            assert forall|k: Seq<char>| #[trigger] slots_have(s, k) == slots_have(o, k) by {
                if slots_have(s, k) {
                    let j = slot_index(s, k);
                    assert(o[j].key == s[j].key);
                }
                if slots_have(o, k) {
                    let j = slot_index(o, k);
                    assert(o[j].key == s[j].key);
                }
            }
            assert(r@.dom() =~= self@.dom());
            assert forall|k: Seq<char>| #[trigger] r@.contains_key(k) implies r@[k]@ == self@[k]@ by {
                let j = slot_index(s, k);
                lemma_index_unique(s, j);
                assert(o[j].key == s[j].key);
                lemma_index_unique(o, j);
            }
        }
        r
    }

    /// Removes the entry stored under `key`, if any.
    pub fn remove(&mut self, key: &String)
        ensures
            final(self)@ == old(self)@.remove(key@),
    {
        let _ = self.take(key);
    }
}

} // verus!
