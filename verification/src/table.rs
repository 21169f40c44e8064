//! A map from integer keys to values, kept as a list of distinct entries.

use vstd::prelude::*;

verus! {

/// A finite map with `u32` keys.
#[derive(Debug)]
pub struct Table<V> {
    entries: Vec<(u32, V)>,
}

/// No key occurs twice in the list.
pub open spec fn distinct_keys<V>(entries: Seq<(u32, V)>) -> bool {
    forall|i: int, j: int|
        0 <= i < j < entries.len() ==> (#[trigger] entries[i]).0 != (#[trigger] entries[j]).0
}

/// Some entry of the list has key `key`.
pub open spec fn has_key<V>(entries: Seq<(u32, V)>, key: u32) -> bool {
    exists|i: int| 0 <= i < entries.len() && (#[trigger] entries[i]).0 == key
}

/// Where the list holds key `key`.
pub open spec fn key_position<V>(entries: Seq<(u32, V)>, key: u32) -> int {
    choose|i: int| 0 <= i < entries.len() && (#[trigger] entries[i]).0 == key
}

/// The map that a list of distinct entries stands for.
pub open spec fn as_map<V>(entries: Seq<(u32, V)>) -> Map<u32, V> {
    Map::new(
        |key: u32| has_key(entries, key),
        |key: u32| entries[key_position(entries, key)].1,
    )
}

proof fn lemma_entry<V>(entries: Seq<(u32, V)>, i: int)
    requires
        distinct_keys(entries),
        0 <= i < entries.len(),
    ensures
        has_key(entries, entries[i].0),
        key_position(entries, entries[i].0) == i,
        as_map(entries).contains_key(entries[i].0),
        as_map(entries)[entries[i].0] == entries[i].1,
{
    let key = entries[i].0;
    assert(has_key(entries, key));
    let j = key_position(entries, key);
    assert(0 <= j < entries.len() && entries[j].0 == key);
    if i < j {
        assert(entries[i].0 != entries[j].0);
    }
    if j < i {
        assert(entries[j].0 != entries[i].0);
    }
}

impl<V> View for Table<V> {
    type V = Map<u32, V>;

    closed spec fn view(&self) -> Map<u32, V> {
        as_map(self.entries@)
    }
}

impl<V> Table<V> {
    #[verifier::type_invariant]
    spec fn keys_differ(self) -> bool {
        distinct_keys(self.entries@)
    }

    /// The empty map.
    pub fn new() -> (r: Table<V>)
        ensures
            r@ == Map::<u32, V>::empty(),
    {
        let r = Table { entries: Vec::new() };
        assert(r@ =~= Map::<u32, V>::empty());
        r
    }

    fn position(&self, key: u32) -> (r: Option<usize>)
        ensures
            r is Some <==> self@.contains_key(key),
            r matches Some(i) ==> i < self.entries.len() && self.entries@[i as int].0 == key
                && self@[key] == self.entries@[i as int].1,
            distinct_keys(self.entries@),
    {
        proof {
            use_type_invariant(self);
        }
        for i in 0..self.entries.len()
            invariant
                distinct_keys(self.entries@),
                forall|j: int| 0 <= j < i ==> (#[trigger] self.entries@[j]).0 != key,
        {
            if self.entries[i].0 == key {
                proof {
                    lemma_entry(self.entries@, i as int);
                }
                return Some(i);
            }
        }
        None
    }

    /// The value under `key`, if there is one.
    pub fn get(&self, key: u32) -> (r: Option<&V>)
        ensures
            r is Some <==> self@.contains_key(key),
            r matches Some(v) ==> *v == self@[key],
    {
        match self.position(key) {
            Some(i) => Some(&self.entries[i].1),
            None => None,
        }
    }

    pub fn contains_key(&self, key: u32) -> (r: bool)
        ensures
            r == self@.contains_key(key),
    {
        self.position(key).is_some()
    }

    /// Takes the value under `key` out of the map.
    pub fn remove(&mut self, key: u32) -> (r: Option<V>)
        ensures
            final(self)@ == old(self)@.remove(key),
            r is Some <==> old(self)@.contains_key(key),
            r matches Some(v) ==> v == old(self)@[key],
    {
        match self.position(key) {
            Some(i) => {
                let mut entries: Vec<(u32, V)> = Vec::new();
                std::mem::swap(&mut entries, &mut self.entries);
                let ghost before = entries@;
                let (_, v) = entries.remove(i);
                proof {
                    assert forall|a: int, b: int| 0 <= a < b < entries@.len() implies (
                    #[trigger] entries@[a]).0 != (#[trigger] entries@[b]).0 by {
                        let a2 = if a < i { a } else { a + 1 };
                        let b2 = if b < i { b } else { b + 1 };
                        assert(before[a2].0 != before[b2].0);
                    }
                    assert forall|k: u32| k != key && has_key(before, k) implies has_key(
                        entries@,
                        k,
                    ) && as_map(entries@)[k] == as_map(before)[k] by {
                        let p = key_position(before, k);
                        let q = if p < i { p } else { p - 1 };
                        assert(entries@[q] == before[p]);
                        lemma_entry(entries@, q);
                        lemma_entry(before, p);
                    }
                    assert forall|k: u32| has_key(entries@, k) implies k != key && has_key(
                        before,
                        k,
                    ) by {
                        let q = key_position(entries@, k);
                        let p = if q < i { q } else { q + 1 };
                        assert(before[p] == entries@[q]);
                        assert(before[i as int].0 == key);
                    }
                    assert(as_map(entries@) =~= as_map(before).remove(key));
                }
                self.entries = entries;
                Some(v)
            },
            None => {
                assert(self@ =~= self@.remove(key));
                None
            },
        }
    }

    /// Puts `value` under `key`, in place of what was there.
    pub fn insert(&mut self, key: u32, value: V)
        ensures
            final(self)@ == old(self)@.insert(key, value),
    {
        match self.position(key) {
            Some(i) => {
                let mut entries: Vec<(u32, V)> = Vec::new();
                std::mem::swap(&mut entries, &mut self.entries);
                let ghost before = entries@;
                entries.set(i, (key, value));
                proof {
                    assert forall|a: int, b: int| 0 <= a < b < entries@.len() implies (
                    #[trigger] entries@[a]).0 != (#[trigger] entries@[b]).0 by {
                        assert(before[a].0 != before[b].0);
                    }
                    assert forall|k: u32| has_key(before, k) <==> has_key(entries@, k) by {
                        if has_key(before, k) {
                            assert(entries@[key_position(before, k)].0 == k);
                        }
                        if has_key(entries@, k) {
                            assert(before[key_position(entries@, k)].0 == k);
                        }
                    }
                    assert forall|k: u32| has_key(before, k) implies as_map(entries@)[k] == (if k
                        == key { value } else { as_map(before)[k] }) by {
                        let p = key_position(before, k);
                        assert(entries@[p].0 == k);
                        lemma_entry(entries@, p);
                        lemma_entry(before, p);
                        lemma_entry(before, i as int);
                    }
                    assert(has_key(before, key));
                    assert(as_map(entries@) =~= as_map(before).insert(key, value));
                }
                self.entries = entries;
            },
            None => {
                let mut entries: Vec<(u32, V)> = Vec::new();
                std::mem::swap(&mut entries, &mut self.entries);
                let ghost before = entries@;
                entries.push((key, value));
                proof {
                    assert forall|a: int| 0 <= a < before.len() implies (#[trigger] before[a]).0
                        != key by {
                        if before[a].0 == key {
                            assert(has_key(before, key));
                        }
                    }
                    lemma_entry(entries@, before.len() as int);
                    assert forall|k: u32| has_key(before, k) implies has_key(entries@, k)
                        && as_map(entries@)[k] == as_map(before)[k] by {
                        let p = key_position(before, k);
                        assert(entries@[p] == before[p]);
                        lemma_entry(entries@, p);
                    }
                    assert forall|k: u32| has_key(entries@, k) && k != key implies has_key(
                        before,
                        k,
                    ) by {
                        let q = key_position(entries@, k);
                        assert(before[q] == entries@[q]);
                    }
                    assert(as_map(entries@) =~= as_map(before).insert(key, value));
                }
                self.entries = entries;
            },
        }
    }

    /// Removes every entry.
    pub fn clear(&mut self)
        ensures
            final(self)@ == Map::<u32, V>::empty(),
    {
        self.entries = Vec::new();
        assert(self@ =~= Map::<u32, V>::empty());
    }

    /// The entries, in no particular order.
    pub fn items(&self) -> (r: &Vec<(u32, V)>)
        ensures
            distinct_keys(r@),
            self@ == as_map(r@),
            forall|i: int|
                0 <= i < r@.len() ==> self@.contains_key((#[trigger] r@[i]).0) && self@[r@[i].0]
                    == r@[i].1,
            forall|k: u32| #[trigger] self@.contains_key(k) ==> has_key(r@, k),
    {
        proof {
            use_type_invariant(self);
            assert forall|i: int| 0 <= i < self.entries@.len() implies self@.contains_key(
                (#[trigger] self.entries@[i]).0,
            ) && self@[self.entries@[i].0] == self.entries@[i].1 by {
                lemma_entry(self.entries@, i);
            }
        }
        &self.entries
    }
}

impl<V: Clone> Clone for Table<V> {
    /// A map with the same keys and a copy of each value.
    fn clone(&self) -> (r: Table<V>)
        ensures
            r@.dom() == self@.dom(),
            forall|key: u32|
                #![trigger r@[key]]
                r@.contains_key(key) ==> cloned(self@[key], r@[key]),
    {
        proof {
            use_type_invariant(self);
        }
        let mut entries: Vec<(u32, V)> = Vec::new();
        for i in 0..self.entries.len()
            invariant
                distinct_keys(self.entries@),
                entries@.len() == i,
                forall|j: int|
                    0 <= j < i ==> (#[trigger] entries@[j]).0 == self.entries@[j].0 && cloned(
                        self.entries@[j].1,
                        entries@[j].1,
                    ),
        {
            let value = self.entries[i].1.clone();
            entries.push((self.entries[i].0, value));
        }
        let r = Table { entries };
        proof {
            assert forall|key: u32| #[trigger] r@.dom().contains(key) == self@.dom().contains(
                key,
            ) by {
                if has_key(r.entries@, key) {
                    let i = key_position(r.entries@, key);
                    assert(self.entries@[i].0 == key);
                }
                if has_key(self.entries@, key) {
                    let i = key_position(self.entries@, key);
                    assert(r.entries@[i].0 == key);
                }
            }
            assert forall|key: u32|
                #![trigger r@[key]]
                r@.contains_key(key) implies cloned(self@[key], r@[key]) by {
                let i = key_position(r.entries@, key);
                lemma_entry(r.entries@, i);
                lemma_entry(self.entries@, i);
            }
            assert(r@.dom() =~= self@.dom());
        }
        r
    }
}

} // verus!
