//! A small map from identities to values, kept in insertion order.

use vstd::prelude::*;
use vstd::seq_lib::seq_to_set_is_finite;
use crate::common::bytes::B256;

verus! {

/// No identity occurs in two entries.
pub open spec fn distinct_keys<V>(entries: Seq<(B256, V)>) -> bool {
    forall|i: int, j: int|
        0 <= i < entries.len() && 0 <= j < entries.len() && i != j ==> (#[trigger] entries[i]).0
            != (#[trigger] entries[j]).0
}

/// Whether some entry is filed under `key`.
pub open spec fn has_key<V>(entries: Seq<(B256, V)>, key: B256) -> bool {
    exists|i: int| 0 <= i < entries.len() && (#[trigger] entries[i]).0 == key
}

/// The position of an entry filed under `key`.
pub open spec fn position_of<V>(entries: Seq<(B256, V)>, key: B256) -> int {
    choose|i: int| 0 <= i < entries.len() && (#[trigger] entries[i]).0 == key
}

/// The map that a list of entries stands for.
pub open spec fn map_of<V>(entries: Seq<(B256, V)>) -> Map<B256, V> {
    Map::new(|key: B256| has_key(entries, key), |key: B256| entries[position_of(entries, key)].1)
}

/// With distinct identities, the map holds exactly the entries of the list.
pub proof fn lemma_map_of_entries<V>(entries: Seq<(B256, V)>)
    requires
        distinct_keys(entries),
    ensures
        forall|i: int|
            0 <= i < entries.len() ==> map_of(entries).contains_key((#[trigger] entries[i]).0)
                && map_of(entries)[entries[i].0] == entries[i].1,
        forall|key: B256| #[trigger]
            map_of(entries).contains_key(key) ==> 0 <= position_of(entries, key) < entries.len()
                && entries[position_of(entries, key)].0 == key,
{
    assert forall|i: int| 0 <= i < entries.len() implies map_of(entries).contains_key(
        (#[trigger] entries[i]).0,
    ) && map_of(entries)[entries[i].0] == entries[i].1 by {
        let key = entries[i].0;
        assert(has_key(entries, key));
        let p = position_of(entries, key);
        assert(0 <= p < entries.len() && entries[p].0 == key);
        assert(p == i);
    }
}

/// With distinct identities, the map has as many keys as the list has entries.
pub proof fn lemma_map_of_len<V>(entries: Seq<(B256, V)>)
    requires
        distinct_keys(entries),
    ensures
        map_of(entries).dom().finite(),
        map_of(entries).dom().len() == entries.len(),
{
    broadcast use seq_to_set_is_finite;

    let keys = entries.map_values(|e: (B256, V)| e.0);
    assert(keys.no_duplicates()) by {
        assert forall|i: int, j: int| 0 <= i < keys.len() && 0 <= j < keys.len() && i != j implies keys[i]
            != keys[j] by {
            assert(keys[i] == entries[i].0);
            assert(keys[j] == entries[j].0);
        }
    }
    keys.unique_seq_to_set();
    assert(map_of(entries).dom() =~= keys.to_set()) by {
        assert forall|key: B256| map_of(entries).dom().contains(key) implies keys.to_set().contains(
            key,
        ) by {
            let p = position_of(entries, key);
            assert(keys[p] == key);
        }
        assert forall|key: B256| keys.to_set().contains(key) implies map_of(entries).dom().contains(
            key,
        ) by {
            let p = choose|p: int| 0 <= p < keys.len() && keys[p] == key;
            assert(entries[p].0 == key);
        }
    }
}

/// A map from identities to values of type `V`.
///
/// The entries stand in the order in which their identities were first
/// inserted; no identity has two entries.
#[derive(Debug)]
pub struct IdentityMap<V> {
    entries: Vec<(B256, V)>,
}

impl<V: Copy> IdentityMap<V> {
    /// The entries in the order of first insertion.
    pub closed spec fn entries(&self) -> Seq<(B256, V)> {
        self.entries@
    }

    /// The invariant of the map: no identity has two entries.
    pub open spec fn wf(&self) -> bool {
        distinct_keys(self.entries())
    }

    /// The map that this value stands for.
    pub open spec fn view(&self) -> Map<B256, V> {
        map_of(self.entries())
    }

    /// A map without entries.
    pub fn new() -> (map: IdentityMap<V>)
        ensures
            map.wf(),
            map.entries() == Seq::<(B256, V)>::empty(),
            map@ == Map::<B256, V>::empty(),
    {
        let map = IdentityMap { entries: Vec::new() };
        assert(map@ =~= Map::<B256, V>::empty());
        map
    }

    /// The number of identities that have a value.
    pub fn len(&self) -> (n: usize)
        requires
            self.wf(),
        ensures
            n == self.entries().len(),
            self@.dom().finite(),
            n == self@.dom().len(),
    {
        proof {
            lemma_map_of_len(self.entries@);
        }
        self.entries.len()
    }

    /// The entry at position `i` in the order of first insertion.
    pub fn entry(&self, i: usize) -> (e: (B256, V))
        requires
            i < self.entries().len(),
        ensures
            e == self.entries()[i as int],
    {
        self.entries[i]
    }

    /// The value filed under `key`, if there is one.
    pub fn get(&self, key: &B256) -> (r: Option<V>)
        requires
            self.wf(),
        ensures
            r == (if self@.contains_key(*key) {
                Some(self@[*key])
            } else {
                None
            }),
    {
        proof {
            lemma_map_of_entries(self.entries@);
        }
        let mut i: usize = 0;
        while i < self.entries.len()
            invariant
                i <= self.entries@.len(),
                forall|j: int| 0 <= j < i ==> (#[trigger] self.entries@[j]).0 != *key,
                forall|j: int|
                    0 <= j < self.entries@.len() ==> self@.contains_key(
                        (#[trigger] self.entries@[j]).0,
                    ) && self@[self.entries@[j].0] == self.entries@[j].1,
            decreases self.entries@.len() - i,
        {
            if self.entries[i].0 == *key {
                return Some(self.entries[i].1);
            }
            i = i + 1;
        }
        None
    }

    /// Files `value` under `key`, in place of the value that `key` had before,
    /// if it had one.
    pub fn insert(&mut self, key: B256, value: V)
        requires
            old(self).wf(),
        ensures
            final(self).wf(),
            final(self)@ == old(self)@.insert(key, value),
    {
        let mut i: usize = 0;
        while i < self.entries.len()
            invariant
                i <= self.entries@.len(),
                *self == *old(self),
                self.wf(),
                forall|j: int| 0 <= j < i ==> (#[trigger] self.entries@[j]).0 != key,
            decreases self.entries@.len() - i,
        {
            if self.entries[i].0 == key {
                self.entries.set(i, (key, value));
                proof {
                    let before = old(self).entries@;
                    let after = self.entries@;
                    assert forall|a: int, b: int|
                        0 <= a < after.len() && 0 <= b < after.len() && a != b implies (
                    #[trigger] after[a]).0 != (#[trigger] after[b]).0 by {
                        assert(after[a].0 == before[a].0);
                        assert(after[b].0 == before[b].0);
                    }
                    lemma_map_of_entries(before);
                    lemma_map_of_entries(after);
                    assert forall|k: B256| self@.contains_key(k) <==> old(self)@.insert(
                        key,
                        value,
                    ).contains_key(k) by {
                        if self@.contains_key(k) {
                            let p = position_of(after, k);
                            assert(before[p].0 == k);
                        }
                        if old(self)@.contains_key(k) {
                            let p = position_of(before, k);
                            assert(after[p].0 == k);
                        }
                        if k == key {
                            assert(after[i as int].0 == key);
                        }
                    }
                    assert forall|k: B256| self@.contains_key(k) implies self@[k] == old(
                        self,
                    )@.insert(key, value)[k] by {
                        let p = position_of(after, k);
                        if k == key {
                            assert(after[i as int].0 == key);
                            assert(p == i);
                        } else {
                            assert(before[p].0 == k);
                            assert(before[p].1 == after[p].1);
                        }
                    }
                    assert(self@ =~= old(self)@.insert(key, value));
                }
                return ;
            }
            i = i + 1;
        }
        self.entries.push((key, value));
        proof {
            let before = old(self).entries@;
            let after = self.entries@;
            assert forall|a: int, b: int|
                0 <= a < after.len() && 0 <= b < after.len() && a != b implies (#[trigger] after[a]).0
                != (#[trigger] after[b]).0 by {
                if a < before.len() {
                    assert(after[a] == before[a]);
                }
                if b < before.len() {
                    assert(after[b] == before[b]);
                }
            }
            lemma_map_of_entries(before);
            lemma_map_of_entries(after);
            assert forall|k: B256| self@.contains_key(k) <==> old(self)@.insert(
                key,
                value,
            ).contains_key(k) by {
                if self@.contains_key(k) {
                    let p = position_of(after, k);
                    if p < before.len() {
                        assert(before[p].0 == k);
                    }
                }
                if old(self)@.contains_key(k) {
                    let p = position_of(before, k);
                    assert(after[p].0 == k);
                }
                if k == key {
                    assert(after[before.len() as int].0 == key);
                }
            }
            assert forall|k: B256| self@.contains_key(k) implies self@[k] == old(self)@.insert(
                key,
                value,
            )[k] by {
                let p = position_of(after, k);
                if k == key {
                    assert(after[before.len() as int].0 == key);
                    assert(p == before.len());
                } else {
                    assert(before[p].0 == k);
                    assert(before[p].1 == after[p].1);
                }
            }
            assert(self@ =~= old(self)@.insert(key, value));
        }
    }

    /// Removes every entry.
    pub fn clear(&mut self)
        ensures
            final(self).wf(),
            final(self).entries() == Seq::<(B256, V)>::empty(),
            final(self)@ == Map::<B256, V>::empty(),
    {
        self.entries.clear();
        assert(self@ =~= Map::<B256, V>::empty());
    }
}

} // verus!
