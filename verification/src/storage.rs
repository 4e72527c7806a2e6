//! Keyed storage: maps that hold at most one value for each key.

use vstd::prelude::*;
use crate::primitives::{H160, H256, Key};

verus! {

/// The map that a list of key-value pairs stands for. A later pair replaces an earlier one with
/// the same key.
pub open spec fn entries_map<K, V: View>(entries: Seq<(K, V)>) -> Map<K, V::V>
    decreases entries.len(),
{
    if entries.len() == 0 {
        Map::empty()
    } else {
        entries_map(entries.drop_last()).insert(entries.last().0, entries.last().1@)
    }
}

/// Whether no key occurs twice in a list of key-value pairs.
pub open spec fn distinct_keys<K, V>(entries: Seq<(K, V)>) -> bool {
    forall|i: int, j: int|
        0 <= i < j < entries.len() ==> (#[trigger] entries[i]).0 != (#[trigger] entries[j]).0
}

/// The keys of the map are the keys in the list.
pub proof fn lemma_entries_domain<K, V: View>(entries: Seq<(K, V)>, key: K)
    ensures
        entries_map(entries).contains_key(key) <==> exists|i: int|
            0 <= i < entries.len() && (#[trigger] entries[i]).0 == key,
    decreases entries.len(),
{
    if entries.len() > 0 {
        let rest = entries.drop_last();
        lemma_entries_domain(rest, key);
        if entries_map(rest).contains_key(key) {
            let i = choose|i: int| 0 <= i < rest.len() && (#[trigger] rest[i]).0 == key;
            assert(entries[i].0 == key);
        }
        if exists|i: int| 0 <= i < entries.len() && (#[trigger] entries[i]).0 == key {
            let i = choose|i: int| 0 <= i < entries.len() && (#[trigger] entries[i]).0 == key;
            if i < rest.len() {
                assert(rest[i].0 == key);
            }
        }
        assert(entries[entries.len() - 1].0 == entries.last().0);
    }
}

/// A list of key-value pairs stands for a finite map.
pub proof fn lemma_entries_finite<K, V: View>(entries: Seq<(K, V)>)
    ensures
        entries_map(entries).dom().finite(),
    decreases entries.len(),
{
    if entries.len() > 0 {
        lemma_entries_finite(entries.drop_last());
    }
}

/// Where no key occurs twice, the map holds every pair of the list.
pub proof fn lemma_entries_lookup<K, V: View>(entries: Seq<(K, V)>, i: int)
    requires
        distinct_keys(entries),
        0 <= i < entries.len(),
    ensures
        entries_map(entries).contains_key(entries[i].0),
        entries_map(entries)[entries[i].0] == entries[i].1@,
    decreases entries.len(),
{
    if i < entries.len() - 1 {
        let rest = entries.drop_last();
        assert(distinct_keys(rest));
        lemma_entries_lookup(rest, i);
        assert(rest[i] == entries[i]);
        assert(entries[i].0 != entries[entries.len() - 1].0);
    }
}

/// Replacing the value of a pair replaces the value of its key in the map.
proof fn lemma_entries_update<K, V: View>(entries: Seq<(K, V)>, i: int, pair: (K, V))
    requires
        distinct_keys(entries),
        0 <= i < entries.len(),
        pair.0 == entries[i].0,
    ensures
        distinct_keys(entries.update(i, pair)),
        entries_map(entries.update(i, pair)) == entries_map(entries).insert(pair.0, pair.1@),
    decreases entries.len(),
{
    let updated = entries.update(i, pair);
    assert forall|a: int, b: int| 0 <= a < b < updated.len() implies (#[trigger] updated[a]).0 != (
    #[trigger] updated[b]).0 by {
        assert(entries[a].0 != entries[b].0);
    }
    let rest = entries.drop_last();
    if i == entries.len() - 1 {
        assert(updated.drop_last() =~= rest);
        assert(entries_map(updated) =~= entries_map(entries).insert(pair.0, pair.1@));
    } else {
        assert(distinct_keys(rest));
        lemma_entries_update(rest, i, pair);
        assert(updated.drop_last() =~= rest.update(i, pair));
        assert(entries[i].0 != entries[entries.len() - 1].0);
        assert(entries_map(updated) =~= entries_map(entries).insert(pair.0, pair.1@));
    }
}

/// Taking a pair out of the list takes its key out of the map.
proof fn lemma_entries_remove<K, V: View>(entries: Seq<(K, V)>, i: int)
    requires
        distinct_keys(entries),
        0 <= i < entries.len(),
    ensures
        distinct_keys(entries.remove(i)),
        entries_map(entries.remove(i)) == entries_map(entries).remove(entries[i].0),
    decreases entries.len(),
{
    let removed = entries.remove(i);
    assert forall|a: int, b: int| 0 <= a < b < removed.len() implies (#[trigger] removed[a]).0 != (
    #[trigger] removed[b]).0 by {
        let c = if a < i {
            a
        } else {
            a + 1
        };
        let d = if b < i {
            b
        } else {
            b + 1
        };
        assert(removed[a] == entries[c] && removed[b] == entries[d]);
        assert(entries[c].0 != entries[d].0);
    }
    let rest = entries.drop_last();
    if i == entries.len() - 1 {
        assert(removed =~= rest);
        if entries_map(rest).contains_key(entries[i].0) {
            lemma_entries_domain(rest, entries[i].0);
            let j = choose|j: int| 0 <= j < rest.len() && (#[trigger] rest[j]).0 == entries[i].0;
            assert(entries[j].0 != entries[i].0);
        }
        assert(entries_map(removed) =~= entries_map(entries).remove(entries[i].0));
    } else {
        assert(distinct_keys(rest));
        lemma_entries_remove(rest, i);
        assert(removed.drop_last() =~= rest.remove(i));
        assert(removed.last() == entries.last());
        assert(entries[i].0 != entries[entries.len() - 1].0);
        assert(entries_map(removed) =~= entries_map(entries).remove(entries[i].0));
    }
}

/// A map from keys to values.
#[derive(Debug)]
pub struct StorageMap<K: Key, V: View> {
    entries: Vec<(K, V)>,
}

impl<K: Key, V: View> View for StorageMap<K, V> {
    type V = Map<K, V::V>;

    open spec fn view(&self) -> Map<K, V::V> {
        entries_map(self.pairs())
    }
}

impl<K: Key, V: View> StorageMap<K, V> {
    /// The key-value pairs of the map, in the order in which it keeps them.
    pub closed spec fn pairs(self) -> Seq<(K, V)> {
        self.entries@
    }

    /// Whether one of the keys has the given value.
    pub open spec fn has_value(self, value: V) -> bool {
        exists|i: int| 0 <= i < self.pairs().len() && (#[trigger] self.pairs()[i]).1 == value
    }

    #[verifier::type_invariant]
    spec fn keys_occur_once(self) -> bool {
        distinct_keys(self.entries@)
    }

    /// A map that holds nothing.
    pub fn new() -> (r: Self)
        ensures
            r@ == Map::<K, V::V>::empty(),
            forall|value: V| !#[trigger] r.has_value(value),
    {
        StorageMap { entries: Vec::new() }
    }

    /// The key-value pairs of the map.
    pub fn entries(&self) -> (r: &Vec<(K, V)>)
        ensures
            r@ == self.pairs(),
            distinct_keys(r@),
    {
        proof {
            use_type_invariant(self);
        }
        &self.entries
    }

    /// Hands the key-value pairs of the map over.
    pub fn into_entries(self) -> (r: Vec<(K, V)>)
        ensures
            r@ == self.pairs(),
            distinct_keys(r@),
    {
        proof {
            use_type_invariant(&self);
        }
        self.entries
    }

    /// Where the pair with the given key stands.
    fn position(entries: &Vec<(K, V)>, key: &K) -> (r: Option<usize>)
        requires
            distinct_keys(entries@),
        ensures
            match r {
                Some(i) => i < entries@.len() && entries@[i as int].0 == *key && entries_map(
                    entries@,
                ).contains_key(*key) && entries_map(entries@)[*key] == entries@[i as int].1@,
                None => !entries_map(entries@).contains_key(*key) && forall|j: int|
                    0 <= j < entries@.len() ==> (#[trigger] entries@[j]).0 != *key,
            },
    {
        let mut i: usize = 0;
        while i < entries.len()
            invariant
                i <= entries@.len(),
                distinct_keys(entries@),
                forall|j: int| 0 <= j < i ==> (#[trigger] entries@[j]).0 != *key,
            decreases entries@.len() - i,
        {
            if entries[i].0.same(key) {
                proof {
                    lemma_entries_lookup(entries@, i as int);
                }
                return Some(i);
            }
            i = i + 1;
        }
        proof {
            lemma_entries_domain(entries@, *key);
        }
        None
    }

    /// The value of a key, where it has one.
    pub fn get(&self, key: &K) -> (r: Option<&V>)
        ensures
            match r {
                Some(value) => self@.contains_key(*key) && self@[*key] == value@,
                None => !self@.contains_key(*key),
            },
    {
        proof {
            use_type_invariant(self);
        }
        match Self::position(&self.entries, key) {
            Some(i) => Some(&self.entries[i].1),
            None => None,
        }
    }

    /// Gives a key a value, in place of the one that it had.
    pub fn insert(&mut self, key: K, value: V)
        ensures
            final(self)@ == old(self)@.insert(key, value@),
            forall|held: V| #[trigger]
                final(self).has_value(held) ==> held == value || old(self).has_value(held),
    {
        proof {
            use_type_invariant(&*self);
        }
        let mut entries: Vec<(K, V)> = Vec::new();
        std::mem::swap(&mut entries, &mut self.entries);
        let ghost before = entries@;
        match Self::position(&entries, &key) {
            Some(i) => {
                proof {
                    lemma_entries_update(before, i as int, (key, value));
                }
                entries.set(i, (key, value));
            },
            None => {
                entries.push((key, value));
                assert(entries@.drop_last() =~= before);
            },
        }
        let ghost after = entries@;
        self.entries = entries;
        assert forall|held: V| #[trigger] self.has_value(held) implies held == value || old(
            self,
        ).has_value(held) by {
            let i = choose|i: int|
                0 <= i < self.pairs().len() && (#[trigger] self.pairs()[i]).1 == held;
            assert(after[i].1 == held);
            assert(i < before.len() && after[i] == before[i] ==> old(self).pairs()[i].1 == held);
        }
    }

    /// Takes a key out, and hands back the value that it had.
    pub fn remove(&mut self, key: &K) -> (r: Option<V>)
        ensures
            final(self)@ == old(self)@.remove(*key),
            match r {
                Some(value) => old(self)@.contains_key(*key) && old(self)@[*key] == value@,
                None => !old(self)@.contains_key(*key),
            },
            r matches Some(value) ==> old(self).has_value(value),
            forall|held: V| #[trigger] final(self).has_value(held) ==> old(self).has_value(held),
    {
        proof {
            use_type_invariant(&*self);
        }
        let mut entries: Vec<(K, V)> = Vec::new();
        std::mem::swap(&mut entries, &mut self.entries);
        let ghost before = entries@;
        let r = match Self::position(&entries, key) {
            Some(i) => {
                proof {
                    lemma_entries_remove(before, i as int);
                }
                let (_, value) = entries.remove(i);
                assert(old(self).pairs()[i as int].1 == value);
                Some(value)
            },
            None => {
                assert(entries_map(before).remove(*key) =~= entries_map(before));
                None
            },
        };
        let ghost after = entries@;
        self.entries = entries;
        assert forall|held: V| #[trigger] self.has_value(held) implies old(self).has_value(held) by {
            let i = choose|i: int|
                0 <= i < self.pairs().len() && (#[trigger] self.pairs()[i]).1 == held;
            assert(after[i].1 == held);
            assert(before[i] == after[i] || before[i + 1] == after[i]);
            assert(old(self).pairs()[i].1 == held || old(self).pairs()[i + 1].1 == held);
        }
        r
    }
}

/// The place of a storage value: the account and the index within its storage.
#[derive(Clone, Copy, Debug)]
pub struct Slot {
    /// The account that the value belongs to.
    pub address: H160,
    /// The index of the value.
    pub index: H256,
}

impl Key for Slot {
    fn same(&self, other: &Self) -> (r: bool) {
        self.address.same(&other.address) && self.index.same(&other.index)
    }
}

/// What is left of a map from slots when an account's slots are taken out.
pub open spec fn without_prefix<V>(map: Map<Slot, V>, address: H160) -> Map<Slot, V> {
    Map::new(|slot: Slot| map.contains_key(slot) && slot.address != address, |slot: Slot| map[slot])
}

impl<V: View> StorageMap<Slot, V> {
    /// Takes all slots of an account out.
    pub fn remove_prefix(&mut self, address: &H160)
        ensures
            final(self)@ == without_prefix(old(self)@, *address),
    {
        proof {
            use_type_invariant(&*self);
        }
        let mut entries: Vec<(Slot, V)> = Vec::new();
        std::mem::swap(&mut entries, &mut self.entries);
        let ghost before = entries@;
        let mut i: usize = 0;
        while i < entries.len()
            invariant
                i <= entries@.len(),
                distinct_keys(entries@),
                without_prefix(entries_map(entries@), *address) == without_prefix(
                    entries_map(before),
                    *address,
                ),
                forall|j: int| 0 <= j < i ==> (#[trigger] entries@[j]).0.address != *address,
            decreases entries@.len() - i,
        {
            if entries[i].0.address.same(address) {
                proof {
                    lemma_entries_remove(entries@, i as int);
                    let slot = entries@[i as int].0;
                    assert(without_prefix(entries_map(entries@).remove(slot), *address)
                        =~= without_prefix(entries_map(entries@), *address));
                }
                let _ = entries.remove(i);
            } else {
                i = i + 1;
            }
        }
        assert forall|slot: Slot| entries_map(entries@).contains_key(slot) implies slot.address
            != *address by {
            lemma_entries_domain(entries@, slot);
        }
        assert(without_prefix(entries_map(entries@), *address) =~= entries_map(entries@));
        self.entries = entries;
    }
}

} // verus!
