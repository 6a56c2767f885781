//! A keyed table with constant-time lookup.
use std::collections::HashMap;
use std::marker::PhantomData;
use vstd::prelude::*;

use crate::key::Key;

verus! {

/// A dictionary from keys to values.
///
/// A row of the table holds the entries whose keys share a first half; within
/// a row an entry is found by the key's second half.
#[verifier::reject_recursive_types(K)]
#[verifier::reject_recursive_types(V)]
pub struct Table<K: Key, V> {
    rows: HashMap<u128, HashMap<u128, V>>,
    key: PhantomData<K>,
}

impl<K: Key, V> View for Table<K, V> {
    type V = Map<K, V>;

    closed spec fn view(&self) -> Map<K, V> {
        Map::new(
            |k: K|
                self.rows@.contains_key(k.halves().0) && self.rows@[k.halves().0]@.contains_key(
                    k.halves().1,
                ),
            |k: K| self.rows@[k.halves().0]@[k.halves().1],
        )
    }
}

impl<K: Key, V> Table<K, V> {
    /// An empty table.
    pub fn new() -> (table: Self)
        ensures
            table@ == Map::<K, V>::empty(),
    {
        let table = Table { rows: HashMap::new(), key: PhantomData };
        assert(table@ =~= Map::<K, V>::empty());
        table
    }

    /// Whether the table has an entry for `key`.
    pub fn contains_key(&self, key: &K) -> (found: bool)
        ensures
            found == self@.contains_key(*key),
    {
        let head = key.head();
        let tail = key.tail();
        match self.rows.get(&head) {
            Some(row) => row.contains_key(&tail),
            None => false,
        }
    }

    /// The value stored under `key`, if there is one.
    pub fn get(&self, key: &K) -> (value: Option<&V>)
        ensures
            match value {
                Some(v) => self@.contains_key(*key) && self@[*key] == *v,
                None => !self@.contains_key(*key),
            },
    {
        let head = key.head();
        let tail = key.tail();
        match self.rows.get(&head) {
            Some(row) => row.get(&tail),
            None => None,
        }
    }

    /// Stores `value` under `key`, replacing and returning what was there.
    pub fn insert(&mut self, key: K, value: V) -> (previous: Option<V>)
        ensures
            final(self)@ == old(self)@.insert(key, value),
            match previous {
                Some(v) => old(self)@.contains_key(key) && old(self)@[key] == v,
                None => !old(self)@.contains_key(key),
            },
    {
        let head = key.head();
        let tail = key.tail();
        let mut row = match self.rows.remove(&head) {
            Some(row) => row,
            None => HashMap::new(),
        };
        let previous = row.insert(tail, value);
        self.rows.insert(head, row);
        proof {
            assert forall|k: K| #[trigger]
                final(self)@.contains_key(k) == old(self)@.insert(key, value).contains_key(
                    k,
                ) && (final(self)@.contains_key(k) ==> final(self)@[k] == old(self)@.insert(
                    key,
                    value,
                )[k]) by {
                if k != key && k.halves() == key.halves() {
                    K::halves_identify(k, key);
                }
            }
            assert(final(self)@ =~= old(self)@.insert(key, value));
        }
        previous
    }

    /// Removes the entry for `key` and returns its value, if there was one.
    pub fn remove(&mut self, key: &K) -> (removed: Option<V>)
        ensures
            final(self)@ == old(self)@.remove(*key),
            match removed {
                Some(v) => old(self)@.contains_key(*key) && old(self)@[*key] == v,
                None => !old(self)@.contains_key(*key),
            },
    {
        let head = key.head();
        let tail = key.tail();
        let removed = match self.rows.remove(&head) {
            Some(row) => {
                let mut row = row;
                let removed = row.remove(&tail);
                if !row.is_empty() {
                    self.rows.insert(head, row);
                }
                removed
            },
            None => None,
        };
        proof {
            assert forall|k: K| #[trigger]
                final(self)@.contains_key(k) == old(self)@.remove(*key).contains_key(k) && (
                final(self)@.contains_key(k) ==> final(self)@[k] == old(self)@.remove(*key)[k]) by {
                if k != *key && k.halves() == key.halves() {
                    K::halves_identify(k, *key);
                }
            }
            assert(final(self)@ =~= old(self)@.remove(*key));
        }
        removed
    }
}

} // verus!
