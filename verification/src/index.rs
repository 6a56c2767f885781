//! A dense positional index with constant-time removal.
use vstd::prelude::*;

use crate::key::Key;
use crate::table::Table;

verus! {

/// Why an index refused an operation.
#[derive(Clone, Copy, Debug, PartialEq, Eq, Structural)]
pub enum IndexError {
    /// The index already holds as many entries as a count can represent.
    CountOverflow,
    /// The index is empty, so nothing can be removed from it.
    CountUnderflow,
    /// The key already has a position in the index.
    AlreadyIndexed,
    /// The key has no position in the index.
    NotIndexed,
}

/// What is left of `entries` when the entry at `position` is removed by
/// swapping: the last entry takes the vacated position, unless the vacated
/// position is the last one, and the sequence becomes one shorter. No other
/// entry moves.
pub open spec fn swap_removed<K>(entries: Seq<K>, position: int) -> Seq<K>
    recommends
        0 <= position < entries.len(),
{
    if position == entries.len() - 1 {
        entries.drop_last()
    } else {
        entries.update(position, entries.last()).drop_last()
    }
}

/// What `append` answers on an index that holds `entries`.
pub open spec fn append_outcome<K>(entries: Seq<K>, key: K) -> Result<u64, IndexError> {
    if entries.len() >= u64::MAX {
        Err(IndexError::CountOverflow)
    } else if entries.contains(key) {
        Err(IndexError::AlreadyIndexed)
    } else {
        Ok(entries.len() as u64)
    }
}

/// What `remove` answers on an index that holds `entries`.
pub open spec fn remove_outcome<K>(entries: Seq<K>, key: K) -> Result<(), IndexError> {
    if entries.len() == 0 {
        Err(IndexError::CountUnderflow)
    } else if !entries.contains(key) {
        Err(IndexError::NotIndexed)
    } else {
        Ok(())
    }
}

/// Swap-removal takes exactly one entry away: the result is one shorter, the
/// entry that was last now stands at the vacated position, every other
/// entry is where it was, and the removed key is gone.
pub proof fn lemma_swap_removed<K>(entries: Seq<K>, position: int)
    requires
        entries.no_duplicates(),
        0 <= position < entries.len(),
    ensures
        swap_removed(entries, position).len() == entries.len() - 1,
        position != entries.len() - 1 ==> swap_removed(entries, position)[position]
            == entries.last(),
        forall|i: int|
            0 <= i < entries.len() - 1 && i != position ==> #[trigger] swap_removed(
                entries,
                position,
            )[i] == entries[i],
        !swap_removed(entries, position).contains(entries[position]),
        swap_removed(entries, position).no_duplicates(),
        forall|k: K|
            k != entries[position] ==> (#[trigger] swap_removed(entries, position).contains(k)
                <==> entries.contains(k)),
{
    let rest = swap_removed(entries, position);
    let last = entries.len() - 1;
    assert forall|k: K| k != entries[position] implies (#[trigger] rest.contains(k)
        <==> entries.contains(k)) by {
        if entries.contains(k) {
            let i = choose|i: int| 0 <= i < entries.len() && entries[i] == k;
            if i == last {
                assert(rest[position] == k);
            } else {
                assert(rest[i] == k);
            }
        }
    }
}

/// The key that a removal relocates is the key that stood at the last
/// position before the removal.
pub proof fn lemma_relocated_was_last<K>(entries: Seq<K>, key: K)
    requires
        entries.no_duplicates(),
        entries.contains(key),
        entries.index_of(key) != entries.len() - 1,
    ensures
        0 <= entries.index_of(key) < entries.len() - 1,
        swap_removed(entries, entries.index_of(key))[entries.index_of(key)] == entries[entries.len()
            - 1],
{
}

/// An enumerable set of keys: every key it holds has one position, the
/// positions are `0`, `1`, ... up to the count, and the position of a key is
/// found without searching.
///
/// The order of the positions is the order of insertion only until the first
/// removal: a removal moves the last key into the vacated position.
#[verifier::reject_recursive_types(K)]
pub struct EnumerableIndex<K: Key> {
    slots: Vec<K>,
    positions: Table<K, u64>,
}

impl<K: Key> View for EnumerableIndex<K> {
    type V = Seq<K>;

    /// The keys in the order of their positions.
    closed spec fn view(&self) -> Seq<K> {
        self.slots@
    }
}

impl<K: Key> EnumerableIndex<K> {
    /// The positional array and the inverse lookup agree.
    pub closed spec fn inverse_agrees(&self) -> bool {
        &&& forall|i: int|
            0 <= i < self.slots@.len() ==> self.positions@.contains_key(#[trigger] self.slots@[i])
                && self.positions@[self.slots@[i]] == i
        &&& forall|k: K| #[trigger]
            self.positions@.contains_key(k) ==> self.positions@[k] < self.slots@.len()
                && self.slots@[self.positions@[k] as int] == k
    }

    /// The index is well formed: no key stands at two positions, and the
    /// inverse lookup agrees with the positions.
    pub open spec fn wf(&self) -> bool {
        &&& self.inverse_agrees()
        &&& self@.no_duplicates()
    }

    /// An empty index.
    pub fn new() -> (index: Self)
        ensures
            index.wf(),
            index@ == Seq::<K>::empty(),
    {
        EnumerableIndex { slots: Vec::new(), positions: Table::new() }
    }

    /// The number of keys in the index.
    pub fn count(&self) -> (count: u64)
        ensures
            count == self@.len(),
    {
        self.slots.len() as u64
    }

    /// The key at `position`, if the position is below the count.
    pub fn by_position(&self, position: u64) -> (key: Option<K>)
        ensures
            key == (if position < self@.len() {
                Some(self@[position as int])
            } else {
                None
            }),
    {
        if position < self.slots.len() as u64 {
            Some(self.slots[position as usize])
        } else {
            None
        }
    }

    /// The position of `key`, if the index holds it.
    pub fn position_of(&self, key: &K) -> (position: Option<u64>)
        requires
            self.wf(),
        ensures
            match position {
                Some(p) => p < self@.len() && self@[p as int] == *key,
                None => !self@.contains(*key),
            },
    {
        match self.positions.get(key) {
            Some(p) => Some(*p),
            None => None,
        }
    }

    /// Whether the index holds `key`.
    pub fn contains(&self, key: &K) -> (found: bool)
        requires
            self.wf(),
        ensures
            found == self@.contains(*key),
    {
        self.positions.contains_key(key)
    }

    /// Gives `key` the next free position and returns that position.
    ///
    /// Fails, and leaves the index as it was, when the count cannot grow or
    /// when the key already has a position.
    pub fn append(&mut self, key: K) -> (outcome: Result<u64, IndexError>)
        requires
            old(self).wf(),
        ensures
            final(self).wf(),
            outcome == append_outcome(old(self)@, key),
            final(self)@ == (if outcome is Ok {
                old(self)@.push(key)
            } else {
                old(self)@
            }),
    {
        let count = self.slots.len() as u64;
        if count == u64::MAX {
            return Err(IndexError::CountOverflow);
        }
        if self.positions.contains_key(&key) {
            return Err(IndexError::AlreadyIndexed);
        }
        self.slots.push(key);
        self.positions.insert(key, count);
        Ok(count)
    }

    /// Removes `key` by swapping: the key at the last position moves to
    /// the position of `key`, and the count goes down by one.
    ///
    /// Fails, and leaves the index as it was, when the index is empty or
    /// does not hold the key.
    pub fn remove(&mut self, key: &K) -> (outcome: Result<(), IndexError>)
        requires
            old(self).wf(),
        ensures
            final(self).wf(),
            outcome == remove_outcome(old(self)@, *key),
            final(self)@ == (if outcome is Ok {
                swap_removed(old(self)@, old(self)@.index_of(*key))
            } else {
                old(self)@
            }),
    {
        let count = self.slots.len();
        if count == 0 {
            return Err(IndexError::CountUnderflow);
        }
        let position = match self.positions.get(key) {
            Some(p) => *p as usize,
            None => {
                return Err(IndexError::NotIndexed);
            },
        };
        let last = count - 1;
        proof {
            lemma_swap_removed(self.slots@, position as int);
        }
        if position != last {
            let moved = self.slots[last];
            self.slots[position] = moved;
            self.positions.insert(moved, position as u64);
        }
        self.slots.pop();
        self.positions.remove(key);
        Ok(())
    }
}

} // verus!
