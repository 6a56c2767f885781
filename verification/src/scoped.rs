//! One positional index per scope.
use vstd::prelude::*;

use crate::index::{append_outcome, remove_outcome, swap_removed, EnumerableIndex, IndexError};
use crate::key::Key;
use crate::table::Table;

verus! {

/// The entries that `lists` holds for `scope`: none where the scope is not
/// known.
pub open spec fn entries_of<S, K>(lists: Map<S, Seq<K>>, scope: S) -> Seq<K> {
    if lists.contains_key(scope) {
        lists[scope]
    } else {
        Seq::empty()
    }
}

/// A family of positional indexes, one for each scope. A scope that was
/// never written to has an empty index.
#[verifier::reject_recursive_types(S)]
#[verifier::reject_recursive_types(K)]
pub struct ScopedIndex<S: Key, K: Key> {
    scopes: Table<S, EnumerableIndex<K>>,
}

impl<S: Key, K: Key> View for ScopedIndex<S, K> {
    type V = Map<S, Seq<K>>;

    /// For each scope that was written to, its keys in the order of their
    /// positions.
    closed spec fn view(&self) -> Map<S, Seq<K>> {
        Map::new(|s: S| self.scopes@.contains_key(s), |s: S| self.scopes@[s]@)
    }
}

impl<S: Key, K: Key> ScopedIndex<S, K> {
    /// Every index of the family is well formed.
    pub closed spec fn each_wf(&self) -> bool {
        forall|s: S| #[trigger] self.scopes@.contains_key(s) ==> self.scopes@[s].wf()
    }

    /// The family is well formed: within a scope no key stands at two
    /// positions, and each inverse lookup agrees with the positions.
    pub open spec fn wf(&self) -> bool {
        &&& self.each_wf()
        &&& forall|s: S| #[trigger] self@.contains_key(s) ==> self@[s].no_duplicates()
    }

    /// The keys of `scope` in the order of their positions.
    pub open spec fn entries(&self, scope: S) -> Seq<K> {
        entries_of(self@, scope)
    }

    /// A family in which every scope is empty.
    pub fn new() -> (family: Self)
        ensures
            family.wf(),
            family@ == Map::<S, Seq<K>>::empty(),
    {
        let family = ScopedIndex { scopes: Table::new() };
        assert(family@ =~= Map::<S, Seq<K>>::empty());
        family
    }

    /// The number of keys in `scope`.
    pub fn count(&self, scope: &S) -> (count: u64)
        ensures
            count == self.entries(*scope).len(),
    {
        match self.scopes.get(scope) {
            Some(index) => index.count(),
            None => 0,
        }
    }

    /// The key at `position` in `scope`, if the position is below the
    /// scope's count.
    pub fn by_position(&self, scope: &S, position: u64) -> (key: Option<K>)
        ensures
            key == (if position < self.entries(*scope).len() {
                Some(self.entries(*scope)[position as int])
            } else {
                None
            }),
    {
        match self.scopes.get(scope) {
            Some(index) => index.by_position(position),
            None => None,
        }
    }

    /// The position of `key` in `scope`, if the scope holds it.
    pub fn position_of(&self, scope: &S, key: &K) -> (position: Option<u64>)
        requires
            self.wf(),
        ensures
            match position {
                Some(p) => p < self.entries(*scope).len() && self.entries(*scope)[p as int]
                    == *key,
                None => !self.entries(*scope).contains(*key),
            },
    {
        match self.scopes.get(scope) {
            Some(index) => index.position_of(key),
            None => None,
        }
    }

    /// Gives `key` the next free position in `scope` and returns that
    /// position.
    ///
    /// Fails, and leaves every scope as it was, when the scope's count
    /// cannot grow or when the key already has a position in the scope.
    pub fn append(&mut self, scope: S, key: K) -> (outcome: Result<u64, IndexError>)
        requires
            old(self).wf(),
        ensures
            final(self).wf(),
            outcome == append_outcome(old(self).entries(scope), key),
            final(self)@ == (if outcome is Ok {
                old(self)@.insert(scope, old(self).entries(scope).push(key))
            } else {
                old(self)@
            }),
    {
        let (mut index, known) = match self.scopes.remove(&scope) {
            Some(index) => (index, true),
            None => (EnumerableIndex::new(), false),
        };
        let outcome = index.append(key);
        if known || outcome.is_ok() {
            self.scopes.insert(scope, index);
        }
        proof {
            if outcome is Ok {
                assert(self@ =~= old(self)@.insert(
                    scope,
                    old(self).entries(scope).push(key),
                ));
            } else {
                assert(self@ =~= old(self)@);
            }
        }
        outcome
    }

    /// Removes `key` from `scope` by swapping: the key at the scope's last
    /// position moves to the position of `key`, and the scope's count goes
    /// down by one.
    ///
    /// Fails, and leaves every scope as it was, when the scope is empty or
    /// does not hold the key.
    pub fn remove(&mut self, scope: S, key: &K) -> (outcome: Result<(), IndexError>)
        requires
            old(self).wf(),
        ensures
            final(self).wf(),
            outcome == remove_outcome(old(self).entries(scope), *key),
            final(self)@ == (if outcome is Ok {
                old(self)@.insert(
                    scope,
                    swap_removed(
                        old(self).entries(scope),
                        old(self).entries(scope).index_of(*key),
                    ),
                )
            } else {
                old(self)@
            }),
    {
        let mut index = match self.scopes.remove(&scope) {
            Some(index) => index,
            None => {
                assert(self@ =~= old(self)@);
                return Err(IndexError::CountUnderflow);
            },
        };
        let outcome = index.remove(key);
        self.scopes.insert(scope, index);
        proof {
            if outcome is Ok {
                assert(self@ =~= old(self)@.insert(
                    scope,
                    swap_removed(
                        old(self).entries(scope),
                        old(self).entries(scope).index_of(*key),
                    ),
                ));
            } else {
                assert(self@ =~= old(self)@);
            }
        }
        outcome
    }
}

} // verus!
