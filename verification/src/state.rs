//! The registry as a mathematical state, and its operations as functions
//! from one state to the next.
use vstd::prelude::*;

use crate::ident::{AssetId, OwnerId};
use crate::index::{lemma_swap_removed, swap_removed};
use crate::kitty::Kitty;
use crate::outcome::{Balance, Error, Event, Payment, PaymentError};
use crate::scoped::entries_of;
use crate::store::Asset;

verus! {

/// The asset that a mint stores under `id`: its own identifier as genetic
/// material, not for sale, of generation zero.
pub open spec fn minted_asset(id: AssetId) -> Asset {
    Kitty { id: id, dna: id, price: 0, generation: 0 }
}

/// Everything the registry knows at one moment.
pub struct RegistryState {
    /// The assets by identifier.
    pub assets: Map<AssetId, Asset>,
    /// The owner of each asset.
    pub owners: Map<AssetId, OwnerId>,
    /// The global index: all assets, by position.
    pub all: Seq<AssetId>,
    /// The owner index: the assets of each account, by position.
    pub owned: Map<OwnerId, Seq<AssetId>>,
    /// The counter from which identifiers are derived: the number of mints
    /// so far.
    pub nonce: nat,
}

impl RegistryState {
    /// The registry before the first mint.
    pub open spec fn empty() -> RegistryState {
        RegistryState {
            assets: Map::empty(),
            owners: Map::empty(),
            all: Seq::empty(),
            owned: Map::empty(),
            nonce: 0,
        }
    }

    /// Whether an asset with this identifier was minted.
    pub open spec fn has_asset(self, id: AssetId) -> bool {
        self.assets.contains_key(id)
    }

    /// The owner of the asset, if one is recorded.
    pub open spec fn owner_of(self, id: AssetId) -> Option<OwnerId> {
        if self.owners.contains_key(id) {
            Some(self.owners[id])
        } else {
            None
        }
    }

    /// The assets of `owner` in the order of their positions.
    pub open spec fn owned_list(self, owner: OwnerId) -> Seq<AssetId> {
        entries_of(self.owned, owner)
    }

    /// The number of assets that `owner` has.
    pub open spec fn owned_count(self, owner: OwnerId) -> nat {
        self.owned_list(owner).len()
    }

    /// The number of assets that were minted.
    pub open spec fn global_count(self) -> nat {
        self.all.len()
    }

    /// What holds of the registry at all times.
    pub open spec fn inv(self) -> bool {
        &&& self.all.no_duplicates()
        &&& self.all.len() <= u64::MAX
        &&& self.nonce == self.all.len()
        &&& forall|id: AssetId| #[trigger] self.assets.contains_key(id) <==> self.all.contains(id)
        &&& forall|id: AssetId| #[trigger]
            self.owners.contains_key(id) <==> self.assets.contains_key(id)
        &&& forall|id: AssetId| #[trigger]
            self.assets.contains_key(id) ==> self.assets[id].id == id && self.assets[id].dna
                == id && self.assets[id].generation == 0
        &&& forall|owner: OwnerId| #[trigger]
            self.owned.contains_key(owner) ==> self.owned[owner].no_duplicates()
        &&& forall|id: AssetId| #[trigger]
            self.owners.contains_key(id) ==> self.owned_list(self.owners[id]).contains(id)
        &&& forall|owner: OwnerId, id: AssetId| #[trigger]
            self.owned_list(owner).contains(id) ==> self.owners.contains_key(id)
                && self.owners[id] == owner
    }

    /// What a mint of `id` for `to` answers.
    pub open spec fn mint_outcome(self, to: OwnerId, id: AssetId) -> Result<Event, Error> {
        if self.has_asset(id) {
            Err(Error::AssetAlreadyExists)
        } else if self.owned_count(to) >= u64::MAX {
            Err(Error::OverflowAddingToAccountBalance)
        } else if self.global_count() >= u64::MAX {
            Err(Error::OverflowAddingToTotalSupply)
        } else {
            Ok(Event::Created(to, id))
        }
    }

    /// The registry after a mint of `id` for `to`: the asset is stored, `to`
    /// owns it, it has the last position in the global index and in the
    /// index of `to`, and the nonce has advanced by one.
    pub open spec fn minted(self, to: OwnerId, id: AssetId) -> RegistryState {
        RegistryState {
            assets: self.assets.insert(id, minted_asset(id)),
            owners: self.owners.insert(id, to),
            all: self.all.push(id),
            owned: self.owned.insert(to, self.owned_list(to).push(id)),
            nonce: self.nonce + 1,
        }
    }

    /// Whether the asset `id` can go from `from` to `to`.
    pub open spec fn transfer_check(self, from: OwnerId, to: OwnerId, id: AssetId) -> Result<
        (),
        Error,
    > {
        if !self.owners.contains_key(id) {
            Err(Error::NoOwner)
        } else if self.owners[id] != from {
            Err(Error::NotOwner)
        } else if self.owned_count(to) >= u64::MAX {
            Err(Error::OverflowAddingToAccountBalance)
        } else if self.owned_count(from) == 0 {
            Err(Error::UnderflowRemovingFromAccountBalance)
        } else {
            Ok(())
        }
    }

    /// The registry after the asset `id` went from `from` to `to`: the asset
    /// is swap-removed from the index of `from`, then appended to the index
    /// of `to`, and `to` is its owner. The global index and the asset itself
    /// stay as they are.
    pub open spec fn transferred(self, from: OwnerId, to: OwnerId, id: AssetId) -> RegistryState {
        let from_list = self.owned_list(from);
        let without = self.owned.insert(from, swap_removed(from_list, from_list.index_of(id)));
        let with = without.insert(to, entries_of(without, to).push(id));
        RegistryState {
            assets: self.assets,
            owners: self.owners.insert(id, to),
            all: self.all,
            owned: with,
            nonce: self.nonce,
        }
    }

    /// What a transfer of `id` to `to`, asked for by `caller`, answers.
    pub open spec fn transfer_outcome(self, caller: OwnerId, to: OwnerId, id: AssetId) -> Result<
        Event,
        Error,
    > {
        match self.transfer_check(caller, to, id) {
            Ok(_) => Ok(Event::Transferred(caller, to, id)),
            Err(e) => Err(e),
        }
    }

    /// What `caller` is answered when it sets the price of `id`.
    pub open spec fn set_price_outcome(self, caller: OwnerId, id: AssetId, price: Balance) -> Result<
        Event,
        Error,
    > {
        if !self.assets.contains_key(id) {
            Err(Error::AssetDoesNotExist)
        } else if !self.owners.contains_key(id) {
            Err(Error::NoOwner)
        } else if self.owners[id] != caller {
            Err(Error::NotOwner)
        } else {
            Ok(Event::PriceSet(caller, id, price))
        }
    }

    /// The registry after the price of `id` became `price`. Nothing but the
    /// price changes.
    pub open spec fn priced(self, id: AssetId, price: Balance) -> RegistryState {
        let asset = self.assets[id];
        RegistryState {
            assets: self.assets.insert(
                id,
                Kitty { id: asset.id, dna: asset.dna, price: price, generation: asset.generation },
            ),
            owners: self.owners,
            all: self.all,
            owned: self.owned,
            nonce: self.nonce,
        }
    }

    /// The payment that `buyer` owes for `id` when it is willing to pay up to
    /// `max_price`, or why there is no sale.
    pub open spec fn payment_due(self, buyer: OwnerId, id: AssetId, max_price: Balance) -> Result<
        Payment,
        Error,
    > {
        if !self.assets.contains_key(id) {
            Err(Error::AssetDoesNotExist)
        } else if !self.owners.contains_key(id) {
            Err(Error::NoOwner)
        } else if self.owners[id] == buyer {
            Err(Error::CannotBuyOwnAsset)
        } else if self.assets[id].price == 0 {
            Err(Error::NotForSale)
        } else if self.assets[id].price > max_price {
            Err(Error::PriceExceedsMax)
        } else {
            Ok(Payment { from: buyer, to: self.owners[id], amount: self.assets[id].price })
        }
    }

    /// What a purchase answers, given what the funds ledger said of the
    /// payment that was due.
    pub open spec fn buy_outcome(
        self,
        buyer: OwnerId,
        id: AssetId,
        max_price: Balance,
        paid: Result<(), PaymentError>,
    ) -> Result<Event, Error> {
        match self.payment_due(buyer, id, max_price) {
            Err(e) => Err(e),
            Ok(due) => match paid {
                Err(refusal) => Err(Error::PaymentFailed(refusal)),
                Ok(_) => Ok(Event::Bought(buyer, due.to, id, due.amount)),
            },
        }
    }

    /// The registry after `buyer` bought `id`: the asset went from its owner
    /// to the buyer, and it is no longer for sale.
    pub open spec fn bought(self, buyer: OwnerId, id: AssetId) -> RegistryState {
        self.transferred(self.owners[id], buyer, id).priced(id, 0)
    }

    /// An account never has more assets than there are.
    pub proof fn lemma_owned_count_bounded(self, owner: OwnerId)
        requires
            self.inv(),
        ensures
            self.owned_count(owner) <= self.global_count(),
    {
        let list = self.owned_list(owner);
        list.unique_seq_to_set();
        self.all.unique_seq_to_set();
        assert(list.to_set().subset_of(self.all.to_set())) by {
            assert forall|id: AssetId| list.to_set().contains(id) implies self.all.to_set().contains(
                id,
            ) by {
                assert(list.contains(id));
                assert(self.owners.contains_key(id));
                assert(self.assets.contains_key(id));
                assert(self.all.contains(id));
            }
        }
        vstd::set_lib::lemma_len_subset(list.to_set(), self.all.to_set());
    }

    /// Two accounts together never have more assets than there are.
    pub proof fn lemma_owned_counts_bounded(self, first: OwnerId, second: OwnerId)
        requires
            self.inv(),
            first != second,
        ensures
            self.owned_count(first) + self.owned_count(second) <= self.global_count(),
    {
        let a = self.owned_list(first);
        let b = self.owned_list(second);
        a.unique_seq_to_set();
        b.unique_seq_to_set();
        self.all.unique_seq_to_set();
        let both = a.to_set().union(b.to_set());
        assert(a.to_set().disjoint(b.to_set())) by {
            assert forall|id: AssetId| !(a.to_set().contains(id) && b.to_set().contains(id)) by {
                if a.to_set().contains(id) && b.to_set().contains(id) {
                    assert(a.contains(id));
                    assert(b.contains(id));
                }
            }
        }
        vstd::set_lib::lemma_set_disjoint_lens(a.to_set(), b.to_set());
        assert(both.subset_of(self.all.to_set())) by {
            assert forall|id: AssetId| both.contains(id) implies self.all.to_set().contains(id) by {
                if a.to_set().contains(id) {
                    assert(a.contains(id));
                } else {
                    assert(b.contains(id));
                }
                assert(self.owners.contains_key(id));
                assert(self.assets.contains_key(id));
                assert(self.all.contains(id));
            }
        }
        vstd::set_lib::lemma_len_subset(both, self.all.to_set());
    }

    /// The empty registry is as the registry must be.
    pub proof fn lemma_empty_inv()
        ensures
            RegistryState::empty().inv(),
    {
    }

    /// A successful mint leaves the registry as it must be.
    pub proof fn lemma_minted_inv(self, to: OwnerId, id: AssetId)
        requires
            self.inv(),
            self.mint_outcome(to, id) is Ok,
        ensures
            self.minted(to, id).inv(),
    {
        let next = self.minted(to, id);
        let list = self.owned_list(to);
        assert(!self.all.contains(id));
        assert(!list.contains(id));
        assert forall|k: AssetId| next.all.contains(k) <==> (self.all.contains(k) || k == id) by {
            lemma_push_contains(self.all, id, k);
        }
        assert forall|owner: OwnerId, k: AssetId| #[trigger]
            next.owned_list(owner).contains(k) <==> (self.owned_list(owner).contains(k) || (owner
                == to && k == id)) by {
            if owner == to {
                lemma_push_contains(list, id, k);
            }
        }
        lemma_push_no_duplicates(self.all, id);
        lemma_push_no_duplicates(list, id);
    }

    /// A transfer that passes its check leaves the registry as it must be.
    pub proof fn lemma_transferred_inv(self, from: OwnerId, to: OwnerId, id: AssetId)
        requires
            self.inv(),
            self.transfer_check(from, to, id) is Ok,
        ensures
            self.transferred(from, to, id).inv(),
    {
        let next = self.transferred(from, to, id);
        let from_list = self.owned_list(from);
        assert(from_list.contains(id));
        let position = from_list.index_of(id);
        assert(0 <= position < from_list.len() && from_list[position] == id);
        lemma_swap_removed(from_list, position);
        let rest = swap_removed(from_list, position);
        let without = self.owned.insert(from, rest);
        let to_list = entries_of(without, to);
        assert(!to_list.contains(id)) by {
            if to != from {
                assert(to_list == self.owned_list(to));
            }
        }
        lemma_push_no_duplicates(to_list, id);
        assert forall|owner: OwnerId, k: AssetId| #[trigger]
            next.owned_list(owner).contains(k) <==> (if k == id {
                owner == to
            } else {
                self.owned_list(owner).contains(k)
            }) by {
            let list = next.owned_list(owner);
            if owner == to {
                assert(list == to_list.push(id));
                lemma_push_contains(to_list, id, k);
                if to == from {
                    assert(to_list == rest);
                } else {
                    assert(to_list == self.owned_list(to));
                }
            } else if owner == from {
                assert(list == rest);
            } else {
                assert(list == self.owned_list(owner));
            }
            if k == id && self.owned_list(owner).contains(k) {
                assert(self.owners[id] == owner);
            }
        }
        assert forall|owner: OwnerId| #[trigger]
            next.owned.contains_key(owner) implies next.owned[owner].no_duplicates() by {
            if owner == to {
            } else if owner == from {
            } else {
                assert(self.owned.contains_key(owner));
            }
        }
    }

    /// A change of price leaves the registry as it must be.
    pub proof fn lemma_priced_inv(self, id: AssetId, price: Balance)
        requires
            self.inv(),
            self.assets.contains_key(id),
        ensures
            self.priced(id, price).inv(),
    {
        assert forall|owner: OwnerId| #[trigger]
            self.priced(id, price).owned_list(owner) == self.owned_list(owner) by {}
    }

    /// Where a payment is due, the asset can go to the buyer: the seller has
    /// it, and the buyer has room for it.
    pub proof fn lemma_sale_can_proceed(self, buyer: OwnerId, id: AssetId, max_price: Balance)
        requires
            self.inv(),
            self.payment_due(buyer, id, max_price) is Ok,
        ensures
            self.transfer_check(self.owners[id], buyer, id) is Ok,
            self.transferred(self.owners[id], buyer, id).assets.contains_key(id),
    {
        let seller = self.owners[id];
        assert(self.owned_list(seller).contains(id));
        self.lemma_owned_counts_bounded(seller, buyer);
    }

    /// A purchase that passes its checks leaves the registry as it must be.
    pub proof fn lemma_bought_inv(self, buyer: OwnerId, id: AssetId, max_price: Balance)
        requires
            self.inv(),
            self.payment_due(buyer, id, max_price) is Ok,
        ensures
            self.bought(buyer, id).inv(),
    {
        self.lemma_sale_can_proceed(buyer, id, max_price);
        self.lemma_transferred_inv(self.owners[id], buyer, id);
        self.transferred(self.owners[id], buyer, id).lemma_priced_inv(id, 0);
    }
}

/// A key is in a sequence with one more entry when it was in the sequence
/// or is the new entry.
proof fn lemma_push_contains<K>(entries: Seq<K>, key: K, other: K)
    ensures
        entries.push(key).contains(other) <==> (entries.contains(other) || other == key),
{
    let longer = entries.push(key);
    if entries.contains(other) {
        let i = choose|i: int| 0 <= i < entries.len() && entries[i] == other;
        assert(longer[i] == other);
    }
    if other == key {
        assert(longer[entries.len() as int] == other);
    }
}

/// A sequence without duplicates stays so when a key that it does not hold
/// is added.
proof fn lemma_push_no_duplicates<K>(entries: Seq<K>, key: K)
    requires
        entries.no_duplicates(),
        !entries.contains(key),
    ensures
        entries.push(key).no_duplicates(),
{
}

} // verus!
