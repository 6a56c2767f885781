//! The registry engine: mint, transfer, price and purchase, each either
//! applied in full or refused without a trace.
use vstd::prelude::*;

use crate::ident::{AssetId, OwnerId};
use crate::idgen::{id_of, next_id, randomness_subject, subject_of};
use crate::index::EnumerableIndex;
use crate::kitty::Kitty;
use crate::outcome::{Balance, Error, Event, Payment, PaymentError};
use crate::scoped::ScopedIndex;
use crate::state::RegistryState;
use crate::store::{Asset, AssetStore};

verus! {

/// The registry of assets: the asset store, the global index, the owner
/// index and the nonce from which identifiers are derived.
pub struct Registry {
    store: AssetStore,
    all: EnumerableIndex<AssetId>,
    owned: ScopedIndex<OwnerId, AssetId>,
    nonce: u64,
}

impl View for Registry {
    type V = RegistryState;

    closed spec fn view(&self) -> RegistryState {
        RegistryState {
            assets: self.store.assets(),
            owners: self.store.owners(),
            all: self.all@,
            owned: self.owned@,
            nonce: self.nonce as nat,
        }
    }
}

impl Registry {
    /// The indexes find every key that they hold at its position.
    pub closed spec fn indexes_agree(&self) -> bool {
        &&& self.all.wf()
        &&& self.owned.wf()
    }

    /// The registry is well formed: its state is as the registry must be at
    /// all times, and its indexes find what they hold.
    pub open spec fn wf(&self) -> bool {
        &&& self.indexes_agree()
        &&& self@.inv()
    }

    /// A registry without assets.
    pub fn new() -> (registry: Self)
        ensures
            registry.wf(),
            registry@ == RegistryState::empty(),
    {
        Registry {
            store: AssetStore::new(),
            all: EnumerableIndex::new(),
            owned: ScopedIndex::new(),
            nonce: 0,
        }
    }

    /// The asset with this identifier, if it was minted.
    pub fn kitty(&self, id: &AssetId) -> (asset: Option<Asset>)
        ensures
            asset == (if self@.has_asset(*id) {
                Some(self@.assets[*id])
            } else {
                None
            }),
    {
        self.store.get(id)
    }

    /// The owner of the asset, if the asset was minted.
    pub fn owner_of(&self, id: &AssetId) -> (owner: Option<OwnerId>)
        ensures
            owner == self@.owner_of(*id),
    {
        self.store.owner_of(id)
    }

    /// The number of assets that were minted.
    pub fn all_kitties_count(&self) -> (count: u64)
        ensures
            count == self@.global_count(),
    {
        self.all.count()
    }

    /// The asset at `position` of the global index, if the position is
    /// below the global count.
    pub fn kitty_by_index(&self, position: u64) -> (id: Option<AssetId>)
        ensures
            id == (if position < self@.global_count() {
                Some(self@.all[position as int])
            } else {
                None
            }),
    {
        self.all.by_position(position)
    }

    /// The number of assets that `owner` has.
    pub fn owned_kitty_count(&self, owner: &OwnerId) -> (count: u64)
        ensures
            count == self@.owned_count(*owner),
    {
        self.owned.count(owner)
    }

    /// The asset at `position` of the index of `owner`, if the position is
    /// below the owner's count.
    pub fn kitty_of_owner_by_index(&self, owner: &OwnerId, position: u64) -> (id: Option<AssetId>)
        ensures
            id == (if position < self@.owned_count(*owner) {
                Some(self@.owned_list(*owner)[position as int])
            } else {
                None
            }),
    {
        self.owned.by_position(owner, position)
    }

    /// The counter from which the next identifier is derived: the number
    /// of mints so far.
    pub fn nonce(&self) -> (nonce: u64)
        ensures
            nonce == self@.nonce,
    {
        self.nonce
    }

    /// The subject to hand to the randomness source before the next call of
    /// `create_kitty`.
    pub fn randomness_subject(&self) -> (subject: [u8; 32])
        ensures
            subject@ == subject_of(self@.nonce),
    {
        randomness_subject(self.nonce)
    }

    /// Mints an asset for `sender` under the identifier that `random`, the
    /// randomness source's answer to `randomness_subject`, gives.
    pub fn create_kitty(&mut self, sender: OwnerId, random: &[u8; 32]) -> (outcome: Result<
        Event,
        Error,
    >)
        requires
            old(self).wf(),
        ensures
            final(self).wf(),
            outcome == old(self)@.mint_outcome(sender, id_of(random@)),
            final(self)@ == (if outcome is Ok {
                old(self)@.minted(sender, id_of(random@))
            } else {
                old(self)@
            }),
    {
        let id = next_id(random);
        self.mint(sender, id)
    }

    /// Mints the asset `id` for `to`: stores it, records its owner, appends
    /// it to the global index and to the index of `to`, and advances the
    /// nonce.
    pub fn mint(&mut self, to: OwnerId, id: AssetId) -> (outcome: Result<Event, Error>)
        requires
            old(self).wf(),
        ensures
            final(self).wf(),
            outcome == old(self)@.mint_outcome(to, id),
            final(self)@ == (if outcome is Ok {
                old(self)@.minted(to, id)
            } else {
                old(self)@
            }),
    {
        if self.store.contains(&id) {
            return Err(Error::AssetAlreadyExists);
        }
        if self.owned.count(&to) == u64::MAX {
            return Err(Error::OverflowAddingToAccountBalance);
        }
        if self.all.count() == u64::MAX {
            return Err(Error::OverflowAddingToTotalSupply);
        }
        proof {
            self@.lemma_minted_inv(to, id);
        }
        let asset: Asset = Kitty { id: id, dna: id, price: 0, generation: 0 };
        self.store.put(id, asset);
        self.store.set_owner(id, to);
        let in_all = self.all.append(id);
        let in_owned = self.owned.append(to, id);
        assert(in_all is Ok && in_owned is Ok);
        self.nonce = self.nonce + 1;
        Ok(Event::Created(to, id))
    }

    /// Moves the asset `id` from `from` to `to`: swap-removes it from the
    /// index of `from`, appends it to the index of `to`, and records `to`
    /// as its owner. The global index is not touched.
    pub fn transfer_from(&mut self, from: OwnerId, to: OwnerId, id: AssetId) -> (outcome: Result<
        (),
        Error,
    >)
        requires
            old(self).wf(),
        ensures
            final(self).wf(),
            outcome == old(self)@.transfer_check(from, to, id),
            final(self)@ == (if outcome is Ok {
                old(self)@.transferred(from, to, id)
            } else {
                old(self)@
            }),
    {
        let owner = match self.store.owner_of(&id) {
            Some(owner) => owner,
            None => {
                return Err(Error::NoOwner);
            },
        };
        if owner != from {
            return Err(Error::NotOwner);
        }
        if self.owned.count(&to) == u64::MAX {
            return Err(Error::OverflowAddingToAccountBalance);
        }
        if self.owned.count(&from) == 0 {
            return Err(Error::UnderflowRemovingFromAccountBalance);
        }
        proof {
            self@.lemma_transferred_inv(from, to, id);
        }
        let out_of_from = self.owned.remove(from, &id);
        let into_to = self.owned.append(to, id);
        assert(out_of_from is Ok && into_to is Ok);
        self.store.set_owner(id, to);
        Ok(())
    }

    /// Gives the asset `id`, which `caller` owns, to `to`.
    pub fn transfer(&mut self, caller: OwnerId, to: OwnerId, id: AssetId) -> (outcome: Result<
        Event,
        Error,
    >)
        requires
            old(self).wf(),
        ensures
            final(self).wf(),
            outcome == old(self)@.transfer_outcome(caller, to, id),
            final(self)@ == (if outcome is Ok {
                old(self)@.transferred(caller, to, id)
            } else {
                old(self)@
            }),
    {
        match self.transfer_from(caller, to, id) {
            Ok(_) => Ok(Event::Transferred(caller, to, id)),
            Err(e) => Err(e),
        }
    }

    /// Sets the price of the asset `id`, which `caller` owns. A price of
    /// zero takes the asset off the market.
    pub fn set_price(&mut self, caller: OwnerId, id: AssetId, new_price: Balance) -> (outcome:
        Result<Event, Error>)
        requires
            old(self).wf(),
        ensures
            final(self).wf(),
            outcome == old(self)@.set_price_outcome(caller, id, new_price),
            final(self)@ == (if outcome is Ok {
                old(self)@.priced(id, new_price)
            } else {
                old(self)@
            }),
    {
        let asset = match self.store.get(&id) {
            Some(asset) => asset,
            None => {
                return Err(Error::AssetDoesNotExist);
            },
        };
        let owner = match self.store.owner_of(&id) {
            Some(owner) => owner,
            None => {
                return Err(Error::NoOwner);
            },
        };
        if owner != caller {
            return Err(Error::NotOwner);
        }
        self.write_price(id, asset, new_price);
        Ok(Event::PriceSet(caller, id, new_price))
    }

    /// Stores `asset`, which is what the store holds under `id`, with its
    /// price replaced by `price`.
    fn write_price(&mut self, id: AssetId, asset: Asset, price: Balance)
        requires
            old(self).wf(),
            old(self)@.has_asset(id),
            old(self)@.assets[id] == asset,
        ensures
            final(self).wf(),
            final(self)@ == old(self)@.priced(id, price),
    {
        proof {
            self@.lemma_priced_inv(id, price);
        }
        self.store.put(
            id,
            Kitty { id: asset.id, dna: asset.dna, price: price, generation: asset.generation },
        );
    }

    /// The payment that `buyer` must make to buy the asset `id` for at most
    /// `max_price`, or why there is no sale. Nothing changes.
    pub fn payment_due(&self, buyer: OwnerId, id: AssetId, max_price: Balance) -> (due: Result<
        Payment,
        Error,
    >)
        ensures
            due == self@.payment_due(buyer, id, max_price),
    {
        let asset = match self.store.get(&id) {
            Some(asset) => asset,
            None => {
                return Err(Error::AssetDoesNotExist);
            },
        };
        let owner = match self.store.owner_of(&id) {
            Some(owner) => owner,
            None => {
                return Err(Error::NoOwner);
            },
        };
        if owner == buyer {
            return Err(Error::CannotBuyOwnAsset);
        }
        if asset.price == 0 {
            return Err(Error::NotForSale);
        }
        if asset.price > max_price {
            return Err(Error::PriceExceedsMax);
        }
        Ok(Payment { from: buyer, to: owner, amount: asset.price })
    }

    /// Completes the purchase of the asset `id` by `buyer`, given in `paid`
    /// what the funds ledger said of the payment that `payment_due` asked
    /// for. Where the ledger refused, nothing changes. Where it paid, the
    /// asset goes to the buyer and is no longer for sale.
    pub fn buy_kitty(
        &mut self,
        buyer: OwnerId,
        id: AssetId,
        max_price: Balance,
        paid: Result<(), PaymentError>,
    ) -> (outcome: Result<Event, Error>)
        requires
            old(self).wf(),
        ensures
            final(self).wf(),
            outcome == old(self)@.buy_outcome(buyer, id, max_price, paid),
            final(self)@ == (if outcome is Ok {
                old(self)@.bought(buyer, id)
            } else {
                old(self)@
            }),
            paid is Err ==> outcome is Err && final(self)@ == old(self)@,
    {
        let due = match self.payment_due(buyer, id, max_price) {
            Ok(due) => due,
            Err(e) => {
                return Err(e);
            },
        };
        let asset = match self.store.get(&id) {
            Some(asset) => asset,
            None => {
                return Err(Error::AssetDoesNotExist);
            },
        };
        if let Err(refusal) = paid {
            return Err(Error::PaymentFailed(refusal));
        }
        proof {
            self@.lemma_sale_can_proceed(buyer, id, max_price);
            self@.lemma_bought_inv(buyer, id, max_price);
        }
        let moved = self.transfer_from(due.to, buyer, id);
        assert(moved is Ok);
        self.write_price(id, asset, 0);
        Ok(Event::Bought(buyer, due.to, id, due.amount))
    }
}

} // verus!
