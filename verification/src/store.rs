//! The asset store: the assets by identifier, and who owns each.
use vstd::prelude::*;

use crate::ident::{AssetId, OwnerId};
use crate::kitty::Kitty;
use crate::outcome::Balance;
use crate::table::Table;

verus! {

/// An asset as the registry stores it.
pub type Asset = Kitty<AssetId, Balance>;

/// Two dictionaries keyed by asset identifier: the asset itself and its
/// owner. Neither write checks anything: what a caller must keep true of the
/// two together is the caller's business.
pub struct AssetStore {
    assets: Table<AssetId, Asset>,
    owners: Table<AssetId, OwnerId>,
}

impl AssetStore {
    /// The stored assets.
    pub closed spec fn assets(&self) -> Map<AssetId, Asset> {
        self.assets@
    }

    /// The recorded owners.
    pub closed spec fn owners(&self) -> Map<AssetId, OwnerId> {
        self.owners@
    }

    /// A store without assets.
    pub fn new() -> (store: Self)
        ensures
            store.assets() == Map::<AssetId, Asset>::empty(),
            store.owners() == Map::<AssetId, OwnerId>::empty(),
    {
        AssetStore { assets: Table::new(), owners: Table::new() }
    }

    /// Stores `asset` under `id`, over whatever was stored there.
    pub fn put(&mut self, id: AssetId, asset: Asset)
        ensures
            final(self).assets() == old(self).assets().insert(id, asset),
            final(self).owners() == old(self).owners(),
    {
        self.assets.insert(id, asset);
    }

    /// The asset stored under `id`, if there is one.
    pub fn get(&self, id: &AssetId) -> (asset: Option<Asset>)
        ensures
            asset == (if self.assets().contains_key(*id) {
                Some(self.assets()[*id])
            } else {
                None
            }),
    {
        match self.assets.get(id) {
            Some(asset) => Some(*asset),
            None => None,
        }
    }

    /// Whether an asset is stored under `id`.
    pub fn contains(&self, id: &AssetId) -> (found: bool)
        ensures
            found == self.assets().contains_key(*id),
    {
        self.assets.contains_key(id)
    }

    /// Records `owner` as the owner of `id`, over whoever was recorded.
    pub fn set_owner(&mut self, id: AssetId, owner: OwnerId)
        ensures
            final(self).owners() == old(self).owners().insert(id, owner),
            final(self).assets() == old(self).assets(),
    {
        self.owners.insert(id, owner);
    }

    /// The recorded owner of `id`, if there is one.
    pub fn owner_of(&self, id: &AssetId) -> (owner: Option<OwnerId>)
        ensures
            owner == (if self.owners().contains_key(*id) {
                Some(self.owners()[*id])
            } else {
                None
            }),
    {
        match self.owners.get(id) {
            Some(owner) => Some(*owner),
            None => None,
        }
    }
}

} // verus!
