//! The asset record.
use vstd::prelude::*;

verus! {

/// An asset: a uniquely identified record that one account owns at a time.
///
/// A price of zero means that the asset is not for sale.
#[derive(Debug, PartialEq, Eq)]
pub struct Kitty<Hash, Balance> {
    /// The identifier under which the asset is stored.
    pub id: Hash,
    /// The asset's genetic material; for a minted asset, its identifier.
    pub dna: Hash,
    /// The asking price; zero while the asset is not listed.
    pub price: Balance,
    /// The lineage depth; zero for every minted asset.
    pub generation: u64,
}

impl<Hash: Copy, Balance: Copy> Clone for Kitty<Hash, Balance> {
    fn clone(&self) -> (copy: Self)
        ensures
            copy == *self,
    {
        *self
    }
}

impl<Hash: Copy, Balance: Copy> Copy for Kitty<Hash, Balance> {

}

} // verus!
