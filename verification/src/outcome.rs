//! What an operation of the registry answers: an event or a failure.
use vstd::prelude::*;

use crate::ident::{AssetId, OwnerId};

verus! {

/// An amount of funds.
pub type Balance = u128;

/// What the funds ledger reported when it refused a payment.
#[derive(Clone, Copy, Debug, PartialEq, Eq, Structural)]
pub struct PaymentError {
    /// The ledger's own code for the refusal.
    pub code: u32,
}

/// A payment that the funds ledger is asked to make.
#[derive(Clone, Copy, Debug, PartialEq, Eq, Structural)]
pub struct Payment {
    /// The account that pays.
    pub from: OwnerId,
    /// The account that is paid.
    pub to: OwnerId,
    /// The amount that moves.
    pub amount: Balance,
}

/// What happened to the registry in a successful operation.
#[derive(Clone, Copy, Debug, PartialEq, Eq, Structural)]
pub enum Event {
    /// An asset was minted for an account.
    Created(OwnerId, AssetId),
    /// An owner put a price on an asset.
    PriceSet(OwnerId, AssetId, Balance),
    /// An asset went from the first account to the second.
    Transferred(OwnerId, OwnerId, AssetId),
    /// The first account bought an asset from the second at the given
    /// price.
    Bought(OwnerId, OwnerId, AssetId, Balance),
}

/// Why the registry refused an operation. A refused operation changes
/// nothing.
#[derive(Clone, Copy, Debug, PartialEq, Eq, Structural)]
pub enum Error {
    /// An asset with this identifier has been minted already.
    AssetAlreadyExists,
    /// No asset has this identifier.
    AssetDoesNotExist,
    /// The receiving account cannot own one more asset.
    OverflowAddingToAccountBalance,
    /// The registry cannot hold one more asset.
    OverflowAddingToTotalSupply,
    /// The giving account is recorded as owning nothing.
    UnderflowRemovingFromAccountBalance,
    /// No owner is recorded for the asset.
    NoOwner,
    /// The caller does not own the asset.
    NotOwner,
    /// The caller owns the asset that it asks to buy.
    CannotBuyOwnAsset,
    /// The asset's price is zero: it is not listed.
    NotForSale,
    /// The asset costs more than the buyer is willing to pay.
    PriceExceedsMax,
    /// The funds ledger refused the payment.
    PaymentFailed(PaymentError),
}

} // verus!
