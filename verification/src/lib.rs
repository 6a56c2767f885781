//! A deterministic ownership registry for unique digital assets.
//!
//! The registry mints assets, tracks who owns each of them, lets an owner
//! put a price on an asset and lets another account buy it, and keeps two
//! dense positional indexes in step with every change: one over all assets
//! and one per owner.
pub mod ident;
pub mod idgen;
pub mod index;
pub mod key;
pub mod kitty;
pub mod laws;
pub mod outcome;
pub mod registry;
pub mod scoped;
pub mod state;
pub mod store;
pub mod table;

pub use ident::{AssetId, OwnerId};
pub use index::{EnumerableIndex, IndexError};
pub use key::Key;
pub use kitty::Kitty;
pub use outcome::{Balance, Error, Event, Payment, PaymentError};
pub use registry::Registry;
pub use scoped::ScopedIndex;
pub use state::RegistryState;
pub use store::{Asset, AssetStore};
pub use table::Table;
