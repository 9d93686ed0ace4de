//! An escrow marketplace for unique assets.
//!
//! A seller locks the one unit of a unique asset into a custody vault whose
//! address is derived from the asset, and asks an amount of another asset
//! for it. A buyer pays the ask and receives the unit in one indivisible
//! swap. `market` holds the operations and their contracts, `ledger` the
//! holdings they move, `deriver` the derived addresses, and `laws` what
//! holds of every market.

pub mod address;
pub mod deriver;
pub mod error;
pub mod laws;
pub mod ledger;
pub mod market;
pub mod records;
mod table;

pub use address::Address;
pub use deriver::VaultAuthority;
pub use error::{ErrorClass, MarketError};
pub use ledger::{Holding, Ledger};
pub use market::{buy, create_vault, initialize, list, sell, Market, MarketView};
pub use records::{Buy, CreateVault, Initialize, List, Listing, Sell, State};
