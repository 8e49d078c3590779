//! An escrow-based marketplace for single-edition assets.
//!
//! An owner lists an asset at a fixed positive price, a buyer pays and
//! receives the asset atomically, and the owner may cancel an active listing
//! to reclaim the asset.  The ledger state (asset holdings, value balances,
//! storage reservations, live listing records) is modelled explicitly by
//! [`ledger::Market`], and the three operations `list`, `cancel` and `buy`
//! are state transitions on it, each with a contract that pins down exactly
//! which error is returned on which input and what the post-state is.

pub mod errors;
pub mod laws;
pub mod ledger;
pub mod state;
pub mod trade;
