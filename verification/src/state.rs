use vstd::prelude::*;

verus! {

/// The persistent record of one live listing: "asset `mint` is for sale by
/// `seller` at price `price`".
///
/// The record's on-ledger address is derived deterministically from a fixed
/// tag and `mint`, which makes at most one live record per asset possible and
/// lets the record act as the custody account's authority; `bump` is the
/// derivation witness chosen by the runtime when the record is created.
#[derive(Clone, Copy, Debug, PartialEq, Eq, Structural)]
pub struct Listing {
    /// Identity of the asset owner who created the listing.
    pub seller: u64,
    /// Identity of the asset instance being sold.
    pub mint: u64,
    /// Positive amount of native value required to buy.
    pub price: u64,
    /// Witness of the record's address derivation.
    pub bump: u8,
}

} // verus!
