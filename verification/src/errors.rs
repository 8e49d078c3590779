use vstd::prelude::*;

verus! {

/// A validation failure of one of the three trade operations.
///
/// Every failure is a local, synchronous rejection: the operation returns the
/// error and leaves the ledger untouched.  The variants name each reason
/// independently so a caller can distinguish them.
#[derive(Clone, Copy, Debug, PartialEq, Eq, Structural)]
pub enum Error {
    /// The buyer's value balance is smaller than the listing's price.
    InsufficientFunds,
    /// The custody account does not hold exactly 1 unit of the asset.
    InvalidEscrowAmount,
    /// The asset still has a further-minting authority.
    InvalidMintAuthority,
    /// The asset's fractional precision is not zero.
    InvalidMintDecimals,
    /// The asset still has a freeze authority.
    InvalidFreezeAuthority,
    /// The asset's total circulating quantity is not exactly 1.
    InvalidMintSupply,
    /// The seller's holding account does not hold exactly 1 unit.
    InvalidNftAmount,
    /// The listing price is not positive.
    InvalidPrice,
    /// The buyer is the recorded seller.
    SelfBuyNotAllowed,
    /// A live listing record for the asset already exists.
    AlreadyListed,
    /// No live listing record exists for the asset.
    ListingNotFound,
    /// The caller (or the payout account supplied to a purchase) is not the
    /// seller recorded in the listing.
    SellerMismatch,
}

} // verus!
