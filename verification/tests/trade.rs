use solana_nft_marketplace::errors::Error;
use solana_nft_marketplace::ledger::Market;
use solana_nft_marketplace::trade::{Buy, Cancel, List};

const RENT: u64 = 5;
const SELLER: u64 = 1;
const BUYER: u64 = 2;
const ASSET: u64 = 7;

/// A market with one single-edition asset owned by SELLER, and funded value
/// accounts for SELLER and BUYER.
fn market() -> Market {
    let mut mkt = Market::new(RENT);
    mkt.add_account(SELLER, 0, 2 * RENT);
    mkt.add_account(BUYER, 150, 2 * RENT);
    mkt.add_mint(ASSET, 0, 1, None, None, SELLER);
    mkt
}

#[test]
fn list_creates_record_and_custody() {
    let mut mkt = market();
    assert_eq!(mkt.list(List { seller: SELLER, mint: ASSET }, 100, 254), Ok(()));
    let rec = mkt.listing_of(ASSET).unwrap();
    assert_eq!(rec.seller, SELLER);
    assert_eq!(rec.mint, ASSET);
    assert_eq!(rec.price, 100);
    assert_eq!(rec.bump, 254);
    assert_eq!(mkt.escrow_of(ASSET), Some(1));
    assert_eq!(mkt.holding_of(SELLER, ASSET), Some(0));
    assert_eq!(mkt.reserve_of(SELLER), 0);
    assert_eq!(mkt.balance_of(SELLER), 0);
}

#[test]
fn list_rejects_zero_price() {
    let mut mkt = market();
    assert_eq!(
        mkt.list(List { seller: SELLER, mint: ASSET }, 0, 254),
        Err(Error::InvalidPrice)
    );
    assert!(mkt.listing_of(ASSET).is_none());
    assert_eq!(mkt.holding_of(SELLER, ASSET), Some(1));
    assert_eq!(mkt.reserve_of(SELLER), 2 * RENT);
}

#[test]
fn list_rejects_wrong_asset_shape() {
    let mut mkt = Market::new(RENT);
    mkt.add_account(SELLER, 0, 8 * RENT);
    mkt.add_mint(10, 2, 1, None, None, SELLER);
    mkt.add_mint(11, 0, 5, None, None, SELLER);
    mkt.add_mint(12, 0, 1, Some(9), None, SELLER);
    mkt.add_mint(13, 0, 1, None, Some(9), SELLER);
    assert_eq!(
        mkt.list(List { seller: SELLER, mint: 10 }, 100, 0),
        Err(Error::InvalidMintDecimals)
    );
    assert_eq!(
        mkt.list(List { seller: SELLER, mint: 11 }, 100, 0),
        Err(Error::InvalidMintSupply)
    );
    assert_eq!(
        mkt.list(List { seller: SELLER, mint: 12 }, 100, 0),
        Err(Error::InvalidMintAuthority)
    );
    assert_eq!(
        mkt.list(List { seller: SELLER, mint: 13 }, 100, 0),
        Err(Error::InvalidFreezeAuthority)
    );
}

#[test]
fn list_rejects_seller_without_the_unit() {
    let mut mkt = market();
    mkt.add_account(3, 0, 2 * RENT);
    // Account 3 has no holding of the asset at all.
    assert_eq!(
        mkt.list(List { seller: 3, mint: ASSET }, 100, 0),
        Err(Error::InvalidNftAmount)
    );
}

#[test]
fn second_list_fails_while_record_is_live() {
    let mut mkt = market();
    assert_eq!(mkt.list(List { seller: SELLER, mint: ASSET }, 100, 254), Ok(()));
    // Whatever the arguments, a second attempt on the same asset fails.
    assert_eq!(
        mkt.list(List { seller: BUYER, mint: ASSET }, 33, 0),
        Err(Error::AlreadyListed)
    );
    assert_eq!(
        mkt.list(List { seller: SELLER, mint: ASSET }, 100, 254),
        Err(Error::AlreadyListed)
    );
}

#[test]
fn cancel_restores_pre_list_state() {
    let mut mkt = market();
    assert_eq!(mkt.list(List { seller: SELLER, mint: ASSET }, 100, 254), Ok(()));
    assert_eq!(mkt.cancel(Cancel { seller: SELLER, mint: ASSET }), Ok(()));
    assert_eq!(mkt.holding_of(SELLER, ASSET), Some(1));
    assert!(mkt.listing_of(ASSET).is_none());
    assert!(mkt.escrow_of(ASSET).is_none());
    assert_eq!(mkt.reserve_of(SELLER), 2 * RENT);
    assert_eq!(mkt.balance_of(SELLER), 0);
    assert_eq!(mkt.balance_of(BUYER), 150);
}

#[test]
fn cancel_requires_recorded_seller() {
    let mut mkt = market();
    assert_eq!(mkt.list(List { seller: SELLER, mint: ASSET }, 100, 254), Ok(()));
    assert_eq!(
        mkt.cancel(Cancel { seller: BUYER, mint: ASSET }),
        Err(Error::SellerMismatch)
    );
    // The listing is still live and untouched.
    assert_eq!(mkt.escrow_of(ASSET), Some(1));
    assert_eq!(mkt.listing_of(ASSET).unwrap().seller, SELLER);
}

#[test]
fn cancel_requires_live_record() {
    let mut mkt = market();
    assert_eq!(
        mkt.cancel(Cancel { seller: SELLER, mint: ASSET }),
        Err(Error::ListingNotFound)
    );
}

#[test]
fn buy_moves_value_and_asset_atomically() {
    let mut mkt = market();
    assert_eq!(mkt.list(List { seller: SELLER, mint: ASSET }, 100, 254), Ok(()));
    assert_eq!(mkt.buy(Buy { buyer: BUYER, seller: SELLER, mint: ASSET }), Ok(()));
    assert_eq!(mkt.holding_of(BUYER, ASSET), Some(1));
    assert_eq!(mkt.balance_of(BUYER), 50);
    assert_eq!(mkt.balance_of(SELLER), 100);
    assert_eq!(mkt.reserve_of(SELLER), 2 * RENT);
    assert!(mkt.listing_of(ASSET).is_none());
    assert!(mkt.escrow_of(ASSET).is_none());
}

#[test]
fn buy_rejects_self_trade() {
    let mut mkt = market();
    assert_eq!(mkt.list(List { seller: SELLER, mint: ASSET }, 100, 254), Ok(()));
    assert_eq!(
        mkt.buy(Buy { buyer: SELLER, seller: SELLER, mint: ASSET }),
        Err(Error::SelfBuyNotAllowed)
    );
    assert_eq!(mkt.escrow_of(ASSET), Some(1));
}

#[test]
fn buy_rejects_wrong_payout_account() {
    let mut mkt = market();
    mkt.add_account(3, 0, 0);
    assert_eq!(mkt.list(List { seller: SELLER, mint: ASSET }, 100, 254), Ok(()));
    assert_eq!(
        mkt.buy(Buy { buyer: BUYER, seller: 3, mint: ASSET }),
        Err(Error::SellerMismatch)
    );
}

#[test]
fn buy_rejects_insufficient_funds() {
    let mut mkt = market();
    assert_eq!(mkt.list(List { seller: SELLER, mint: ASSET }, 151, 254), Ok(()));
    assert_eq!(
        mkt.buy(Buy { buyer: BUYER, seller: SELLER, mint: ASSET }),
        Err(Error::InsufficientFunds)
    );
    // No partial effect: the buyer paid nothing, the listing is live.
    assert_eq!(mkt.balance_of(BUYER), 150);
    assert_eq!(mkt.escrow_of(ASSET), Some(1));
}

#[test]
fn buy_requires_live_record() {
    let mut mkt = market();
    assert_eq!(
        mkt.buy(Buy { buyer: BUYER, seller: SELLER, mint: ASSET }),
        Err(Error::ListingNotFound)
    );
}

#[test]
fn full_cycle_list_buy_relist() {
    let mut mkt = market();
    assert_eq!(mkt.list(List { seller: SELLER, mint: ASSET }, 100, 254), Ok(()));
    assert_eq!(mkt.escrow_of(ASSET), Some(1));
    assert_eq!(mkt.holding_of(SELLER, ASSET), Some(0));
    assert_eq!(mkt.buy(Buy { buyer: BUYER, seller: SELLER, mint: ASSET }), Ok(()));
    assert_eq!(mkt.holding_of(BUYER, ASSET), Some(1));
    assert_eq!(mkt.balance_of(BUYER), 50);
    assert_eq!(mkt.balance_of(SELLER), 100);
    assert!(mkt.listing_of(ASSET).is_none());
    // A fresh cycle: the new owner lists the same asset again.
    assert_eq!(mkt.list(List { seller: BUYER, mint: ASSET }, 42, 254), Ok(()));
    assert_eq!(mkt.escrow_of(ASSET), Some(1));
    assert_eq!(mkt.holding_of(BUYER, ASSET), Some(0));
}

#[test]
fn full_cycle_list_cancel_buy_fails() {
    let mut mkt = market();
    assert_eq!(mkt.list(List { seller: SELLER, mint: ASSET }, 100, 254), Ok(()));
    assert_eq!(mkt.cancel(Cancel { seller: SELLER, mint: ASSET }), Ok(()));
    assert_eq!(mkt.holding_of(SELLER, ASSET), Some(1));
    assert_eq!(
        mkt.buy(Buy { buyer: BUYER, seller: SELLER, mint: ASSET }),
        Err(Error::ListingNotFound)
    );
}

#[test]
fn zero_price_listing_leaves_no_trace() {
    let mut mkt = market();
    assert_eq!(
        mkt.list(List { seller: SELLER, mint: ASSET }, 0, 254),
        Err(Error::InvalidPrice)
    );
    assert!(mkt.listing_of(ASSET).is_none());
    assert!(mkt.escrow_of(ASSET).is_none());
    assert_eq!(mkt.holding_of(SELLER, ASSET), Some(1));
    // A later valid listing still works.
    assert_eq!(mkt.list(List { seller: SELLER, mint: ASSET }, 1, 254), Ok(()));
}

#[test]
fn operations_leave_other_assets_untouched() {
    let mut mkt = market();
    mkt.add_account(3, 40, 2 * RENT);
    mkt.add_mint(8, 0, 1, None, None, 3);
    assert_eq!(mkt.list(List { seller: SELLER, mint: ASSET }, 100, 254), Ok(()));
    assert_eq!(mkt.list(List { seller: 3, mint: 8 }, 30, 253), Ok(()));
    assert_eq!(mkt.buy(Buy { buyer: BUYER, seller: SELLER, mint: ASSET }), Ok(()));
    // The other listing is exactly as created.
    let rec = mkt.listing_of(8).unwrap();
    assert_eq!(rec.seller, 3);
    assert_eq!(rec.price, 30);
    assert_eq!(mkt.escrow_of(8), Some(1));
    assert_eq!(mkt.balance_of(3), 40);
    assert_eq!(mkt.cancel(Cancel { seller: 3, mint: 8 }), Ok(()));
    assert_eq!(mkt.holding_of(3, 8), Some(1));
}

#[test]
fn buy_at_largest_price() {
    let mut mkt = Market::new(RENT);
    mkt.add_account(SELLER, 0, 2 * RENT);
    mkt.add_account(BUYER, u64::MAX, 0);
    mkt.add_mint(ASSET, 0, 1, None, None, SELLER);
    assert_eq!(mkt.list(List { seller: SELLER, mint: ASSET }, u64::MAX, 1), Ok(()));
    assert_eq!(mkt.buy(Buy { buyer: BUYER, seller: SELLER, mint: ASSET }), Ok(()));
    assert_eq!(mkt.balance_of(BUYER), 0);
    assert_eq!(mkt.balance_of(SELLER), u64::MAX);
    assert_eq!(mkt.holding_of(BUYER, ASSET), Some(1));
}
