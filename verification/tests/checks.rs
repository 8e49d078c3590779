use solana_nft_marketplace::errors::Error;
use solana_nft_marketplace::trade::{check_buy, check_cancel, check_list};

#[test]
fn check_list_cascade() {
    assert_eq!(check_list(0, 0, 1, false, false, 1), Err(Error::InvalidPrice));
    assert_eq!(check_list(10, 3, 1, false, false, 1), Err(Error::InvalidMintDecimals));
    assert_eq!(check_list(10, 0, 2, false, false, 1), Err(Error::InvalidMintSupply));
    assert_eq!(check_list(10, 0, 1, true, false, 1), Err(Error::InvalidMintAuthority));
    assert_eq!(check_list(10, 0, 1, false, true, 1), Err(Error::InvalidFreezeAuthority));
    assert_eq!(check_list(10, 0, 1, false, false, 0), Err(Error::InvalidNftAmount));
    assert_eq!(check_list(10, 0, 1, false, false, 2), Err(Error::InvalidNftAmount));
    assert_eq!(check_list(10, 0, 1, false, false, 1), Ok(()));
    // The first failing validation decides the error.
    assert_eq!(check_list(0, 3, 2, true, true, 0), Err(Error::InvalidPrice));
}

#[test]
fn check_cancel_requires_the_unit_in_custody() {
    assert_eq!(check_cancel(0), Err(Error::InvalidEscrowAmount));
    assert_eq!(check_cancel(2), Err(Error::InvalidEscrowAmount));
    assert_eq!(check_cancel(1), Ok(()));
}

#[test]
fn check_buy_cascade() {
    assert_eq!(check_buy(true, 10, 1, 100), Err(Error::SelfBuyNotAllowed));
    assert_eq!(check_buy(false, 0, 1, 100), Err(Error::InvalidPrice));
    assert_eq!(check_buy(false, 10, 0, 100), Err(Error::InvalidEscrowAmount));
    assert_eq!(check_buy(false, 10, 1, 9), Err(Error::InsufficientFunds));
    assert_eq!(check_buy(false, 10, 1, 10), Ok(()));
    assert_eq!(check_buy(false, 10, 1, 100), Ok(()));
}
