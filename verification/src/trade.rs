use vstd::pervasive::unreached;
use vstd::prelude::*;

use crate::errors::Error;
use crate::ledger::{
    accounts_has, escrow_amount, holding_amount, holding_lookup, holdings_has, holdings_total,
    lemma_accounts_update, lemma_holdings_push, lemma_holdings_update, lemma_listing_at,
    lemma_listings_push, lemma_listings_remove, lemma_mint_at, lemma_total_push,
    lemma_total_update, lemma_total_zero, listing_idx, mint_idx, mint_lookup, mints_has, Escrow,
    Holding, Market, ValueAccount,
};
use crate::state::Listing;

verus! {

// ---------------------------------------------------------------------------
// Accounts of each operation
// ---------------------------------------------------------------------------

/// The accounts a listing call names: the asset owner and the asset.
#[derive(Clone, Copy, Debug, PartialEq, Eq, Structural)]
pub struct List {
    /// The asset owner listing the asset for sale.
    pub seller: u64,
    /// The asset being listed.
    pub mint: u64,
}

/// The accounts a cancellation call names: the caller claiming to be the
/// seller, and the asset.
#[derive(Clone, Copy, Debug, PartialEq, Eq, Structural)]
pub struct Cancel {
    /// The caller; the operation succeeds only for the recorded seller.
    pub seller: u64,
    /// The asset whose listing is cancelled.
    pub mint: u64,
}

/// The accounts a purchase call names: the buyer, the payout account the
/// caller claims is the seller, and the asset.
#[derive(Clone, Copy, Debug, PartialEq, Eq, Structural)]
pub struct Buy {
    /// The buyer paying value and receiving the asset.
    pub buyer: u64,
    /// The payout account; must match the recorded seller.
    pub seller: u64,
    /// The asset being bought.
    pub mint: u64,
}

// ---------------------------------------------------------------------------
// The validation cascades of the three operations
// ---------------------------------------------------------------------------

/// The listing validations, in the order they are checked: a positive price,
/// a genuine single-edition asset (no precision, quantity exactly 1, no
/// further-minting or freeze authority), and a seller holding exactly 1 unit.
pub open spec fn spec_check_list(
    price: u64,
    decimals: u8,
    supply: u64,
    has_mint_authority: bool,
    has_freeze_authority: bool,
    seller_amount: u64,
) -> Result<(), Error> {
    if price == 0 {
        Err(Error::InvalidPrice)
    } else if decimals != 0 {
        Err(Error::InvalidMintDecimals)
    } else if supply != 1 {
        Err(Error::InvalidMintSupply)
    } else if has_mint_authority {
        Err(Error::InvalidMintAuthority)
    } else if has_freeze_authority {
        Err(Error::InvalidFreezeAuthority)
    } else if seller_amount != 1 {
        Err(Error::InvalidNftAmount)
    } else {
        Ok(())
    }
}

/// Checks the listing validations on plain values read from the ledger.
pub fn check_list(
    price: u64,
    decimals: u8,
    supply: u64,
    has_mint_authority: bool,
    has_freeze_authority: bool,
    seller_amount: u64,
) -> (r: Result<(), Error>)
    ensures
        r == spec_check_list(
            price,
            decimals,
            supply,
            has_mint_authority,
            has_freeze_authority,
            seller_amount,
        ),
{
    if price == 0 {
        Err(Error::InvalidPrice)
    } else if decimals != 0 {
        Err(Error::InvalidMintDecimals)
    } else if supply != 1 {
        Err(Error::InvalidMintSupply)
    } else if has_mint_authority {
        Err(Error::InvalidMintAuthority)
    } else if has_freeze_authority {
        Err(Error::InvalidFreezeAuthority)
    } else if seller_amount != 1 {
        Err(Error::InvalidNftAmount)
    } else {
        Ok(())
    }
}

/// The cancellation validation checked by the handler once the record is
/// found and the caller matches: the custody account holds exactly 1 unit.
pub open spec fn spec_check_cancel(escrow_amount: u64) -> Result<(), Error> {
    if escrow_amount != 1 {
        Err(Error::InvalidEscrowAmount)
    } else {
        Ok(())
    }
}

/// Checks the cancellation validation on a plain value read from the ledger.
pub fn check_cancel(escrow_amount: u64) -> (r: Result<(), Error>)
    ensures
        r == spec_check_cancel(escrow_amount),
{
    if escrow_amount != 1 {
        Err(Error::InvalidEscrowAmount)
    } else {
        Ok(())
    }
}

/// The purchase validations, in the order they are checked: no self-trade, a
/// positive recorded price, a custody account holding exactly 1 unit, and a
/// buyer balance covering the price.
pub open spec fn spec_check_buy(
    buyer_is_seller: bool,
    price: u64,
    escrow_amount: u64,
    buyer_balance: u64,
) -> Result<(), Error> {
    if buyer_is_seller {
        Err(Error::SelfBuyNotAllowed)
    } else if price == 0 {
        Err(Error::InvalidPrice)
    } else if escrow_amount != 1 {
        Err(Error::InvalidEscrowAmount)
    } else if buyer_balance < price {
        Err(Error::InsufficientFunds)
    } else {
        Ok(())
    }
}

/// Checks the purchase validations on plain values read from the ledger.
pub fn check_buy(
    buyer_is_seller: bool,
    price: u64,
    escrow_amount: u64,
    buyer_balance: u64,
) -> (r: Result<(), Error>)
    ensures
        r == spec_check_buy(buyer_is_seller, price, escrow_amount, buyer_balance),
{
    if buyer_is_seller {
        Err(Error::SelfBuyNotAllowed)
    } else if price == 0 {
        Err(Error::InvalidPrice)
    } else if escrow_amount != 1 {
        Err(Error::InvalidEscrowAmount)
    } else if buyer_balance < price {
        Err(Error::InsufficientFunds)
    } else {
        Ok(())
    }
}

// ---------------------------------------------------------------------------
// Listing
// ---------------------------------------------------------------------------

/// Which result a listing call returns: creation is refused while a live
/// record exists, then the validation cascade decides.
pub open spec fn list_outcome(pre: Market, a: List, price: u64) -> Result<(), Error> {
    if pre.has_listing(a.mint) {
        Err(Error::AlreadyListed)
    } else {
        let mt = pre.mints@[mint_idx(pre.mints@, a.mint)];
        spec_check_list(
            price,
            mt.decimals,
            mt.supply,
            mt.mint_authority is Some,
            mt.freeze_authority is Some,
            holding_amount(pre.holdings@, a.seller, a.mint),
        )
    }
}

/// The post-state of a successful listing call: a live record with the
/// supplied price, 1 unit in custody, the seller's holding emptied, the two
/// storage reservations taken from the seller, and nothing else moved.
pub open spec fn list_post(pre: Market, post: Market, a: List, price: u64, bump: u8) -> bool {
    &&& post.rent == pre.rent
    &&& post.mints@ == pre.mints@
    &&& post.spec_listing(a.mint) == Some(Listing { seller: a.seller, mint: a.mint, price, bump })
    &&& post.spec_escrow(a.mint) == Some(1u64)
    &&& post.spec_holding(a.seller, a.mint) == Some(0u64)
    &&& post.spec_reserve(a.seller) == pre.spec_reserve(a.seller) - 2 * pre.rent
    &&& forall|m: u64| m != a.mint ==> #[trigger] post.spec_listing(m) == pre.spec_listing(m)
    &&& forall|m: u64| m != a.mint ==> #[trigger] post.spec_escrow(m) == pre.spec_escrow(m)
    &&& forall|m: u64| m != a.mint ==> #[trigger] post.has_listing(m) == pre.has_listing(m)
    &&& forall|o: u64, m: u64|
        !(o == a.seller && m == a.mint) ==> #[trigger] post.spec_holding(o, m)
            == pre.spec_holding(o, m)
    &&& forall|o: u64, m: u64| #[trigger] post.has_holding(o, m) == pre.has_holding(o, m)
    &&& forall|x: u64| #[trigger] post.spec_balance(x) == pre.spec_balance(x)
    &&& forall|x: u64| x != a.seller ==> #[trigger] post.spec_reserve(x) == pre.spec_reserve(x)
    &&& forall|x: u64| #[trigger] post.has_account(x) == pre.has_account(x)
}

impl Market {
    /// Lists asset `a.mint` for sale by `a.seller` at `price`.
    ///
    /// On success the new record (with the runtime-chosen derivation witness
    /// `bump`) takes custody of the single unit from the seller's holding
    /// account and the seller funds the two storage reservations; on failure
    /// the ledger is untouched.  The caller's identity and the existence of
    /// the named accounts are guaranteed by the runtime, as is the seller's
    /// ability to fund the reservations.
    pub fn list(&mut self, a: List, price: u64, bump: u8) -> (r: Result<(), Error>)
        requires
            old(self).wf(),
            old(self).has_mint(a.mint),
            old(self).has_account(a.seller),
            old(self).spec_reserve(a.seller) >= 2 * old(self).rent,
        ensures
            final(self).wf(),
            r == list_outcome(*old(self), a, price),
            r is Ok ==> list_post(*old(self), *final(self), a, price, bump),
            r is Err ==> *final(self) == *old(self),
    {
        // Creation is exclusive: the record's address is derived from the
        // asset, so a live record forbids a second one.
        if self.find_listing(a.mint).is_some() {
            return Err(Error::AlreadyListed);
        }
        let mi = match self.find_mint(a.mint) {
            Some(i) => i,
            None => return unreached(),
        };
        let mt = self.mints[mi];
        let hi_opt = self.find_holding(a.seller, a.mint);
        let seller_amount = match hi_opt {
            Some(i) => self.holdings[i].amount,
            None => 0,
        };
        match check_list(
            price,
            mt.decimals,
            mt.supply,
            mt.mint_authority.is_some(),
            mt.freeze_authority.is_some(),
            seller_amount,
        ) {
            Err(e) => {
                return Err(e);
            },
            Ok(()) => {},
        }
        let hi = match hi_opt {
            Some(i) => i,
            None => return unreached(),
        };
        let ai = match self.find_account(a.seller) {
            Some(i) => i,
            None => return unreached(),
        };

        let rec = Listing { seller: a.seller, mint: a.mint, price, bump };
        let e = Escrow { record: rec, amount: 1 };
        let old_h = self.holdings[hi];
        let new_h = Holding { owner: old_h.owner, mint: old_h.mint, amount: 0 };
        let old_acct = self.accounts[ai];
        let cost = self.rent + self.rent;
        let new_acct = ValueAccount {
            id: old_acct.id,
            balance: old_acct.balance,
            reserve: old_acct.reserve - cost,
        };
        proof {
            lemma_holdings_update(self.holdings@, hi as int, new_h);
            lemma_listings_push(self.listings@, e);
            lemma_accounts_update(self.accounts@, ai as int, new_acct);
        }
        // Move the unit into custody, create the record, take the deposits.
        self.holdings[hi] = new_h;
        self.listings.push(e);
        self.accounts[ai] = new_acct;
        proof {
            let pre = *old(self);
            let post = *self;
            assert forall|j: int| 0 <= j < post.holdings@.len() implies mints_has(
                post.mints@,
                (#[trigger] post.holdings@[j]).mint,
            ) by {
                assert(post.holdings@[j].mint == pre.holdings@[j].mint);
            }
            assert forall|i: int| 0 <= i < post.mints@.len() implies {
                let m2 = #[trigger] post.mints@[i];
                holdings_total(post.holdings@, m2.id) + escrow_amount(post.listings@, m2.id)
                    == m2.supply as int
            } by {
                let m2 = post.mints@[i];
                lemma_total_update(pre.holdings@, hi as int, new_h, m2.id);
                if m2.id == a.mint {
                    lemma_mint_at(pre.mints@, i);
                    assert(i == mi as int);
                    assert(escrow_amount(pre.listings@, a.mint) == 0);
                } else {
                    assert(escrow_amount(post.listings@, m2.id) == escrow_amount(
                        pre.listings@,
                        m2.id,
                    ));
                }
            }
            assert(post.conservation());
            assert forall|i: int| 0 <= i < post.listings@.len() implies {
                let le = #[trigger] post.listings@[i];
                &&& le.amount == 1
                &&& le.record.price > 0
                &&& mints_has(post.mints@, le.record.mint)
                &&& mint_lookup(post.mints@, le.record.mint) matches Some(lmt) && lmt.supply == 1
                    && lmt.decimals == 0 && lmt.mint_authority is None && lmt.freeze_authority
                    is None
                &&& holdings_has(post.holdings@, le.record.seller, le.record.mint)
                &&& accounts_has(post.accounts@, le.record.seller)
            } by {
                if i < pre.listings@.len() {
                    assert(post.listings@[i] == pre.listings@[i]);
                } else {
                    assert(post.listings@[i] == e);
                }
            }
            assert(post.listings_wf());
            assert(post.wf());
        }
        Ok(())
    }
}

// ---------------------------------------------------------------------------
// Cancellation
// ---------------------------------------------------------------------------

/// Which result a cancellation call returns: the record must be live, the
/// caller must be the recorded seller, and the custody account must hold the
/// unit.
pub open spec fn cancel_outcome(pre: Market, a: Cancel) -> Result<(), Error> {
    if !pre.has_listing(a.mint) {
        Err(Error::ListingNotFound)
    } else {
        let e = pre.listings@[listing_idx(pre.listings@, a.mint)];
        if e.record.seller != a.seller {
            Err(Error::SellerMismatch)
        } else {
            spec_check_cancel(e.amount)
        }
    }
}

/// The post-state of a successful cancellation: the unit is back in the
/// seller's holding account, the record and the custody account are gone, the
/// two storage reservations are refunded to the seller, and nothing else
/// moved.
pub open spec fn cancel_post(pre: Market, post: Market, a: Cancel) -> bool {
    &&& post.rent == pre.rent
    &&& post.mints@ == pre.mints@
    &&& !post.has_listing(a.mint)
    &&& post.spec_listing(a.mint) is None
    &&& post.spec_escrow(a.mint) is None
    &&& post.spec_holding(a.seller, a.mint) == Some(1u64)
    &&& post.spec_reserve(a.seller) == pre.spec_reserve(a.seller) + 2 * pre.rent
    &&& forall|m: u64| m != a.mint ==> #[trigger] post.spec_listing(m) == pre.spec_listing(m)
    &&& forall|m: u64| m != a.mint ==> #[trigger] post.spec_escrow(m) == pre.spec_escrow(m)
    &&& forall|m: u64| m != a.mint ==> #[trigger] post.has_listing(m) == pre.has_listing(m)
    &&& forall|o: u64, m: u64|
        !(o == a.seller && m == a.mint) ==> #[trigger] post.spec_holding(o, m)
            == pre.spec_holding(o, m)
    &&& forall|o: u64, m: u64| #[trigger] post.has_holding(o, m) == pre.has_holding(o, m)
    &&& forall|x: u64| #[trigger] post.spec_balance(x) == pre.spec_balance(x)
    &&& forall|x: u64| x != a.seller ==> #[trigger] post.spec_reserve(x) == pre.spec_reserve(x)
    &&& forall|x: u64| #[trigger] post.has_account(x) == pre.has_account(x)
}

impl Market {
    /// Cancels the live listing of asset `a.mint`, on behalf of `a.seller`.
    ///
    /// On success the unit moves from custody back to the seller's holding
    /// account, the custody account and the record are closed, and their two
    /// storage reservations are refunded to the seller; on failure the ledger
    /// is untouched.  The refund fitting the seller's deposit balance is a
    /// machine limit the value ledger enforces.
    pub fn cancel(&mut self, a: Cancel) -> (r: Result<(), Error>)
        requires
            old(self).wf(),
            old(self).spec_reserve(a.seller) + 2 * old(self).rent <= u64::MAX,
        ensures
            final(self).wf(),
            r == cancel_outcome(*old(self), a),
            r is Ok ==> cancel_post(*old(self), *final(self), a),
            r is Err ==> *final(self) == *old(self),
    {
        let li = match self.find_listing(a.mint) {
            None => return Err(Error::ListingNotFound),
            Some(i) => i,
        };
        let e = self.listings[li];
        // Only the recorded seller may cancel.
        if e.record.seller != a.seller {
            return Err(Error::SellerMismatch);
        }
        match check_cancel(e.amount) {
            Err(err) => return Err(err),
            Ok(()) => {},
        }
        let hi = match self.find_holding(a.seller, a.mint) {
            Some(i) => i,
            None => return unreached(),
        };
        let ai = match self.find_account(a.seller) {
            Some(i) => i,
            None => return unreached(),
        };
        let old_h = self.holdings[hi];
        proof {
            // While the unit sits in custody, every holding account of the
            // asset is empty, the seller's included.
            let k = mint_idx(self.mints@, a.mint);
            assert(self.mints@[k].id == a.mint && self.mints@[k].supply == 1);
            lemma_listing_at(self.listings@, li as int);
            assert(holdings_total(self.holdings@, a.mint) == 0);
            lemma_total_zero(self.holdings@, a.mint, hi as int);
        }
        let new_h = Holding { owner: old_h.owner, mint: old_h.mint, amount: old_h.amount + 1 };
        let old_acct = self.accounts[ai];
        let refund = self.rent + self.rent;
        let new_acct = ValueAccount {
            id: old_acct.id,
            balance: old_acct.balance,
            reserve: old_acct.reserve + refund,
        };
        proof {
            lemma_holdings_update(self.holdings@, hi as int, new_h);
            lemma_listings_remove(self.listings@, li as int);
            lemma_accounts_update(self.accounts@, ai as int, new_acct);
        }
        // Return the unit, close the record and the custody account, refund
        // the deposits.
        self.holdings[hi] = new_h;
        self.listings.remove(li);
        self.accounts[ai] = new_acct;
        proof {
            let pre = *old(self);
            let post = *self;
            assert forall|j: int| 0 <= j < post.holdings@.len() implies mints_has(
                post.mints@,
                (#[trigger] post.holdings@[j]).mint,
            ) by {
                assert(post.holdings@[j].mint == pre.holdings@[j].mint);
            }
            assert forall|i: int| 0 <= i < post.mints@.len() implies {
                let m2 = #[trigger] post.mints@[i];
                holdings_total(post.holdings@, m2.id) + escrow_amount(post.listings@, m2.id)
                    == m2.supply as int
            } by {
                let m2 = post.mints@[i];
                lemma_total_update(pre.holdings@, hi as int, new_h, m2.id);
                if m2.id == a.mint {
                    lemma_mint_at(pre.mints@, i);
                    assert(escrow_amount(post.listings@, a.mint) == 0);
                } else {
                    assert(escrow_amount(post.listings@, m2.id) == escrow_amount(
                        pre.listings@,
                        m2.id,
                    ));
                }
            }
            assert(post.conservation());
            assert(forall|j: int|
                0 <= j < post.listings@.len() ==> post.listings@[j] == if j < li as int {
                    pre.listings@[j]
                } else {
                    pre.listings@[j + 1]
                });
            assert forall|i: int| 0 <= i < post.listings@.len() implies {
                let le = #[trigger] post.listings@[i];
                &&& le.amount == 1
                &&& le.record.price > 0
                &&& mints_has(post.mints@, le.record.mint)
                &&& mint_lookup(post.mints@, le.record.mint) matches Some(lmt) && lmt.supply == 1
                    && lmt.decimals == 0 && lmt.mint_authority is None && lmt.freeze_authority
                    is None
                &&& holdings_has(post.holdings@, le.record.seller, le.record.mint)
                &&& accounts_has(post.accounts@, le.record.seller)
            } by {
                if i < li as int {
                    assert(post.listings@[i] == pre.listings@[i]);
                } else {
                    assert(post.listings@[i] == pre.listings@[i + 1]);
                }
            }
            assert(post.listings_wf());
            assert(post.wf());
        }
        Ok(())
    }
}

// ---------------------------------------------------------------------------
// Purchase
// ---------------------------------------------------------------------------

/// Which result a purchase call returns: the record must be live, the payout
/// account must be the recorded seller, and then the validation cascade
/// decides.
pub open spec fn buy_outcome(pre: Market, a: Buy) -> Result<(), Error> {
    if !pre.has_listing(a.mint) {
        Err(Error::ListingNotFound)
    } else {
        let e = pre.listings@[listing_idx(pre.listings@, a.mint)];
        if e.record.seller != a.seller {
            Err(Error::SellerMismatch)
        } else {
            spec_check_buy(
                a.buyer == a.seller,
                e.record.price,
                e.amount,
                pre.spec_balance(a.buyer),
            )
        }
    }
}

/// The machine limits of a purchase: paying the price and refunding the two
/// storage reservations must not overflow the seller's value account.  The
/// value ledger enforces these; they concern only a call the record's seller
/// could accept.
pub open spec fn buy_fits(pre: Market, a: Buy) -> bool {
    match pre.spec_listing(a.mint) {
        Some(rec) => rec.seller == a.seller ==> {
            &&& pre.spec_balance(a.seller) + rec.price <= u64::MAX
            &&& pre.spec_reserve(a.seller) + 2 * pre.rent <= u64::MAX
        },
        None => true,
    }
}

/// The post-state of a successful purchase: the buyer holds the unit, exactly
/// the price moved from the buyer's to the seller's balance, the record and
/// the custody account are gone, the two storage reservations are refunded to
/// the seller, and nothing else moved.
pub open spec fn buy_post(pre: Market, post: Market, a: Buy) -> bool {
    let price = pre.listings@[listing_idx(pre.listings@, a.mint)].record.price;
    &&& post.rent == pre.rent
    &&& post.mints@ == pre.mints@
    &&& !post.has_listing(a.mint)
    &&& post.spec_listing(a.mint) is None
    &&& post.spec_escrow(a.mint) is None
    &&& post.spec_holding(a.buyer, a.mint) == Some(1u64)
    &&& post.spec_balance(a.buyer) == pre.spec_balance(a.buyer) - price
    &&& post.spec_balance(a.seller) == pre.spec_balance(a.seller) + price
    &&& post.spec_reserve(a.seller) == pre.spec_reserve(a.seller) + 2 * pre.rent
    &&& post.spec_reserve(a.buyer) == pre.spec_reserve(a.buyer)
    &&& forall|m: u64| m != a.mint ==> #[trigger] post.spec_listing(m) == pre.spec_listing(m)
    &&& forall|m: u64| m != a.mint ==> #[trigger] post.spec_escrow(m) == pre.spec_escrow(m)
    &&& forall|m: u64| m != a.mint ==> #[trigger] post.has_listing(m) == pre.has_listing(m)
    &&& forall|o: u64, m: u64|
        !(o == a.buyer && m == a.mint) ==> #[trigger] post.spec_holding(o, m)
            == pre.spec_holding(o, m)
    &&& forall|o: u64, m: u64|
        #[trigger] post.has_holding(o, m) == (pre.has_holding(o, m) || (o == a.buyer && m
            == a.mint))
    &&& forall|x: u64|
        x != a.buyer && x != a.seller ==> #[trigger] post.spec_balance(x) == pre.spec_balance(x)
    &&& forall|x: u64| x != a.seller ==> #[trigger] post.spec_reserve(x) == pre.spec_reserve(x)
    &&& forall|x: u64| #[trigger] post.has_account(x) == pre.has_account(x)
}

impl Market {
    /// Buys asset `a.mint` for `a.buyer`, paying the recorded price to
    /// `a.seller`, as one atomic unit.
    ///
    /// Exactly the price moves from the buyer's to the seller's balance, the
    /// unit moves from custody to the buyer's holding account (opened if
    /// missing), the custody account and the record are closed, and their two
    /// storage reservations are refunded to the seller; on failure the ledger
    /// is untouched.
    pub fn buy(&mut self, a: Buy) -> (r: Result<(), Error>)
        requires
            old(self).wf(),
            buy_fits(*old(self), a),
        ensures
            final(self).wf(),
            r == buy_outcome(*old(self), a),
            r is Ok ==> buy_post(*old(self), *final(self), a),
            r is Err ==> *final(self) == *old(self),
    {
        let li = match self.find_listing(a.mint) {
            None => return Err(Error::ListingNotFound),
            Some(i) => i,
        };
        let e = self.listings[li];
        // The payout account must be the recorded seller.
        if e.record.seller != a.seller {
            return Err(Error::SellerMismatch);
        }
        let buyer_balance = self.balance_of(a.buyer);
        match check_buy(a.buyer == a.seller, e.record.price, e.amount, buyer_balance) {
            Err(err) => return Err(err),
            Ok(()) => {},
        }
        let price = e.record.price;
        let bi = match self.find_account(a.buyer) {
            Some(i) => i,
            None => return unreached(),
        };
        let si = match self.find_account(a.seller) {
            Some(i) => i,
            None => return unreached(),
        };
        let buyer_acct = self.accounts[bi];
        let seller_acct = self.accounts[si];
        let refund = self.rent + self.rent;
        let new_buyer = ValueAccount {
            id: buyer_acct.id,
            balance: buyer_acct.balance - price,
            reserve: buyer_acct.reserve,
        };
        let new_seller = ValueAccount {
            id: seller_acct.id,
            balance: seller_acct.balance + price,
            reserve: seller_acct.reserve + refund,
        };

        let ghost pre = *old(self);
        proof {
            // While the unit sits in custody, every holding account of the
            // asset is empty, so the buyer receives into an empty account.
            lemma_listing_at(self.listings@, li as int);
            assert(holdings_total(self.holdings@, a.mint) == 0);
        }
        // Move the unit from custody into the buyer's holding account.
        match self.find_holding(a.buyer, a.mint) {
            Some(hi) => {
                let old_h = self.holdings[hi];
                proof {
                    lemma_total_zero(self.holdings@, a.mint, hi as int);
                    lemma_holdings_update(self.holdings@, hi as int, Holding {
                        owner: old_h.owner,
                        mint: old_h.mint,
                        amount: (old_h.amount + 1) as u64,
                    });
                    assert forall|m2: u64| #[trigger] holdings_total(
                        self.holdings@.update(hi as int, Holding {
                            owner: old_h.owner,
                            mint: old_h.mint,
                            amount: (old_h.amount + 1) as u64,
                        }),
                        m2,
                    ) == holdings_total(self.holdings@, m2) + (if m2 == a.mint {
                        1int
                    } else {
                        0int
                    }) by {
                        lemma_total_update(self.holdings@, hi as int, Holding {
                            owner: old_h.owner,
                            mint: old_h.mint,
                            amount: (old_h.amount + 1) as u64,
                        }, m2);
                    }
                }
                let new_h = Holding {
                    owner: old_h.owner,
                    mint: old_h.mint,
                    amount: old_h.amount + 1,
                };
                self.holdings[hi] = new_h;
            },
            None => {
                let new_h = Holding { owner: a.buyer, mint: a.mint, amount: 1 };
                proof {
                    lemma_holdings_push(self.holdings@, new_h);
                    assert forall|m2: u64| #[trigger] holdings_total(
                        self.holdings@.push(new_h),
                        m2,
                    ) == holdings_total(self.holdings@, m2) + (if m2 == a.mint {
                        1int
                    } else {
                        0int
                    }) by {
                        lemma_total_push(self.holdings@, new_h, m2);
                    }
                }
                self.holdings.push(new_h);
            },
        }
        proof {
            assert(holding_lookup(self.holdings@, a.buyer, a.mint) == Some(1u64));
            assert forall|j: int| 0 <= j < self.holdings@.len() implies mints_has(
                pre.mints@,
                (#[trigger] self.holdings@[j]).mint,
            ) by {
                if j < pre.holdings@.len() {
                    assert(self.holdings@[j].mint == pre.holdings@[j].mint);
                } else {
                    assert(self.holdings@[j].mint == a.mint);
                }
            }
            lemma_listings_remove(self.listings@, li as int);
        }
        // Close the record and the custody account.
        self.listings.remove(li);
        proof {
            lemma_accounts_update(self.accounts@, bi as int, new_buyer);
            lemma_accounts_update(self.accounts@.update(bi as int, new_buyer), si as int,
                new_seller);
            assert(self.accounts@.update(bi as int, new_buyer)[si as int] == seller_acct);
        }
        // Pay the seller, refund the deposits.
        self.accounts[bi] = new_buyer;
        self.accounts[si] = new_seller;
        proof {
            let post = *self;
            assert forall|i: int| 0 <= i < post.mints@.len() implies {
                let m2 = #[trigger] post.mints@[i];
                holdings_total(post.holdings@, m2.id) + escrow_amount(post.listings@, m2.id)
                    == m2.supply as int
            } by {
                let m2 = post.mints@[i];
                if m2.id == a.mint {
                    lemma_mint_at(pre.mints@, i);
                    assert(escrow_amount(post.listings@, a.mint) == 0);
                } else {
                    assert(escrow_amount(post.listings@, m2.id) == escrow_amount(
                        pre.listings@,
                        m2.id,
                    ));
                }
            }
            assert(post.conservation());
            assert(forall|j: int|
                0 <= j < post.listings@.len() ==> post.listings@[j] == if j < li as int {
                    pre.listings@[j]
                } else {
                    pre.listings@[j + 1]
                });
            assert forall|i: int| 0 <= i < post.listings@.len() implies {
                let le = #[trigger] post.listings@[i];
                &&& le.amount == 1
                &&& le.record.price > 0
                &&& mints_has(post.mints@, le.record.mint)
                &&& mint_lookup(post.mints@, le.record.mint) matches Some(lmt) && lmt.supply == 1
                    && lmt.decimals == 0 && lmt.mint_authority is None && lmt.freeze_authority
                    is None
                &&& holdings_has(post.holdings@, le.record.seller, le.record.mint)
                &&& accounts_has(post.accounts@, le.record.seller)
            } by {
                if i < li as int {
                    assert(post.listings@[i] == pre.listings@[i]);
                } else {
                    assert(post.listings@[i] == pre.listings@[i + 1]);
                }
            }
            assert(post.listings_wf());
            assert(post.wf());
        }
        Ok(())
    }
}

} // verus!
