use vstd::prelude::*;

use crate::errors::Error;
use crate::ledger::{lemma_listing_at, Market};
use crate::trade::{
    buy_outcome, buy_post, cancel_outcome, cancel_post, list_outcome, list_post, Buy, Cancel,
    List,
};

verus! {

/// At most one live listing per asset exists: the store keys the listings by
/// asset, so two positions holding the same asset are the same position.
pub proof fn listing_exclusive_per_asset(s: Market, i: int, j: int)
    requires
        s.wf(),
        0 <= i < s.listings@.len(),
        0 <= j < s.listings@.len(),
        s.listings@[i].record.mint == s.listings@[j].record.mint,
    ensures
        i == j,
{
}

/// A live listing record holds exactly 1 unit in custody, carries a positive
/// price, and concerns the asset it is filed under: the custody and price
/// invariants of every reachable ledger state.
pub proof fn live_listing_invariant(s: Market, m: u64)
    requires
        s.wf(),
        s.has_listing(m),
    ensures
        s.spec_escrow(m) == Some(1u64),
        s.spec_listing(m) matches Some(rec) && rec.price > 0 && rec.mint == m,
{
}

/// The listing record and the custody account live and die together: one
/// exists exactly when the other does, never independently.
pub proof fn record_and_custody_live_together(s: Market, m: u64)
    requires
        s.wf(),
    ensures
        s.has_listing(m) <==> s.spec_listing(m) is Some,
        s.has_listing(m) <==> s.spec_escrow(m) is Some,
{
}

/// Two sequential listing attempts for the same asset: while the record the
/// first created is live, the second fails as already listed, whatever its
/// arguments.
pub proof fn relist_fails_while_live(
    s0: Market,
    s1: Market,
    a1: List,
    price1: u64,
    bump1: u8,
    a2: List,
    price2: u64,
)
    requires
        s0.wf(),
        list_outcome(s0, a1, price1) == Ok::<(), Error>(()),
        list_post(s0, s1, a1, price1, bump1),
        a2.mint == a1.mint,
    ensures
        list_outcome(s1, a2, price2) == Err::<(), Error>(Error::AlreadyListed),
{
}

/// Cancelling right after listing restores the pre-listing state exactly: the
/// seller's holding is back to 1 unit, the record and the custody account are
/// gone, the reservations are refunded, every balance and every other account
/// is as before — and a purchase attempt against the now-absent record fails.
pub proof fn cancel_restores_pre_list_state(
    s0: Market,
    s1: Market,
    s2: Market,
    a: List,
    price: u64,
    bump: u8,
)
    requires
        s0.wf(),
        list_outcome(s0, a, price) == Ok::<(), Error>(()),
        list_post(s0, s1, a, price, bump),
        cancel_post(s1, s2, Cancel { seller: a.seller, mint: a.mint }),
    ensures
        cancel_outcome(s1, Cancel { seller: a.seller, mint: a.mint }) == Ok::<(), Error>(()),
        s2.rent == s0.rent,
        s2.mints@ == s0.mints@,
        forall|m: u64|
            #[trigger] s2.spec_listing(m) == s0.spec_listing(m) && s2.spec_escrow(m)
                == s0.spec_escrow(m) && s2.has_listing(m) == s0.has_listing(m),
        forall|o: u64, m: u64| #[trigger] s2.spec_holding(o, m) == s0.spec_holding(o, m),
        forall|o: u64, m: u64| #[trigger] s2.has_holding(o, m) == s0.has_holding(o, m),
        forall|x: u64|
            #[trigger] s2.spec_balance(x) == s0.spec_balance(x) && s2.spec_reserve(x)
                == s0.spec_reserve(x) && s2.has_account(x) == s0.has_account(x),
        forall|b: Buy| b.mint == a.mint ==> #[trigger] buy_outcome(s2, b) == Err::<(), Error>(
            Error::ListingNotFound,
        ),
{
    let c = Cancel { seller: a.seller, mint: a.mint };
    assert(s1.has_listing(a.mint));
    assert(cancel_outcome(s1, c) == Ok::<(), Error>(()));
    assert(!s0.has_listing(a.mint));
    assert(s0.spec_holding(a.seller, a.mint) == Some(1u64));
    assert forall|m: u64|
        #[trigger] s2.spec_listing(m) == s0.spec_listing(m) && s2.spec_escrow(m) == s0.spec_escrow(
            m,
        ) && s2.has_listing(m) == s0.has_listing(m) by {
        if m != a.mint {
            assert(s1.spec_listing(m) == s0.spec_listing(m));
        }
    }
    assert forall|o: u64, m: u64| #[trigger] s2.spec_holding(o, m) == s0.spec_holding(o, m) by {
        if !(o == a.seller && m == a.mint) {
            assert(s1.spec_holding(o, m) == s0.spec_holding(o, m));
        }
    }
    assert forall|o: u64, m: u64| #[trigger] s2.has_holding(o, m) == s0.has_holding(o, m) by {
        assert(s1.has_holding(o, m) == s0.has_holding(o, m));
    }
    assert forall|x: u64|
        #[trigger] s2.spec_balance(x) == s0.spec_balance(x) && s2.spec_reserve(x)
            == s0.spec_reserve(x) && s2.has_account(x) == s0.has_account(x) by {
        assert(s1.spec_balance(x) == s0.spec_balance(x));
        if x != a.seller {
            assert(s1.spec_reserve(x) == s0.spec_reserve(x));
        }
    }
}

/// A completed purchase leaves no live record, so the asset may enter a fresh
/// cycle: a listing of the same asset by its new owner, at any positive
/// price, passes every validation.
pub proof fn fresh_cycle_after_buy(s0: Market, s1: Market, a: Buy, price2: u64)
    requires
        s0.wf(),
        buy_outcome(s0, a) == Ok::<(), Error>(()),
        buy_post(s0, s1, a),
        price2 > 0,
    ensures
        list_outcome(s1, List { seller: a.buyer, mint: a.mint }, price2) == Ok::<(), Error>(()),
{
    let li = crate::ledger::listing_idx(s0.listings@, a.mint);
    lemma_listing_at(s0.listings@, li);
}

} // verus!
