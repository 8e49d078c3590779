use vstd::prelude::*;

use crate::state::Listing;

verus! {

// ---------------------------------------------------------------------------
// Ledger entities
// ---------------------------------------------------------------------------

/// Metadata of one asset class on the asset ledger.
#[derive(Clone, Copy, Debug)]
pub struct Mint {
    /// Identity of the asset class.
    pub id: u64,
    /// Fractional precision; a single-edition asset has 0.
    pub decimals: u8,
    /// Total circulating quantity; a single-edition asset has exactly 1.
    pub supply: u64,
    /// Authority that may mint further units, if any remains.
    pub mint_authority: Option<u64>,
    /// Authority that may freeze holding accounts, if any remains.
    pub freeze_authority: Option<u64>,
}

/// One personal holding account on the asset ledger: `owner`'s balance of
/// asset `mint`.
#[derive(Clone, Copy, Debug, PartialEq, Eq, Structural)]
pub struct Holding {
    /// Identity of the account owner.
    pub owner: u64,
    /// Identity of the asset class held.
    pub mint: u64,
    /// Units of the asset held.
    pub amount: u64,
}

/// One account on the value ledger: a spendable balance of native value plus
/// the storage-reservation deposits the account currently holds.
#[derive(Clone, Copy, Debug, PartialEq, Eq, Structural)]
pub struct ValueAccount {
    /// Identity of the account.
    pub id: u64,
    /// Spendable balance of native value.
    pub balance: u64,
    /// Refundable storage-reservation deposits held by the account.
    pub reserve: u64,
}

/// A live listing record together with its custody account.
///
/// The custody account's authority is the record itself, and the two are
/// created and destroyed in the same atomic operation, so they live and die
/// as one entry.
#[derive(Clone, Copy, Debug, PartialEq, Eq, Structural)]
pub struct Escrow {
    /// The persistent listing record.
    pub record: Listing,
    /// Units of `record.mint` sitting in custody; exactly 1 while live.
    pub amount: u64,
}

// ---------------------------------------------------------------------------
// Lookups over the ledger's tables, as functions of the table contents
// ---------------------------------------------------------------------------

/// No two mint entries describe the same asset class.
pub open spec fn mints_unique(s: Seq<Mint>) -> bool {
    forall|i: int, j: int| 0 <= i < j < s.len() ==> s[i].id != s[j].id
}

/// Whether the asset class `m` is registered.
pub open spec fn mints_has(s: Seq<Mint>, m: u64) -> bool {
    exists|i: int| 0 <= i < s.len() && s[i].id == m
}

/// Index of the entry for asset class `m`; meaningful only under `mints_has`.
pub open spec fn mint_idx(s: Seq<Mint>, m: u64) -> int {
    choose|i: int| 0 <= i < s.len() && s[i].id == m
}

/// The metadata of asset class `m`, if registered.
pub open spec fn mint_lookup(s: Seq<Mint>, m: u64) -> Option<Mint> {
    if mints_has(s, m) {
        Some(s[mint_idx(s, m)])
    } else {
        None
    }
}

/// No two holding accounts share an (owner, asset) pair.
pub open spec fn holdings_unique(s: Seq<Holding>) -> bool {
    forall|i: int, j: int|
        0 <= i < j < s.len() ==> !(s[i].owner == s[j].owner && s[i].mint == s[j].mint)
}

/// Whether a holding account for (`o`, `m`) exists.
pub open spec fn holdings_has(s: Seq<Holding>, o: u64, m: u64) -> bool {
    exists|i: int| 0 <= i < s.len() && s[i].owner == o && s[i].mint == m
}

/// Index of the holding account for (`o`, `m`); meaningful only under
/// `holdings_has`.
pub open spec fn holding_idx(s: Seq<Holding>, o: u64, m: u64) -> int {
    choose|i: int| 0 <= i < s.len() && s[i].owner == o && s[i].mint == m
}

/// The amount in the holding account for (`o`, `m`), if one exists.
pub open spec fn holding_lookup(s: Seq<Holding>, o: u64, m: u64) -> Option<u64> {
    if holdings_has(s, o, m) {
        Some(s[holding_idx(s, o, m)].amount)
    } else {
        None
    }
}

/// The amount in the holding account for (`o`, `m`), taking an absent account
/// as empty.
pub open spec fn holding_amount(s: Seq<Holding>, o: u64, m: u64) -> u64 {
    match holding_lookup(s, o, m) {
        Some(a) => a,
        None => 0,
    }
}

/// No two value accounts share an identity.
pub open spec fn accounts_unique(s: Seq<ValueAccount>) -> bool {
    forall|i: int, j: int| 0 <= i < j < s.len() ==> s[i].id != s[j].id
}

/// Whether a value account with identity `a` exists.
pub open spec fn accounts_has(s: Seq<ValueAccount>, a: u64) -> bool {
    exists|i: int| 0 <= i < s.len() && s[i].id == a
}

/// Index of the value account `a`; meaningful only under `accounts_has`.
pub open spec fn account_idx(s: Seq<ValueAccount>, a: u64) -> int {
    choose|i: int| 0 <= i < s.len() && s[i].id == a
}

/// Spendable balance of account `a`, taking an absent account as empty.
pub open spec fn balance_lookup(s: Seq<ValueAccount>, a: u64) -> u64 {
    if accounts_has(s, a) {
        s[account_idx(s, a)].balance
    } else {
        0
    }
}

/// Storage-reservation deposits of account `a`, taking an absent account as
/// empty.
pub open spec fn reserve_lookup(s: Seq<ValueAccount>, a: u64) -> u64 {
    if accounts_has(s, a) {
        s[account_idx(s, a)].reserve
    } else {
        0
    }
}

/// No two live listings concern the same asset: at most one live record per
/// asset exists at any time.
pub open spec fn listings_unique(s: Seq<Escrow>) -> bool {
    forall|i: int, j: int| 0 <= i < j < s.len() ==> s[i].record.mint != s[j].record.mint
}

/// Whether a live listing for asset `m` exists.
pub open spec fn listings_has(s: Seq<Escrow>, m: u64) -> bool {
    exists|i: int| 0 <= i < s.len() && s[i].record.mint == m
}

/// Index of the live listing for asset `m`; meaningful only under
/// `listings_has`.
pub open spec fn listing_idx(s: Seq<Escrow>, m: u64) -> int {
    choose|i: int| 0 <= i < s.len() && s[i].record.mint == m
}

/// The live listing record for asset `m`, if one exists.
pub open spec fn record_lookup(s: Seq<Escrow>, m: u64) -> Option<Listing> {
    if listings_has(s, m) {
        Some(s[listing_idx(s, m)].record)
    } else {
        None
    }
}

/// The amount in the custody account for asset `m`, if a listing is live.
pub open spec fn escrow_lookup(s: Seq<Escrow>, m: u64) -> Option<u64> {
    if listings_has(s, m) {
        Some(s[listing_idx(s, m)].amount)
    } else {
        None
    }
}

/// The amount held in custody for asset `m`, taking absent custody as empty.
pub open spec fn escrow_amount(s: Seq<Escrow>, m: u64) -> int {
    match escrow_lookup(s, m) {
        Some(a) => a as int,
        None => 0,
    }
}

// ---------------------------------------------------------------------------
// Conservation of an asset's units across holding and custody accounts
// ---------------------------------------------------------------------------

/// The units of asset `m` that holding account `h` contributes.
pub open spec fn mint_contrib(h: Holding, m: u64) -> int {
    if h.mint == m {
        h.amount as int
    } else {
        0
    }
}

/// Total units of asset `m` across all holding accounts.
pub open spec fn holdings_total(s: Seq<Holding>, m: u64) -> int
    decreases s.len(),
{
    if s.len() == 0 {
        0
    } else {
        mint_contrib(s[0], m) + holdings_total(s.drop_first(), m)
    }
}

// ---------------------------------------------------------------------------
// The ledger store
// ---------------------------------------------------------------------------

/// The explicit ledger state the trade operations act on: registered asset
/// classes, personal holding accounts, value accounts, and the live listing
/// records with their custody accounts.
pub struct Market {
    /// Storage reservation taken for each account the marketplace opens (one
    /// for the listing record, one for the custody account).
    pub rent: u64,
    /// Registered asset classes.
    pub mints: Vec<Mint>,
    /// Personal holding accounts of the asset ledger.
    pub holdings: Vec<Holding>,
    /// Accounts of the value ledger.
    pub accounts: Vec<ValueAccount>,
    /// Live listings, each bundled with its custody account.
    pub listings: Vec<Escrow>,
}

impl Market {
    /// Metadata of asset class `m`, if registered.
    pub open spec fn spec_mint(self, m: u64) -> Option<Mint> {
        mint_lookup(self.mints@, m)
    }

    /// Whether asset class `m` is registered.
    pub open spec fn has_mint(self, m: u64) -> bool {
        mints_has(self.mints@, m)
    }

    /// The amount in the holding account for (`o`, `m`), if one exists.
    pub open spec fn spec_holding(self, o: u64, m: u64) -> Option<u64> {
        holding_lookup(self.holdings@, o, m)
    }

    /// Whether a holding account for (`o`, `m`) exists.
    pub open spec fn has_holding(self, o: u64, m: u64) -> bool {
        holdings_has(self.holdings@, o, m)
    }

    /// Whether a value account with identity `a` exists.
    pub open spec fn has_account(self, a: u64) -> bool {
        accounts_has(self.accounts@, a)
    }

    /// Spendable balance of account `a`, taking an absent account as empty.
    pub open spec fn spec_balance(self, a: u64) -> u64 {
        balance_lookup(self.accounts@, a)
    }

    /// Storage-reservation deposits of account `a`.
    pub open spec fn spec_reserve(self, a: u64) -> u64 {
        reserve_lookup(self.accounts@, a)
    }

    /// The live listing record for asset `m`, if one exists.
    pub open spec fn spec_listing(self, m: u64) -> Option<Listing> {
        record_lookup(self.listings@, m)
    }

    /// Whether a live listing for asset `m` exists.
    pub open spec fn has_listing(self, m: u64) -> bool {
        listings_has(self.listings@, m)
    }

    /// The amount in the custody account for asset `m`, if a listing is live.
    pub open spec fn spec_escrow(self, m: u64) -> Option<u64> {
        escrow_lookup(self.listings@, m)
    }

    /// Each live listing is internally consistent: the custody account holds
    /// exactly 1 unit, the price is positive, the asset is a registered
    /// single-edition asset, and the seller's holding and value accounts
    /// exist so the asset and the reservations can be returned.
    pub open spec fn listings_wf(self) -> bool {
        forall|i: int|
            0 <= i < self.listings@.len() ==> {
                let e = #[trigger] self.listings@[i];
                &&& e.amount == 1
                &&& e.record.price > 0
                &&& mints_has(self.mints@, e.record.mint)
                &&& mint_lookup(self.mints@, e.record.mint) matches Some(mt) && mt.supply == 1
                    && mt.decimals == 0 && mt.mint_authority is None && mt.freeze_authority is None
                &&& holdings_has(self.holdings@, e.record.seller, e.record.mint)
                &&& accounts_has(self.accounts@, e.record.seller)
            }
    }

    /// Every holding account concerns a registered asset class.
    pub open spec fn holdings_registered(self) -> bool {
        forall|i: int|
            0 <= i < self.holdings@.len() ==> mints_has(
                self.mints@,
                (#[trigger] self.holdings@[i]).mint,
            )
    }

    /// Units of every registered asset are conserved: what the holding
    /// accounts and the custody account hold together is the asset's total
    /// circulating quantity.
    pub open spec fn conservation(self) -> bool {
        forall|i: int|
            0 <= i < self.mints@.len() ==> {
                let mt = #[trigger] self.mints@[i];
                holdings_total(self.holdings@, mt.id) + escrow_amount(self.listings@, mt.id)
                    == mt.supply as int
            }
    }

    /// Well-formedness of the ledger: keys of every table are unique, every
    /// holding concerns a registered asset, asset units are conserved, and
    /// every live listing is internally consistent.
    pub open spec fn wf(self) -> bool {
        &&& mints_unique(self.mints@)
        &&& holdings_unique(self.holdings@)
        &&& accounts_unique(self.accounts@)
        &&& listings_unique(self.listings@)
        &&& self.holdings_registered()
        &&& self.conservation()
        &&& self.listings_wf()
    }
}

// ---------------------------------------------------------------------------
// How the lookups behave at a known index and under the table edits the
// operations make
// ---------------------------------------------------------------------------

/// A mint entry is found under its own identity.
pub proof fn lemma_mint_at(s: Seq<Mint>, i: int)
    requires
        mints_unique(s),
        0 <= i < s.len(),
    ensures
        mints_has(s, s[i].id),
        mint_idx(s, s[i].id) == i,
        mint_lookup(s, s[i].id) == Some(s[i]),
{
    let m = s[i].id;
    assert(mints_has(s, m));
    let j = mint_idx(s, m);
    assert(0 <= j < s.len() && s[j].id == m);
}

/// A holding entry is found under its own (owner, asset) pair.
pub proof fn lemma_holding_at(s: Seq<Holding>, i: int)
    requires
        holdings_unique(s),
        0 <= i < s.len(),
    ensures
        holdings_has(s, s[i].owner, s[i].mint),
        holding_idx(s, s[i].owner, s[i].mint) == i,
        holding_lookup(s, s[i].owner, s[i].mint) == Some(s[i].amount),
{
    assert(holdings_has(s, s[i].owner, s[i].mint));
    let j = holding_idx(s, s[i].owner, s[i].mint);
    assert(0 <= j < s.len() && s[j].owner == s[i].owner && s[j].mint == s[i].mint);
}

/// A value-account entry is found under its own identity.
pub proof fn lemma_account_at(s: Seq<ValueAccount>, i: int)
    requires
        accounts_unique(s),
        0 <= i < s.len(),
    ensures
        accounts_has(s, s[i].id),
        account_idx(s, s[i].id) == i,
        balance_lookup(s, s[i].id) == s[i].balance,
        reserve_lookup(s, s[i].id) == s[i].reserve,
{
    assert(accounts_has(s, s[i].id));
    let j = account_idx(s, s[i].id);
    assert(0 <= j < s.len() && s[j].id == s[i].id);
}

/// A listing entry is found under its own asset.
pub proof fn lemma_listing_at(s: Seq<Escrow>, i: int)
    requires
        listings_unique(s),
        0 <= i < s.len(),
    ensures
        listings_has(s, s[i].record.mint),
        listing_idx(s, s[i].record.mint) == i,
        record_lookup(s, s[i].record.mint) == Some(s[i].record),
        escrow_lookup(s, s[i].record.mint) == Some(s[i].amount),
{
    assert(listings_has(s, s[i].record.mint));
    let j = listing_idx(s, s[i].record.mint);
    assert(0 <= j < s.len() && s[j].record.mint == s[i].record.mint);
}

/// Replacing a holding entry with one for the same (owner, asset) pair moves
/// that pair's lookup to the new amount and leaves every other lookup as it
/// was.
pub proof fn lemma_holdings_update(s: Seq<Holding>, i: int, h: Holding)
    requires
        holdings_unique(s),
        0 <= i < s.len(),
        h.owner == s[i].owner,
        h.mint == s[i].mint,
    ensures
        holdings_unique(s.update(i, h)),
        holding_lookup(s.update(i, h), h.owner, h.mint) == Some(h.amount),
        forall|o: u64, m: u64|
            !(o == h.owner && m == h.mint) ==> #[trigger] holding_lookup(s.update(i, h), o, m)
                == holding_lookup(s, o, m),
        forall|o: u64, m: u64|
            #[trigger] holdings_has(s.update(i, h), o, m) == holdings_has(s, o, m),
{
    let t = s.update(i, h);
    assert forall|o: u64, m: u64| #[trigger] holdings_has(t, o, m) == holdings_has(s, o, m) by {
        if holdings_has(t, o, m) {
            let j = holding_idx(t, o, m);
            assert(s[j].owner == o && s[j].mint == m);
        }
        if holdings_has(s, o, m) {
            let j = holding_idx(s, o, m);
            assert(t[j].owner == o && t[j].mint == m);
        }
    }
    assert(holdings_unique(t));
    lemma_holding_at(t, i);
    assert forall|o: u64, m: u64|
        !(o == h.owner && m == h.mint) implies #[trigger] holding_lookup(t, o, m)
        == holding_lookup(s, o, m) by {
        if holdings_has(s, o, m) {
            let j = holding_idx(s, o, m);
            assert(j != i);
            lemma_holding_at(t, j);
            lemma_holding_at(s, j);
        }
    }
}

/// Adding a holding entry for a fresh (owner, asset) pair makes that pair's
/// lookup its amount and leaves every other lookup as it was.
pub proof fn lemma_holdings_push(s: Seq<Holding>, h: Holding)
    requires
        holdings_unique(s),
        !holdings_has(s, h.owner, h.mint),
    ensures
        holdings_unique(s.push(h)),
        holding_lookup(s.push(h), h.owner, h.mint) == Some(h.amount),
        forall|o: u64, m: u64|
            !(o == h.owner && m == h.mint) ==> #[trigger] holding_lookup(s.push(h), o, m)
                == holding_lookup(s, o, m),
        forall|o: u64, m: u64|
            #[trigger] holdings_has(s.push(h), o, m) == (holdings_has(s, o, m) || (o == h.owner
                && m == h.mint)),
{
    let t = s.push(h);
    assert forall|o: u64, m: u64|
        #[trigger] holdings_has(t, o, m) == (holdings_has(s, o, m) || (o == h.owner && m
            == h.mint)) by {
        if holdings_has(t, o, m) {
            let j = holding_idx(t, o, m);
            if j < s.len() {
                assert(s[j].owner == o && s[j].mint == m);
            }
        }
        if holdings_has(s, o, m) {
            let j = holding_idx(s, o, m);
            assert(t[j].owner == o && t[j].mint == m);
        }
        assert(t[s.len() as int].owner == h.owner && t[s.len() as int].mint == h.mint);
    }
    assert(holdings_unique(t));
    lemma_holding_at(t, s.len() as int);
    assert forall|o: u64, m: u64|
        !(o == h.owner && m == h.mint) implies #[trigger] holding_lookup(t, o, m)
        == holding_lookup(s, o, m) by {
        if holdings_has(s, o, m) {
            let j = holding_idx(s, o, m);
            lemma_holding_at(t, j);
            lemma_holding_at(s, j);
        }
    }
}

/// Replacing a value account with one of the same identity moves that
/// identity's balance and reserve to the new values and leaves every other
/// account as it was.
pub proof fn lemma_accounts_update(s: Seq<ValueAccount>, i: int, v: ValueAccount)
    requires
        accounts_unique(s),
        0 <= i < s.len(),
        v.id == s[i].id,
    ensures
        accounts_unique(s.update(i, v)),
        balance_lookup(s.update(i, v), v.id) == v.balance,
        reserve_lookup(s.update(i, v), v.id) == v.reserve,
        forall|a: u64|
            a != v.id ==> #[trigger] balance_lookup(s.update(i, v), a) == balance_lookup(s, a),
        forall|a: u64|
            a != v.id ==> #[trigger] reserve_lookup(s.update(i, v), a) == reserve_lookup(s, a),
        forall|a: u64| #[trigger] accounts_has(s.update(i, v), a) == accounts_has(s, a),
{
    let t = s.update(i, v);
    assert forall|a: u64| #[trigger] accounts_has(t, a) == accounts_has(s, a) by {
        if accounts_has(t, a) {
            let j = account_idx(t, a);
            assert(s[j].id == a);
        }
        if accounts_has(s, a) {
            let j = account_idx(s, a);
            assert(t[j].id == a);
        }
    }
    assert(accounts_unique(t));
    lemma_account_at(t, i);
    assert forall|a: u64|
        a != v.id implies #[trigger] balance_lookup(t, a) == balance_lookup(s, a)
        && #[trigger] reserve_lookup(t, a) == reserve_lookup(s, a) by {
        if accounts_has(s, a) {
            let j = account_idx(s, a);
            assert(j != i);
            lemma_account_at(t, j);
            lemma_account_at(s, j);
        }
    }
}

/// Adding a listing for an asset with no live listing makes that asset's
/// lookups the new record and custody amount and leaves every other asset's
/// as they were.
pub proof fn lemma_listings_push(s: Seq<Escrow>, e: Escrow)
    requires
        listings_unique(s),
        !listings_has(s, e.record.mint),
    ensures
        listings_unique(s.push(e)),
        record_lookup(s.push(e), e.record.mint) == Some(e.record),
        escrow_lookup(s.push(e), e.record.mint) == Some(e.amount),
        forall|m: u64|
            m != e.record.mint ==> #[trigger] record_lookup(s.push(e), m) == record_lookup(s, m),
        forall|m: u64|
            m != e.record.mint ==> #[trigger] escrow_lookup(s.push(e), m) == escrow_lookup(s, m),
        forall|m: u64|
            #[trigger] listings_has(s.push(e), m) == (listings_has(s, m) || m == e.record.mint),
{
    let t = s.push(e);
    assert forall|m: u64|
        #[trigger] listings_has(t, m) == (listings_has(s, m) || m == e.record.mint) by {
        if listings_has(t, m) {
            let j = listing_idx(t, m);
            if j < s.len() {
                assert(s[j].record.mint == m);
            }
        }
        if listings_has(s, m) {
            let j = listing_idx(s, m);
            assert(t[j].record.mint == m);
        }
        assert(t[s.len() as int].record.mint == e.record.mint);
    }
    assert(listings_unique(t));
    lemma_listing_at(t, s.len() as int);
    assert forall|m: u64|
        m != e.record.mint implies #[trigger] record_lookup(t, m) == record_lookup(s, m)
        && #[trigger] escrow_lookup(t, m) == escrow_lookup(s, m) by {
        if listings_has(s, m) {
            let j = listing_idx(s, m);
            lemma_listing_at(t, j);
            lemma_listing_at(s, j);
        }
    }
}

/// Removing the listing at an index erases its asset's lookups and leaves
/// every other asset's as they were.
pub proof fn lemma_listings_remove(s: Seq<Escrow>, i: int)
    requires
        listings_unique(s),
        0 <= i < s.len(),
    ensures
        listings_unique(s.remove(i)),
        !listings_has(s.remove(i), s[i].record.mint),
        forall|m: u64|
            m != s[i].record.mint ==> #[trigger] record_lookup(s.remove(i), m) == record_lookup(
                s,
                m,
            ),
        forall|m: u64|
            m != s[i].record.mint ==> #[trigger] escrow_lookup(s.remove(i), m) == escrow_lookup(
                s,
                m,
            ),
        forall|m: u64|
            m != s[i].record.mint ==> #[trigger] listings_has(s.remove(i), m) == listings_has(s, m),
{
    let t = s.remove(i);
    assert(forall|j: int|
        0 <= j < t.len() ==> t[j] == if j < i {
            s[j]
        } else {
            s[j + 1]
        });
    assert(listings_unique(t));
    if listings_has(t, s[i].record.mint) {
        let j = listing_idx(t, s[i].record.mint);
        if j < i {
            assert(s[j].record.mint == s[i].record.mint);
        } else {
            assert(s[j + 1].record.mint == s[i].record.mint);
        }
        assert(false);
    }
    assert forall|m: u64| m != s[i].record.mint implies #[trigger] listings_has(t, m)
        == listings_has(s, m) by {
        if listings_has(t, m) {
            let j = listing_idx(t, m);
            if j < i {
                assert(s[j].record.mint == m);
            } else {
                assert(s[j + 1].record.mint == m);
            }
        }
        if listings_has(s, m) {
            let j = listing_idx(s, m);
            if j < i {
                assert(t[j].record.mint == m);
            } else {
                assert(t[j - 1].record.mint == m);
            }
        }
    }
    assert forall|m: u64|
        m != s[i].record.mint implies #[trigger] record_lookup(t, m) == record_lookup(s, m)
        && #[trigger] escrow_lookup(t, m) == escrow_lookup(s, m) by {
        if listings_has(s, m) {
            let j = listing_idx(s, m);
            lemma_listing_at(s, j);
            if j < i {
                lemma_listing_at(t, j);
            } else {
                lemma_listing_at(t, j - 1);
            }
        }
    }
}

// ---------------------------------------------------------------------------
// How an asset's total behaves under the table edits
// ---------------------------------------------------------------------------

/// Replacing one holding entry changes an asset's total by the difference of
/// the two entries' contributions.
pub proof fn lemma_total_update(s: Seq<Holding>, i: int, h: Holding, m: u64)
    requires
        0 <= i < s.len(),
    ensures
        holdings_total(s.update(i, h), m) == holdings_total(s, m) - mint_contrib(s[i], m)
            + mint_contrib(h, m),
    decreases s.len(),
{
    let t = s.update(i, h);
    if i == 0 {
        assert(t.drop_first() =~= s.drop_first());
    } else {
        assert(t.drop_first() =~= s.drop_first().update(i - 1, h));
        lemma_total_update(s.drop_first(), i - 1, h, m);
    }
}

/// Appending a holding entry adds its contribution to an asset's total.
pub proof fn lemma_total_push(s: Seq<Holding>, h: Holding, m: u64)
    ensures
        holdings_total(s.push(h), m) == holdings_total(s, m) + mint_contrib(h, m),
    decreases s.len(),
{
    let t = s.push(h);
    assert(t.len() == s.len() + 1);
    if s.len() == 0 {
        assert(t[0] == h);
        assert(t.drop_first() =~= Seq::<Holding>::empty());
        assert(holdings_total(t.drop_first(), m) == 0);
        assert(holdings_total(t, m) == mint_contrib(h, m));
        assert(holdings_total(s, m) == 0);
    } else {
        assert(t[0] == s[0]);
        assert(t.drop_first() =~= s.drop_first().push(h));
        lemma_total_push(s.drop_first(), h, m);
        assert(holdings_total(t, m) == mint_contrib(s[0], m) + holdings_total(
            t.drop_first(),
            m,
        ));
        assert(holdings_total(t.drop_first(), m) == holdings_total(s.drop_first(), m)
            + mint_contrib(h, m));
        assert(holdings_total(s, m) == mint_contrib(s[0], m) + holdings_total(
            s.drop_first(),
            m,
        ));
    }
}

/// An asset's total is never negative.
pub proof fn lemma_total_nonneg(s: Seq<Holding>, m: u64)
    ensures
        holdings_total(s, m) >= 0,
    decreases s.len(),
{
    if s.len() > 0 {
        lemma_total_nonneg(s.drop_first(), m);
    }
}

/// No single holding entry contributes more than the asset's total.
pub proof fn lemma_total_bound(s: Seq<Holding>, i: int, m: u64)
    requires
        0 <= i < s.len(),
    ensures
        holdings_total(s, m) >= mint_contrib(s[i], m),
    decreases s.len(),
{
    lemma_total_nonneg(s.drop_first(), m);
    if i > 0 {
        lemma_total_bound(s.drop_first(), i - 1, m);
    }
}

/// An asset no holding entry concerns has total zero.
pub proof fn lemma_total_absent(s: Seq<Holding>, m: u64)
    requires
        forall|j: int| 0 <= j < s.len() ==> (#[trigger] s[j]).mint != m,
    ensures
        holdings_total(s, m) == 0,
    decreases s.len(),
{
    if s.len() > 0 {
        assert(forall|j: int|
            0 <= j < s.drop_first().len() ==> (#[trigger] s.drop_first()[j]).mint != m);
        lemma_total_absent(s.drop_first(), m);
    }
}

/// When an asset's total is zero, every holding account of it is empty.
pub proof fn lemma_total_zero(s: Seq<Holding>, m: u64, i: int)
    requires
        holdings_total(s, m) == 0,
        0 <= i < s.len(),
        s[i].mint == m,
    ensures
        s[i].amount == 0,
{
    lemma_total_bound(s, i, m);
}

// ---------------------------------------------------------------------------
// Scans of the tables
// ---------------------------------------------------------------------------

impl Market {
    /// Position of asset class `m` in the mint table, if registered.
    pub(crate) fn find_mint(&self, m: u64) -> (r: Option<usize>)
        requires
            mints_unique(self.mints@),
        ensures
            match r {
                Some(i) => i < self.mints@.len() && self.mints@[i as int].id == m && mint_idx(
                    self.mints@,
                    m,
                ) == i && self.spec_mint(m) == Some(self.mints@[i as int]),
                None => !self.has_mint(m),
            },
    {
        let n = self.mints.len();
        let mut i: usize = 0;
        while i < n
            invariant
                mints_unique(self.mints@),
                n == self.mints@.len(),
                i <= n,
                forall|j: int| 0 <= j < i ==> (#[trigger] self.mints@[j]).id != m,
            decreases n - i,
        {
            if self.mints[i].id == m {
                proof {
                    lemma_mint_at(self.mints@, i as int);
                }
                return Some(i);
            }
            i += 1;
        }
        None
    }

    /// Position of the holding account for (`o`, `m`), if one exists.
    pub(crate) fn find_holding(&self, o: u64, m: u64) -> (r: Option<usize>)
        requires
            holdings_unique(self.holdings@),
        ensures
            match r {
                Some(i) => i < self.holdings@.len() && self.holdings@[i as int].owner == o
                    && self.holdings@[i as int].mint == m && holding_idx(self.holdings@, o, m) == i
                    && self.spec_holding(o, m) == Some(self.holdings@[i as int].amount),
                None => !self.has_holding(o, m),
            },
    {
        let n = self.holdings.len();
        let mut i: usize = 0;
        while i < n
            invariant
                holdings_unique(self.holdings@),
                n == self.holdings@.len(),
                i <= n,
                forall|j: int|
                    0 <= j < i ==> !((#[trigger] self.holdings@[j]).owner == o
                        && self.holdings@[j].mint == m),
            decreases n - i,
        {
            if self.holdings[i].owner == o && self.holdings[i].mint == m {
                proof {
                    lemma_holding_at(self.holdings@, i as int);
                }
                return Some(i);
            }
            i += 1;
        }
        None
    }

    /// Position of value account `a`, if one exists.
    pub(crate) fn find_account(&self, a: u64) -> (r: Option<usize>)
        requires
            accounts_unique(self.accounts@),
        ensures
            match r {
                Some(i) => i < self.accounts@.len() && self.accounts@[i as int].id == a
                    && account_idx(self.accounts@, a) == i && self.spec_balance(a)
                    == self.accounts@[i as int].balance && self.spec_reserve(a)
                    == self.accounts@[i as int].reserve,
                None => !self.has_account(a),
            },
    {
        let n = self.accounts.len();
        let mut i: usize = 0;
        while i < n
            invariant
                accounts_unique(self.accounts@),
                n == self.accounts@.len(),
                i <= n,
                forall|j: int| 0 <= j < i ==> (#[trigger] self.accounts@[j]).id != a,
            decreases n - i,
        {
            if self.accounts[i].id == a {
                proof {
                    lemma_account_at(self.accounts@, i as int);
                }
                return Some(i);
            }
            i += 1;
        }
        None
    }

    /// Position of the live listing for asset `m`, if one exists.
    pub(crate) fn find_listing(&self, m: u64) -> (r: Option<usize>)
        requires
            listings_unique(self.listings@),
        ensures
            match r {
                Some(i) => i < self.listings@.len() && self.listings@[i as int].record.mint == m
                    && listing_idx(self.listings@, m) == i && self.spec_listing(m) == Some(
                    self.listings@[i as int].record,
                ) && self.spec_escrow(m) == Some(self.listings@[i as int].amount),
                None => !self.has_listing(m),
            },
    {
        let n = self.listings.len();
        let mut i: usize = 0;
        while i < n
            invariant
                listings_unique(self.listings@),
                n == self.listings@.len(),
                i <= n,
                forall|j: int| 0 <= j < i ==> (#[trigger] self.listings@[j]).record.mint != m,
            decreases n - i,
        {
            if self.listings[i].record.mint == m {
                proof {
                    lemma_listing_at(self.listings@, i as int);
                }
                return Some(i);
            }
            i += 1;
        }
        None
    }

    /// Reads the metadata of asset class `m`.
    pub fn mint_of(&self, m: u64) -> (r: Option<Mint>)
        requires
            self.wf(),
        ensures
            r == self.spec_mint(m),
    {
        match self.find_mint(m) {
            Some(i) => Some(self.mints[i]),
            None => None,
        }
    }

    /// Reads the amount in the holding account for (`o`, `m`).
    pub fn holding_of(&self, o: u64, m: u64) -> (r: Option<u64>)
        requires
            self.wf(),
        ensures
            r == self.spec_holding(o, m),
    {
        match self.find_holding(o, m) {
            Some(i) => Some(self.holdings[i].amount),
            None => None,
        }
    }

    /// Reads the spendable balance of account `a`; an absent account is empty.
    pub fn balance_of(&self, a: u64) -> (r: u64)
        requires
            self.wf(),
        ensures
            r == self.spec_balance(a),
    {
        match self.find_account(a) {
            Some(i) => self.accounts[i].balance,
            None => 0,
        }
    }

    /// Reads the storage-reservation deposits of account `a`; an absent
    /// account holds none.
    pub fn reserve_of(&self, a: u64) -> (r: u64)
        requires
            self.wf(),
        ensures
            r == self.spec_reserve(a),
    {
        match self.find_account(a) {
            Some(i) => self.accounts[i].reserve,
            None => 0,
        }
    }

    /// Reads the live listing record for asset `m`, if one exists.
    pub fn listing_of(&self, m: u64) -> (r: Option<Listing>)
        requires
            self.wf(),
        ensures
            r == self.spec_listing(m),
    {
        match self.find_listing(m) {
            Some(i) => Some(self.listings[i].record),
            None => None,
        }
    }

    /// Reads the amount in the custody account for asset `m`, if a listing is
    /// live.
    pub fn escrow_of(&self, m: u64) -> (r: Option<u64>)
        requires
            self.wf(),
        ensures
            r == self.spec_escrow(m),
    {
        match self.find_listing(m) {
            Some(i) => Some(self.listings[i].amount),
            None => None,
        }
    }
}

// ---------------------------------------------------------------------------
// Provisioning the ledger
// ---------------------------------------------------------------------------

/// Adding a mint entry for a fresh asset class makes that class's lookup the
/// new metadata and leaves every other lookup as it was.
pub proof fn lemma_mints_push(s: Seq<Mint>, mt: Mint)
    requires
        mints_unique(s),
        !mints_has(s, mt.id),
    ensures
        mints_unique(s.push(mt)),
        mint_lookup(s.push(mt), mt.id) == Some(mt),
        forall|m: u64| m != mt.id ==> #[trigger] mint_lookup(s.push(mt), m) == mint_lookup(s, m),
        forall|m: u64| #[trigger] mints_has(s.push(mt), m) == (mints_has(s, m) || m == mt.id),
{
    let t = s.push(mt);
    assert forall|m: u64| #[trigger] mints_has(t, m) == (mints_has(s, m) || m == mt.id) by {
        if mints_has(t, m) {
            let j = mint_idx(t, m);
            if j < s.len() {
                assert(s[j].id == m);
            }
        }
        if mints_has(s, m) {
            let j = mint_idx(s, m);
            assert(t[j].id == m);
        }
        assert(t[s.len() as int].id == mt.id);
    }
    assert(mints_unique(t));
    lemma_mint_at(t, s.len() as int);
    assert forall|m: u64| m != mt.id implies #[trigger] mint_lookup(t, m) == mint_lookup(s, m) by {
        if mints_has(s, m) {
            let j = mint_idx(s, m);
            lemma_mint_at(t, j);
            lemma_mint_at(s, j);
        }
    }
}

/// Adding a value account with a fresh identity makes that identity's lookups
/// the new balances and leaves every other account as it was.
pub proof fn lemma_accounts_push(s: Seq<ValueAccount>, v: ValueAccount)
    requires
        accounts_unique(s),
        !accounts_has(s, v.id),
    ensures
        accounts_unique(s.push(v)),
        balance_lookup(s.push(v), v.id) == v.balance,
        reserve_lookup(s.push(v), v.id) == v.reserve,
        forall|a: u64|
            a != v.id ==> #[trigger] balance_lookup(s.push(v), a) == balance_lookup(s, a),
        forall|a: u64|
            a != v.id ==> #[trigger] reserve_lookup(s.push(v), a) == reserve_lookup(s, a),
        forall|a: u64| #[trigger] accounts_has(s.push(v), a) == (accounts_has(s, a) || a == v.id),
{
    let t = s.push(v);
    assert forall|a: u64| #[trigger] accounts_has(t, a) == (accounts_has(s, a) || a == v.id) by {
        if accounts_has(t, a) {
            let j = account_idx(t, a);
            if j < s.len() {
                assert(s[j].id == a);
            }
        }
        if accounts_has(s, a) {
            let j = account_idx(s, a);
            assert(t[j].id == a);
        }
        assert(t[s.len() as int].id == v.id);
    }
    assert(accounts_unique(t));
    lemma_account_at(t, s.len() as int);
    assert forall|a: u64|
        a != v.id implies #[trigger] balance_lookup(t, a) == balance_lookup(s, a)
        && #[trigger] reserve_lookup(t, a) == reserve_lookup(s, a) by {
        if accounts_has(s, a) {
            let j = account_idx(s, a);
            lemma_account_at(t, j);
            lemma_account_at(s, j);
        }
    }
}

impl Market {
    /// An empty ledger whose marketplace takes `rent` as the storage
    /// reservation of each account it opens.
    pub fn new(rent: u64) -> (r: Market)
        ensures
            r.wf(),
            r.rent == rent,
            r.mints@.len() == 0,
            r.holdings@.len() == 0,
            r.accounts@.len() == 0,
            r.listings@.len() == 0,
    {
        Market {
            rent,
            mints: Vec::new(),
            holdings: Vec::new(),
            accounts: Vec::new(),
            listings: Vec::new(),
        }
    }

    /// Opens a value account with identity `a`, a spendable `balance` and
    /// `reserve` in refundable deposits.
    pub fn add_account(&mut self, a: u64, balance: u64, reserve: u64)
        requires
            old(self).wf(),
            !old(self).has_account(a),
        ensures
            final(self).wf(),
            final(self).rent == old(self).rent,
            final(self).mints@ == old(self).mints@,
            final(self).holdings@ == old(self).holdings@,
            final(self).listings@ == old(self).listings@,
            forall|m: u64| #[trigger] final(self).spec_mint(m) == old(self).spec_mint(m),
            forall|m: u64| #[trigger] final(self).has_mint(m) == old(self).has_mint(m),
            forall|o: u64, m: u64|
                #[trigger] final(self).spec_holding(o, m) == old(self).spec_holding(o, m),
            forall|o: u64, m: u64|
                #[trigger] final(self).has_holding(o, m) == old(self).has_holding(o, m),
            forall|m: u64| #[trigger] final(self).spec_listing(m) == old(self).spec_listing(m),
            forall|m: u64| #[trigger] final(self).spec_escrow(m) == old(self).spec_escrow(m),
            forall|m: u64| #[trigger] final(self).has_listing(m) == old(self).has_listing(m),
            final(self).spec_balance(a) == balance,
            final(self).spec_reserve(a) == reserve,
            final(self).has_account(a),
            forall|x: u64|
                x != a ==> #[trigger] final(self).spec_balance(x) == old(self).spec_balance(x),
            forall|x: u64|
                x != a ==> #[trigger] final(self).spec_reserve(x) == old(self).spec_reserve(x),
            forall|x: u64|
                #[trigger] final(self).has_account(x) == (old(self).has_account(x) || x == a),
    {
        let v = ValueAccount { id: a, balance, reserve };
        proof {
            lemma_accounts_push(self.accounts@, v);
        }
        self.accounts.push(v);
    }

    /// Registers the asset class `id` with its metadata and opens the holding
    /// account of `owner` with the whole circulating quantity.
    pub fn add_mint(
        &mut self,
        id: u64,
        decimals: u8,
        supply: u64,
        mint_authority: Option<u64>,
        freeze_authority: Option<u64>,
        owner: u64,
    )
        requires
            old(self).wf(),
            !old(self).has_mint(id),
        ensures
            final(self).wf(),
            final(self).rent == old(self).rent,
            final(self).accounts@ == old(self).accounts@,
            final(self).listings@ == old(self).listings@,
            forall|x: u64| #[trigger] final(self).spec_balance(x) == old(self).spec_balance(x),
            forall|x: u64| #[trigger] final(self).spec_reserve(x) == old(self).spec_reserve(x),
            forall|x: u64| #[trigger] final(self).has_account(x) == old(self).has_account(x),
            forall|m: u64| #[trigger] final(self).spec_listing(m) == old(self).spec_listing(m),
            forall|m: u64| #[trigger] final(self).spec_escrow(m) == old(self).spec_escrow(m),
            forall|m: u64| #[trigger] final(self).has_listing(m) == old(self).has_listing(m),
            final(self).spec_mint(id) == Some(
                Mint { id, decimals, supply, mint_authority, freeze_authority },
            ),
            final(self).spec_holding(owner, id) == Some(supply),
            forall|m: u64| m != id ==> #[trigger] final(self).spec_mint(m) == old(self).spec_mint(m),
            forall|m: u64| #[trigger] final(self).has_mint(m) == (old(self).has_mint(m) || m == id),
            forall|o: u64, m: u64|
                !(o == owner && m == id) ==> #[trigger] final(self).spec_holding(o, m) == old(
                    self,
                ).spec_holding(o, m),
            forall|o: u64, m: u64|
                #[trigger] final(self).has_holding(o, m) == (old(self).has_holding(o, m) || (o
                    == owner && m == id)),
    {
        let mt = Mint { id, decimals, supply, mint_authority, freeze_authority };
        let h = Holding { owner, mint: id, amount: supply };
        proof {
            // No holding and no listing concerns the fresh asset class.
            assert forall|j: int| 0 <= j < self.holdings@.len() implies (#[trigger] self
                .holdings@[j]).mint != id by {
                if self.holdings@[j].mint == id {
                    assert(mints_has(self.mints@, id));
                }
            }
            if holdings_has(self.holdings@, owner, id) {
                let j = holding_idx(self.holdings@, owner, id);
                assert(false);
            }
            if listings_has(self.listings@, id) {
                let j = listing_idx(self.listings@, id);
                assert(mints_has(self.mints@, self.listings@[j].record.mint));
                assert(false);
            }
            lemma_mints_push(self.mints@, mt);
            lemma_holdings_push(self.holdings@, h);
            lemma_total_absent(self.holdings@, id);
            lemma_total_push(self.holdings@, h, id);
            assert forall|i: int| 0 <= i < self.mints@.len() implies holdings_total(
                self.holdings@.push(h),
                (#[trigger] self.mints@[i]).id,
            ) == holdings_total(self.holdings@, self.mints@[i].id) by {
                lemma_mint_at(self.mints@, i);
                lemma_total_push(self.holdings@, h, self.mints@[i].id);
            }
        }
        self.mints.push(mt);
        self.holdings.push(h);
        proof {
            let post = *self;
            assert forall|i: int| 0 <= i < post.mints@.len() implies {
                let m2 = #[trigger] post.mints@[i];
                holdings_total(post.holdings@, m2.id) + escrow_amount(post.listings@, m2.id)
                    == m2.supply as int
            } by {
                if i < post.mints@.len() - 1 {
                    assert(post.mints@[i] == old(self).mints@[i]);
                } else {
                    assert(post.mints@[i] == mt);
                    assert(escrow_amount(post.listings@, id) == 0);
                }
            }
            assert(post.conservation());
            assert(post.listings_wf());
        }
    }
}

} // verus!

