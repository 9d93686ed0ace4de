use vstd::prelude::*;
use crate::address::Address;
use crate::deriver::vault_address;
use crate::error::{ErrorClass, MarketError};
use crate::ledger::{deposit_outcome, release_outcome, Holding, Ledger};
use crate::market::{
    balance, buy_outcome, buy_result, create_vault_outcome, custody, list_outcome, list_result,
    payment_leg, release_leg, sell_outcome, settled, Market, MarketView,
};
use crate::records::{Buy, CreateVault, List, Sell};

verus! {

/// Custody: in a sound market, the vault of the asset of every active
/// listing holds exactly one unit of that asset.
pub proof fn law_custody(m: Market, listing: Address)
    requires
        m.wf(),
        m@.listings.contains_key(listing),
        m@.listings[listing].active,
    ensures
        vault_address(m@.listings[listing].mint) matches Some(vault) && balance(m@, vault) == 1
            && m@.holdings[vault].mint == m@.listings[listing].mint
            && m@.holdings[vault].authority == vault,
{
    m.lemma_custody();
}

/// A unique asset is held whole or not at all: in a sound market, no
/// holding of an asset whose supply is one unit holds more than that unit.
pub proof fn law_unit_balance(m: Market, holding: Address)
    requires
        m.wf(),
        m@.holdings.contains_key(holding),
        m@.supplies.contains_key(m@.holdings[holding].mint),
        m@.supplies[m@.holdings[holding].mint] == 1,
    ensures
        m@.holdings[holding].amount == 0 || m@.holdings[holding].amount == 1,
{
    m.lemma_conservation(holding, holding);
}

/// Custody yields to no caller: a deposit that would draw on a holding
/// under no authority but its own address fails, whoever calls.
pub proof fn law_custody_is_sealed(
    holdings: Map<Address, Holding>,
    vault: Address,
    source: Address,
    amount: u64,
    caller: Address,
)
    requires
        holdings.contains_key(source),
        holdings[source].authority == source,
    ensures
        deposit_outcome(holdings, vault, source, amount, caller) is Err,
{
}

/// Conservation: in a sound ledger, what a deposit or a release that
/// succeeds adds to a holding fits: the two holdings held no more than the
/// asset's supply together.
pub proof fn law_conservation(
    l: Ledger,
    vault: Address,
    other: Address,
    amount: u64,
    caller: Address,
    opened: Address,
)
    requires
        l.wf(),
    ensures
        deposit_outcome(l.holdings(), vault, other, amount, caller) is Ok ==> l.holdings()[vault].amount
            + amount <= l.supplies()[l.holdings()[vault].mint] <= u64::MAX,
        release_outcome(l.holdings(), vault, other, amount, opened) is Ok ==> l.holdings()[other].amount
            + amount <= l.supplies()[l.holdings()[other].mint] <= u64::MAX,
{
    if l.holdings().contains_key(vault) && l.holdings().contains_key(other) {
        l.lemma_conservation(vault, other);
        l.lemma_conservation(other, vault);
    }
}

/// Every asset of `before` is in `after` with the supply it had, and every
/// holding with the asset and the authority it had.
pub open spec fn persists(before: MarketView, after: MarketView) -> bool {
    &&& after.supplies == before.supplies
    &&& forall|a: Address| #[trigger]
        before.holdings.contains_key(a) ==> after.holdings.contains_key(a)
            && after.holdings[a].mint == before.holdings[a].mint && after.holdings[a].authority
            == before.holdings[a].authority
}

/// Holdings persist: no operation of the market takes a holding away, or
/// gives one another asset or another authority. What is made stays.
pub proof fn law_holdings_persist(
    v: MarketView,
    after: MarketView,
    made: CreateVault,
    listed: List,
    ask: u64,
    bought: Buy,
    withdrawn: Sell,
    listing: Address,
    vault: Address,
    escrow: Address,
    destination: Address,
)
    requires
        create_vault_outcome(v, made, vault) == Ok::<MarketView, MarketError>(after) || list_outcome(
            v,
            listed,
            ask,
            listing,
            vault,
            escrow,
        ) == Ok::<MarketView, MarketError>(after) || buy_outcome(
            v,
            bought,
            vault,
            escrow,
            destination,
        ) == Ok::<MarketView, MarketError>(after) || sell_outcome(v, withdrawn, listing, vault)
            == Ok::<MarketView, MarketError>(after),
    ensures
        persists(v, after),
{
}

/// Atomicity: a purchase of a listing on record whose payment leg or
/// release leg fails, or whose payment holding holds less than the ask,
/// fails as a whole, and the market is as it was.
pub proof fn law_atomicity(
    v: MarketView,
    ctx: Buy,
    vault: Address,
    escrow: Address,
    destination: Address,
    after: MarketView,
    r: Result<(), MarketError>,
)
    requires
        v.listings.contains_key(ctx.listing),
        settled(buy_outcome(v, ctx, vault, escrow, destination), v, after, r),
        payment_leg(v, ctx, v.listings[ctx.listing].ask, escrow, destination) is Err || release_leg(
            v,
            ctx,
            v.listings[ctx.listing].ask,
            vault,
            escrow,
            destination,
        ) is Err || balance(v, ctx.source) < v.listings[ctx.listing].ask,
    ensures
        r is Err,
        after == v,
{
}

/// No double sale: after a purchase that succeeded, the same purchase
/// fails, for want of the listing, and moves nothing.
pub proof fn law_no_double_sale(
    v: MarketView,
    ctx: Buy,
    sold: MarketView,
    after: MarketView,
    r: Result<(), MarketError>,
)
    requires
        buy_result(v, ctx) == Ok::<MarketView, MarketError>(sold),
        settled(buy_result(sold, ctx), sold, after, r),
    ensures
        r == Err::<(), MarketError>(MarketError::ListingNotFound),
        MarketError::ListingNotFound.class_of() == ErrorClass::State,
        after == sold,
{
}

/// Authorization: a purchase of an active listing that names another
/// seller than the listing's, or another receiving holding than the one
/// derived for that seller, fails as unauthorized.
pub proof fn law_authorization(
    v: MarketView,
    ctx: Buy,
    vault: Address,
    escrow: Address,
    destination: Address,
)
    requires
        v.listings.contains_key(ctx.listing),
        v.listings[ctx.listing].active,
        ctx.seller != v.listings[ctx.listing].seller || ctx.seller_escrow != escrow,
    ensures
        buy_outcome(v, ctx, vault, escrow, destination) == Err::<MarketView, MarketError>(
            MarketError::UnauthorizedSeller,
        ),
        MarketError::UnauthorizedSeller.class_of() == ErrorClass::Authorization,
{
}

/// Uniqueness: where a listing of an asset by a seller is on record,
/// listing that asset by that seller again fails, and the market is as it
/// was.
pub proof fn law_uniqueness(
    m: Market,
    on_record: Address,
    ctx: List,
    ask: u64,
    after: MarketView,
    r: Result<(), MarketError>,
)
    requires
        m.wf(),
        m@.listings.contains_key(on_record),
        m@.listings[on_record].mint == ctx.nft_mint,
        m@.listings[on_record].seller == ctx.signer,
        settled(list_result(m@, ctx, ask), m@, after, r),
    ensures
        r is Err,
        after == m@,
{
    m.lemma_custody();
    assert(custody(m@));
}

} // verus!
