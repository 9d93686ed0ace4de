use lulo_dex::address::Address;
use lulo_dex::deriver::{derive_associated, derive_escrow, derive_listing, derive_vault};
use lulo_dex::error::{ErrorClass, MarketError};
use lulo_dex::ledger::{Holding, Ledger};
use lulo_dex::market::{
    buy, buy_at, create_vault, create_vault_at, initialize, list, list_at, sell, sell_at, Market,
};
use lulo_dex::records::{Buy, CreateVault, Initialize, List, Listing, Sell, State};

fn addr(n: u8) -> Address {
    Address::new([n; 32])
}

/// A market with a unique asset M in the seller's holding, an asset Q of
/// which the buyer holds some, and every address that the operations name.
struct World {
    market: Market,
    nft: Address,
    quote: Address,
    seller: Address,
    buyer: Address,
    seller_nft: Address,
    buyer_quote: Address,
    contract: Address,
    listing: Address,
    vault: Address,
    escrow: Address,
    destination: Address,
}

fn world_with(nft_supply: u64, seller_units: u64, buyer_funds: u64) -> World {
    let nft = addr(1);
    let quote = addr(2);
    let seller = addr(3);
    let buyer = addr(4);
    let seller_nft = addr(5);
    let buyer_quote = addr(6);
    let mut ledger = Ledger::new();
    ledger.register_asset(nft, nft_supply).unwrap();
    ledger.register_asset(quote, 1000).unwrap();
    ledger.ensure_exists(seller_nft, nft, seller).unwrap();
    ledger.ensure_exists(buyer_quote, quote, buyer).unwrap();
    ledger.fund(&seller_nft, seller_units).unwrap();
    ledger.fund(&buyer_quote, buyer_funds).unwrap();
    World {
        market: Market::new(ledger),
        nft,
        quote,
        seller,
        buyer,
        seller_nft,
        buyer_quote,
        contract: addr(7),
        listing: derive_listing(&nft, &seller).unwrap(),
        vault: derive_vault(&nft).unwrap().address(),
        escrow: derive_escrow(&seller, &quote).unwrap(),
        destination: derive_associated(&buyer, &nft).unwrap(),
    }
}

fn world(buyer_funds: u64) -> World {
    world_with(1, 1, buyer_funds)
}

fn list_ctx(w: &World) -> List {
    List {
        signer: w.seller,
        listing: w.listing,
        seller_nft: w.seller_nft,
        nft_vault: w.vault,
        nft_mint: w.nft,
        seller_escrow: w.escrow,
        contract: w.contract,
        ask_mint: w.quote,
    }
}

fn buy_ctx(w: &World) -> Buy {
    Buy {
        signer: w.buyer,
        seller: w.seller,
        source: w.buyer_quote,
        listing: w.listing,
        seller_escrow: w.escrow,
        destination: w.destination,
        nft_mint: w.nft,
        nft_vault: w.vault,
    }
}

fn sell_ctx(w: &World) -> Sell {
    Sell { signer: w.seller, seller_nft: w.seller_nft, nft_vault: w.vault, nft_mint: w.nft }
}

/// The world with the asset listed for 100 units of Q.
fn listed(buyer_funds: u64) -> World {
    let mut w = world(buyer_funds);
    let ctx = list_ctx(&w);
    list(&mut w.market, &ctx, 100).unwrap();
    w
}

fn balance(m: &Market, a: &Address) -> u64 {
    match m.ledger().holding(a) {
        Some(h) => h.amount,
        None => 0,
    }
}

/// All that the operations on this world can touch.
fn snapshot(w: &World) -> (Option<State>, Option<Listing>, Vec<Option<Holding>>, Vec<Option<u64>>) {
    let l = w.market.ledger();
    (
        w.market.config(),
        w.market.listing(&w.listing),
        vec![
            l.holding(&w.seller_nft),
            l.holding(&w.buyer_quote),
            l.holding(&w.vault),
            l.holding(&w.escrow),
            l.holding(&w.destination),
        ],
        vec![l.supply(&w.nft), l.supply(&w.quote), l.allocated(&w.nft), l.allocated(&w.quote)],
    )
}

#[test]
fn new_market_has_no_configuration_and_no_listing() {
    let w = world(150);
    assert_eq!(w.market.config(), None);
    assert_eq!(w.market.listing(&w.listing), None);
    assert_eq!(balance(&w.market, &w.seller_nft), 1);
    assert_eq!(balance(&w.market, &w.buyer_quote), 150);
}

#[test]
fn initialize_writes_the_configuration() {
    let mut w = world(0);
    assert_eq!(initialize(&mut w.market, &Initialize { signer: addr(9) }, 25, 1000), Ok(()));
    assert_eq!(w.market.config(), Some(State { admin: addr(9), fee: 25, fee_scalar: 1000 }));
}

#[test]
fn a_second_initialize_is_rejected() {
    let mut w = world(0);
    initialize(&mut w.market, &Initialize { signer: addr(9) }, 25, 1000).unwrap();
    let r = initialize(&mut w.market, &Initialize { signer: addr(10) }, 50, 2000);
    assert_eq!(r, Err(MarketError::AlreadyInitialized));
    assert_eq!(r.unwrap_err().class(), ErrorClass::State);
    assert_eq!(w.market.config(), Some(State { admin: addr(9), fee: 25, fee_scalar: 1000 }));
    let r = initialize(&mut w.market, &Initialize { signer: addr(9) }, 50, 2000);
    assert_eq!(r, Err(MarketError::AlreadyInitialized));
    assert_eq!(w.market.config(), Some(State { admin: addr(9), fee: 25, fee_scalar: 1000 }));
}

#[test]
fn create_vault_makes_an_empty_vault_in_custody() {
    let mut w = world(0);
    initialize(&mut w.market, &Initialize { signer: addr(9) }, 0, 1).unwrap();
    let vault = derive_vault(&w.quote).unwrap().address();
    let ctx = CreateVault { signer: addr(9), vault, mint: w.quote };
    assert_eq!(create_vault(&mut w.market, &ctx), Ok(()));
    assert_eq!(
        w.market.ledger().holding(&vault),
        Some(Holding { mint: w.quote, authority: vault, amount: 0 })
    );
    assert_eq!(create_vault(&mut w.market, &ctx), Ok(()));
    assert_eq!(balance(&w.market, &vault), 0);
}

#[test]
fn create_vault_needs_the_configuration() {
    let mut w = world(0);
    let vault = derive_vault(&w.quote).unwrap().address();
    let ctx = CreateVault { signer: addr(9), vault, mint: w.quote };
    assert_eq!(create_vault(&mut w.market, &ctx), Err(MarketError::NotInitialized));
    assert_eq!(w.market.ledger().holding(&vault), None);
}

#[test]
fn create_vault_is_for_the_admin_alone() {
    let mut w = world(0);
    initialize(&mut w.market, &Initialize { signer: addr(9) }, 0, 1).unwrap();
    let vault = derive_vault(&w.quote).unwrap().address();
    let ctx = CreateVault { signer: addr(10), vault, mint: w.quote };
    let r = create_vault(&mut w.market, &ctx);
    assert_eq!(r, Err(MarketError::UnauthorizedAdmin));
    assert_eq!(r.unwrap_err().class(), ErrorClass::Authorization);
    assert_eq!(w.market.ledger().holding(&vault), None);
}

#[test]
fn create_vault_refuses_another_address_and_an_unknown_asset() {
    let mut w = world(0);
    initialize(&mut w.market, &Initialize { signer: addr(9) }, 0, 1).unwrap();
    let vault = derive_vault(&w.quote).unwrap().address();
    let ctx = CreateVault { signer: addr(9), vault: addr(50), mint: w.quote };
    assert_eq!(create_vault(&mut w.market, &ctx), Err(MarketError::AddressMismatch));
    let ctx = CreateVault { signer: addr(9), vault: w.vault, mint: w.quote };
    assert_eq!(create_vault(&mut w.market, &ctx), Err(MarketError::AddressMismatch));
    assert_eq!(w.market.ledger().holding(&vault), None);
    let unknown = addr(60);
    let ctx = CreateVault {
        signer: addr(9),
        vault: derive_vault(&unknown).unwrap().address(),
        mint: unknown,
    };
    assert_eq!(create_vault(&mut w.market, &ctx), Err(MarketError::UnknownAsset));
}

#[test]
fn create_vault_refuses_an_address_that_another_holding_has() {
    let nft = addr(1);
    let vault = derive_vault(&nft).unwrap().address();
    let mut ledger = Ledger::new();
    ledger.register_asset(nft, 1).unwrap();
    ledger.ensure_exists(vault, nft, addr(3)).unwrap();
    let mut market = Market::new(ledger);
    initialize(&mut market, &Initialize { signer: addr(9) }, 0, 1).unwrap();
    let ctx = CreateVault { signer: addr(9), vault, mint: nft };
    let r = create_vault(&mut market, &ctx);
    assert_eq!(r, Err(MarketError::VaultCreationError));
    assert_eq!(r.unwrap_err().class(), ErrorClass::Validation);
    assert_eq!(market.ledger().holding(&vault), Some(Holding { mint: nft, authority: addr(3), amount: 0 }));
}

#[test]
fn create_vault_at_takes_the_proof() {
    let mut w = world(0);
    initialize(&mut w.market, &Initialize { signer: addr(9) }, 0, 1).unwrap();
    let proof = derive_vault(&w.nft).unwrap();
    let ctx = CreateVault { signer: addr(9), vault: w.vault, mint: w.nft };
    assert_eq!(create_vault_at(&mut w.market, &ctx, &proof), Ok(()));
    assert_eq!(
        w.market.ledger().holding(&w.vault),
        Some(Holding { mint: w.nft, authority: w.vault, amount: 0 })
    );
}

#[test]
fn list_writes_the_record_and_takes_the_asset_into_custody() {
    let mut w = world(150);
    let ctx = list_ctx(&w);
    assert_eq!(list(&mut w.market, &ctx, 100), Ok(()));
    assert_eq!(
        w.market.listing(&w.listing),
        Some(Listing {
            active: true,
            seller: w.seller,
            mint: w.nft,
            contract: w.contract,
            ask_mint: w.quote,
            ask: 100,
        })
    );
    let l = w.market.ledger();
    assert_eq!(l.holding(&w.vault), Some(Holding { mint: w.nft, authority: w.vault, amount: 1 }));
    assert_eq!(l.holding(&w.seller_nft), Some(Holding { mint: w.nft, authority: w.seller, amount: 0 }));
    assert_eq!(l.holding(&w.escrow), Some(Holding { mint: w.quote, authority: w.escrow, amount: 0 }));
    assert_eq!(l.holding(&w.buyer_quote).unwrap().amount, 150);
    assert_eq!(l.holding(&w.destination), None);
}

#[test]
fn list_at_takes_what_was_derived() {
    let mut w = world(150);
    let ctx = list_ctx(&w);
    let proof = derive_vault(&w.nft).unwrap();
    assert_eq!(list_at(&mut w.market, &ctx, 7, w.listing, &proof, w.escrow), Ok(()));
    assert_eq!(w.market.listing(&w.listing).unwrap().ask, 7);
    assert_eq!(balance(&w.market, &w.vault), 1);
}

#[test]
fn list_into_a_vault_that_was_made_before() {
    let mut w = world(150);
    initialize(&mut w.market, &Initialize { signer: addr(9) }, 0, 1).unwrap();
    create_vault(&mut w.market, &CreateVault { signer: addr(9), vault: w.vault, mint: w.nft })
        .unwrap();
    let ctx = list_ctx(&w);
    assert_eq!(list(&mut w.market, &ctx, 100), Ok(()));
    assert_eq!(balance(&w.market, &w.vault), 1);
}

#[test]
fn an_asset_with_a_supply_of_five_is_not_listed() {
    let mut w = world_with(5, 1, 150);
    let before = snapshot(&w);
    let ctx = list_ctx(&w);
    let r = list(&mut w.market, &ctx, 100);
    assert_eq!(r, Err(MarketError::InvalidSupply));
    assert_eq!(r.unwrap_err().class(), ErrorClass::Validation);
    assert_eq!(w.market.listing(&w.listing), None);
    assert_eq!(w.market.ledger().holding(&w.vault), None);
    assert_eq!(balance(&w.market, &w.seller_nft), 1);
    assert_eq!(snapshot(&w), before);
}

#[test]
fn list_refuses_a_supply_of_none() {
    let mut w = world_with(0, 0, 150);
    let ctx = list_ctx(&w);
    assert_eq!(list(&mut w.market, &ctx, 100), Err(MarketError::InvalidSupply));
}

#[test]
fn list_refuses_unknown_assets() {
    let mut w = world(150);
    let before = snapshot(&w);
    let mut ctx = list_ctx(&w);
    ctx.ask_mint = addr(60);
    ctx.seller_escrow = derive_escrow(&w.seller, &addr(60)).unwrap();
    assert_eq!(list(&mut w.market, &ctx, 100), Err(MarketError::UnknownAsset));
    let mut ctx = list_ctx(&w);
    ctx.nft_mint = addr(61);
    ctx.nft_vault = derive_vault(&addr(61)).unwrap().address();
    ctx.listing = derive_listing(&addr(61), &w.seller).unwrap();
    assert_eq!(list(&mut w.market, &ctx, 100), Err(MarketError::UnknownAsset));
    assert_eq!(snapshot(&w), before);
}

#[test]
fn list_refuses_accounts_at_other_addresses() {
    let mut w = world(150);
    let before = snapshot(&w);
    let mut ctx = list_ctx(&w);
    ctx.listing = addr(50);
    assert_eq!(list(&mut w.market, &ctx, 100), Err(MarketError::AddressMismatch));
    let mut ctx = list_ctx(&w);
    ctx.nft_vault = w.escrow;
    assert_eq!(list(&mut w.market, &ctx, 100), Err(MarketError::AddressMismatch));
    let mut ctx = list_ctx(&w);
    ctx.seller_escrow = derive_escrow(&w.buyer, &w.quote).unwrap();
    assert_eq!(list(&mut w.market, &ctx, 100), Err(MarketError::AddressMismatch));
    assert_eq!(snapshot(&w), before);
}

#[test]
fn list_refuses_a_holding_without_the_unit() {
    let mut w = world_with(1, 0, 150);
    let before = snapshot(&w);
    let ctx = list_ctx(&w);
    let r = list(&mut w.market, &ctx, 100);
    assert_eq!(r, Err(MarketError::InsufficientBalance));
    assert_eq!(r.unwrap_err().class(), ErrorClass::Validation);
    assert_eq!(snapshot(&w), before);
    assert_eq!(w.market.ledger().holding(&w.vault), None);
    assert_eq!(w.market.ledger().holding(&w.escrow), None);
}

#[test]
fn list_refuses_a_holding_of_another_asset_or_none() {
    let mut w = world(150);
    let before = snapshot(&w);
    let mut ctx = list_ctx(&w);
    ctx.seller_nft = w.buyer_quote;
    assert_eq!(list(&mut w.market, &ctx, 100), Err(MarketError::AssetMismatch));
    ctx.seller_nft = addr(51);
    assert_eq!(list(&mut w.market, &ctx, 100), Err(MarketError::UnknownHolding));
    assert_eq!(snapshot(&w), before);
}

#[test]
fn list_refuses_a_holding_of_another_caller() {
    let mut w = world(150);
    let before = snapshot(&w);
    let mut ctx = list_ctx(&w);
    ctx.signer = w.buyer;
    ctx.listing = derive_listing(&w.nft, &w.buyer).unwrap();
    ctx.seller_escrow = derive_escrow(&w.buyer, &w.quote).unwrap();
    let r = list(&mut w.market, &ctx, 100);
    assert_eq!(r, Err(MarketError::UnauthorizedDeposit));
    assert_eq!(r.unwrap_err().class(), ErrorClass::Authorization);
    assert_eq!(snapshot(&w), before);
    assert_eq!(w.market.listing(&ctx.listing), None);
}

#[test]
fn list_twice_fails_rather_than_overwrites() {
    let mut w = listed(150);
    let before = snapshot(&w);
    let ctx = list_ctx(&w);
    let r = list(&mut w.market, &ctx, 5);
    assert_eq!(r, Err(MarketError::ListingAlreadyExists));
    assert_eq!(r.unwrap_err().class(), ErrorClass::State);
    assert_eq!(w.market.listing(&w.listing).unwrap().ask, 100);
    assert_eq!(snapshot(&w), before);
}

#[test]
fn list_for_nothing_is_a_listing() {
    let mut w = world(0);
    let ctx = list_ctx(&w);
    assert_eq!(list(&mut w.market, &ctx, 0), Ok(()));
    let ctx = buy_ctx(&w);
    assert_eq!(buy(&mut w.market, &ctx), Ok(()));
    assert_eq!(balance(&w.market, &w.destination), 1);
    assert_eq!(balance(&w.market, &w.escrow), 0);
}

#[test]
fn custody_holds_one_unit_while_the_listing_is_active() {
    let mut w = listed(150);
    assert!(w.market.listing(&w.listing).unwrap().active);
    assert_eq!(balance(&w.market, &w.vault), 1);
    assert!(w.market.lists(&w.nft));
    assert!(!w.market.lists(&w.quote));
    let mut ctx = buy_ctx(&w);
    ctx.seller = w.buyer;
    assert!(buy(&mut w.market, &ctx).is_err());
    assert!(w.market.listing(&w.listing).unwrap().active);
    assert_eq!(balance(&w.market, &w.vault), 1);
}

#[test]
fn a_listing_is_bought_for_its_ask() {
    let mut w = listed(150);
    let ctx = buy_ctx(&w);
    assert_eq!(buy(&mut w.market, &ctx), Ok(()));
    assert_eq!(w.market.listing(&w.listing), None);
    assert!(!w.market.lists(&w.nft));
    let l = w.market.ledger();
    assert_eq!(l.holding(&w.vault), Some(Holding { mint: w.nft, authority: w.vault, amount: 0 }));
    assert_eq!(
        l.holding(&w.destination),
        Some(Holding { mint: w.nft, authority: w.buyer, amount: 1 })
    );
    assert_eq!(l.holding(&w.escrow), Some(Holding { mint: w.quote, authority: w.escrow, amount: 100 }));
    assert_eq!(l.holding(&w.buyer_quote), Some(Holding { mint: w.quote, authority: w.buyer, amount: 50 }));
    assert_eq!(l.holding(&w.seller_nft).unwrap().amount, 0);
    assert_eq!(l.allocated(&w.nft), Some(1));
    assert_eq!(l.allocated(&w.quote), Some(150));
}

#[test]
fn buy_with_exactly_the_ask() {
    let mut w = listed(100);
    let ctx = buy_ctx(&w);
    assert_eq!(buy(&mut w.market, &ctx), Ok(()));
    assert_eq!(balance(&w.market, &w.buyer_quote), 0);
    assert_eq!(balance(&w.market, &w.escrow), 100);
    assert_eq!(balance(&w.market, &w.destination), 1);
}

#[test]
fn buy_at_takes_what_was_derived() {
    let mut w = listed(150);
    let ctx = buy_ctx(&w);
    let proof = derive_vault(&w.nft).unwrap();
    assert_eq!(buy_at(&mut w.market, &ctx, &proof, w.escrow, w.destination), Ok(()));
    assert_eq!(balance(&w.market, &w.vault), 0);
    assert_eq!(balance(&w.market, &w.destination), 1);
    assert_eq!(balance(&w.market, &w.escrow), 100);
}

#[test]
fn buy_into_a_holding_that_the_buyer_has() {
    let mut w = world(150);
    w.market = {
        let mut ledger = Ledger::new();
        ledger.register_asset(w.nft, 1).unwrap();
        ledger.register_asset(w.quote, 1000).unwrap();
        ledger.ensure_exists(w.seller_nft, w.nft, w.seller).unwrap();
        ledger.ensure_exists(w.buyer_quote, w.quote, w.buyer).unwrap();
        ledger.ensure_exists(w.destination, w.nft, w.buyer).unwrap();
        ledger.fund(&w.seller_nft, 1).unwrap();
        ledger.fund(&w.buyer_quote, 150).unwrap();
        Market::new(ledger)
    };
    let ctx = list_ctx(&w);
    list(&mut w.market, &ctx, 100).unwrap();
    let ctx = buy_ctx(&w);
    assert_eq!(buy(&mut w.market, &ctx), Ok(()));
    assert_eq!(balance(&w.market, &w.destination), 1);
}

#[test]
fn a_buyer_with_too_little_changes_nothing() {
    let mut w = listed(50);
    let before = snapshot(&w);
    let ctx = buy_ctx(&w);
    let r = buy(&mut w.market, &ctx);
    assert_eq!(r, Err(MarketError::InsufficientPayment));
    assert_eq!(r.unwrap_err().class(), ErrorClass::Validation);
    assert_eq!(snapshot(&w), before);
    assert!(w.market.listing(&w.listing).unwrap().active);
    assert_eq!(balance(&w.market, &w.vault), 1);
    assert_eq!(balance(&w.market, &w.buyer_quote), 50);
    assert_eq!(balance(&w.market, &w.escrow), 0);
    assert_eq!(w.market.ledger().holding(&w.destination), None);
}

#[test]
fn buy_one_unit_short() {
    let mut w = listed(99);
    let ctx = buy_ctx(&w);
    assert_eq!(buy(&mut w.market, &ctx), Err(MarketError::InsufficientPayment));
}

#[test]
fn buy_whose_payment_leg_fails_changes_nothing() {
    let mut w = listed(150);
    let before = snapshot(&w);
    let mut ctx = buy_ctx(&w);
    ctx.signer = addr(8);
    ctx.destination = derive_associated(&addr(8), &w.nft).unwrap();
    let r = buy(&mut w.market, &ctx);
    assert_eq!(r, Err(MarketError::AtomicityFailure));
    assert_eq!(r.unwrap_err().class(), ErrorClass::Atomicity);
    assert_eq!(snapshot(&w), before);
    assert_eq!(w.market.ledger().holding(&ctx.destination), None);
}

#[test]
fn buy_twice_sells_once() {
    let mut w = listed(300);
    let ctx = buy_ctx(&w);
    assert_eq!(buy(&mut w.market, &ctx), Ok(()));
    let before = snapshot(&w);
    let r = buy(&mut w.market, &ctx);
    assert_eq!(r, Err(MarketError::ListingNotFound));
    assert_eq!(r.unwrap_err().class(), ErrorClass::State);
    assert_eq!(snapshot(&w), before);
    assert_eq!(balance(&w.market, &w.buyer_quote), 200);
    assert_eq!(balance(&w.market, &w.escrow), 100);
    assert_eq!(balance(&w.market, &w.destination), 1);
}

#[test]
fn buy_of_no_listing() {
    let mut w = world(150);
    let ctx = buy_ctx(&w);
    assert_eq!(buy(&mut w.market, &ctx), Err(MarketError::ListingNotFound));
}

#[test]
fn buy_naming_another_seller_is_unauthorized() {
    let mut w = listed(150);
    let before = snapshot(&w);
    let mut ctx = buy_ctx(&w);
    ctx.seller = w.buyer;
    let r = buy(&mut w.market, &ctx);
    assert_eq!(r, Err(MarketError::UnauthorizedSeller));
    assert_eq!(r.unwrap_err().class(), ErrorClass::Authorization);
    assert_eq!(snapshot(&w), before);
}

#[test]
fn buy_paying_into_another_holding_is_unauthorized() {
    let mut w = listed(150);
    let before = snapshot(&w);
    let mut ctx = buy_ctx(&w);
    ctx.seller_escrow = w.buyer_quote;
    assert_eq!(buy(&mut w.market, &ctx), Err(MarketError::UnauthorizedSeller));
    ctx.seller_escrow = derive_escrow(&w.buyer, &w.quote).unwrap();
    assert_eq!(buy(&mut w.market, &ctx), Err(MarketError::UnauthorizedSeller));
    assert_eq!(snapshot(&w), before);
}

#[test]
fn buy_naming_another_asset() {
    let mut w = listed(150);
    let before = snapshot(&w);
    let mut ctx = buy_ctx(&w);
    ctx.nft_mint = w.quote;
    ctx.nft_vault = derive_vault(&w.quote).unwrap().address();
    ctx.destination = derive_associated(&w.buyer, &w.quote).unwrap();
    assert_eq!(buy(&mut w.market, &ctx), Err(MarketError::AssetMismatch));
    assert_eq!(snapshot(&w), before);
}

#[test]
fn buy_naming_another_vault() {
    let mut w = listed(150);
    let before = snapshot(&w);
    let mut ctx = buy_ctx(&w);
    ctx.nft_vault = w.escrow;
    let r = buy(&mut w.market, &ctx);
    assert_eq!(r, Err(MarketError::UnauthorizedRelease));
    assert_eq!(r.unwrap_err().class(), ErrorClass::Authorization);
    assert_eq!(snapshot(&w), before);
}

#[test]
fn buy_naming_another_destination() {
    let mut w = listed(150);
    let before = snapshot(&w);
    let mut ctx = buy_ctx(&w);
    ctx.destination = w.seller_nft;
    assert_eq!(buy(&mut w.market, &ctx), Err(MarketError::AddressMismatch));
    assert_eq!(snapshot(&w), before);
}

#[test]
fn buy_paying_from_a_holding_of_another_asset_or_none() {
    let mut w = listed(150);
    let before = snapshot(&w);
    let mut ctx = buy_ctx(&w);
    ctx.source = w.seller_nft;
    assert_eq!(buy(&mut w.market, &ctx), Err(MarketError::AssetMismatch));
    ctx.source = addr(52);
    let r = buy(&mut w.market, &ctx);
    assert_eq!(r, Err(MarketError::UnknownHolding));
    assert_eq!(r.unwrap_err().class(), ErrorClass::Validation);
    assert_eq!(snapshot(&w), before);
}

#[test]
fn buy_into_a_destination_that_is_anothers() {
    let nft = addr(1);
    let quote = addr(2);
    let (seller, buyer) = (addr(3), addr(4));
    let destination = derive_associated(&buyer, &nft).unwrap();
    let mut ledger = Ledger::new();
    ledger.register_asset(nft, 1).unwrap();
    ledger.register_asset(quote, 1000).unwrap();
    ledger.ensure_exists(addr(5), nft, seller).unwrap();
    ledger.ensure_exists(addr(6), quote, buyer).unwrap();
    ledger.ensure_exists(destination, nft, seller).unwrap();
    ledger.fund(&addr(5), 1).unwrap();
    ledger.fund(&addr(6), 150).unwrap();
    let mut w = world(150);
    w.market = Market::new(ledger);
    let ctx = list_ctx(&w);
    list(&mut w.market, &ctx, 100).unwrap();
    let before = snapshot(&w);
    let ctx = buy_ctx(&w);
    assert_eq!(buy(&mut w.market, &ctx), Err(MarketError::AssetMismatch));
    assert_eq!(snapshot(&w), before);
}

#[test]
fn buy_of_a_closed_listing() {
    let mut w = world(150);
    let closed = Listing {
        active: false,
        seller: w.seller,
        mint: w.nft,
        contract: w.contract,
        ask_mint: w.quote,
        ask: 100,
    };
    assert_eq!(w.market.restore_listing(&closed), Ok(()));
    assert_eq!(w.market.listing(&w.listing), Some(closed));
    let before = snapshot(&w);
    let ctx = buy_ctx(&w);
    let r = buy(&mut w.market, &ctx);
    assert_eq!(r, Err(MarketError::ListingNotActive));
    assert_eq!(r.unwrap_err().class(), ErrorClass::State);
    let ctx = sell_ctx(&w);
    assert_eq!(sell(&mut w.market, &ctx), Err(MarketError::ListingNotActive));
    assert_eq!(snapshot(&w), before);
}

#[test]
fn sell_takes_the_asset_back() {
    let mut w = listed(150);
    let ctx = sell_ctx(&w);
    assert_eq!(sell(&mut w.market, &ctx), Ok(()));
    assert_eq!(w.market.listing(&w.listing), None);
    assert_eq!(balance(&w.market, &w.vault), 0);
    assert_eq!(balance(&w.market, &w.seller_nft), 1);
    assert_eq!(balance(&w.market, &w.buyer_quote), 150);
    let ctx = buy_ctx(&w);
    assert_eq!(buy(&mut w.market, &ctx), Err(MarketError::ListingNotFound));
    let ctx = list_ctx(&w);
    assert_eq!(list(&mut w.market, &ctx, 80), Ok(()));
    assert_eq!(balance(&w.market, &w.vault), 1);
}

#[test]
fn sell_at_takes_what_was_derived() {
    let mut w = listed(150);
    let ctx = sell_ctx(&w);
    let proof = derive_vault(&w.nft).unwrap();
    assert_eq!(sell_at(&mut w.market, &ctx, w.listing, &proof), Ok(()));
    assert_eq!(balance(&w.market, &w.seller_nft), 1);
}

#[test]
fn sell_is_for_the_seller_alone() {
    let mut w = listed(150);
    let before = snapshot(&w);
    let mut ctx = sell_ctx(&w);
    ctx.signer = w.buyer;
    assert_eq!(sell(&mut w.market, &ctx), Err(MarketError::ListingNotFound));
    assert_eq!(snapshot(&w), before);
}

#[test]
fn sell_refuses_other_vaults_and_holdings() {
    let mut w = listed(150);
    let before = snapshot(&w);
    let mut ctx = sell_ctx(&w);
    ctx.nft_vault = w.escrow;
    assert_eq!(sell(&mut w.market, &ctx), Err(MarketError::UnauthorizedRelease));
    let mut ctx = sell_ctx(&w);
    ctx.seller_nft = addr(53);
    assert_eq!(sell(&mut w.market, &ctx), Err(MarketError::UnknownHolding));
    ctx.seller_nft = w.buyer_quote;
    assert_eq!(sell(&mut w.market, &ctx), Err(MarketError::AssetMismatch));
    ctx.seller_nft = w.vault;
    assert_eq!(sell(&mut w.market, &ctx), Err(MarketError::UnauthorizedSeller));
    assert_eq!(snapshot(&w), before);
}

#[test]
fn sell_after_the_sale_finds_no_listing() {
    let mut w = listed(150);
    let ctx = buy_ctx(&w);
    buy(&mut w.market, &ctx).unwrap();
    let ctx = sell_ctx(&w);
    assert_eq!(sell(&mut w.market, &ctx), Err(MarketError::ListingNotFound));
    assert_eq!(balance(&w.market, &w.destination), 1);
}

#[test]
fn restore_listing_takes_an_active_listing_with_its_asset_in_custody() {
    let nft = addr(1);
    let quote = addr(2);
    let seller = addr(3);
    let vault = derive_vault(&nft).unwrap().address();
    let record =
        Listing { active: true, seller, mint: nft, contract: addr(7), ask_mint: quote, ask: 9 };
    let mut ledger = Ledger::new();
    ledger.register_asset(nft, 1).unwrap();
    let mut empty = Market::new(ledger.stage());
    assert_eq!(empty.restore_listing(&record), Err(MarketError::UnknownHolding));
    ledger.ensure_exists(vault, nft, vault).unwrap();
    let mut unfunded = Market::new(ledger.stage());
    assert_eq!(unfunded.restore_listing(&record), Err(MarketError::InsufficientBalance));
    ledger.fund(&vault, 1).unwrap();
    let mut market = Market::new(ledger);
    assert_eq!(market.restore_listing(&record), Ok(()));
    assert_eq!(market.listing(&derive_listing(&nft, &seller).unwrap()), Some(record));
    assert!(market.lists(&nft));
    assert_eq!(market.restore_listing(&record), Err(MarketError::ListingAlreadyExists));
    let second = Listing { seller: addr(4), ..record };
    assert_eq!(market.restore_listing(&second), Err(MarketError::ListingAlreadyExists));
    assert_eq!(market.listing(&derive_listing(&nft, &addr(4)).unwrap()), None);
}

#[test]
fn restore_listing_refuses_an_asset_that_is_not_unique_or_not_known() {
    let nft = addr(1);
    let vault = derive_vault(&nft).unwrap().address();
    let record =
        Listing { active: true, seller: addr(3), mint: nft, contract: addr(7), ask_mint: addr(2), ask: 9 };
    let mut market = Market::new(Ledger::new());
    assert_eq!(market.restore_listing(&record), Err(MarketError::UnknownAsset));
    let mut ledger = Ledger::new();
    ledger.register_asset(nft, 2).unwrap();
    ledger.ensure_exists(vault, nft, vault).unwrap();
    ledger.fund(&vault, 1).unwrap();
    let mut market = Market::new(ledger);
    assert_eq!(market.restore_listing(&record), Err(MarketError::InvalidSupply));
    let mut ledger = Ledger::new();
    ledger.register_asset(nft, 1).unwrap();
    ledger.ensure_exists(vault, nft, addr(3)).unwrap();
    let mut market = Market::new(ledger);
    assert_eq!(market.restore_listing(&record), Err(MarketError::VaultCreationError));
}

#[test]
fn a_restored_listing_is_bought_like_any_other() {
    let mut w = world_with(1, 0, 150);
    w.market = {
        let mut ledger = Ledger::new();
        ledger.register_asset(w.nft, 1).unwrap();
        ledger.register_asset(w.quote, 1000).unwrap();
        ledger.ensure_exists(w.vault, w.nft, w.vault).unwrap();
        ledger.ensure_exists(w.escrow, w.quote, w.escrow).unwrap();
        ledger.ensure_exists(w.buyer_quote, w.quote, w.buyer).unwrap();
        ledger.fund(&w.vault, 1).unwrap();
        ledger.fund(&w.buyer_quote, 150).unwrap();
        ledger.fund(&w.escrow, 30).unwrap();
        Market::new(ledger)
    };
    let record = Listing {
        active: true,
        seller: w.seller,
        mint: w.nft,
        contract: w.contract,
        ask_mint: w.quote,
        ask: 100,
    };
    w.market.restore_listing(&record).unwrap();
    let ctx = buy_ctx(&w);
    assert_eq!(buy(&mut w.market, &ctx), Ok(()));
    assert_eq!(balance(&w.market, &w.escrow), 130);
    assert_eq!(balance(&w.market, &w.buyer_quote), 50);
    assert_eq!(balance(&w.market, &w.destination), 1);
    assert_eq!(balance(&w.market, &w.vault), 0);
}

#[test]
fn buy_without_the_sellers_receiving_holding_changes_nothing() {
    let mut w = world_with(1, 0, 150);
    w.market = {
        let mut ledger = Ledger::new();
        ledger.register_asset(w.nft, 1).unwrap();
        ledger.register_asset(w.quote, 1000).unwrap();
        ledger.ensure_exists(w.vault, w.nft, w.vault).unwrap();
        ledger.ensure_exists(w.buyer_quote, w.quote, w.buyer).unwrap();
        ledger.fund(&w.vault, 1).unwrap();
        ledger.fund(&w.buyer_quote, 150).unwrap();
        Market::new(ledger)
    };
    let record = Listing {
        active: true,
        seller: w.seller,
        mint: w.nft,
        contract: w.contract,
        ask_mint: w.quote,
        ask: 100,
    };
    w.market.restore_listing(&record).unwrap();
    let before = snapshot(&w);
    let ctx = buy_ctx(&w);
    assert_eq!(buy(&mut w.market, &ctx), Err(MarketError::AtomicityFailure));
    assert_eq!(snapshot(&w), before);
    assert_eq!(w.market.ledger().holding(&w.destination), None);
}

#[test]
fn the_fee_is_on_record_and_not_applied() {
    let mut w = listed(150);
    initialize(&mut w.market, &Initialize { signer: addr(9) }, 500, 1000).unwrap();
    let ctx = buy_ctx(&w);
    buy(&mut w.market, &ctx).unwrap();
    assert_eq!(balance(&w.market, &w.escrow), 100);
    assert_eq!(balance(&w.market, &w.buyer_quote), 50);
    assert_eq!(w.market.config().unwrap().fee, 500);
}
