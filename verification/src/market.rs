use vstd::prelude::*;
use crate::address::Address;
use crate::deriver::{
    associated_address, derive_associated, derive_escrow, derive_listing, derive_vault,
    escrow_address, listing_address, vault_address, VaultAuthority,
};
use crate::error::MarketError;
use crate::ledger::{deposit_outcome, ensure_outcome, release_outcome, Holding, Ledger};
use crate::records::{Buy, CreateVault, Initialize, List, Listing, Sell, State};
use crate::table::{lemma_lookup, slot, stored, Table};

verus! {

/// The market as the contracts see it.
#[verifier::ext_equal]
pub struct MarketView {
    /// The configuration, once written.
    pub config: Option<State>,
    /// The open listings, by address.
    pub listings: Map<Address, Listing>,
    /// The total supply of each asset.
    pub supplies: Map<Address, u64>,
    /// The holdings, by address.
    pub holdings: Map<Address, Holding>,
}

/// The asset is in custody: its supply is one unit, and its vault, a
/// holding under no authority but its own address, holds that unit.
pub open spec fn in_custody(v: MarketView, asset: Address) -> bool {
    &&& vault_address(asset) matches Some(vault)
    &&& v.supplies.contains_key(asset)
    &&& v.supplies[asset] == 1
    &&& v.holdings.contains_key(vault)
    &&& v.holdings[vault] == Holding { mint: asset, authority: vault, amount: 1 }
}

/// What holds of the listings of every market: each stands at the address
/// derived from its asset and seller; the asset of each active one is in
/// custody; no two active ones are of the same asset.
pub open spec fn custody(v: MarketView) -> bool {
    &&& forall|a: Address| #[trigger]
        v.listings.contains_key(a) ==> listing_address(v.listings[a].mint, v.listings[a].seller)
            == Some(a)
    &&& forall|a: Address| #[trigger]
        v.listings.contains_key(a) && v.listings[a].active ==> in_custody(v, v.listings[a].mint)
    &&& forall|a: Address, b: Address|
        #[trigger] v.listings.contains_key(a) && #[trigger] v.listings.contains_key(b)
            && v.listings[a].active && v.listings[b].active && a != b ==> v.listings[a].mint
            != v.listings[b].mint
}

/// An operation ended as `outcome` says: with the new market where it gives
/// one, and with the error and the market unchanged where it gives none.
pub open spec fn settled(
    outcome: Result<MarketView, MarketError>,
    before: MarketView,
    after: MarketView,
    r: Result<(), MarketError>,
) -> bool {
    match outcome {
        Ok(v) => r is Ok && after == v,
        Err(e) => r == Err::<(), MarketError>(e) && after == before,
    }
}

/// What writing the configuration gives: the record, on a market that has
/// none yet.
pub open spec fn initialize_outcome(v: MarketView, ctx: Initialize, fee: u64, fee_scalar: u64) -> Result<
    MarketView,
    MarketError,
> {
    if v.config is Some {
        Err(MarketError::AlreadyInitialized)
    } else {
        Ok(
            MarketView {
                config: Some(State { admin: ctx.signer, fee, fee_scalar }),
                listings: v.listings,
                supplies: v.supplies,
                holdings: v.holdings,
            },
        )
    }
}

/// What making a vault gives, where `vault` is the address derived for the
/// asset: for the admin alone, an empty vault in custody if none stands
/// there.
pub open spec fn create_vault_outcome(v: MarketView, ctx: CreateVault, vault: Address) -> Result<
    MarketView,
    MarketError,
> {
    match v.config {
        None => Err(MarketError::NotInitialized),
        Some(state) => {
            if ctx.signer != state.admin {
                Err(MarketError::UnauthorizedAdmin)
            } else if ctx.vault != vault {
                Err(MarketError::AddressMismatch)
            } else {
                match ensure_outcome(v.supplies, v.holdings, vault, ctx.mint, vault) {
                    Err(e) => Err(e),
                    Ok(h) => Ok(
                        MarketView {
                            config: v.config,
                            listings: v.listings,
                            supplies: v.supplies,
                            holdings: h,
                        },
                    ),
                }
            }
        },
    }
}

/// What making a vault gives.
pub open spec fn create_vault_result(v: MarketView, ctx: CreateVault) -> Result<MarketView, MarketError> {
    match vault_address(ctx.mint) {
        Some(vault) => create_vault_outcome(v, ctx, vault),
        None => Err(MarketError::AddressUnavailable),
    }
}

/// The record that `list` writes.
pub open spec fn listed(ctx: List, ask: u64) -> Listing {
    Listing {
        active: true,
        seller: ctx.signer,
        mint: ctx.nft_mint,
        contract: ctx.contract,
        ask_mint: ctx.ask_mint,
        ask,
    }
}

/// What listing gives, where `listing`, `vault` and `escrow` are the
/// addresses derived for the listing, for the asset's vault and for the
/// seller's receiving holding: the vault and the receiving holding are made
/// sure of, the one unit goes from the seller's holding into the vault, and
/// the record is written. All of it, or nothing.
pub open spec fn list_outcome(
    v: MarketView,
    ctx: List,
    ask: u64,
    listing: Address,
    vault: Address,
    escrow: Address,
) -> Result<MarketView, MarketError> {
    if !v.supplies.contains_key(ctx.nft_mint) || !v.supplies.contains_key(ctx.ask_mint) {
        Err(MarketError::UnknownAsset)
    } else if v.supplies[ctx.nft_mint] != 1 {
        Err(MarketError::InvalidSupply)
    } else if ctx.listing != listing || ctx.nft_vault != vault || ctx.seller_escrow != escrow {
        Err(MarketError::AddressMismatch)
    } else if v.listings.contains_key(listing) {
        Err(MarketError::ListingAlreadyExists)
    } else {
        match ensure_outcome(v.supplies, v.holdings, vault, ctx.nft_mint, vault) {
            Err(e) => Err(e),
            Ok(h1) => match ensure_outcome(v.supplies, h1, escrow, ctx.ask_mint, escrow) {
                Err(e) => Err(e),
                Ok(h2) => match deposit_outcome(h2, vault, ctx.seller_nft, 1, ctx.signer) {
                    Err(e) => Err(e),
                    Ok(h3) => Ok(
                        MarketView {
                            config: v.config,
                            listings: v.listings.insert(listing, listed(ctx, ask)),
                            supplies: v.supplies,
                            holdings: h3,
                        },
                    ),
                },
            },
        }
    }
}

/// What listing gives.
pub open spec fn list_result(v: MarketView, ctx: List, ask: u64) -> Result<MarketView, MarketError> {
    match (
        listing_address(ctx.nft_mint, ctx.signer),
        vault_address(ctx.nft_mint),
        escrow_address(ctx.signer, ctx.ask_mint),
    ) {
        (Some(listing), Some(vault), Some(escrow)) => list_outcome(
            v,
            ctx,
            ask,
            listing,
            vault,
            escrow,
        ),
        _ => Err(MarketError::AddressUnavailable),
    }
}

/// The payment leg of a purchase: the buyer's holding of the asset is made
/// sure of, and `ask` units go from the buyer's payment holding to the
/// seller's receiving holding.
pub open spec fn payment_leg(v: MarketView, ctx: Buy, ask: u64, escrow: Address, destination: Address) -> Result<
    Map<Address, Holding>,
    MarketError,
> {
    match ensure_outcome(v.supplies, v.holdings, destination, ctx.nft_mint, ctx.signer) {
        Err(e) => Err(e),
        Ok(h) => deposit_outcome(h, escrow, ctx.source, ask, ctx.signer),
    }
}

/// The release leg of a purchase, after the payment leg: one unit goes out
/// of the vault to the buyer's holding of the asset.
pub open spec fn release_leg(
    v: MarketView,
    ctx: Buy,
    ask: u64,
    vault: Address,
    escrow: Address,
    destination: Address,
) -> Result<Map<Address, Holding>, MarketError> {
    match payment_leg(v, ctx, ask, escrow, destination) {
        Err(e) => Err(e),
        Ok(h) => release_outcome(h, vault, destination, 1, vault),
    }
}

/// What the swap of a purchase gives: both legs, and the listing closed,
/// its record gone. Where a leg fails, nothing of the swap is kept.
pub open spec fn swap_outcome(
    v: MarketView,
    ctx: Buy,
    ask: u64,
    vault: Address,
    escrow: Address,
    destination: Address,
) -> Result<MarketView, MarketError> {
    match release_leg(v, ctx, ask, vault, escrow, destination) {
        Err(_) => Err(MarketError::AtomicityFailure),
        Ok(h) => Ok(
            MarketView {
                config: v.config,
                listings: v.listings.remove(ctx.listing),
                supplies: v.supplies,
                holdings: h,
            },
        ),
    }
}

/// What a purchase gives, where `vault`, `escrow` and `destination` are
/// the addresses derived for the asset's vault, for the seller's receiving
/// holding and for the buyer's associated holding of the asset.
pub open spec fn buy_outcome(
    v: MarketView,
    ctx: Buy,
    vault: Address,
    escrow: Address,
    destination: Address,
) -> Result<MarketView, MarketError> {
    if !v.listings.contains_key(ctx.listing) {
        Err(MarketError::ListingNotFound)
    } else {
        let l = v.listings[ctx.listing];
        if !l.active {
            Err(MarketError::ListingNotActive)
        } else if ctx.seller != l.seller || ctx.seller_escrow != escrow {
            Err(MarketError::UnauthorizedSeller)
        } else if ctx.nft_mint != l.mint {
            Err(MarketError::AssetMismatch)
        } else if ctx.nft_vault != vault {
            Err(MarketError::UnauthorizedRelease)
        } else if ctx.destination != destination {
            Err(MarketError::AddressMismatch)
        } else if !v.holdings.contains_key(ctx.source) {
            Err(MarketError::UnknownHolding)
        } else if v.holdings[ctx.source].mint != l.ask_mint {
            Err(MarketError::AssetMismatch)
        } else if v.holdings.contains_key(destination) && (v.holdings[destination].mint
            != ctx.nft_mint || v.holdings[destination].authority != ctx.signer) {
            Err(MarketError::AssetMismatch)
        } else if v.holdings[ctx.source].amount < l.ask {
            Err(MarketError::InsufficientPayment)
        } else {
            swap_outcome(v, ctx, l.ask, vault, escrow, destination)
        }
    }
}

/// What a purchase gives.
pub open spec fn buy_result(v: MarketView, ctx: Buy) -> Result<MarketView, MarketError> {
    if !v.listings.contains_key(ctx.listing) {
        Err(MarketError::ListingNotFound)
    } else {
        match (
            vault_address(ctx.nft_mint),
            escrow_address(v.listings[ctx.listing].seller, v.listings[ctx.listing].ask_mint),
            associated_address(ctx.signer, ctx.nft_mint),
        ) {
            (Some(vault), Some(escrow), Some(destination)) => buy_outcome(
                v,
                ctx,
                vault,
                escrow,
                destination,
            ),
            _ => Err(MarketError::AddressUnavailable),
        }
    }
}

/// The units that the holding at `address` holds; none where none stands
/// there.
pub open spec fn balance(v: MarketView, address: Address) -> int {
    if v.holdings.contains_key(address) {
        v.holdings[address].amount as int
    } else {
        0
    }
}

/// What taking a listed asset back gives, where `listing` and `vault` are
/// the addresses derived for the caller's listing of the asset and for the
/// asset's vault: the unit goes out of the vault to the seller's holding,
/// and the listing is closed, its record gone.
pub open spec fn sell_outcome(v: MarketView, ctx: Sell, listing: Address, vault: Address) -> Result<
    MarketView,
    MarketError,
> {
    if !v.listings.contains_key(listing) {
        Err(MarketError::ListingNotFound)
    } else {
        let l = v.listings[listing];
        if !l.active {
            Err(MarketError::ListingNotActive)
        } else if l.seller != ctx.signer || l.mint != ctx.nft_mint {
            Err(MarketError::UnauthorizedSeller)
        } else if ctx.nft_vault != vault {
            Err(MarketError::UnauthorizedRelease)
        } else if !v.holdings.contains_key(ctx.seller_nft) {
            Err(MarketError::UnknownHolding)
        } else if v.holdings[ctx.seller_nft].mint != ctx.nft_mint {
            Err(MarketError::AssetMismatch)
        } else if v.holdings[ctx.seller_nft].authority != ctx.signer {
            Err(MarketError::UnauthorizedSeller)
        } else {
            match release_outcome(v.holdings, vault, ctx.seller_nft, 1, vault) {
                Err(e) => Err(e),
                Ok(h) => Ok(
                    MarketView {
                        config: v.config,
                        listings: v.listings.remove(listing),
                        supplies: v.supplies,
                        holdings: h,
                    },
                ),
            }
        }
    }
}

/// What taking a listed asset back gives.
pub open spec fn sell_result(v: MarketView, ctx: Sell) -> Result<MarketView, MarketError> {
    match (listing_address(ctx.nft_mint, ctx.signer), vault_address(ctx.nft_mint)) {
        (Some(listing), Some(vault)) => sell_outcome(v, ctx, listing, vault),
        _ => Err(MarketError::AddressUnavailable),
    }
}

/// Some active listing of `v` is of `asset`.
pub open spec fn listed_asset(v: MarketView, asset: Address) -> bool {
    exists|a: Address| #[trigger]
        v.listings.contains_key(a) && v.listings[a].active && v.listings[a].mint == asset
}

/// What putting a listing back on record gives, where `address` and `vault`
/// are the addresses derived for the listing and for its asset's vault: the
/// record at its address, if nothing stands there and, where the listing is
/// active, its asset is in custody and no other active listing is of it.
pub open spec fn restore_outcome(v: MarketView, l: Listing, address: Address, vault: Address) -> Result<
    MarketView,
    MarketError,
> {
    let restored = MarketView {
        config: v.config,
        listings: v.listings.insert(address, l),
        supplies: v.supplies,
        holdings: v.holdings,
    };
    if v.listings.contains_key(address) {
        Err(MarketError::ListingAlreadyExists)
    } else if !l.active {
        Ok(restored)
    } else if !v.supplies.contains_key(l.mint) {
        Err(MarketError::UnknownAsset)
    } else if v.supplies[l.mint] != 1 {
        Err(MarketError::InvalidSupply)
    } else if !v.holdings.contains_key(vault) {
        Err(MarketError::UnknownHolding)
    } else if v.holdings[vault].mint != l.mint || v.holdings[vault].authority != vault {
        Err(MarketError::VaultCreationError)
    } else if v.holdings[vault].amount != 1 {
        Err(MarketError::InsufficientBalance)
    } else if listed_asset(v, l.mint) {
        Err(MarketError::ListingAlreadyExists)
    } else {
        Ok(restored)
    }
}

/// What putting a listing back on record gives.
pub open spec fn restore_result(v: MarketView, l: Listing) -> Result<MarketView, MarketError> {
    match (listing_address(l.mint, l.seller), vault_address(l.mint)) {
        (Some(address), Some(vault)) => restore_outcome(v, l, address, vault),
        _ => Err(MarketError::AddressUnavailable),
    }
}

/// The market: its configuration, its listings, and the ledger of the
/// assets that are traded on it.
#[derive(Debug)]
pub struct Market {
    config: Option<State>,
    listings: Table<Listing>,
    ledger: Ledger,
}

impl View for Market {
    type V = MarketView;

    closed spec fn view(&self) -> MarketView {
        MarketView {
            config: self.config,
            listings: self.listings.map(),
            supplies: self.ledger.supplies(),
            holdings: self.ledger.holdings(),
        }
    }
}

impl Market {
    /// The market is sound: its ledger is, and its listings are as
    /// `custody` says.
    pub closed spec fn wf(&self) -> bool {
        &&& self.listings.wf()
        &&& self.ledger.wf()
        &&& custody(self@)
    }

    /// In a sound market the asset of every active listing is in custody.
    pub proof fn lemma_custody(&self)
        requires
            self.wf(),
        ensures
            custody(self@),
    {
    }

    /// In a sound market every holding is of a known asset and holds no
    /// more than the asset's supply; two holdings of one asset hold no more
    /// than the supply together.
    pub proof fn lemma_conservation(&self, a: Address, b: Address)
        requires
            self.wf(),
            self@.holdings.contains_key(a),
            self@.holdings.contains_key(b),
        ensures
            self@.supplies.contains_key(self@.holdings[a].mint),
            self@.holdings[a].amount <= self@.supplies[self@.holdings[a].mint],
            a != b && self@.holdings[a].mint == self@.holdings[b].mint ==> self@.holdings[a].amount
                + self@.holdings[b].amount <= self@.supplies[self@.holdings[a].mint],
    {
        self.ledger.lemma_conservation(a, b);
    }

    /// A market over `ledger`, with no configuration and no listing.
    pub fn new(ledger: Ledger) -> (m: Market)
        requires
            ledger.wf(),
        ensures
            m.wf(),
            m@.config is None,
            m@.listings == Map::<Address, Listing>::empty(),
            m@.supplies == ledger.supplies(),
            m@.holdings == ledger.holdings(),
    {
        Market { config: None, listings: Table::new(), ledger }
    }

    /// The configuration, once written.
    pub fn config(&self) -> (r: Option<State>)
        ensures
            r == self@.config,
    {
        self.config
    }

    /// The listing at `address`, if one stands there.
    pub fn listing(&self, address: &Address) -> (r: Option<Listing>)
        requires
            self.wf(),
        ensures
            r == (if self@.listings.contains_key(*address) {
                Some(self@.listings[*address])
            } else {
                None
            }),
    {
        self.listings.get(address)
    }

    /// The ledger, to read.
    pub fn ledger(&self) -> (l: &Ledger)
        requires
            self.wf(),
        ensures
            l.wf(),
            l.supplies() == self@.supplies,
            l.holdings() == self@.holdings,
    {
        &self.ledger
    }

    /// Whether some active listing is of `asset`.
    pub fn lists(&self, asset: &Address) -> (r: bool)
        requires
            self.wf(),
        ensures
            r == listed_asset(self@, *asset),
    {
        let mut i: usize = 0;
        while i < self.listings.entries.len()
            invariant
                i <= self.listings.entries@.len(),
                self.listings.wf(),
                forall|j: int|
                    0 <= j < i ==> !((#[trigger] self.listings.entries@[j]).value.active
                        && self.listings.entries@[j].value.mint == *asset),
            decreases self.listings.entries@.len() - i,
        {
            if self.listings.entries[i].value.active && self.listings.entries[i].value.mint == *asset {
                proof {
                    lemma_lookup(self.listings.entries@, i as int);
                    assert(self@.listings.contains_key(self.listings.entries@[i as int].key));
                }
                return true;
            }
            i = i + 1;
        }
        proof {
            assert forall|a: Address| #[trigger]
                self@.listings.contains_key(a) implies !(self@.listings[a].active
                && self@.listings[a].mint == *asset) by {
                let j = slot(self.listings.entries@, a);
                lemma_lookup(self.listings.entries@, j);
            }
        }
        false
    }

    /// Puts a listing back on record, as it was kept: at the address
    /// derived from its asset and seller. An active one is taken only with
    /// its asset in custody.
    pub fn restore_listing(&mut self, l: &Listing) -> (r: Result<(), MarketError>)
        requires
            old(self).wf(),
        ensures
            final(self).wf(),
            settled(restore_result(old(self)@, *l), old(self)@, final(self)@, r),
    {
        let address = derive_listing(&l.mint, &l.seller);
        let vault = derive_vault(&l.mint);
        let (address, vault) = match (address, vault) {
            (Some(address), Some(vault)) => (address, vault),
            _ => {
                return Err(MarketError::AddressUnavailable);
            },
        };
        let custody_at = vault.address();
        if self.listings.find(&address).is_some() {
            return Err(MarketError::ListingAlreadyExists);
        }
        if l.active {
            match self.ledger.supply(&l.mint) {
                None => {
                    return Err(MarketError::UnknownAsset);
                },
                Some(supply) => {
                    if supply != 1 {
                        return Err(MarketError::InvalidSupply);
                    }
                },
            }
            match self.ledger.holding(&custody_at) {
                None => {
                    return Err(MarketError::UnknownHolding);
                },
                Some(h) => {
                    if h.mint != l.mint || h.authority != custody_at {
                        return Err(MarketError::VaultCreationError);
                    }
                    if h.amount != 1 {
                        return Err(MarketError::InsufficientBalance);
                    }
                },
            }
            if self.lists(&l.mint) {
                return Err(MarketError::ListingAlreadyExists);
            }
        }
        self.listings.put(address, *l);
        Ok(())
    }
}

/// Writes the configuration: the caller becomes the admin. The record is
/// written once; on a market that has one the call fails.
pub fn initialize(market: &mut Market, ctx: &Initialize, fee: u64, fee_scalar: u64) -> (r: Result<
    (),
    MarketError,
>)
    requires
        old(market).wf(),
    ensures
        final(market).wf(),
        settled(
            initialize_outcome(old(market)@, *ctx, fee, fee_scalar),
            old(market)@,
            final(market)@,
            r,
        ),
{
    if market.config.is_some() {
        return Err(MarketError::AlreadyInitialized);
    }
    market.config = Some(State { admin: ctx.signer, fee, fee_scalar });
    Ok(())
}

/// Makes the vault of an asset, given the proof derived for that asset.
/// `create_vault` derives it and calls this.
pub fn create_vault_at(market: &mut Market, ctx: &CreateVault, vault: &VaultAuthority) -> (r: Result<
    (),
    MarketError,
>)
    requires
        old(market).wf(),
        vault.asset() == ctx.mint,
    ensures
        final(market).wf(),
        vault_address(ctx.mint) is Some,
        settled(
            create_vault_outcome(old(market)@, *ctx, vault_address(ctx.mint)->Some_0),
            old(market)@,
            final(market)@,
            r,
        ),
{
    let address = vault.address();
    let state = match market.config {
        Some(state) => state,
        None => {
            return Err(MarketError::NotInitialized);
        },
    };
    if ctx.signer != state.admin {
        return Err(MarketError::UnauthorizedAdmin);
    }
    if ctx.vault != address {
        return Err(MarketError::AddressMismatch);
    }
    market.ledger.ensure_exists(address, ctx.mint, address)
}

/// Declares an asset supported: makes its vault. For the admin alone.
pub fn create_vault(market: &mut Market, ctx: &CreateVault) -> (r: Result<(), MarketError>)
    requires
        old(market).wf(),
    ensures
        final(market).wf(),
        settled(create_vault_result(old(market)@, *ctx), old(market)@, final(market)@, r),
{
    match derive_vault(&ctx.mint) {
        Some(vault) => create_vault_at(market, ctx, &vault),
        None => Err(MarketError::AddressUnavailable),
    }
}

/// Lists an asset, given what was derived for it: the listing's address
/// from asset and seller, the proof of the asset's vault, and the address of
/// the seller's receiving holding from seller and asset asked. `list`
/// derives the three and calls this.
pub fn list_at(
    market: &mut Market,
    ctx: &List,
    ask: u64,
    listing: Address,
    vault: &VaultAuthority,
    escrow: Address,
) -> (r: Result<(), MarketError>)
    requires
        old(market).wf(),
        listing_address(ctx.nft_mint, ctx.signer) == Some(listing),
        vault.asset() == ctx.nft_mint,
        escrow_address(ctx.signer, ctx.ask_mint) == Some(escrow),
    ensures
        final(market).wf(),
        vault_address(ctx.nft_mint) is Some,
        settled(
            list_outcome(
                old(market)@,
                *ctx,
                ask,
                listing,
                vault_address(ctx.nft_mint)->Some_0,
                escrow,
            ),
            old(market)@,
            final(market)@,
            r,
        ),
{
    let custody_at = vault.address();
    let supply = match market.ledger.supply(&ctx.nft_mint) {
        Some(supply) => supply,
        None => {
            return Err(MarketError::UnknownAsset);
        },
    };
    if market.ledger.supply(&ctx.ask_mint).is_none() {
        return Err(MarketError::UnknownAsset);
    }
    if supply != 1 {
        return Err(MarketError::InvalidSupply);
    }
    if ctx.listing != listing || ctx.nft_vault != custody_at || ctx.seller_escrow != escrow {
        return Err(MarketError::AddressMismatch);
    }
    if market.listings.find(&listing).is_some() {
        return Err(MarketError::ListingAlreadyExists);
    }
    let mut staged = market.ledger.stage();
    match staged.ensure_exists(custody_at, ctx.nft_mint, custody_at) {
        Err(e) => {
            return Err(e);
        },
        Ok(()) => {},
    }
    match staged.ensure_exists(escrow, ctx.ask_mint, escrow) {
        Err(e) => {
            return Err(e);
        },
        Ok(()) => {},
    }
    proof {
        // The seller's holding and the vault hold no more than the one unit
        // together: where the seller holds it, the vault is empty.
        if staged.holdings().contains_key(ctx.seller_nft) {
            staged.lemma_conservation(ctx.seller_nft, custody_at);
        }
    }
    match staged.deposit(&custody_at, &ctx.seller_nft, 1, &ctx.signer) {
        Err(e) => {
            return Err(e);
        },
        Ok(()) => {},
    }
    let record = Listing {
        active: true,
        seller: ctx.signer,
        mint: ctx.nft_mint,
        contract: ctx.contract,
        ask_mint: ctx.ask_mint,
        ask,
    };
    market.ledger.commit(staged);
    market.listings.put(listing, record);
    Ok(())
}

/// Creates a listing: the seller's one unit of a unique asset goes into the
/// asset's vault, and the offer is put on record at the address derived
/// from asset and seller.
pub fn list(market: &mut Market, ctx: &List, ask: u64) -> (r: Result<(), MarketError>)
    requires
        old(market).wf(),
    ensures
        final(market).wf(),
        settled(list_result(old(market)@, *ctx, ask), old(market)@, final(market)@, r),
{
    let listing = derive_listing(&ctx.nft_mint, &ctx.signer);
    let vault = derive_vault(&ctx.nft_mint);
    let escrow = derive_escrow(&ctx.signer, &ctx.ask_mint);
    match (listing, vault, escrow) {
        (Some(listing), Some(vault), Some(escrow)) => list_at(
            market,
            ctx,
            ask,
            listing,
            &vault,
            escrow,
        ),
        _ => Err(MarketError::AddressUnavailable),
    }
}

/// Buys a listing, given what was derived for it: the proof of the asset's
/// vault, the address of the receiving holding of the listing's seller, and
/// the address of the buyer's associated holding of the asset. `buy`
/// derives the three and calls this.
pub fn buy_at(
    market: &mut Market,
    ctx: &Buy,
    vault: &VaultAuthority,
    escrow: Address,
    destination: Address,
) -> (r: Result<(), MarketError>)
    requires
        old(market).wf(),
        vault.asset() == ctx.nft_mint,
        old(market)@.listings.contains_key(ctx.listing) ==> escrow_address(
            old(market)@.listings[ctx.listing].seller,
            old(market)@.listings[ctx.listing].ask_mint,
        ) == Some(escrow),
        associated_address(ctx.signer, ctx.nft_mint) == Some(destination),
    ensures
        final(market).wf(),
        vault_address(ctx.nft_mint) is Some,
        settled(
            buy_outcome(
                old(market)@,
                *ctx,
                vault_address(ctx.nft_mint)->Some_0,
                escrow,
                destination,
            ),
            old(market)@,
            final(market)@,
            r,
        ),
        r is Ok ==> {
            &&& balance(old(market)@, ctx.nft_vault) == 1
            &&& balance(final(market)@, ctx.nft_vault) == 0
            &&& balance(final(market)@, ctx.destination) == balance(old(market)@, ctx.destination)
                + 1
        },
{
    let custody_at = vault.address();
    let l = match market.listings.get(&ctx.listing) {
        Some(l) => l,
        None => {
            return Err(MarketError::ListingNotFound);
        },
    };
    if !l.active {
        return Err(MarketError::ListingNotActive);
    }
    if ctx.seller != l.seller || ctx.seller_escrow != escrow {
        return Err(MarketError::UnauthorizedSeller);
    }
    if ctx.nft_mint != l.mint {
        return Err(MarketError::AssetMismatch);
    }
    if ctx.nft_vault != custody_at {
        return Err(MarketError::UnauthorizedRelease);
    }
    if ctx.destination != destination {
        return Err(MarketError::AddressMismatch);
    }
    let source = match market.ledger.holding(&ctx.source) {
        Some(source) => source,
        None => {
            return Err(MarketError::UnknownHolding);
        },
    };
    if source.mint != l.ask_mint {
        return Err(MarketError::AssetMismatch);
    }
    match market.ledger.holding(&destination) {
        Some(d) => {
            if d.mint != ctx.nft_mint || d.authority != ctx.signer {
                return Err(MarketError::AssetMismatch);
            }
        },
        None => {},
    }
    if source.amount < l.ask {
        return Err(MarketError::InsufficientPayment);
    }
    let mut staged = market.ledger.stage();
    if staged.ensure_exists(destination, ctx.nft_mint, ctx.signer).is_err() {
        return Err(MarketError::AtomicityFailure);
    }
    proof {
        // What pays holds nothing of an asset whose whole supply lies in a
        // vault: a payment in such an asset is a payment of nothing.
        staged.lemma_conservation(ctx.source, custody_at);
        if staged.holdings().contains_key(escrow) {
            staged.lemma_conservation(ctx.source, escrow);
        }
    }
    if staged.deposit(&escrow, &ctx.source, l.ask, &ctx.signer).is_err() {
        return Err(MarketError::AtomicityFailure);
    }
    if staged.release(&custody_at, &destination, 1, vault).is_err() {
        return Err(MarketError::AtomicityFailure);
    }
    market.ledger.commit(staged);
    market.listings.remove(&ctx.listing);
    Ok(())
}

/// Buys a listing: the ask goes from the buyer's payment holding to the
/// seller's receiving holding, the asset goes out of custody to the buyer,
/// and the listing is closed. The three happen together or not at all.
pub fn buy(market: &mut Market, ctx: &Buy) -> (r: Result<(), MarketError>)
    requires
        old(market).wf(),
    ensures
        final(market).wf(),
        settled(buy_result(old(market)@, *ctx), old(market)@, final(market)@, r),
        r is Ok ==> {
            &&& balance(old(market)@, ctx.nft_vault) == 1
            &&& balance(final(market)@, ctx.nft_vault) == 0
            &&& balance(final(market)@, ctx.destination) == balance(old(market)@, ctx.destination)
                + 1
        },
{
    let l = match market.listings.get(&ctx.listing) {
        Some(l) => l,
        None => {
            return Err(MarketError::ListingNotFound);
        },
    };
    let vault = derive_vault(&ctx.nft_mint);
    let escrow = derive_escrow(&l.seller, &l.ask_mint);
    let destination = derive_associated(&ctx.signer, &ctx.nft_mint);
    match (vault, escrow, destination) {
        (Some(vault), Some(escrow), Some(destination)) => buy_at(
            market,
            ctx,
            &vault,
            escrow,
            destination,
        ),
        _ => Err(MarketError::AddressUnavailable),
    }
}

/// Takes a listed asset back, given what was derived for it: the address
/// of the caller's listing of the asset, and the proof of the asset's
/// vault. `sell` derives the two and calls this.
pub fn sell_at(market: &mut Market, ctx: &Sell, listing: Address, vault: &VaultAuthority) -> (r:
    Result<(), MarketError>)
    requires
        old(market).wf(),
        listing_address(ctx.nft_mint, ctx.signer) == Some(listing),
        vault.asset() == ctx.nft_mint,
    ensures
        final(market).wf(),
        vault_address(ctx.nft_mint) is Some,
        settled(
            sell_outcome(old(market)@, *ctx, listing, vault_address(ctx.nft_mint)->Some_0),
            old(market)@,
            final(market)@,
            r,
        ),
{
    let custody_at = vault.address();
    let l = match market.listings.get(&listing) {
        Some(l) => l,
        None => {
            return Err(MarketError::ListingNotFound);
        },
    };
    if !l.active {
        return Err(MarketError::ListingNotActive);
    }
    if l.seller != ctx.signer || l.mint != ctx.nft_mint {
        return Err(MarketError::UnauthorizedSeller);
    }
    if ctx.nft_vault != custody_at {
        return Err(MarketError::UnauthorizedRelease);
    }
    let holding = match market.ledger.holding(&ctx.seller_nft) {
        Some(holding) => holding,
        None => {
            return Err(MarketError::UnknownHolding);
        },
    };
    if holding.mint != ctx.nft_mint {
        return Err(MarketError::AssetMismatch);
    }
    if holding.authority != ctx.signer {
        return Err(MarketError::UnauthorizedSeller);
    }
    match market.ledger.release(&custody_at, &ctx.seller_nft, 1, vault) {
        Err(e) => {
            return Err(e);
        },
        Ok(()) => {},
    }
    market.listings.remove(&listing);
    Ok(())
}

/// Withdraws a listing: the seller of an active listing takes the asset
/// back out of custody, and the listing is closed.
pub fn sell(market: &mut Market, ctx: &Sell) -> (r: Result<(), MarketError>)
    requires
        old(market).wf(),
    ensures
        final(market).wf(),
        settled(sell_result(old(market)@, *ctx), old(market)@, final(market)@, r),
{
    let listing = derive_listing(&ctx.nft_mint, &ctx.signer);
    let vault = derive_vault(&ctx.nft_mint);
    match (listing, vault) {
        (Some(listing), Some(vault)) => sell_at(market, ctx, listing, &vault),
        _ => Err(MarketError::AddressUnavailable),
    }
}

} // verus!
