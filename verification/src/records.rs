use vstd::prelude::*;
use crate::address::Address;

verus! {

/// The marketplace's configuration: one record for the whole market.
#[derive(Clone, Copy, Debug, PartialEq, Eq)]
pub struct State {
    /// Who may change the configuration.
    pub admin: Address,
    /// Numerator of the fee rate. Kept on record; no transfer applies it.
    pub fee: u64,
    /// Denominator of the fee rate.
    pub fee_scalar: u64,
}

/// A seller's standing offer: one unique asset, held in custody, for an
/// amount of another asset.
#[derive(Clone, Copy, Debug, PartialEq, Eq)]
pub struct Listing {
    /// True from creation until the sale completes.
    pub active: bool,
    /// Who made the listing, and who is paid.
    pub seller: Address,
    /// The asset for sale.
    pub mint: Address,
    /// A reference to a descriptor of the asset. Nothing reads it.
    pub contract: Address,
    /// The asset in which the payment is asked.
    pub ask_mint: Address,
    /// The amount asked.
    pub ask: u64,
}

/// What a caller names to write the configuration.
#[derive(Clone, Copy, Debug, PartialEq, Eq)]
pub struct Initialize {
    /// The caller, who becomes the admin.
    pub signer: Address,
}

/// What a caller names to have a vault made for an asset.
#[derive(Clone, Copy, Debug, PartialEq, Eq)]
pub struct CreateVault {
    /// The caller: the admin.
    pub signer: Address,
    /// The vault's address, derived from the asset.
    pub vault: Address,
    /// The asset that the vault is to hold.
    pub mint: Address,
}

/// What a seller names to list an asset.
#[derive(Clone, Copy, Debug, PartialEq, Eq)]
pub struct List {
    /// The caller: the seller.
    pub signer: Address,
    /// The listing's address, derived from the asset and the seller.
    pub listing: Address,
    /// The seller's holding of the asset.
    pub seller_nft: Address,
    /// The asset's vault, derived from the asset.
    pub nft_vault: Address,
    /// The asset for sale.
    pub nft_mint: Address,
    /// Where the seller is paid, derived from the seller and the asset asked.
    pub seller_escrow: Address,
    /// A reference to a descriptor of the asset.
    pub contract: Address,
    /// The asset in which the payment is asked.
    pub ask_mint: Address,
}

/// What a buyer names to buy a listing.
#[derive(Clone, Copy, Debug, PartialEq, Eq)]
pub struct Buy {
    /// The caller: the buyer.
    pub signer: Address,
    /// The seller that the buyer takes the listing to be of.
    pub seller: Address,
    /// The buyer's holding that pays.
    pub source: Address,
    /// The listing to buy.
    pub listing: Address,
    /// Where the seller is paid.
    pub seller_escrow: Address,
    /// The buyer's associated holding of the asset, made if it is not there.
    pub destination: Address,
    /// The asset bought.
    pub nft_mint: Address,
    /// The asset's vault.
    pub nft_vault: Address,
}

/// What a seller names to take a listed asset back.
#[derive(Clone, Copy, Debug, PartialEq, Eq)]
pub struct Sell {
    /// The caller: the seller.
    pub signer: Address,
    /// The seller's holding to which the asset returns.
    pub seller_nft: Address,
    /// The asset's vault.
    pub nft_vault: Address,
    /// The asset listed.
    pub nft_mint: Address,
}

} // verus!
