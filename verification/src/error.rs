use vstd::prelude::*;

verus! {

/// The four classes of failure. Whatever the class, a failed operation
/// leaves the market as it was.
#[derive(Clone, Copy, Debug, PartialEq, Eq, Structural)]
pub enum ErrorClass {
    /// The input is malformed or breaks a precondition.
    Validation,
    /// The caller, or a proof, is not the one recorded.
    Authorization,
    /// The record addressed is not in the state the operation needs.
    State,
    /// A leg of a swap failed, and the whole swap was discarded.
    Atomicity,
}

/// Why an operation failed.
#[derive(Clone, Copy, Debug, PartialEq, Eq, Structural)]
pub enum MarketError {
    /// The asset named is not known to the ledger.
    UnknownAsset,
    /// No holding stands at the address named.
    UnknownHolding,
    /// The asset offered for sale does not have a total supply of exactly one.
    InvalidSupply,
    /// Two sides that must be of one asset are not, or are one holding.
    AssetMismatch,
    /// An account was named at another address than the one derived for it.
    AddressMismatch,
    /// The source does not hold the amount to be moved.
    InsufficientBalance,
    /// The buyer's payment holding holds less than the ask.
    InsufficientPayment,
    /// A holding of another asset or authority already stands at the
    /// address of the vault to be made.
    VaultCreationError,
    /// No address can be derived for the seeds at hand.
    AddressUnavailable,
    /// The caller is not the admin on record.
    UnauthorizedAdmin,
    /// The seller, or the seller's receiving holding, is not the one the
    /// listing records.
    UnauthorizedSeller,
    /// The caller is not the authority of the holding to be drawn on.
    UnauthorizedDeposit,
    /// The proof does not open the vault named.
    UnauthorizedRelease,
    /// The configuration has not been written yet.
    NotInitialized,
    /// The configuration has been written before.
    AlreadyInitialized,
    /// No listing stands at the address named.
    ListingNotFound,
    /// The listing is closed.
    ListingNotActive,
    /// A listing already stands at the derived address.
    ListingAlreadyExists,
    /// A leg of the swap failed; nothing of the swap was kept.
    AtomicityFailure,
}

impl MarketError {
    /// The class an error belongs to.
    pub open spec fn class_of(self) -> ErrorClass {
        match self {
            MarketError::UnknownAsset
            | MarketError::UnknownHolding
            | MarketError::InvalidSupply
            | MarketError::AssetMismatch
            | MarketError::AddressMismatch
            | MarketError::InsufficientBalance
            | MarketError::InsufficientPayment
            | MarketError::VaultCreationError
            | MarketError::AddressUnavailable => ErrorClass::Validation,
            MarketError::UnauthorizedAdmin
            | MarketError::UnauthorizedSeller
            | MarketError::UnauthorizedDeposit
            | MarketError::UnauthorizedRelease => ErrorClass::Authorization,
            MarketError::NotInitialized
            | MarketError::AlreadyInitialized
            | MarketError::ListingNotFound
            | MarketError::ListingNotActive
            | MarketError::ListingAlreadyExists => ErrorClass::State,
            MarketError::AtomicityFailure => ErrorClass::Atomicity,
        }
    }

    /// The class an error belongs to.
    pub fn class(&self) -> (c: ErrorClass)
        ensures
            c == self.class_of(),
    {
        match self {
            MarketError::UnknownAsset
            | MarketError::UnknownHolding
            | MarketError::InvalidSupply
            | MarketError::AssetMismatch
            | MarketError::AddressMismatch
            | MarketError::InsufficientBalance
            | MarketError::InsufficientPayment
            | MarketError::VaultCreationError
            | MarketError::AddressUnavailable => ErrorClass::Validation,
            MarketError::UnauthorizedAdmin
            | MarketError::UnauthorizedSeller
            | MarketError::UnauthorizedDeposit
            | MarketError::UnauthorizedRelease => ErrorClass::Authorization,
            MarketError::NotInitialized
            | MarketError::AlreadyInitialized
            | MarketError::ListingNotFound
            | MarketError::ListingNotActive
            | MarketError::ListingAlreadyExists => ErrorClass::State,
            MarketError::AtomicityFailure => ErrorClass::Atomicity,
        }
    }
}

} // verus!
