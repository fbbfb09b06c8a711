use vstd::prelude::*;

verus! {

/// Every way in which an operation of the library can fail. A failed operation
/// leaves the store exactly as it was.
#[derive(Clone, Copy, Debug, PartialEq, Eq, Structural)]
pub enum Error {
    AlreadyInitialized,
    AdminNotFound,
    AssetAlreadyExists,
    AssetNotFound,
    BranchAlreadyExists,
    BranchNotFound,
    SubscriptionAlreadyExists,
    SubscriptionNotFound,
    SubscriptionNotActive,
    Unauthorized,
    InvalidPayment,
    ContractPaused,
    ContractNotInitialized,
    InvalidAssetName,
    InvalidPurchaseValue,
    InvalidMetadataUri,
    InvalidOwnerAddress,
    AssetAlreadyTokenized,
    AssetNotTokenized,
    InvalidTokenSupply,
    InsufficientBalance,
    TokensAreLocked,
    TransferNotPermitted,
    HolderNotFound,
    InsufficientVotingPower,
    AlreadyVoted,
    InvalidProposal,
    DetokenizationAlreadyProposed,
    DetokenizationNotApproved,
    InvalidDividendAmount,
    NoDividendsToClaim,
    InvalidValuation,
    ProviderNotRegistered,
    InvalidMaintenanceRecord,
    InvalidSchedule,
    /// A result would not fit in the integer type that holds it.
    ArithmeticOverflow,
}

} // verus!
