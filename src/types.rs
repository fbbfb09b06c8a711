use vstd::prelude::*;
use std::collections::HashMap;

verus! {

/// A principal of the hosting ledger (a tokenizer, holder, voter, insurer...).
/// The host verifies identities; the library only compares them.
#[derive(Clone, Copy, Debug, PartialEq, Eq, Structural, Hash)]
pub struct Address {
    pub id: u64,
}

impl Address {
    pub fn new(id: u64) -> (r: Address)
        ensures
            r.id == id,
    {
        Address { id }
    }
}

/// The fundamental kind of a managed asset.
#[derive(Clone, Copy, Debug, PartialEq, Eq, Structural)]
pub enum AssetType {
    Physical,
    Digital,
}

/// The operational status of a registered asset.
#[derive(Clone, Copy, Debug, PartialEq, Eq, Structural)]
pub enum AssetStatus {
    Active,
    InMaintenance,
    Disposed,
}

/// The kinds of action recorded in an asset's audit trail.
#[derive(Clone, Copy, Debug, PartialEq, Eq, Structural)]
pub enum ActionType {
    Procured,
    Transferred,
    Maintained,
    Disposed,
    CheckedIn,
    CheckedOut,
    Inspected,
}

/// Subscription plan tiers, which decide feature access and usage limits.
#[derive(Clone, Copy, Debug, PartialEq, Eq, Structural)]
pub enum PlanType {
    Basic,
    Pro,
    Enterprise,
}

impl PlanType {
    /// The monthly price of the plan in a token with 7 decimals.
    pub fn get_price_7_decimal(&self) -> (r: i128)
        ensures
            r == match *self {
                PlanType::Basic => 100000000i128,
                PlanType::Pro => 20000000i128,
                PlanType::Enterprise => 500000000i128,
            },
    {
        match self {
            PlanType::Basic => 10_0000000,
            PlanType::Pro => 20_000000,
            PlanType::Enterprise => 50_0000000,
        }
    }
}

/// The state of a subscription.
#[derive(Clone, Copy, Debug, PartialEq, Eq, Structural)]
pub enum SubscriptionStatus {
    Active,
    Expired,
    Cancelled,
}

/// Descriptive data stored beside a tokenized asset.
#[derive(Clone, Debug)]
pub struct TokenMetadata {
    pub name: String,
    pub description: String,
    pub asset_type: AssetType,
    pub ipfs_uri: Option<String>,
    pub legal_docs_hash: Option<String>,
    pub valuation_report_hash: Option<String>,
    pub accredited_investor_required: bool,
    pub geographic_restrictions: Vec<String>,
}

/// The fractional-asset record: one per tokenized asset id.
#[derive(Clone, Debug)]
pub struct TokenizedAsset {
    pub asset_id: u64,
    pub symbol: String,
    pub total_supply: i128,
    pub decimals: u32,
    pub locked_tokens: i128,
    pub tokenizer: Address,
    pub valuation: i128,
    pub tokenization_timestamp: u64,
    pub tokens_in_circulation: i128,
    /// The least balance with which a holder may cast a vote.
    pub min_voting_threshold: i128,
    /// Percentage (0 to 100) of the supply that must vote in favour of detokenization.
    pub detokenization_required_threshold: u32,
    pub revenue_sharing_enabled: bool,
    /// The number of holders whose balance is positive.
    pub token_holders_count: u64,
}

/// A holder's position in one asset.
#[derive(Clone, Copy, Debug, PartialEq, Eq, Structural)]
pub struct OwnershipRecord {
    pub owner: Address,
    pub balance: i128,
    pub unclaimed_dividends: i128,
}

/// Gate on incoming transfers of one asset. Where accreditation is required,
/// only whitelisted principals may receive tokens.
#[derive(Clone, Debug)]
pub struct TransferRestriction {
    pub require_accredited: bool,
    pub geographic_allowed: Vec<String>,
}

/// Votes cast on one proposal of one asset.
#[derive(Clone, Debug)]
pub struct ProposalVotes {
    pub tally: i128,
    pub voters: Vec<Address>,
}

#[derive(Clone, Copy, Debug, PartialEq, Eq, Structural)]
pub struct ActiveProposal {
    pub proposal_id: u64,
    pub proposer: Address,
    pub created_at: u64,
}

#[derive(Clone, Copy, Debug, PartialEq, Eq, Structural)]
pub struct ExecutedProposal {
    pub proposal_id: u64,
    pub executed_at: u64,
}

#[derive(Clone, Copy, Debug, PartialEq, Eq, Structural)]
pub struct RejectedProposal {
    pub proposal_id: u64,
    pub rejected_at: u64,
}

/// The state of the detokenization proposal slot of an asset.
#[derive(Clone, Copy, Debug, PartialEq, Eq, Structural)]
pub enum DetokenizationProposal {
    Active(ActiveProposal),
    Executed(ExecutedProposal),
    Rejected(RejectedProposal),
}

/// Everything the ledger holds for one tokenized asset: its record and
/// metadata, the holder set with balances, locks keyed by holder id, the
/// transfer restriction and whitelist, and the votes keyed by proposal id.
pub struct AssetBook {
    pub asset: TokenizedAsset,
    pub metadata: TokenMetadata,
    pub holders: Vec<OwnershipRecord>,
    pub locks: HashMap<u64, u64>,
    pub restriction: Option<TransferRestriction>,
    pub whitelist: Vec<Address>,
    pub votes: HashMap<u64, ProposalVotes>,
}

/// The contract's persistent state: tokenized assets keyed by asset id, and the
/// detokenization proposal slot of each asset id (which outlives the asset).
pub struct AssetUpContract {
    pub books: HashMap<u64, AssetBook>,
    pub proposals: HashMap<u64, DetokenizationProposal>,
}

} // verus!
