//! Fractional ownership of registered assets: an ownership ledger with transfer
//! gating, proportional dividends, weighted governance votes and a detokenization
//! state machine; beside it insurance policies, depreciation schedules,
//! subscriptions and maintenance records.
//!
//! All state lives in explicit store values that every operation receives; the
//! caller supplies the ledger time and the identity of the authenticated caller.
pub mod error;
pub mod types;
pub mod ledger;
pub mod store;
pub mod tokenization;
pub mod transfer_restrictions;
pub mod dividends;
pub mod voting;
pub mod detokenization;
pub mod insurance;
pub mod valuation;
pub mod subscription;
pub mod maintenance;
