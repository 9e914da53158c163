//! Escrow engine for time-boxed funding programs.
//!
//! Funds are locked by a program organizer and released to recipients either
//! immediately or through a claim-based deferred-payout mechanism, subject to
//! layered policy checks: absolute amount limits, anti-abuse rate limiting,
//! and identity-tier risk-adjusted spending ceilings.  Every mutating
//! operation is atomic: all validations run before any mutation, and a failed
//! operation leaves the whole state unchanged.

pub mod engine;
pub mod errors;
pub mod identity;
pub mod laws;
pub mod limits;
pub mod program;
pub mod rate;

pub use engine::{EscrowState, IdentityRecord, Ledger, ProgramState};
pub use errors::Error;
pub use identity::{
    AddressIdentity, IdentityClaim, IdentityPolicy, IdentityTier, RiskThresholds, TierLimits,
};
pub use limits::AmountLimits;
pub use rate::{RateLimitConfig, RateLimitState};
