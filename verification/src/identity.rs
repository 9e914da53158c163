//! Identity-tier risk-adjusted spending ceilings.
//!
//! Each recipient address carries a stored identity record: a verification
//! tier, a risk score, and an expiry timestamp.  The effective spending
//! ceiling of an address is its tier's limit, scaled down by a configured
//! percentage when the risk score reaches the high-risk threshold.  An
//! address without a record, or whose record has lapsed, counts as
//! unverified with a zero risk score.

use vstd::prelude::*;
use crate::errors::Error;

verus! {

/// Identity verification levels, ordered `Unverified < Basic < Verified <
/// Premium`.
#[derive(Clone, Copy, Debug, PartialEq, Eq, Structural)]
pub enum IdentityTier {
    Unverified,
    Basic,
    Verified,
    Premium,
}

/// The rank of a tier in the total order of tiers.
pub open spec fn spec_tier_rank(tier: IdentityTier) -> int {
    match tier {
        IdentityTier::Unverified => 0,
        IdentityTier::Basic => 1,
        IdentityTier::Verified => 2,
        IdentityTier::Premium => 3,
    }
}

/// The rank of a tier; higher ranks are more trusted.
pub fn tier_rank(tier: IdentityTier) -> (r: u32)
    ensures
        r == spec_tier_rank(tier),
{
    match tier {
        IdentityTier::Unverified => 0,
        IdentityTier::Basic => 1,
        IdentityTier::Verified => 2,
        IdentityTier::Premium => 3,
    }
}

/// A validated identity claim as handed over by the issuer-verification
/// collaborator; the engine consumes it as an already-authenticated update
/// to the stored record of `address`.
#[derive(Clone, Copy, Debug, PartialEq, Eq, Structural)]
pub struct IdentityClaim {
    pub address: u64,
    pub tier: IdentityTier,
    /// Risk score, 0 to 100.
    pub risk_score: u32,
    /// Timestamp at which the claimed tier lapses.
    pub expiry: u64,
    /// The issuer that signed the claim.
    pub issuer: u64,
}

/// The stored identity record of an address.
#[derive(Clone, Copy, Debug, PartialEq, Eq, Structural)]
pub struct AddressIdentity {
    pub tier: IdentityTier,
    pub risk_score: u32,
    pub expiry: u64,
    pub last_updated: u64,
}

impl Default for AddressIdentity {
    /// The record of an address that was never verified: unverified tier,
    /// zero risk, already lapsed.
    fn default() -> (r: Self)
        ensures
            r.tier == IdentityTier::Unverified,
            r.risk_score == 0,
            r.expiry == 0,
            r.last_updated == 0,
    {
        AddressIdentity {
            tier: IdentityTier::Unverified,
            risk_score: 0,
            expiry: 0,
            last_updated: 0,
        }
    }
}

/// Per-tier spending ceilings.  By convention these rise with the tier, but
/// that ordering is not enforced anywhere.
#[derive(Clone, Copy, Debug, PartialEq, Eq, Structural)]
pub struct TierLimits {
    pub unverified_limit: i128,
    pub basic_limit: i128,
    pub verified_limit: i128,
    pub premium_limit: i128,
}

impl Default for TierLimits {
    /// Default ceilings in stroops of a token with seven decimals: 100,
    /// 1,000, 10,000 and 100,000 whole tokens by rising tier.
    fn default() -> (r: Self)
        ensures
            r.unverified_limit == 100_0000000,
            r.basic_limit == 1000_0000000,
            r.verified_limit == 10000_0000000,
            r.premium_limit == 100000_0000000,
    {
        TierLimits {
            unverified_limit: 100_0000000,
            basic_limit: 1000_0000000,
            verified_limit: 10000_0000000,
            premium_limit: 100000_0000000,
        }
    }
}

/// When to scale a tier ceiling down: at or above `high_risk_threshold` the
/// ceiling is multiplied by `high_risk_multiplier` percent.
#[derive(Clone, Copy, Debug, PartialEq, Eq, Structural)]
pub struct RiskThresholds {
    pub high_risk_threshold: u32,
    pub high_risk_multiplier: u32,
}

impl Default for RiskThresholds {
    /// Default risk policy: at a score of 70 or above, the ceiling drops to
    /// half the tier limit.
    fn default() -> (r: Self)
        ensures
            r.high_risk_threshold == 70,
            r.high_risk_multiplier == 50,
    {
        RiskThresholds { high_risk_threshold: 70, high_risk_multiplier: 50 }
    }
}

/// The identity-tier policy as configured by the admin: the per-tier
/// ceilings and the risk scaling rule.
#[derive(Clone, Copy, Debug, PartialEq, Eq, Structural)]
pub struct IdentityPolicy {
    pub tier_limits: TierLimits,
    pub risk_thresholds: RiskThresholds,
}

/// The largest tier ceiling that the risk scaling can be applied to without
/// the intermediate product leaving `i128`; this is `i128::MAX / 100`.
pub const TIER_LIMIT_CEILING: i128 = 1701411834604692317316873037158841057;

impl IdentityPolicy {
    /// Ceilings are non-negative and small enough that scaling by up to 100
    /// percent stays representable, and the multiplier is a percentage.
    pub open spec fn wf(self) -> bool {
        &&& 0 <= self.tier_limits.unverified_limit <= TIER_LIMIT_CEILING
        &&& 0 <= self.tier_limits.basic_limit <= TIER_LIMIT_CEILING
        &&& 0 <= self.tier_limits.verified_limit <= TIER_LIMIT_CEILING
        &&& 0 <= self.tier_limits.premium_limit <= TIER_LIMIT_CEILING
        &&& self.risk_thresholds.high_risk_multiplier <= 100
    }
}

/// The stored ceiling of a tier.
pub open spec fn spec_tier_limit(limits: TierLimits, tier: IdentityTier) -> i128 {
    match tier {
        IdentityTier::Unverified => limits.unverified_limit,
        IdentityTier::Basic => limits.basic_limit,
        IdentityTier::Verified => limits.verified_limit,
        IdentityTier::Premium => limits.premium_limit,
    }
}

/// Look up the stored ceiling of a tier.
pub fn tier_limit(limits: &TierLimits, tier: IdentityTier) -> (r: i128)
    ensures
        r == spec_tier_limit(*limits, tier),
{
    match tier {
        IdentityTier::Unverified => limits.unverified_limit,
        IdentityTier::Basic => limits.basic_limit,
        IdentityTier::Verified => limits.verified_limit,
        IdentityTier::Premium => limits.premium_limit,
    }
}

/// A record has lapsed once the current time reaches its expiry; the default
/// record (expiry 0) is always lapsed.
pub open spec fn identity_lapsed(identity: AddressIdentity, now: u64) -> bool {
    now >= identity.expiry
}

/// The record that actually governs spending at time `now`: the stored one
/// while it is unexpired, the never-verified default once it lapses.
pub open spec fn governing_identity(identity: AddressIdentity, now: u64) -> AddressIdentity {
    if identity_lapsed(identity, now) {
        AddressIdentity {
            tier: IdentityTier::Unverified,
            risk_score: 0,
            expiry: 0,
            last_updated: identity.last_updated,
        }
    } else {
        identity
    }
}

/// The risk-adjusted spending ceiling of a record under a policy at time
/// `now`: the governing tier's limit, scaled to `high_risk_multiplier`
/// percent when the governing risk score reaches the threshold.
pub open spec fn spec_effective_limit(
    policy: IdentityPolicy,
    identity: AddressIdentity,
    now: u64,
) -> int {
    let gov = governing_identity(identity, now);
    let base = spec_tier_limit(policy.tier_limits, gov.tier);
    if gov.risk_score >= policy.risk_thresholds.high_risk_threshold {
        base * policy.risk_thresholds.high_risk_multiplier / 100
    } else {
        base as int
    }
}

/// Compute the risk-adjusted spending ceiling of `identity` at time `now`.
pub fn effective_limit(policy: &IdentityPolicy, identity: &AddressIdentity, now: u64) -> (r: i128)
    requires
        policy.wf(),
    ensures
        r == spec_effective_limit(*policy, *identity, now),
        0 <= r,
{
    let gov: AddressIdentity = if now >= identity.expiry {
        AddressIdentity {
            tier: IdentityTier::Unverified,
            risk_score: 0,
            expiry: 0,
            last_updated: identity.last_updated,
        }
    } else {
        *identity
    };
    let base = tier_limit(&policy.tier_limits, gov.tier);
    if gov.risk_score >= policy.risk_thresholds.high_risk_threshold {
        let mult = policy.risk_thresholds.high_risk_multiplier as i128;
        proof {
            assert(0 <= base * mult <= TIER_LIMIT_CEILING * 100) by (nonlinear_arith)
                requires
                    0 <= base <= TIER_LIMIT_CEILING,
                    0 <= mult <= 100,
            ;
        }
        base * mult / 100
    } else {
        base
    }
}

/// The verdict of the identity-tier policy on `identity` spending `amount`
/// at time `now`: amounts above the effective ceiling are refused.
pub open spec fn spend_verdict(
    policy: IdentityPolicy,
    identity: AddressIdentity,
    amount: i128,
    now: u64,
) -> Result<(), Error> {
    if amount > spec_effective_limit(policy, identity, now) {
        Err(Error::LimitViolation)
    } else {
        Ok(())
    }
}

/// Validate that `identity` may spend `amount` at time `now` under the
/// configured policy.
pub fn validate_spend(
    policy: &IdentityPolicy,
    identity: &AddressIdentity,
    amount: i128,
    now: u64,
) -> (r: Result<(), Error>)
    requires
        policy.wf(),
    ensures
        r == spend_verdict(*policy, *identity, amount, now),
{
    if amount > effective_limit(policy, identity, now) {
        Err(Error::LimitViolation)
    } else {
        Ok(())
    }
}

} // verus!
