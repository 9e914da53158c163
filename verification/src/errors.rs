//! The error taxonomy of the escrow engine.
//!
//! Every error aborts the whole operation it arose in: no partial effects
//! persist, and callers must re-invoke with corrected inputs.

use vstd::prelude::*;

verus! {

/// Why an escrow operation was refused.
#[derive(Clone, Copy, Debug, PartialEq, Eq, Structural)]
pub enum Error {
    /// A negative (or unaccountably large) amount was supplied to a
    /// balance-affecting call.
    InvalidAmount,
    /// An amount fell outside the configured bounds for lock, payout, or the
    /// identity-tier ceiling of the recipient.
    LimitViolation,
    /// The operation-count ceiling for the current rate-limit window was
    /// already reached.
    RateLimitExceeded,
    /// The operation came before the cooldown interval since the previous
    /// operation had elapsed.
    CooldownActive,
    /// A pending claim was accessed after its claim window elapsed.
    ClaimExpired,
    /// No claim exists under the given claim index.
    ClaimNotFound,
    /// The claim under the given index was already claimed or cancelled.
    ClaimAlreadyResolved,
    /// The caller lacks the required admin or organizer authorization.
    Unauthorized,
    /// The requested amount exceeds the program's remaining balance.
    InsufficientBalance,
    /// A limit update supplied a minimum above the corresponding maximum, or
    /// an otherwise unusable configuration.
    ConfigInvalid,
    /// Malformed input, such as batch lists of unequal length.
    InvalidInput,
    /// No program is registered under the given identifier.
    ProgramNotFound,
    /// A program is already registered under the given identifier.
    ProgramAlreadyExists,
    /// No release schedule exists under the given schedule identifier.
    ScheduleNotFound,
    /// The release schedule was already executed.
    ScheduleAlreadyReleased,
    /// The release timestamp of the schedule has not been reached yet.
    ReleaseNotDue,
}

} // verus!
