//! Absolute amount limits on locks and payouts.
//!
//! A contract-wide configuration holds a `[min, max]` pair for lock amounts
//! and another for payout amounts.  Every balance-affecting amount must be
//! non-negative and fall inside the relevant pair.

use vstd::prelude::*;
use crate::errors::Error;

verus! {

/// Contract-wide `[min, max]` bounds for lock and payout amounts.
///
/// The defaults admit every positive amount: minimum 1, maximum the largest
/// representable signed 128-bit value, for both pairs.
#[derive(Clone, Copy, Debug, PartialEq, Eq, Structural)]
pub struct AmountLimits {
    pub min_lock_amount: i128,
    pub max_lock_amount: i128,
    pub min_payout: i128,
    pub max_payout: i128,
}

impl AmountLimits {
    /// Both pairs are non-negative and ordered.
    pub open spec fn wf(self) -> bool {
        &&& 0 <= self.min_lock_amount <= self.max_lock_amount
        &&& 0 <= self.min_payout <= self.max_payout
    }

    /// `amount` lies inside the lock pair.
    pub open spec fn lock_in_bounds(self, amount: i128) -> bool {
        self.min_lock_amount <= amount <= self.max_lock_amount
    }

    /// `amount` lies inside the payout pair.
    pub open spec fn payout_in_bounds(self, amount: i128) -> bool {
        self.min_payout <= amount <= self.max_payout
    }

    /// The verdict of validating a lock amount: negative amounts are
    /// `InvalidAmount`, out-of-bounds amounts are `LimitViolation`.
    pub open spec fn lock_verdict(self, amount: i128) -> Result<(), Error> {
        if amount < 0 {
            Err(Error::InvalidAmount)
        } else if !self.lock_in_bounds(amount) {
            Err(Error::LimitViolation)
        } else {
            Ok(())
        }
    }

    /// The verdict of validating a payout amount, mirroring `lock_verdict`.
    pub open spec fn payout_verdict(self, amount: i128) -> Result<(), Error> {
        if amount < 0 {
            Err(Error::InvalidAmount)
        } else if !self.payout_in_bounds(amount) {
            Err(Error::LimitViolation)
        } else {
            Ok(())
        }
    }

    /// Validate a lock amount against the configured lock pair.
    pub fn validate_lock(&self, amount: i128) -> (r: Result<(), Error>)
        ensures
            r == self.lock_verdict(amount),
    {
        if amount < 0 {
            Err(Error::InvalidAmount)
        } else if amount < self.min_lock_amount || amount > self.max_lock_amount {
            Err(Error::LimitViolation)
        } else {
            Ok(())
        }
    }

    /// Validate a payout amount against the configured payout pair.
    pub fn validate_payout(&self, amount: i128) -> (r: Result<(), Error>)
        ensures
            r == self.payout_verdict(amount),
    {
        if amount < 0 {
            Err(Error::InvalidAmount)
        } else if amount < self.min_payout || amount > self.max_payout {
            Err(Error::LimitViolation)
        } else {
            Ok(())
        }
    }

    /// The verdict of a limit update: a negative bound is `InvalidAmount`, a
    /// minimum above its maximum is `ConfigInvalid`.
    pub open spec fn update_verdict(
        min_lock: i128,
        max_lock: i128,
        min_payout: i128,
        max_payout: i128,
    ) -> Result<(), Error> {
        if min_lock < 0 || max_lock < 0 || min_payout < 0 || max_payout < 0 {
            Err(Error::InvalidAmount)
        } else if min_lock > max_lock || min_payout > max_payout {
            Err(Error::ConfigInvalid)
        } else {
            Ok(())
        }
    }

    /// Build a replacement configuration from the four bounds, validating
    /// each pair for non-negativity and order before committing.
    pub fn updated(
        min_lock: i128,
        max_lock: i128,
        min_payout: i128,
        max_payout: i128,
    ) -> (r: Result<AmountLimits, Error>)
        ensures
            r is Ok <==> Self::update_verdict(min_lock, max_lock, min_payout, max_payout) is Ok,
            r is Err ==> r->Err_0 == Self::update_verdict(
                min_lock, max_lock, min_payout, max_payout)->Err_0,
            r is Ok ==> (r->Ok_0 == AmountLimits {
                min_lock_amount: min_lock,
                max_lock_amount: max_lock,
                min_payout: min_payout,
                max_payout: max_payout,
            }),
            r is Ok ==> r->Ok_0.wf(),
    {
        if min_lock < 0 || max_lock < 0 || min_payout < 0 || max_payout < 0 {
            Err(Error::InvalidAmount)
        } else if min_lock > max_lock || min_payout > max_payout {
            Err(Error::ConfigInvalid)
        } else {
            Ok(AmountLimits {
                min_lock_amount: min_lock,
                max_lock_amount: max_lock,
                min_payout: min_payout,
                max_payout: max_payout,
            })
        }
    }
}

impl Default for AmountLimits {
    /// The permissive default bounds: minimum 1 and maximum `i128::MAX` for
    /// both locks and payouts.
    fn default() -> (r: Self)
        ensures
            r.min_lock_amount == 1,
            r.max_lock_amount == i128::MAX,
            r.min_payout == 1,
            r.max_payout == i128::MAX,
            r.wf(),
    {
        AmountLimits {
            min_lock_amount: 1,
            max_lock_amount: i128::MAX,
            min_payout: 1,
            max_payout: i128::MAX,
        }
    }
}

} // verus!
