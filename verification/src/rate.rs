//! Anti-abuse rate limiting.
//!
//! A fixed window caps how many guarded operations may run per window, and a
//! cooldown enforces minimum spacing between consecutive operations.  The
//! cooldown check takes precedence over the count check when both would trip.

use vstd::prelude::*;
use crate::errors::Error;

verus! {

/// Rate-limit configuration: window length, operation ceiling, and the
/// cooldown between consecutive operations (all times in seconds).
#[derive(Clone, Copy, Debug, PartialEq, Eq, Structural)]
pub struct RateLimitConfig {
    pub window_seconds: u64,
    pub max_ops: u64,
    pub cooldown_seconds: u64,
}

/// The mutable counters of the rate limiter: operations counted in the
/// current window, when that window started, and when the last guarded
/// operation ran.
#[derive(Clone, Copy, Debug, PartialEq, Eq, Structural)]
pub struct RateLimitState {
    pub op_count: u64,
    pub window_start: u64,
    pub last_op_time: u64,
}

impl RateLimitState {
    /// The counters before any guarded operation has run.
    pub open spec fn initial() -> RateLimitState {
        RateLimitState { op_count: 0, window_start: 0, last_op_time: 0 }
    }

    /// Fresh counters for a state machine that has seen no operation.
    pub fn new() -> (r: RateLimitState)
        ensures
            r == RateLimitState::initial(),
    {
        RateLimitState { op_count: 0, window_start: 0, last_op_time: 0 }
    }
}

/// The current window has run its full duration at time `now`.
pub open spec fn window_expired(state: RateLimitState, config: RateLimitConfig, now: u64) -> bool {
    now >= state.window_start + config.window_seconds
}

/// The counters after first rolling the window over if it expired: an
/// expired window restarts at `now` with a zero count.
pub open spec fn rolled(state: RateLimitState, config: RateLimitConfig, now: u64) -> RateLimitState {
    if window_expired(state, config, now) {
        RateLimitState { op_count: 0, window_start: now, last_op_time: state.last_op_time }
    } else {
        state
    }
}

/// Less than `cooldown_seconds` have passed since the last operation.
pub open spec fn cooldown_active(state: RateLimitState, config: RateLimitConfig, now: u64) -> bool {
    now < state.last_op_time + config.cooldown_seconds
}

/// What one guarded operation at time `now` does to the counters: the window
/// is rolled over if expired, then the cooldown is checked, then the count
/// ceiling; on success the count rises by one and `now` is recorded.
pub open spec fn rate_step(
    config: RateLimitConfig,
    state: RateLimitState,
    now: u64,
) -> Result<RateLimitState, Error> {
    let st = rolled(state, config, now);
    if cooldown_active(st, config, now) {
        Err(Error::CooldownActive)
    } else if st.op_count >= config.max_ops {
        Err(Error::RateLimitExceeded)
    } else {
        Ok(RateLimitState {
            op_count: (st.op_count + 1) as u64,
            window_start: st.window_start,
            last_op_time: now,
        })
    }
}

/// Run one guarded operation through the rate limiter, returning the
/// advanced counters on success and the binding violation otherwise.
pub fn rate_limit_check(
    config: RateLimitConfig,
    state: RateLimitState,
    now: u64,
) -> (r: Result<RateLimitState, Error>)
    ensures
        r == rate_step(config, state, now),
{
    let st = if (now as u128) >= (state.window_start as u128) + (config.window_seconds as u128) {
        RateLimitState { op_count: 0, window_start: now, last_op_time: state.last_op_time }
    } else {
        state
    };
    if (now as u128) < (st.last_op_time as u128) + (config.cooldown_seconds as u128) {
        Err(Error::CooldownActive)
    } else if st.op_count >= config.max_ops {
        Err(Error::RateLimitExceeded)
    } else {
        Ok(RateLimitState {
            op_count: st.op_count + 1,
            window_start: st.window_start,
            last_op_time: now,
        })
    }
}

} // verus!
