//! The laws of the escrow engine: properties that relate several
//! operations, proved once and for all over the transition predicates that
//! the operations' own contracts establish.

use vstd::prelude::*;
use crate::engine::{
    cancel_applied, cancel_verdict, claim_applied, claim_verdict, has_program,
    lemma_program_index_is, lock_funds_verdict, program_index, rate_outcome,
    single_payout_applied, EscrowState, Ledger,
};
use crate::errors::Error;
use crate::program::ClaimStatus;
use crate::rate::{rate_step, RateLimitConfig, RateLimitState};

verus! {

/// Locking any amount inside the configured lock bounds succeeds, provided
/// the program exists, the organizer calls, the rate limiter passes, and
/// the grown total stays representable; the remaining balance then rises by
/// exactly the amount, which the `lock_applied` clause of
/// `lock_program_funds` pins down.
pub proof fn lemma_lock_within_limits_succeeds(
    pre: EscrowState,
    id: Seq<char>,
    caller: u64,
    amount: i128,
    now: u64,
)
    requires
        pre.wf(),
        has_program(pre.programs@, id),
        caller == pre.programs@[program_index(pre.programs@, id)].organizer,
        pre.amount_limits.min_lock_amount <= amount <= pre.amount_limits.max_lock_amount,
        rate_outcome(pre.rate_config, pre.rate_state, now) is Ok,
        pre.programs@[program_index(pre.programs@, id)].locked_total + amount <= i128::MAX,
    ensures
        lock_funds_verdict(pre, id, caller, amount, now) is Ok,
{
}

/// Locking a non-negative amount outside the configured lock bounds fails
/// with `LimitViolation`, whatever the rest of the state holds — and since
/// `lock_program_funds` leaves the state untouched on every error, the
/// balance is unchanged.
pub proof fn lemma_lock_outside_limits_fails(
    pre: EscrowState,
    id: Seq<char>,
    caller: u64,
    amount: i128,
    now: u64,
)
    requires
        pre.wf(),
        has_program(pre.programs@, id),
        caller == pre.programs@[program_index(pre.programs@, id)].organizer,
        0 <= amount,
        amount < pre.amount_limits.min_lock_amount
            || amount > pre.amount_limits.max_lock_amount,
    ensures
        lock_funds_verdict(pre, id, caller, amount, now) == Err::<(), Error>(
            Error::LimitViolation,
        ),
{
}

/// Round trip: a deferred payout followed by collecting the claim it
/// created, within the window, yields exactly one new payout-history entry
/// — the paid recipient and amount — and a remaining balance reduced by
/// exactly the payout amount.
pub proof fn lemma_payout_then_claim_round_trip(
    s0: EscrowState,
    s1: EscrowState,
    s2: EscrowState,
    id: Seq<char>,
    recipient: u64,
    amount: i128,
    l1: Ledger,
    claim_index: u64,
)
    requires
        s0.wf(),
        s1.wf(),
        has_program(s0.programs@, id),
        s0.programs@[program_index(s0.programs@, id)].claim_window > 0,
        single_payout_applied(s0, s1, id, recipient, amount, l1),
        claim_index == s0.programs@[program_index(s0.programs@, id)].claims@.len(),
        claim_applied(s1, s2, id, claim_index),
    ensures
        ({
            let i = program_index(s0.programs@, id);
            let p0 = s0.programs@[i];
            let p2 = s2.programs@[i];
            &&& p2.payout_history@.len() == p0.payout_history@.len() + 1
            &&& p2.payout_history@.last() == (crate::program::PayoutRecord {
                recipient,
                amount,
            })
            &&& p2.remaining_balance == p0.remaining_balance - amount
            &&& p2.locked_total == p0.locked_total
        }),
{
    let i = program_index(s0.programs@, id);
    lemma_program_index_is(s1.programs@, id, i);
}

/// Terminality: once the claim under an index is resolved, collecting it
/// again always fails with `ClaimAlreadyResolved`, and so does cancelling
/// it (an unauthorized caller is refused even earlier); it never silently
/// succeeds twice.
pub proof fn lemma_resolved_claim_is_terminal(
    pre: EscrowState,
    id: Seq<char>,
    caller: u64,
    claim_index: u64,
    seq: u64,
)
    requires
        pre.wf(),
        has_program(pre.programs@, id),
        claim_index < pre.programs@[program_index(pre.programs@, id)].claims@.len(),
        pre.programs@[program_index(pre.programs@, id)].claims@[claim_index as int].status
            != ClaimStatus::Pending,
    ensures
        claim_verdict(pre, id, claim_index, seq) == Err::<(), Error>(Error::ClaimAlreadyResolved),
        cancel_verdict(pre, id, caller, claim_index) is Err,
        (caller == pre.programs@[program_index(pre.programs@, id)].organizer || caller
            == pre.programs@[program_index(pre.programs@, id)].admin) ==> cancel_verdict(
            pre,
            id,
            caller,
            claim_index,
        ) == Err::<(), Error>(Error::ClaimAlreadyResolved),
{
}

/// After a claim was collected, it is resolved, so collecting or
/// cancelling it again fails.
pub proof fn lemma_claimed_claim_is_terminal(
    s1: EscrowState,
    s2: EscrowState,
    id: Seq<char>,
    caller: u64,
    claim_index: u64,
    seq: u64,
)
    requires
        s1.wf(),
        s2.wf(),
        has_program(s1.programs@, id),
        claim_index < s1.programs@[program_index(s1.programs@, id)].claims@.len(),
        claim_applied(s1, s2, id, claim_index),
    ensures
        claim_verdict(s2, id, claim_index, seq) == Err::<(), Error>(Error::ClaimAlreadyResolved),
        cancel_verdict(s2, id, caller, claim_index) is Err,
{
    let i = program_index(s1.programs@, id);
    lemma_program_index_is(s2.programs@, id, i);
    lemma_resolved_claim_is_terminal(s2, id, caller, claim_index, seq);
}

/// After a claim was cancelled, it is resolved, so collecting or
/// cancelling it again fails.
pub proof fn lemma_cancelled_claim_is_terminal(
    s1: EscrowState,
    s2: EscrowState,
    id: Seq<char>,
    caller: u64,
    claim_index: u64,
    seq: u64,
)
    requires
        s1.wf(),
        s2.wf(),
        has_program(s1.programs@, id),
        claim_index < s1.programs@[program_index(s1.programs@, id)].claims@.len(),
        cancel_applied(s1, s2, id, claim_index),
    ensures
        claim_verdict(s2, id, claim_index, seq) == Err::<(), Error>(Error::ClaimAlreadyResolved),
        cancel_verdict(s2, id, caller, claim_index) is Err,
{
    let i = program_index(s1.programs@, id);
    lemma_program_index_is(s2.programs@, id, i);
    lemma_resolved_claim_is_terminal(s2, id, caller, claim_index, seq);
}

/// Cancellation reverses escrow: cancelling the claim a deferred payout
/// created restores the remaining balance to exactly its value before the
/// payout, and leaves the payout history and the locked total as they
/// were.
pub proof fn lemma_cancel_reverses_payout(
    s0: EscrowState,
    s1: EscrowState,
    s2: EscrowState,
    id: Seq<char>,
    recipient: u64,
    amount: i128,
    l1: Ledger,
    claim_index: u64,
)
    requires
        s0.wf(),
        s1.wf(),
        has_program(s0.programs@, id),
        s0.programs@[program_index(s0.programs@, id)].claim_window > 0,
        single_payout_applied(s0, s1, id, recipient, amount, l1),
        claim_index == s0.programs@[program_index(s0.programs@, id)].claims@.len(),
        cancel_applied(s1, s2, id, claim_index),
    ensures
        ({
            let i = program_index(s0.programs@, id);
            let p0 = s0.programs@[i];
            let p2 = s2.programs@[i];
            &&& p2.remaining_balance == p0.remaining_balance
            &&& p2.payout_history@ == p0.payout_history@
            &&& p2.locked_total == p0.locked_total
        }),
{
    let i = program_index(s0.programs@, id);
    lemma_program_index_is(s1.programs@, id, i);
}

/// The rate limiter decides guarded operations: when the program exists,
/// the organizer calls, and the amount passes the lock limits, a blocked
/// rate limiter surfaces its own error — cooldown or ceiling — through
/// `lock_program_funds`, unchanged.
pub proof fn lemma_rate_limit_decides_lock(
    pre: EscrowState,
    id: Seq<char>,
    caller: u64,
    amount: i128,
    now: u64,
    e: Error,
)
    requires
        pre.wf(),
        has_program(pre.programs@, id),
        caller == pre.programs@[program_index(pre.programs@, id)].organizer,
        pre.amount_limits.min_lock_amount <= amount <= pre.amount_limits.max_lock_amount,
        rate_outcome(pre.rate_config, pre.rate_state, now) == Err::<RateLimitState, Error>(e),
    ensures
        lock_funds_verdict(pre, id, caller, amount, now) == Err::<(), Error>(e),
{
}

/// Cooldown precedence: any guarded operation attempted within the
/// cooldown interval of the previous one fails with `CooldownActive`,
/// whatever the operation count says.
pub proof fn lemma_cooldown_blocks(config: RateLimitConfig, state: RateLimitState, now: u64)
    requires
        now < state.last_op_time + config.cooldown_seconds,
    ensures
        rate_step(config, state, now) == Err::<RateLimitState, Error>(Error::CooldownActive),
{
}

/// Along a chain of successful guarded operations that all fall inside the
/// initial window, the counters keep the window start and count one
/// operation each: after `k` operations the count is exactly `k`.
pub proof fn lemma_rate_chain_counts(
    config: RateLimitConfig,
    states: Seq<RateLimitState>,
    times: Seq<u64>,
    k: int,
)
    requires
        config.cooldown_seconds == 0,
        states.len() == times.len() + 1,
        states[0].op_count == 0,
        forall|j: int|
            0 <= j < times.len() ==> rate_step(config, states[j], #[trigger] times[j]) == Ok::<
                RateLimitState,
                Error,
            >(states[j + 1]),
        forall|j: int|
            0 <= j < times.len() ==> states[0].window_start <= #[trigger] times[j]
                && times[j] < states[0].window_start + config.window_seconds,
        0 <= k <= times.len(),
    ensures
        states[k].window_start == states[0].window_start,
        states[k].op_count == k,
        k > 0 ==> states[k].last_op_time == times[k - 1],
    decreases k,
{
    if k > 0 {
        lemma_rate_chain_counts(config, states, times, k - 1);
        let j = k - 1;
        assert(rate_step(config, states[j], times[j]) == Ok::<RateLimitState, Error>(
            states[j + 1],
        ));
        assert(states[0].window_start <= times[j] && times[j] < states[0].window_start
            + config.window_seconds);
        assert(!crate::rate::window_expired(states[j], config, times[j]));
        assert(crate::rate::rolled(states[j], config, times[j]) == states[j]);
        assert(!crate::rate::cooldown_active(states[j], config, times[j]));
    }
}

/// Rate-limit exhaustion: with a ceiling of `max_ops` operations per window
/// and no cooldown, after `max_ops` successful operations inside one
/// window, the next operation inside that window fails with
/// `RateLimitExceeded`.
pub proof fn lemma_rate_limit_exhaustion(
    config: RateLimitConfig,
    states: Seq<RateLimitState>,
    times: Seq<u64>,
    t: u64,
)
    requires
        config.cooldown_seconds == 0,
        states.len() == times.len() + 1,
        states[0].op_count == 0,
        times.len() == config.max_ops,
        forall|j: int|
            0 <= j < times.len() ==> rate_step(config, states[j], #[trigger] times[j]) == Ok::<
                RateLimitState,
                Error,
            >(states[j + 1]),
        forall|j: int|
            0 <= j < times.len() ==> states[0].window_start <= #[trigger] times[j]
                && times[j] < states[0].window_start + config.window_seconds,
        states[0].window_start <= t < states[0].window_start + config.window_seconds,
        states[0].last_op_time <= t,
        forall|j: int| 0 <= j < times.len() ==> #[trigger] times[j] <= t,
    ensures
        rate_step(config, states.last(), t) == Err::<RateLimitState, Error>(
            Error::RateLimitExceeded,
        ),
{
    lemma_rate_chain_counts(config, states, times, times.len() as int);
    let s = states[times.len() as int];
    assert(states.last() == s);
    assert(!crate::rate::window_expired(s, config, t));
    assert(crate::rate::rolled(s, config, t) == s);
    assert(!crate::rate::cooldown_active(s, config, t));
    assert(s.op_count >= config.max_ops);
}

} // verus!
