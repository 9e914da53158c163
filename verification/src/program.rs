//! Program records and their bookkeeping invariant.
//!
//! A program is a funding pool: an organizer locks funds into it and
//! disburses them through payouts, deferred claims, and time-triggered
//! release schedules.  The central invariant ties the balances together:
//! the locked total always equals the remaining balance plus everything
//! paid out, plus everything escrowed in unresolved claims, plus everything
//! reserved by release schedules.

use vstd::prelude::*;

verus! {

/// Where a deferred payout claim stands in its lifecycle.  `Claimed` and
/// `Cancelled` are terminal; expiry is evaluated lazily at claim time and
/// leaves the status untouched.
#[derive(Clone, Copy, Debug, PartialEq, Eq, Structural)]
pub enum ClaimStatus {
    Pending,
    Claimed,
    Cancelled,
}

/// A deferred payout awaiting collection by its recipient, keyed by its
/// position in the program's claim list.
#[derive(Clone, Copy, Debug, PartialEq, Eq, Structural)]
pub struct PendingClaim {
    pub recipient: u64,
    pub amount: i128,
    /// The ledger sequence number at which the claim was created.
    pub created_at: u64,
    pub status: ClaimStatus,
}

/// One settled payout in the append-only history of a program.
#[derive(Clone, Copy, Debug, PartialEq, Eq, Structural)]
pub struct PayoutRecord {
    pub recipient: u64,
    pub amount: i128,
}

/// A fixed future release of reserved funds, keyed by a per-program
/// schedule identifier that starts at 1.
#[derive(Clone, Copy, Debug, PartialEq, Eq, Structural)]
pub struct ReleaseSchedule {
    pub schedule_id: u64,
    pub amount: i128,
    pub release_timestamp: u64,
    pub recipient: u64,
    pub released: bool,
}

/// A funding program: identities, balances, payout history, deferred
/// claims, and release schedules.
pub struct Program {
    /// The unique identifier the program is registered under.
    pub program_id: String,
    pub admin: u64,
    pub organizer: u64,
    /// The token in which the program is denominated.
    pub token: u64,
    pub metadata: Option<String>,
    /// Everything ever locked into the program.
    pub locked_total: i128,
    /// The spendable part of the locked total.
    pub remaining_balance: i128,
    /// How many sequence units a pending claim stays collectible; 0 turns
    /// deferred claims off and settles payouts immediately.
    pub claim_window: u64,
    pub payout_history: Vec<PayoutRecord>,
    /// All claims ever created; the claim index is the position, so resolved
    /// claims stay in place.
    pub claims: Vec<PendingClaim>,
    /// All schedules ever created; the schedule id is the position plus 1.
    pub schedules: Vec<ReleaseSchedule>,
}

/// The sum of all settled payout amounts.
pub open spec fn sum_history(s: Seq<PayoutRecord>) -> int
    decreases s.len(),
{
    if s.len() == 0 {
        0
    } else {
        sum_history(s.drop_last()) + s.last().amount
    }
}

/// The contribution of one claim to the escrowed total: its amount while it
/// is unresolved, nothing once it is claimed or cancelled.
pub open spec fn claim_contribution(c: PendingClaim) -> int {
    if c.status == ClaimStatus::Pending {
        c.amount as int
    } else {
        0
    }
}

/// The total escrowed in unresolved claims.
pub open spec fn sum_claims(s: Seq<PendingClaim>) -> int
    decreases s.len(),
{
    if s.len() == 0 {
        0
    } else {
        sum_claims(s.drop_last()) + claim_contribution(s.last())
    }
}

/// The total reserved by release schedules.  A released schedule keeps its
/// reservation: its funds left custody when it was executed, never to
/// return to the spendable pool.
pub open spec fn sum_schedules(s: Seq<ReleaseSchedule>) -> int
    decreases s.len(),
{
    if s.len() == 0 {
        0
    } else {
        sum_schedules(s.drop_last()) + s.last().amount
    }
}

impl Program {
    /// The bookkeeping invariant of a program: balances are non-negative,
    /// every recorded amount is non-negative, schedule ids are the position
    /// plus one, and the locked total splits exactly into the remaining
    /// balance, the settled payouts, the unresolved claims, and the
    /// schedule reservations.
    pub open spec fn wf(self) -> bool {
        &&& 0 <= self.remaining_balance
        &&& 0 <= self.locked_total
        &&& forall|i: int|
            0 <= i < self.payout_history@.len() ==> 0 <= #[trigger] self.payout_history@[i].amount
        &&& forall|i: int| 0 <= i < self.claims@.len() ==> 0 <= #[trigger] self.claims@[i].amount
        &&& forall|i: int|
            0 <= i < self.schedules@.len() ==> 0 <= #[trigger] self.schedules@[i].amount
        &&& forall|i: int|
            0 <= i < self.schedules@.len() ==> #[trigger] self.schedules@[i].schedule_id == i + 1
        &&& self.locked_total == self.remaining_balance + sum_history(self.payout_history@)
            + sum_claims(self.claims@) + sum_schedules(self.schedules@)
    }
}

/// Appending a payout record adds its amount to the settled total.
pub proof fn lemma_sum_history_push(s: Seq<PayoutRecord>, r: PayoutRecord)
    ensures
        sum_history(s.push(r)) == sum_history(s) + r.amount,
{
    assert(s.push(r).drop_last() =~= s);
}

/// Appending a claim adds its contribution to the escrowed total.
pub proof fn lemma_sum_claims_push(s: Seq<PendingClaim>, c: PendingClaim)
    ensures
        sum_claims(s.push(c)) == sum_claims(s) + claim_contribution(c),
{
    assert(s.push(c).drop_last() =~= s);
}

/// Appending a schedule adds its amount to the reserved total.
pub proof fn lemma_sum_schedules_push(s: Seq<ReleaseSchedule>, r: ReleaseSchedule)
    ensures
        sum_schedules(s.push(r)) == sum_schedules(s) + r.amount,
{
    assert(s.push(r).drop_last() =~= s);
}

/// Replacing one claim changes the escrowed total by the difference of the
/// two contributions.
pub proof fn lemma_sum_claims_update(s: Seq<PendingClaim>, i: int, c: PendingClaim)
    requires
        0 <= i < s.len(),
    ensures
        sum_claims(s.update(i, c)) == sum_claims(s) - claim_contribution(s[i])
            + claim_contribution(c),
    decreases s.len(),
{
    if i == s.len() - 1 {
        assert(s.update(i, c).drop_last() =~= s.drop_last());
        assert(s.update(i, c).last() == c);
    } else {
        assert(s.update(i, c).drop_last() =~= s.drop_last().update(i, c));
        lemma_sum_claims_update(s.drop_last(), i, c);
        assert(s.update(i, c).last() == s.last());
        assert(s.drop_last()[i] == s[i]);
    }
}

/// Replacing one schedule with one of the same amount leaves the reserved
/// total unchanged.
pub proof fn lemma_sum_schedules_update_same_amount(
    s: Seq<ReleaseSchedule>,
    i: int,
    r: ReleaseSchedule,
)
    requires
        0 <= i < s.len(),
        r.amount == s[i].amount,
    ensures
        sum_schedules(s.update(i, r)) == sum_schedules(s),
    decreases s.len(),
{
    if i == s.len() - 1 {
        assert(s.update(i, r).drop_last() =~= s.drop_last());
        assert(s.update(i, r).last() == r);
    } else {
        assert(s.update(i, r).drop_last() =~= s.drop_last().update(i, r));
        lemma_sum_schedules_update_same_amount(s.drop_last(), i, r);
        assert(s.update(i, r).last() == s.last());
        assert(s.drop_last()[i] == s[i]);
    }
}

/// When every settled amount is non-negative, so is the settled total.
pub proof fn lemma_sum_history_nonneg(s: Seq<PayoutRecord>)
    requires
        forall|i: int| 0 <= i < s.len() ==> 0 <= #[trigger] s[i].amount,
    ensures
        0 <= sum_history(s),
    decreases s.len(),
{
    if s.len() > 0 {
        lemma_sum_history_nonneg(s.drop_last());
    }
}

/// When every claim amount is non-negative, so is the escrowed total.
pub proof fn lemma_sum_claims_nonneg(s: Seq<PendingClaim>)
    requires
        forall|i: int| 0 <= i < s.len() ==> 0 <= #[trigger] s[i].amount,
    ensures
        0 <= sum_claims(s),
    decreases s.len(),
{
    if s.len() > 0 {
        lemma_sum_claims_nonneg(s.drop_last());
    }
}

/// When every schedule amount is non-negative, so is the reserved total.
pub proof fn lemma_sum_schedules_nonneg(s: Seq<ReleaseSchedule>)
    requires
        forall|i: int| 0 <= i < s.len() ==> 0 <= #[trigger] s[i].amount,
    ensures
        0 <= sum_schedules(s),
    decreases s.len(),
{
    if s.len() > 0 {
        lemma_sum_schedules_nonneg(s.drop_last());
    }
}

/// The sum of a sequence of amounts.
pub open spec fn sum_amounts(s: Seq<i128>) -> int
    decreases s.len(),
{
    if s.len() == 0 {
        0
    } else {
        sum_amounts(s.drop_last()) + s.last()
    }
}

/// A prefix of non-negative amounts sums to no more than the whole.
pub proof fn lemma_sum_amounts_prefix_le(s: Seq<i128>, k: int)
    requires
        forall|i: int| 0 <= i < s.len() ==> 0 <= #[trigger] s[i],
        0 <= k <= s.len(),
    ensures
        sum_amounts(s.subrange(0, k)) <= sum_amounts(s),
    decreases s.len() - k,
{
    if k == s.len() {
        assert(s.subrange(0, k) =~= s);
    } else {
        assert(s.subrange(0, k + 1).drop_last() =~= s.subrange(0, k));
        lemma_sum_amounts_prefix_le(s, k + 1);
    }
}

/// Extending a prefix of amounts by one element adds that element.
pub proof fn lemma_sum_amounts_prefix_step(s: Seq<i128>, k: int)
    requires
        0 <= k < s.len(),
    ensures
        sum_amounts(s.subrange(0, k + 1)) == sum_amounts(s.subrange(0, k)) + s[k],
{
    assert(s.subrange(0, k + 1).drop_last() =~= s.subrange(0, k));
}

/// The schedules not yet released, in creation order.
pub open spec fn pending_schedules(s: Seq<ReleaseSchedule>) -> Seq<ReleaseSchedule>
    decreases s.len(),
{
    if s.len() == 0 {
        Seq::empty()
    } else if s.last().released {
        pending_schedules(s.drop_last())
    } else {
        pending_schedules(s.drop_last()).push(s.last())
    }
}

/// An unresolved claim's amount never exceeds the escrowed total.
pub proof fn lemma_claim_le_sum(s: Seq<PendingClaim>, i: int)
    requires
        forall|j: int| 0 <= j < s.len() ==> 0 <= #[trigger] s[j].amount,
        0 <= i < s.len(),
        s[i].status == ClaimStatus::Pending,
    ensures
        s[i].amount <= sum_claims(s),
    decreases s.len(),
{
    if i == s.len() - 1 {
        lemma_sum_claims_nonneg(s.drop_last());
    } else {
        lemma_claim_le_sum(s.drop_last(), i);
        assert(s.drop_last()[i] == s[i]);
    }
}

} // verus!
