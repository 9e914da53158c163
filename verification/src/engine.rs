//! The payout engine: the sole entry point that moves balance state.
//!
//! Every mutating operation loads the addressed program, runs the policy
//! pipeline — amount limits, then rate limiting, then the identity-tier
//! ceiling — and only then mutates balances and logs.  Any failure aborts
//! the operation with no partial mutation.  Time never advances inside an
//! operation: the ledger sequence number and timestamp are explicit inputs.

use vstd::prelude::*;
use crate::errors::Error;
use crate::identity::{AddressIdentity, IdentityPolicy, IdentityTier};
use crate::limits::AmountLimits;
use crate::program::{
    lemma_claim_le_sum, lemma_sum_amounts_prefix_le, lemma_sum_amounts_prefix_step,
    lemma_sum_claims_nonneg, lemma_sum_claims_push, lemma_sum_claims_update,
    lemma_sum_history_nonneg, lemma_sum_history_push, lemma_sum_schedules_nonneg,
    lemma_sum_schedules_push, lemma_sum_schedules_update_same_amount, pending_schedules,
    sum_amounts, sum_claims, sum_history, ClaimStatus, PayoutRecord, PendingClaim, Program,
    ReleaseSchedule,
};
use crate::rate::{rate_limit_check, rate_step, RateLimitConfig, RateLimitState};

verus! {

/// The externally supplied clock: a monotonic ledger sequence number (the
/// unit of claim windows) and a monotonic timestamp in seconds (the unit of
/// rate limiting).
#[derive(Clone, Copy, Debug, PartialEq, Eq, Structural)]
pub struct Ledger {
    pub sequence: u64,
    pub timestamp: u64,
}

/// A stored identity record: the address and what is known of it.
#[derive(Clone, Copy, Debug, PartialEq, Eq, Structural)]
pub struct IdentityRecord {
    pub address: u64,
    pub identity: AddressIdentity,
}

/// The balances and payout log of one program, as returned to callers after
/// a mutating operation.
pub struct ProgramState {
    pub locked_total: i128,
    pub remaining_balance: i128,
    pub claim_window: u64,
    pub payout_history: Vec<PayoutRecord>,
}

/// The whole escrow engine: contract-wide policy configuration and the
/// registry of programs.
pub struct EscrowState {
    /// The contract admin, once one was set.
    pub admin: Option<u64>,
    pub amount_limits: AmountLimits,
    /// Rate limiting applies only once a configuration was set.
    pub rate_config: Option<RateLimitConfig>,
    pub rate_state: RateLimitState,
    /// The identity-tier policy applies only once one was set.
    pub identity_policy: Option<IdentityPolicy>,
    pub identities: Vec<IdentityRecord>,
    pub programs: Vec<Program>,
}

/// Some program in `s` is registered under `id`.
pub open spec fn has_program(s: Seq<Program>, id: Seq<char>) -> bool {
    exists|i: int| 0 <= i < s.len() && s[i].program_id@ == id
}

/// The index of the program registered under `id`; meaningful only when
/// `has_program` holds (and unique under `unique_ids`).
pub open spec fn program_index(s: Seq<Program>, id: Seq<char>) -> int {
    choose|i: int| 0 <= i < s.len() && s[i].program_id@ == id
}

/// No two programs share an identifier.
pub open spec fn unique_ids(s: Seq<Program>) -> bool {
    forall|i: int, j: int|
        0 <= i < j < s.len() ==> s[i].program_id@ != s[j].program_id@
}

/// Some record in `s` is stored for `address`.
pub open spec fn has_identity(s: Seq<IdentityRecord>, address: u64) -> bool {
    exists|i: int| 0 <= i < s.len() && s[i].address == address
}

/// The index of the record stored for `address`; meaningful only when
/// `has_identity` holds.
pub open spec fn identity_index(s: Seq<IdentityRecord>, address: u64) -> int {
    choose|i: int| 0 <= i < s.len() && s[i].address == address
}

/// No two records are stored for the same address.
pub open spec fn unique_addresses(s: Seq<IdentityRecord>) -> bool {
    forall|i: int, j: int| 0 <= i < j < s.len() ==> s[i].address != s[j].address
}

/// The never-verified default identity record.
pub open spec fn default_identity() -> AddressIdentity {
    AddressIdentity {
        tier: IdentityTier::Unverified,
        risk_score: 0,
        expiry: 0,
        last_updated: 0,
    }
}

/// What is known of `address`: its stored record, or the never-verified
/// default when none is stored.
pub open spec fn identity_of(s: Seq<IdentityRecord>, address: u64) -> AddressIdentity {
    if has_identity(s, address) {
        s[identity_index(s, address)].identity
    } else {
        default_identity()
    }
}

/// What the rate limiter says about one guarded operation at `now`: with no
/// configuration set, everything passes and the counters stay put.
pub open spec fn rate_outcome(
    config: Option<RateLimitConfig>,
    state: RateLimitState,
    now: u64,
) -> Result<RateLimitState, Error> {
    match config {
        Option::None => Ok(state),
        Option::Some(c) => rate_step(c, state, now),
    }
}

/// The counters after a successful guarded operation at `now`.
pub open spec fn advanced_rate(
    config: Option<RateLimitConfig>,
    state: RateLimitState,
    now: u64,
) -> RateLimitState {
    rate_outcome(config, state, now)->Ok_0
}

/// The verdict half of a result: which error came, or that none did.
pub open spec fn verdict_of<T>(r: Result<T, Error>) -> Result<(), Error> {
    match r {
        Ok(_) => Ok(()),
        Err(e) => Err(e),
    }
}

/// `post` differs from `pre` at most in the program at index `i` and in the
/// rate-limit counters.
pub open spec fn frame_except_program(pre: EscrowState, post: EscrowState, i: int) -> bool {
    &&& post.programs@.len() == pre.programs@.len()
    &&& forall|j: int|
        0 <= j < pre.programs@.len() && j != i ==> post.programs@[j] == pre.programs@[j]
    &&& post.admin == pre.admin
    &&& post.amount_limits == pre.amount_limits
    &&& post.rate_config == pre.rate_config
    &&& post.identity_policy == pre.identity_policy
    &&& post.identities@ == pre.identities@
}

/// `ps` reports exactly the balances and history of `p`.
pub open spec fn is_snapshot_of(ps: ProgramState, p: Program) -> bool {
    &&& ps.locked_total == p.locked_total
    &&& ps.remaining_balance == p.remaining_balance
    &&& ps.claim_window == p.claim_window
    &&& ps.payout_history@ == p.payout_history@
}

impl EscrowState {
    /// The whole engine is well-formed: every program keeps its bookkeeping
    /// invariant, identifiers and identity addresses are unique, and the
    /// configured policies are usable.
    pub open spec fn wf(self) -> bool {
        &&& unique_ids(self.programs@)
        &&& forall|i: int| 0 <= i < self.programs@.len() ==> (#[trigger] self.programs@[i]).wf()
        &&& unique_addresses(self.identities@)
        &&& self.amount_limits.wf()
        &&& (self.identity_policy matches Some(p) ==> p.wf())
    }

    /// A fresh engine: no admin, permissive default amount limits, no rate
    /// limiting, no identity policy, no programs.
    pub fn new() -> (r: EscrowState)
        ensures
            r.wf(),
            r.admin is None,
            r.amount_limits == (AmountLimits {
                min_lock_amount: 1,
                max_lock_amount: i128::MAX,
                min_payout: 1,
                max_payout: i128::MAX,
            }),
            r.rate_config is None,
            r.rate_state == RateLimitState::initial(),
            r.identity_policy is None,
            r.identities@.len() == 0,
            r.programs@.len() == 0,
    {
        EscrowState {
            admin: None,
            amount_limits: AmountLimits::default(),
            rate_config: None,
            rate_state: RateLimitState::new(),
            identity_policy: None,
            identities: Vec::new(),
            programs: Vec::new(),
        }
    }

    /// Find the index of the program registered under `id`.
    fn find_program_index(&self, id: &String) -> (r: Option<usize>)
        ensures
            match r {
                Some(i) => i < self.programs@.len() && self.programs@[i as int].program_id@ == id@,
                None => !has_program(self.programs@, id@),
            },
    {
        let n = self.programs.len();
        let mut k: usize = 0;
        while k < n
            invariant
                k <= n,
                n == self.programs@.len(),
                forall|j: int| 0 <= j < k ==> self.programs@[j].program_id@ != id@,
            decreases n - k,
        {
            if self.programs[k].program_id == *id {
                return Some(k);
            }
            k += 1;
        }
        None
    }

    /// The stored identity of `address`, or the never-verified default.
    fn identity_for(&self, address: u64) -> (r: AddressIdentity)
        requires
            unique_addresses(self.identities@),
        ensures
            r == identity_of(self.identities@, address),
    {
        let n = self.identities.len();
        let mut k: usize = 0;
        while k < n
            invariant
                k <= n,
                n == self.identities@.len(),
                unique_addresses(self.identities@),
                forall|j: int| 0 <= j < k ==> self.identities@[j].address != address,
            decreases n - k,
        {
            if self.identities[k].address == address {
                proof {
                    lemma_identity_index_is(self.identities@, address, k as int);
                }
                return self.identities[k].identity;
            }
            k += 1;
        }
        default_identity_record()
    }

    /// The currently configured amount limits.
    pub fn get_amount_limits(&self) -> (r: AmountLimits)
        ensures
            r == self.amount_limits,
    {
        self.amount_limits
    }

    /// Whether `caller` holds contract-admin authority: true exactly when an
    /// admin was set and it is the caller.
    pub open spec fn is_admin(self, caller: u64) -> bool {
        self.admin matches Some(a) && a == caller
    }

    /// Replace the contract admin.  The first call may come from anyone —
    /// it bootstraps the admin — while later calls must come from the
    /// current admin.
    pub fn set_admin(&mut self, caller: u64, new_admin: u64) -> (r: Result<(), Error>)
        requires
            old(self).wf(),
        ensures
            final(self).wf(),
            r is Ok <==> (old(self).admin is None || old(self).is_admin(caller)),
            r is Err ==> r->Err_0 == Error::Unauthorized && *final(self) == *old(self),
            r is Ok ==> *final(self) == (EscrowState { admin: Some(new_admin), ..*old(self) }),
    {
        match self.admin {
            None => {
                self.admin = Some(new_admin);
                Ok(())
            },
            Some(a) => {
                if a == caller {
                    self.admin = Some(new_admin);
                    Ok(())
                } else {
                    Err(Error::Unauthorized)
                }
            },
        }
    }

    /// Replace the amount-limit configuration.  Admin-gated; each pair must
    /// be non-negative and ordered, and nothing is stored otherwise.
    pub fn update_amount_limits(
        &mut self,
        caller: u64,
        min_lock: i128,
        max_lock: i128,
        min_payout: i128,
        max_payout: i128,
    ) -> (r: Result<(), Error>)
        requires
            old(self).wf(),
        ensures
            final(self).wf(),
            verdict_of(r) == (if !old(self).is_admin(caller) {
                Err::<(), Error>(Error::Unauthorized)
            } else {
                AmountLimits::update_verdict(min_lock, max_lock, min_payout, max_payout)
            }),
            r is Err ==> *final(self) == *old(self),
            r is Ok ==> *final(self) == (EscrowState {
                amount_limits: AmountLimits {
                    min_lock_amount: min_lock,
                    max_lock_amount: max_lock,
                    min_payout: min_payout,
                    max_payout: max_payout,
                },
                ..*old(self)
            }),
    {
        let authorized = match self.admin {
            Some(a) => a == caller,
            None => false,
        };
        if !authorized {
            return Err(Error::Unauthorized);
        }
        match AmountLimits::updated(min_lock, max_lock, min_payout, max_payout) {
            Ok(l) => {
                self.amount_limits = l;
                Ok(())
            },
            Err(e) => Err(e),
        }
    }

    /// Replace the rate-limit configuration.  Admin-gated; it takes effect
    /// for subsequent guarded operations and does not reset the counters
    /// already accumulated.
    pub fn update_rate_limit_config(
        &mut self,
        caller: u64,
        window_seconds: u64,
        max_ops: u64,
        cooldown_seconds: u64,
    ) -> (r: Result<(), Error>)
        requires
            old(self).wf(),
        ensures
            final(self).wf(),
            r is Ok <==> old(self).is_admin(caller),
            r is Err ==> r->Err_0 == Error::Unauthorized && *final(self) == *old(self),
            r is Ok ==> *final(self) == (EscrowState {
                rate_config: Some(RateLimitConfig { window_seconds, max_ops, cooldown_seconds }),
                ..*old(self)
            }),
    {
        let authorized = match self.admin {
            Some(a) => a == caller,
            None => false,
        };
        if !authorized {
            return Err(Error::Unauthorized);
        }
        self.rate_config = Some(RateLimitConfig { window_seconds, max_ops, cooldown_seconds });
        Ok(())
    }

    /// Replace the identity-tier policy.  Admin-gated; ceilings must be
    /// non-negative and small enough to scale, and the multiplier is a
    /// percentage.
    pub fn set_identity_policy(&mut self, caller: u64, policy: IdentityPolicy) -> (r: Result<
        (),
        Error,
    >)
        requires
            old(self).wf(),
        ensures
            final(self).wf(),
            verdict_of(r) == (if !old(self).is_admin(caller) {
                Err::<(), Error>(Error::Unauthorized)
            } else if !policy.wf() {
                Err::<(), Error>(Error::ConfigInvalid)
            } else {
                Ok::<(), Error>(())
            }),
            r is Err ==> *final(self) == *old(self),
            r is Ok ==> *final(self) == (EscrowState {
                identity_policy: Some(policy),
                ..*old(self)
            }),
    {
        let authorized = match self.admin {
            Some(a) => a == caller,
            None => false,
        };
        if !authorized {
            return Err(Error::Unauthorized);
        }
        let ok = policy.tier_limits.unverified_limit >= 0
            && policy.tier_limits.unverified_limit <= crate::identity::TIER_LIMIT_CEILING
            && policy.tier_limits.basic_limit >= 0
            && policy.tier_limits.basic_limit <= crate::identity::TIER_LIMIT_CEILING
            && policy.tier_limits.verified_limit >= 0
            && policy.tier_limits.verified_limit <= crate::identity::TIER_LIMIT_CEILING
            && policy.tier_limits.premium_limit >= 0
            && policy.tier_limits.premium_limit <= crate::identity::TIER_LIMIT_CEILING
            && policy.risk_thresholds.high_risk_multiplier <= 100;
        if !ok {
            return Err(Error::ConfigInvalid);
        }
        self.identity_policy = Some(policy);
        Ok(())
    }
}

/// The verdict of registering a new program under `id` at time `now`:
/// the identifier must be free, and registration is a rate-guarded
/// operation.
pub open spec fn initialize_verdict(pre: EscrowState, id: Seq<char>, now: u64) -> Result<
    (),
    Error,
> {
    if has_program(pre.programs@, id) {
        Err(Error::ProgramAlreadyExists)
    } else if rate_outcome(pre.rate_config, pre.rate_state, now) is Err {
        Err(rate_outcome(pre.rate_config, pre.rate_state, now)->Err_0)
    } else {
        Ok(())
    }
}

/// A successful registration appended one zero-balance program with the
/// given identities and advanced the rate counters; nothing else moved.
pub open spec fn initialize_applied(
    pre: EscrowState,
    post: EscrowState,
    id: Seq<char>,
    admin: u64,
    token: u64,
    organizer: u64,
    metadata: Option<String>,
    now: u64,
) -> bool {
    let p = post.programs@.last();
    &&& post.programs@.len() == pre.programs@.len() + 1
    &&& forall|j: int| 0 <= j < pre.programs@.len() ==> post.programs@[j] == pre.programs@[j]
    &&& p.program_id@ == id
    &&& p.admin == admin
    &&& p.organizer == organizer
    &&& p.token == token
    &&& p.metadata == metadata
    &&& p.locked_total == 0
    &&& p.remaining_balance == 0
    &&& p.claim_window == 0
    &&& p.payout_history@.len() == 0
    &&& p.claims@.len() == 0
    &&& p.schedules@.len() == 0
    &&& post.rate_state == advanced_rate(pre.rate_config, pre.rate_state, now)
    &&& post.admin == pre.admin
    &&& post.amount_limits == pre.amount_limits
    &&& post.rate_config == pre.rate_config
    &&& post.identity_policy == pre.identity_policy
    &&& post.identities@ == pre.identities@
}

/// The verdict of locking `amount` into the program under `id`: the program
/// must exist, the caller must be its organizer, the amount must pass the
/// lock limits, the operation is rate-guarded, and the grown locked total
/// must stay representable.
pub open spec fn lock_funds_verdict(
    pre: EscrowState,
    id: Seq<char>,
    caller: u64,
    amount: i128,
    now: u64,
) -> Result<(), Error> {
    if !has_program(pre.programs@, id) {
        Err(Error::ProgramNotFound)
    } else {
        let p = pre.programs@[program_index(pre.programs@, id)];
        if caller != p.organizer {
            Err(Error::Unauthorized)
        } else if pre.amount_limits.lock_verdict(amount) is Err {
            Err(pre.amount_limits.lock_verdict(amount)->Err_0)
        } else if rate_outcome(pre.rate_config, pre.rate_state, now) is Err {
            Err(rate_outcome(pre.rate_config, pre.rate_state, now)->Err_0)
        } else if p.locked_total + amount > i128::MAX {
            Err(Error::InvalidAmount)
        } else {
            Ok(())
        }
    }
}

/// A successful lock raised the locked total and the remaining balance of
/// the addressed program by exactly `amount` and advanced the rate
/// counters; nothing else moved.
pub open spec fn lock_applied(
    pre: EscrowState,
    post: EscrowState,
    id: Seq<char>,
    amount: i128,
    now: u64,
) -> bool {
    let i = program_index(pre.programs@, id);
    let p = pre.programs@[i];
    &&& frame_except_program(pre, post, i)
    &&& post.rate_state == advanced_rate(pre.rate_config, pre.rate_state, now)
    &&& post.programs@[i] == (Program {
        locked_total: (p.locked_total + amount) as i128,
        remaining_balance: (p.remaining_balance + amount) as i128,
        ..p
    })
}

impl EscrowState {
    /// Register a new program under `program_id` with zero balances and
    /// deferred claims turned off.  Registration is a rate-guarded
    /// operation; the identifier must not be taken.
    pub fn initialize_program(
        &mut self,
        program_id: &String,
        admin: u64,
        token: u64,
        organizer: u64,
        metadata: Option<String>,
        ledger: Ledger,
    ) -> (r: Result<(), Error>)
        requires
            old(self).wf(),
        ensures
            final(self).wf(),
            verdict_of(r) == initialize_verdict(*old(self), program_id@, ledger.timestamp),
            r is Err ==> *final(self) == *old(self),
            r is Ok ==> initialize_applied(
                *old(self),
                *final(self),
                program_id@,
                admin,
                token,
                organizer,
                metadata,
                ledger.timestamp,
            ),
    {
        match self.find_program_index(program_id) {
            Some(i) => {
                proof {
                    lemma_program_index_is(self.programs@, program_id@, i as int);
                }
                return Err(Error::ProgramAlreadyExists);
            },
            None => {},
        }
        let new_rate = match self.rate_gate(ledger.timestamp) {
            Ok(s) => s,
            Err(e) => {
                return Err(e);
            },
        };
        let fresh = Program {
            program_id: program_id.clone(),
            admin,
            organizer,
            token,
            metadata,
            locked_total: 0,
            remaining_balance: 0,
            claim_window: 0,
            payout_history: Vec::new(),
            claims: Vec::new(),
            schedules: Vec::new(),
        };
        self.programs.push(fresh);
        self.rate_state = new_rate;
        Ok(())
    }

    /// Lock `amount` into the program under `program_id`, raising both its
    /// locked total and its remaining balance.  Organizer-authorized and
    /// rate-guarded; the amount must pass the configured lock limits.  The
    /// actual transfer of value into custody belongs to the token
    /// collaborator; this updates the accounting.
    pub fn lock_program_funds(
        &mut self,
        caller: u64,
        program_id: &String,
        amount: i128,
        ledger: Ledger,
    ) -> (r: Result<ProgramState, Error>)
        requires
            old(self).wf(),
        ensures
            final(self).wf(),
            verdict_of(r) == lock_funds_verdict(
                *old(self),
                program_id@,
                caller,
                amount,
                ledger.timestamp,
            ),
            r is Err ==> *final(self) == *old(self),
            r is Ok ==> lock_applied(
                *old(self),
                *final(self),
                program_id@,
                amount,
                ledger.timestamp,
            ),
            r is Ok ==> is_snapshot_of(
                r->Ok_0,
                final(self).programs@[program_index(old(self).programs@, program_id@)],
            ),
    {
        let idx = match self.find_program_index(program_id) {
            None => {
                return Err(Error::ProgramNotFound);
            },
            Some(i) => i,
        };
        proof {
            lemma_program_index_is(self.programs@, program_id@, idx as int);
        }
        if caller != self.programs[idx].organizer {
            return Err(Error::Unauthorized);
        }
        match self.amount_limits.validate_lock(amount) {
            Err(e) => {
                return Err(e);
            },
            Ok(_) => {},
        }
        let new_rate = match self.rate_gate(ledger.timestamp) {
            Ok(s) => s,
            Err(e) => {
                return Err(e);
            },
        };
        if amount > i128::MAX - self.programs[idx].locked_total {
            return Err(Error::InvalidAmount);
        }
        proof {
            let p = self.programs@[idx as int];
            lemma_sum_history_nonneg(p.payout_history@);
            lemma_sum_claims_nonneg(p.claims@);
            lemma_sum_schedules_nonneg(p.schedules@);
        }
        let p = &mut self.programs[idx];
        p.locked_total = p.locked_total + amount;
        p.remaining_balance = p.remaining_balance + amount;
        self.rate_state = new_rate;
        let snap = snapshot_program(&self.programs[idx]);
        Ok(snap)
    }

    /// What the rate limiter says about one guarded operation at `now`.
    fn rate_gate(&self, now: u64) -> (r: Result<RateLimitState, Error>)
        ensures
            r == rate_outcome(self.rate_config, self.rate_state, now),
    {
        match self.rate_config {
            None => Ok(self.rate_state),
            Some(c) => rate_limit_check(c, self.rate_state, now),
        }
    }
}

/// What the identity-tier policy says about `recipient` receiving `amount`
/// at time `now`: with no policy set, everything passes.
pub open spec fn identity_verdict(
    pre: EscrowState,
    recipient: u64,
    amount: i128,
    now: u64,
) -> Result<(), Error> {
    match pre.identity_policy {
        Option::None => Ok(()),
        Option::Some(pol) => crate::identity::spend_verdict(
            pol,
            identity_of(pre.identities@, recipient),
            amount,
            now,
        ),
    }
}

/// The verdict of a single payout: the program must exist, the caller must
/// be its organizer or admin, the amount must pass the payout limits, the
/// operation is rate-guarded, the recipient's identity ceiling must admit
/// the amount, and the remaining balance must cover it.
pub open spec fn single_payout_verdict(
    pre: EscrowState,
    id: Seq<char>,
    caller: u64,
    recipient: u64,
    amount: i128,
    now: u64,
) -> Result<(), Error> {
    if !has_program(pre.programs@, id) {
        Err(Error::ProgramNotFound)
    } else {
        let p = pre.programs@[program_index(pre.programs@, id)];
        if caller != p.organizer && caller != p.admin {
            Err(Error::Unauthorized)
        } else if pre.amount_limits.payout_verdict(amount) is Err {
            Err(pre.amount_limits.payout_verdict(amount)->Err_0)
        } else if rate_outcome(pre.rate_config, pre.rate_state, now) is Err {
            Err(rate_outcome(pre.rate_config, pre.rate_state, now)->Err_0)
        } else if identity_verdict(pre, recipient, amount, now) is Err {
            Err(identity_verdict(pre, recipient, amount, now)->Err_0)
        } else if amount > p.remaining_balance {
            Err(Error::InsufficientBalance)
        } else {
            Ok(())
        }
    }
}

/// A successful single payout deducted `amount` from the remaining balance
/// and either appended a pending claim (claim window set) or settled into
/// the payout history (claim window off); the rate counters advanced and
/// nothing else moved.
pub open spec fn single_payout_applied(
    pre: EscrowState,
    post: EscrowState,
    id: Seq<char>,
    recipient: u64,
    amount: i128,
    ledger: Ledger,
) -> bool {
    let i = program_index(pre.programs@, id);
    let p = pre.programs@[i];
    let q = post.programs@[i];
    &&& frame_except_program(pre, post, i)
    &&& post.rate_state == advanced_rate(pre.rate_config, pre.rate_state, ledger.timestamp)
    &&& q.program_id@ == p.program_id@
    &&& q.admin == p.admin
    &&& q.organizer == p.organizer
    &&& q.token == p.token
    &&& q.metadata == p.metadata
    &&& q.locked_total == p.locked_total
    &&& q.claim_window == p.claim_window
    &&& q.schedules@ == p.schedules@
    &&& q.remaining_balance == p.remaining_balance - amount
    &&& (if p.claim_window > 0 {
        q.payout_history@ == p.payout_history@ && q.claims@ == p.claims@.push(
            PendingClaim {
                recipient,
                amount,
                created_at: ledger.sequence,
                status: ClaimStatus::Pending,
            },
        )
    } else {
        q.claims@ == p.claims@ && q.payout_history@ == p.payout_history@.push(
            PayoutRecord { recipient, amount },
        )
    })
}

/// The claim under `claim_index` of program `id` is collectible at sequence
/// number `seq`: it exists, is unresolved, and its window has not elapsed.
pub open spec fn claim_verdict(
    pre: EscrowState,
    id: Seq<char>,
    claim_index: u64,
    seq: u64,
) -> Result<(), Error> {
    if !has_program(pre.programs@, id) {
        Err(Error::ProgramNotFound)
    } else {
        let p = pre.programs@[program_index(pre.programs@, id)];
        if claim_index >= p.claims@.len() {
            Err(Error::ClaimNotFound)
        } else if p.claims@[claim_index as int].status != ClaimStatus::Pending {
            Err(Error::ClaimAlreadyResolved)
        } else if seq > p.claims@[claim_index as int].created_at + p.claim_window {
            Err(Error::ClaimExpired)
        } else {
            Ok(())
        }
    }
}

/// A successful claim marked the claim `Claimed` and settled its amount
/// into the payout history; the remaining balance stays put because the
/// amount was escrowed when the claim was created.
pub open spec fn claim_applied(
    pre: EscrowState,
    post: EscrowState,
    id: Seq<char>,
    claim_index: u64,
) -> bool {
    let i = program_index(pre.programs@, id);
    let p = pre.programs@[i];
    let q = post.programs@[i];
    let c = p.claims@[claim_index as int];
    &&& frame_except_program(pre, post, i)
    &&& post.rate_state == pre.rate_state
    &&& q.program_id@ == p.program_id@
    &&& q.admin == p.admin
    &&& q.organizer == p.organizer
    &&& q.token == p.token
    &&& q.metadata == p.metadata
    &&& q.locked_total == p.locked_total
    &&& q.claim_window == p.claim_window
    &&& q.schedules@ == p.schedules@
    &&& q.remaining_balance == p.remaining_balance
    &&& q.claims@ == p.claims@.update(
        claim_index as int,
        PendingClaim { status: ClaimStatus::Claimed, ..c },
    )
    &&& q.payout_history@ == p.payout_history@.push(
        PayoutRecord { recipient: c.recipient, amount: c.amount },
    )
}

/// The claim under `claim_index` of program `id` can be cancelled by
/// `caller`: organizer or program-admin authority, and the claim exists and
/// is unresolved.  An expired claim can still be cancelled — that is how
/// its escrow returns to the spendable pool.
pub open spec fn cancel_verdict(
    pre: EscrowState,
    id: Seq<char>,
    caller: u64,
    claim_index: u64,
) -> Result<(), Error> {
    if !has_program(pre.programs@, id) {
        Err(Error::ProgramNotFound)
    } else {
        let p = pre.programs@[program_index(pre.programs@, id)];
        if caller != p.organizer && caller != p.admin {
            Err(Error::Unauthorized)
        } else if claim_index >= p.claims@.len() {
            Err(Error::ClaimNotFound)
        } else if p.claims@[claim_index as int].status != ClaimStatus::Pending {
            Err(Error::ClaimAlreadyResolved)
        } else {
            Ok(())
        }
    }
}

/// A successful cancellation marked the claim `Cancelled` and restored its
/// amount to the remaining balance; no funds ever left custody for it.
pub open spec fn cancel_applied(
    pre: EscrowState,
    post: EscrowState,
    id: Seq<char>,
    claim_index: u64,
) -> bool {
    let i = program_index(pre.programs@, id);
    let p = pre.programs@[i];
    let q = post.programs@[i];
    let c = p.claims@[claim_index as int];
    &&& frame_except_program(pre, post, i)
    &&& post.rate_state == pre.rate_state
    &&& q.program_id@ == p.program_id@
    &&& q.admin == p.admin
    &&& q.organizer == p.organizer
    &&& q.token == p.token
    &&& q.metadata == p.metadata
    &&& q.locked_total == p.locked_total
    &&& q.claim_window == p.claim_window
    &&& q.schedules@ == p.schedules@
    &&& q.payout_history@ == p.payout_history@
    &&& q.remaining_balance == p.remaining_balance + c.amount
    &&& q.claims@ == p.claims@.update(
        claim_index as int,
        PendingClaim { status: ClaimStatus::Cancelled, ..c },
    )
}

impl EscrowState {
    /// Set how many sequence units a pending claim of the program stays
    /// collectible; 0 turns deferred claims off so payouts settle
    /// immediately.  Organizer or program-admin gated.
    pub fn set_program_claim_config(
        &mut self,
        caller: u64,
        program_id: &String,
        claim_window: u64,
    ) -> (r: Result<(), Error>)
        requires
            old(self).wf(),
        ensures
            final(self).wf(),
            verdict_of(r) == (if !has_program(old(self).programs@, program_id@) {
                Err::<(), Error>(Error::ProgramNotFound)
            } else if caller != old(self).programs@[program_index(
                old(self).programs@,
                program_id@,
            )].organizer && caller != old(self).programs@[program_index(
                old(self).programs@,
                program_id@,
            )].admin {
                Err::<(), Error>(Error::Unauthorized)
            } else {
                Ok::<(), Error>(())
            }),
            r is Err ==> *final(self) == *old(self),
            r is Ok ==> ({
                let i = program_index(old(self).programs@, program_id@);
                &&& frame_except_program(*old(self), *final(self), i)
                &&& final(self).rate_state == old(self).rate_state
                &&& final(self).programs@[i] == (Program {
                    claim_window,
                    ..old(self).programs@[i]
                })
            }),
    {
        let idx = match self.find_program_index(program_id) {
            None => {
                return Err(Error::ProgramNotFound);
            },
            Some(i) => i,
        };
        proof {
            lemma_program_index_is(self.programs@, program_id@, idx as int);
        }
        if caller != self.programs[idx].organizer && caller != self.programs[idx].admin {
            return Err(Error::Unauthorized);
        }
        let p = &mut self.programs[idx];
        p.claim_window = claim_window;
        Ok(())
    }

    /// Pay `amount` to `recipient` out of the program under `program_id`.
    /// With a claim window configured the payout becomes a pending claim
    /// that the recipient must collect; otherwise it settles immediately
    /// into the payout history.  Either way the remaining balance drops by
    /// `amount` at once.
    pub fn single_payout(
        &mut self,
        caller: u64,
        program_id: &String,
        recipient: u64,
        amount: i128,
        ledger: Ledger,
    ) -> (r: Result<ProgramState, Error>)
        requires
            old(self).wf(),
        ensures
            final(self).wf(),
            verdict_of(r) == single_payout_verdict(
                *old(self),
                program_id@,
                caller,
                recipient,
                amount,
                ledger.timestamp,
            ),
            r is Err ==> *final(self) == *old(self),
            r is Ok ==> single_payout_applied(
                *old(self),
                *final(self),
                program_id@,
                recipient,
                amount,
                ledger,
            ),
            r is Ok ==> is_snapshot_of(
                r->Ok_0,
                final(self).programs@[program_index(old(self).programs@, program_id@)],
            ),
    {
        let idx = match self.find_program_index(program_id) {
            None => {
                return Err(Error::ProgramNotFound);
            },
            Some(i) => i,
        };
        proof {
            lemma_program_index_is(self.programs@, program_id@, idx as int);
        }
        if caller != self.programs[idx].organizer && caller != self.programs[idx].admin {
            return Err(Error::Unauthorized);
        }
        match self.amount_limits.validate_payout(amount) {
            Err(e) => {
                return Err(e);
            },
            Ok(_) => {},
        }
        let new_rate = match self.rate_gate(ledger.timestamp) {
            Ok(s) => s,
            Err(e) => {
                return Err(e);
            },
        };
        match self.identity_policy {
            None => {},
            Some(pol) => {
                let identity = self.identity_for(recipient);
                match crate::identity::validate_spend(&pol, &identity, amount, ledger.timestamp) {
                    Err(e) => {
                        return Err(e);
                    },
                    Ok(_) => {},
                }
            },
        }
        if amount > self.programs[idx].remaining_balance {
            return Err(Error::InsufficientBalance);
        }
        let window = self.programs[idx].claim_window;
        let p = &mut self.programs[idx];
        p.remaining_balance = p.remaining_balance - amount;
        if window > 0 {
            let claim = PendingClaim {
                recipient,
                amount,
                created_at: ledger.sequence,
                status: ClaimStatus::Pending,
            };
            p.claims.push(claim);
            proof {
                lemma_sum_claims_push(old(self).programs@[idx as int].claims@, claim);
            }
        } else {
            let record = PayoutRecord { recipient, amount };
            p.payout_history.push(record);
            proof {
                lemma_sum_history_push(old(self).programs@[idx as int].payout_history@, record);
            }
        }
        self.rate_state = new_rate;
        let snap = snapshot_program(&self.programs[idx]);
        Ok(snap)
    }

    /// Collect the pending claim under `claim_index` of the program: mark
    /// it claimed and settle its amount into the payout history.  Fails if
    /// the claim is missing, already resolved, or was created more than the
    /// claim window's worth of sequence units ago — expiry is checked
    /// lazily, right here.
    pub fn claim_payout(&mut self, program_id: &String, claim_index: u64, ledger: Ledger) -> (r:
        Result<ProgramState, Error>)
        requires
            old(self).wf(),
        ensures
            final(self).wf(),
            verdict_of(r) == claim_verdict(*old(self), program_id@, claim_index, ledger.sequence),
            r is Err ==> *final(self) == *old(self),
            r is Ok ==> claim_applied(*old(self), *final(self), program_id@, claim_index),
            r is Ok ==> is_snapshot_of(
                r->Ok_0,
                final(self).programs@[program_index(old(self).programs@, program_id@)],
            ),
    {
        let idx = match self.find_program_index(program_id) {
            None => {
                return Err(Error::ProgramNotFound);
            },
            Some(i) => i,
        };
        proof {
            lemma_program_index_is(self.programs@, program_id@, idx as int);
        }
        if claim_index >= self.programs[idx].claims.len() as u64 {
            return Err(Error::ClaimNotFound);
        }
        let ci = claim_index as usize;
        let c = self.programs[idx].claims[ci];
        if !matches!(c.status, ClaimStatus::Pending) {
            return Err(Error::ClaimAlreadyResolved);
        }
        let window = self.programs[idx].claim_window;
        if (ledger.sequence as u128) > (c.created_at as u128) + (window as u128) {
            return Err(Error::ClaimExpired);
        }
        let p = &mut self.programs[idx];
        let slot = &mut p.claims[ci];
        slot.status = ClaimStatus::Claimed;
        let record = PayoutRecord { recipient: c.recipient, amount: c.amount };
        p.payout_history.push(record);
        proof {
            lemma_sum_claims_update(
                old(self).programs@[idx as int].claims@,
                ci as int,
                PendingClaim { status: ClaimStatus::Claimed, ..c },
            );
            lemma_sum_history_push(old(self).programs@[idx as int].payout_history@, record);
        }
        let snap = snapshot_program(&self.programs[idx]);
        Ok(snap)
    }

    /// Cancel the pending claim under `claim_index` of the program: mark it
    /// cancelled and restore its escrowed amount to the remaining balance.
    /// Organizer or program-admin gated; resolved claims cannot be
    /// cancelled again.
    pub fn cancel_payout_claim(
        &mut self,
        caller: u64,
        program_id: &String,
        claim_index: u64,
    ) -> (r: Result<ProgramState, Error>)
        requires
            old(self).wf(),
        ensures
            final(self).wf(),
            verdict_of(r) == cancel_verdict(*old(self), program_id@, caller, claim_index),
            r is Err ==> *final(self) == *old(self),
            r is Ok ==> cancel_applied(*old(self), *final(self), program_id@, claim_index),
            r is Ok ==> is_snapshot_of(
                r->Ok_0,
                final(self).programs@[program_index(old(self).programs@, program_id@)],
            ),
    {
        let idx = match self.find_program_index(program_id) {
            None => {
                return Err(Error::ProgramNotFound);
            },
            Some(i) => i,
        };
        proof {
            lemma_program_index_is(self.programs@, program_id@, idx as int);
        }
        if caller != self.programs[idx].organizer && caller != self.programs[idx].admin {
            return Err(Error::Unauthorized);
        }
        if claim_index >= self.programs[idx].claims.len() as u64 {
            return Err(Error::ClaimNotFound);
        }
        let ci = claim_index as usize;
        let c = self.programs[idx].claims[ci];
        if !matches!(c.status, ClaimStatus::Pending) {
            return Err(Error::ClaimAlreadyResolved);
        }
        proof {
            let p = self.programs@[idx as int];
            lemma_claim_le_sum(p.claims@, ci as int);
            lemma_sum_history_nonneg(p.payout_history@);
            lemma_sum_claims_nonneg(p.claims@);
            lemma_sum_schedules_nonneg(p.schedules@);
        }
        let p = &mut self.programs[idx];
        let slot = &mut p.claims[ci];
        slot.status = ClaimStatus::Cancelled;
        p.remaining_balance = p.remaining_balance + c.amount;
        proof {
            lemma_sum_claims_update(
                old(self).programs@[idx as int].claims@,
                ci as int,
                PendingClaim { status: ClaimStatus::Cancelled, ..c },
            );
        }
        let snap = snapshot_program(&self.programs[idx]);
        Ok(snap)
    }
}

/// The per-pair verdicts of a batch payout, taken in list order: each
/// amount must pass the payout limits and each recipient's identity
/// ceiling must admit its amount.  The first failing pair decides.
pub open spec fn batch_pairs_verdict(
    pre: EscrowState,
    recipients: Seq<u64>,
    amounts: Seq<i128>,
    now: u64,
) -> Result<(), Error>
    decreases recipients.len(),
{
    if recipients.len() == 0 {
        Ok(())
    } else if pre.amount_limits.payout_verdict(amounts[0]) is Err {
        pre.amount_limits.payout_verdict(amounts[0])
    } else if identity_verdict(pre, recipients[0], amounts[0], now) is Err {
        identity_verdict(pre, recipients[0], amounts[0], now)
    } else {
        batch_pairs_verdict(
            pre,
            recipients.subrange(1, recipients.len() as int),
            amounts.subrange(1, amounts.len() as int),
            now,
        )
    }
}

/// When every pair passed, every amount passed the payout limits.
pub proof fn lemma_batch_pairs_ok(
    pre: EscrowState,
    recipients: Seq<u64>,
    amounts: Seq<i128>,
    now: u64,
)
    requires
        recipients.len() == amounts.len(),
        batch_pairs_verdict(pre, recipients, amounts, now) is Ok,
    ensures
        forall|k: int|
            0 <= k < amounts.len() ==> pre.amount_limits.payout_verdict(#[trigger] amounts[k])
                is Ok,
    decreases recipients.len(),
{
    if recipients.len() > 0 {
        lemma_batch_pairs_ok(
            pre,
            recipients.subrange(1, recipients.len() as int),
            amounts.subrange(1, amounts.len() as int),
            now,
        );
        assert forall|k: int|
            0 <= k < amounts.len() implies pre.amount_limits.payout_verdict(
            #[trigger] amounts[k],
        ) is Ok by {
            if k > 0 {
                assert(amounts.subrange(1, amounts.len() as int)[k - 1] == amounts[k]);
            }
        }
    }
}

/// The payout records a settled batch appends, in list order.
pub open spec fn batch_records(recipients: Seq<u64>, amounts: Seq<i128>) -> Seq<PayoutRecord> {
    Seq::new(
        recipients.len(),
        |k: int| PayoutRecord { recipient: recipients[k], amount: amounts[k] },
    )
}

/// The pending claims a deferred batch appends, in list order, all created
/// at sequence number `seq`.
pub open spec fn batch_claims(recipients: Seq<u64>, amounts: Seq<i128>, seq: u64) -> Seq<
    PendingClaim,
> {
    Seq::new(
        recipients.len(),
        |k: int| PendingClaim {
            recipient: recipients[k],
            amount: amounts[k],
            created_at: seq,
            status: ClaimStatus::Pending,
        },
    )
}

/// The verdict of a batch payout: the program must exist, the lists must
/// have equal length, the caller must be organizer or admin, the operation
/// is rate-guarded once for the whole batch, every pair must pass the
/// payout limits and the identity ceiling, and the remaining balance must
/// cover the batch total.  Validation is all-or-nothing: any failure
/// applies none of the batch.
pub open spec fn batch_payout_verdict(
    pre: EscrowState,
    id: Seq<char>,
    caller: u64,
    recipients: Seq<u64>,
    amounts: Seq<i128>,
    now: u64,
) -> Result<(), Error> {
    if !has_program(pre.programs@, id) {
        Err(Error::ProgramNotFound)
    } else {
        let p = pre.programs@[program_index(pre.programs@, id)];
        if recipients.len() != amounts.len() {
            Err(Error::InvalidInput)
        } else if caller != p.organizer && caller != p.admin {
            Err(Error::Unauthorized)
        } else if rate_outcome(pre.rate_config, pre.rate_state, now) is Err {
            Err(rate_outcome(pre.rate_config, pre.rate_state, now)->Err_0)
        } else if batch_pairs_verdict(pre, recipients, amounts, now) is Err {
            Err(batch_pairs_verdict(pre, recipients, amounts, now)->Err_0)
        } else if sum_amounts(amounts) > p.remaining_balance {
            Err(Error::InsufficientBalance)
        } else {
            Ok(())
        }
    }
}

/// A successful batch deducted the batch total from the remaining balance
/// and appended one claim (claim window set) or one history record (claim
/// window off) per pair, in list order; the rate counters advanced once
/// and nothing else moved.
pub open spec fn batch_payout_applied(
    pre: EscrowState,
    post: EscrowState,
    id: Seq<char>,
    recipients: Seq<u64>,
    amounts: Seq<i128>,
    ledger: Ledger,
) -> bool {
    let i = program_index(pre.programs@, id);
    let p = pre.programs@[i];
    let q = post.programs@[i];
    &&& frame_except_program(pre, post, i)
    &&& post.rate_state == advanced_rate(pre.rate_config, pre.rate_state, ledger.timestamp)
    &&& q.program_id@ == p.program_id@
    &&& q.admin == p.admin
    &&& q.organizer == p.organizer
    &&& q.token == p.token
    &&& q.metadata == p.metadata
    &&& q.locked_total == p.locked_total
    &&& q.claim_window == p.claim_window
    &&& q.schedules@ == p.schedules@
    &&& q.remaining_balance == p.remaining_balance - sum_amounts(amounts)
    &&& (if p.claim_window > 0 {
        q.payout_history@ == p.payout_history@ && q.claims@ == p.claims@ + batch_claims(
            recipients,
            amounts,
            ledger.sequence,
        )
    } else {
        q.claims@ == p.claims@ && q.payout_history@ == p.payout_history@ + batch_records(
            recipients,
            amounts,
        )
    })
}

impl EscrowState {
    /// Pay several recipients out of the program in one atomic batch: every
    /// pair is validated first, and only when all pass is any of the batch
    /// applied.  With a claim window configured each pair becomes a pending
    /// claim; otherwise each settles into the payout history.
    pub fn batch_payout(
        &mut self,
        caller: u64,
        program_id: &String,
        recipients: &Vec<u64>,
        amounts: &Vec<i128>,
        ledger: Ledger,
    ) -> (r: Result<ProgramState, Error>)
        requires
            old(self).wf(),
        ensures
            final(self).wf(),
            verdict_of(r) == batch_payout_verdict(
                *old(self),
                program_id@,
                caller,
                recipients@,
                amounts@,
                ledger.timestamp,
            ),
            r is Err ==> *final(self) == *old(self),
            r is Ok ==> batch_payout_applied(
                *old(self),
                *final(self),
                program_id@,
                recipients@,
                amounts@,
                ledger,
            ),
            r is Ok ==> is_snapshot_of(
                r->Ok_0,
                final(self).programs@[program_index(old(self).programs@, program_id@)],
            ),
    {
        let idx = match self.find_program_index(program_id) {
            None => {
                return Err(Error::ProgramNotFound);
            },
            Some(i) => i,
        };
        proof {
            lemma_program_index_is(self.programs@, program_id@, idx as int);
        }
        let n = recipients.len();
        if n != amounts.len() {
            return Err(Error::InvalidInput);
        }
        if caller != self.programs[idx].organizer && caller != self.programs[idx].admin {
            return Err(Error::Unauthorized);
        }
        let new_rate = match self.rate_gate(ledger.timestamp) {
            Ok(s) => s,
            Err(e) => {
                return Err(e);
            },
        };
        let ghost now = ledger.timestamp;
        proof {
            assert(recipients@.subrange(0, n as int) =~= recipients@);
            assert(amounts@.subrange(0, n as int) =~= amounts@);
        }
        let mut k: usize = 0;
        while k < n
            invariant
                k <= n,
                n == recipients@.len(),
                n == amounts@.len(),
                *self == *old(self),
                old(self).wf(),
                now == ledger.timestamp,
                has_program(old(self).programs@, program_id@),
                idx < old(self).programs@.len(),
                idx as int == program_index(old(self).programs@, program_id@),
                caller == old(self).programs@[idx as int].organizer || caller == old(
                    self,
                ).programs@[idx as int].admin,
                rate_outcome(old(self).rate_config, old(self).rate_state, now) is Ok,
                batch_pairs_verdict(*self, recipients@, amounts@, now) == batch_pairs_verdict(
                    *self,
                    recipients@.subrange(k as int, n as int),
                    amounts@.subrange(k as int, n as int),
                    now,
                ),
            decreases n - k,
        {
            let ghost rtail = recipients@.subrange(k as int, n as int);
            let ghost atail = amounts@.subrange(k as int, n as int);
            proof {
                assert(rtail[0] == recipients@[k as int]);
                assert(atail[0] == amounts@[k as int]);
            }
            match self.amount_limits.validate_payout(amounts[k]) {
                Err(e) => {
                    proof {
                        assert(batch_pairs_verdict(*self, rtail, atail, now) == Err::<(), Error>(
                            e,
                        ));
                    }
                    return Err(e);
                },
                Ok(_) => {},
            }
            match self.identity_policy {
                None => {},
                Some(pol) => {
                    let identity = self.identity_for(recipients[k]);
                    match crate::identity::validate_spend(
                        &pol,
                        &identity,
                        amounts[k],
                        ledger.timestamp,
                    ) {
                        Err(e) => {
                            proof {
                                assert(identity_verdict(*self, rtail[0], atail[0], now)
                                    == Err::<(), Error>(e));
                                assert(batch_pairs_verdict(*self, rtail, atail, now)
                                    == Err::<(), Error>(e));
                            }
                            return Err(e);
                        },
                        Ok(_) => {},
                    }
                },
            }
            proof {
                assert(identity_verdict(*self, rtail[0], atail[0], now) is Ok);
                assert(rtail.subrange(1, rtail.len() as int) =~= recipients@.subrange(
                    (k + 1) as int,
                    n as int,
                ));
                assert(atail.subrange(1, atail.len() as int) =~= amounts@.subrange(
                    (k + 1) as int,
                    n as int,
                ));
                assert(batch_pairs_verdict(*self, rtail, atail, now) == batch_pairs_verdict(
                    *self,
                    rtail.subrange(1, rtail.len() as int),
                    atail.subrange(1, atail.len() as int),
                    now,
                ));
            }
            k += 1;
        }
        proof {
            assert(recipients@.subrange(n as int, n as int) =~= Seq::<u64>::empty());
            assert(amounts@.subrange(n as int, n as int) =~= Seq::<i128>::empty());
            lemma_batch_pairs_ok(*self, recipients@, amounts@, now);
        }
        let remaining = self.programs[idx].remaining_balance;
        let mut total: i128 = 0;
        let mut k2: usize = 0;
        while k2 < n
            invariant
                k2 <= n,
                n == recipients@.len(),
                n == amounts@.len(),
                *self == *old(self),
                old(self).wf(),
                now == ledger.timestamp,
                has_program(old(self).programs@, program_id@),
                idx as int == program_index(old(self).programs@, program_id@),
                caller == old(self).programs@[idx as int].organizer || caller == old(
                    self,
                ).programs@[idx as int].admin,
                rate_outcome(old(self).rate_config, old(self).rate_state, now) is Ok,
                batch_pairs_verdict(*old(self), recipients@, amounts@, now) is Ok,
                forall|i: int|
                    0 <= i < amounts@.len() ==> self.amount_limits.payout_verdict(
                        #[trigger] amounts@[i],
                    ) is Ok,
                idx < self.programs@.len(),
                remaining == self.programs@[idx as int].remaining_balance,
                total == sum_amounts(amounts@.subrange(0, k2 as int)),
                0 <= total <= remaining,
            decreases n - k2,
        {
            proof {
                lemma_sum_amounts_prefix_step(amounts@, k2 as int);
            }
            if amounts[k2] > remaining - total {
                proof {
                    assert forall|i: int| 0 <= i < amounts@.len() implies 0 <= #[trigger] amounts@[i] by {
                        assert(self.amount_limits.payout_verdict(amounts@[i]) is Ok);
                    }
                    lemma_sum_amounts_prefix_le(amounts@, k2 as int + 1);
                }
                return Err(Error::InsufficientBalance);
            }
            total = total + amounts[k2];
            k2 += 1;
        }
        proof {
            assert(amounts@.subrange(0, n as int) =~= amounts@);
            assert(batch_payout_verdict(
                *old(self),
                program_id@,
                caller,
                recipients@,
                amounts@,
                ledger.timestamp,
            ) is Ok);
        }
        let window = self.programs[idx].claim_window;
        {
            let p = &mut self.programs[idx];
            p.remaining_balance = p.remaining_balance - total;
        }
        let ghost po = old(self).programs@[idx as int];
        let mut k3: usize = 0;
        if window > 0 {
            while k3 < n
                invariant
                    k3 <= n,
                    n == recipients@.len(),
                    n == amounts@.len(),
                    forall|i: int| 0 <= i < amounts@.len() ==> 0 <= #[trigger] amounts@[i],
                    old(self).wf(),
                    now == ledger.timestamp,
                    idx as int == program_index(old(self).programs@, program_id@),
                    batch_payout_verdict(
                        *old(self),
                        program_id@,
                        caller,
                        recipients@,
                        amounts@,
                        now,
                    ) is Ok,
                    new_rate == advanced_rate(old(self).rate_config, old(self).rate_state, now),
                    total == sum_amounts(amounts@),
                    idx < self.programs@.len(),
                    self.programs@.len() == old(self).programs@.len(),
                    forall|j: int|
                        0 <= j < self.programs@.len() && j != idx ==> self.programs@[j] == old(
                            self,
                        ).programs@[j],
                    self.admin == old(self).admin,
                    self.amount_limits == old(self).amount_limits,
                    self.rate_config == old(self).rate_config,
                    self.identity_policy == old(self).identity_policy,
                    self.identities@ == old(self).identities@,
                    self.rate_state == old(self).rate_state,
                    po == old(self).programs@[idx as int],
                    ({
                        let q = self.programs@[idx as int];
                        &&& q.program_id == po.program_id
                        &&& q.admin == po.admin
                        &&& q.organizer == po.organizer
                        &&& q.token == po.token
                        &&& q.metadata == po.metadata
                        &&& q.locked_total == po.locked_total
                        &&& q.claim_window == po.claim_window
                        &&& q.schedules@ == po.schedules@
                        &&& q.payout_history@ == po.payout_history@
                        &&& q.remaining_balance == po.remaining_balance - total
                        &&& q.claims@ == po.claims@ + batch_claims(
                            recipients@,
                            amounts@,
                            ledger.sequence,
                        ).subrange(0, k3 as int)
                        &&& sum_claims(q.claims@) == sum_claims(po.claims@) + sum_amounts(
                            amounts@.subrange(0, k3 as int),
                        )
                    }),
                decreases n - k3,
            {
                let claim = PendingClaim {
                    recipient: recipients[k3],
                    amount: amounts[k3],
                    created_at: ledger.sequence,
                    status: ClaimStatus::Pending,
                };
                proof {
                    let q = self.programs@[idx as int];
                    lemma_sum_claims_push(q.claims@, claim);
                    lemma_sum_amounts_prefix_step(amounts@, k3 as int);
                    let full = batch_claims(recipients@, amounts@, ledger.sequence);
                    assert(full[k3 as int] == claim);
                    assert(full.subrange(0, (k3 + 1) as int) =~= full.subrange(0, k3 as int).push(
                        claim,
                    ));
                    assert((po.claims@ + full.subrange(0, k3 as int)).push(claim) =~= po.claims@
                        + full.subrange(0, (k3 + 1) as int));
                }
                let p = &mut self.programs[idx];
                p.claims.push(claim);
                k3 += 1;
            }
            proof {
                let full = batch_claims(recipients@, amounts@, ledger.sequence);
                assert(full.subrange(0, n as int) =~= full);
                assert(amounts@.subrange(0, n as int) =~= amounts@);
            }
        } else {
            while k3 < n
                invariant
                    k3 <= n,
                    n == recipients@.len(),
                    n == amounts@.len(),
                    forall|i: int| 0 <= i < amounts@.len() ==> 0 <= #[trigger] amounts@[i],
                    old(self).wf(),
                    now == ledger.timestamp,
                    idx as int == program_index(old(self).programs@, program_id@),
                    batch_payout_verdict(
                        *old(self),
                        program_id@,
                        caller,
                        recipients@,
                        amounts@,
                        now,
                    ) is Ok,
                    new_rate == advanced_rate(old(self).rate_config, old(self).rate_state, now),
                    total == sum_amounts(amounts@),
                    idx < self.programs@.len(),
                    self.programs@.len() == old(self).programs@.len(),
                    forall|j: int|
                        0 <= j < self.programs@.len() && j != idx ==> self.programs@[j] == old(
                            self,
                        ).programs@[j],
                    self.admin == old(self).admin,
                    self.amount_limits == old(self).amount_limits,
                    self.rate_config == old(self).rate_config,
                    self.identity_policy == old(self).identity_policy,
                    self.identities@ == old(self).identities@,
                    self.rate_state == old(self).rate_state,
                    po == old(self).programs@[idx as int],
                    ({
                        let q = self.programs@[idx as int];
                        &&& q.program_id == po.program_id
                        &&& q.admin == po.admin
                        &&& q.organizer == po.organizer
                        &&& q.token == po.token
                        &&& q.metadata == po.metadata
                        &&& q.locked_total == po.locked_total
                        &&& q.claim_window == po.claim_window
                        &&& q.schedules@ == po.schedules@
                        &&& q.claims@ == po.claims@
                        &&& q.remaining_balance == po.remaining_balance - total
                        &&& q.payout_history@ == po.payout_history@ + batch_records(
                            recipients@,
                            amounts@,
                        ).subrange(0, k3 as int)
                        &&& sum_history(q.payout_history@) == sum_history(po.payout_history@)
                            + sum_amounts(amounts@.subrange(0, k3 as int))
                    }),
                decreases n - k3,
            {
                let record = PayoutRecord { recipient: recipients[k3], amount: amounts[k3] };
                proof {
                    let q = self.programs@[idx as int];
                    lemma_sum_history_push(q.payout_history@, record);
                    lemma_sum_amounts_prefix_step(amounts@, k3 as int);
                    let full = batch_records(recipients@, amounts@);
                    assert(full[k3 as int] == record);
                    assert(full.subrange(0, (k3 + 1) as int) =~= full.subrange(0, k3 as int).push(
                        record,
                    ));
                    assert((po.payout_history@ + full.subrange(0, k3 as int)).push(record)
                        =~= po.payout_history@ + full.subrange(0, (k3 + 1) as int));
                }
                let p = &mut self.programs[idx];
                p.payout_history.push(record);
                k3 += 1;
            }
            proof {
                let full = batch_records(recipients@, amounts@);
                assert(full.subrange(0, n as int) =~= full);
                assert(amounts@.subrange(0, n as int) =~= amounts@);
            }
        }
        self.rate_state = new_rate;
        let snap = snapshot_program(&self.programs[idx]);
        Ok(snap)
    }
}

/// The verdict of creating a release schedule: the program must exist, the
/// caller must be organizer or admin, the amount must be non-negative and
/// covered by the remaining balance, and the schedule id must stay
/// representable.
pub open spec fn create_schedule_verdict(
    pre: EscrowState,
    id: Seq<char>,
    caller: u64,
    amount: i128,
) -> Result<(), Error> {
    if !has_program(pre.programs@, id) {
        Err(Error::ProgramNotFound)
    } else {
        let p = pre.programs@[program_index(pre.programs@, id)];
        if caller != p.organizer && caller != p.admin {
            Err(Error::Unauthorized)
        } else if amount < 0 {
            Err(Error::InvalidAmount)
        } else if amount > p.remaining_balance {
            Err(Error::InsufficientBalance)
        } else if p.schedules@.len() + 1 > u64::MAX {
            Err(Error::InvalidInput)
        } else {
            Ok(())
        }
    }
}

/// A successful schedule creation reserved `amount` out of the remaining
/// balance and appended one unreleased schedule under the next id; nothing
/// else moved.
pub open spec fn create_schedule_applied(
    pre: EscrowState,
    post: EscrowState,
    id: Seq<char>,
    amount: i128,
    release_timestamp: u64,
    recipient: u64,
) -> bool {
    let i = program_index(pre.programs@, id);
    let p = pre.programs@[i];
    let q = post.programs@[i];
    &&& frame_except_program(pre, post, i)
    &&& post.rate_state == pre.rate_state
    &&& q.program_id@ == p.program_id@
    &&& q.admin == p.admin
    &&& q.organizer == p.organizer
    &&& q.token == p.token
    &&& q.metadata == p.metadata
    &&& q.locked_total == p.locked_total
    &&& q.claim_window == p.claim_window
    &&& q.payout_history@ == p.payout_history@
    &&& q.claims@ == p.claims@
    &&& q.remaining_balance == p.remaining_balance - amount
    &&& q.schedules@ == p.schedules@.push(
        ReleaseSchedule {
            schedule_id: (p.schedules@.len() + 1) as u64,
            amount,
            release_timestamp,
            recipient,
            released: false,
        },
    )
}

/// The verdict of executing a release: the program and schedule must
/// exist, the schedule must not have been released already, and its
/// release timestamp must have been reached.
pub open spec fn execute_release_verdict(
    pre: EscrowState,
    id: Seq<char>,
    schedule_id: u64,
    now: u64,
) -> Result<(), Error> {
    if !has_program(pre.programs@, id) {
        Err(Error::ProgramNotFound)
    } else {
        let p = pre.programs@[program_index(pre.programs@, id)];
        if schedule_id == 0 || schedule_id > p.schedules@.len() {
            Err(Error::ScheduleNotFound)
        } else if p.schedules@[schedule_id - 1].released {
            Err(Error::ScheduleAlreadyReleased)
        } else if now < p.schedules@[schedule_id - 1].release_timestamp {
            Err(Error::ReleaseNotDue)
        } else {
            Ok(())
        }
    }
}

/// A successful release execution flipped the released flag of the
/// schedule, exactly once; the balances stay put because the amount was
/// reserved when the schedule was created.
pub open spec fn execute_release_applied(
    pre: EscrowState,
    post: EscrowState,
    id: Seq<char>,
    schedule_id: u64,
) -> bool {
    let i = program_index(pre.programs@, id);
    let p = pre.programs@[i];
    let q = post.programs@[i];
    let s = p.schedules@[schedule_id - 1];
    &&& frame_except_program(pre, post, i)
    &&& post.rate_state == pre.rate_state
    &&& q.program_id@ == p.program_id@
    &&& q.admin == p.admin
    &&& q.organizer == p.organizer
    &&& q.token == p.token
    &&& q.metadata == p.metadata
    &&& q.locked_total == p.locked_total
    &&& q.claim_window == p.claim_window
    &&& q.payout_history@ == p.payout_history@
    &&& q.claims@ == p.claims@
    &&& q.remaining_balance == p.remaining_balance
    &&& q.schedules@ == p.schedules@.update(
        schedule_id - 1,
        ReleaseSchedule { released: true, ..s },
    )
}

impl EscrowState {
    /// Create a release schedule on the program: reserve `amount` out of
    /// the remaining balance for `recipient`, to be released at or after
    /// `release_timestamp`.  Organizer or program-admin gated; returns the
    /// newly allocated schedule id, which counts up from 1 per program.
    pub fn create_program_release_schedule(
        &mut self,
        caller: u64,
        program_id: &String,
        amount: i128,
        release_timestamp: u64,
        recipient: u64,
    ) -> (r: Result<u64, Error>)
        requires
            old(self).wf(),
        ensures
            final(self).wf(),
            verdict_of(r) == create_schedule_verdict(*old(self), program_id@, caller, amount),
            r is Err ==> *final(self) == *old(self),
            r is Ok ==> create_schedule_applied(
                *old(self),
                *final(self),
                program_id@,
                amount,
                release_timestamp,
                recipient,
            ),
            r is Ok ==> r->Ok_0 == old(self).programs@[program_index(
                old(self).programs@,
                program_id@,
            )].schedules@.len() + 1,
    {
        let idx = match self.find_program_index(program_id) {
            None => {
                return Err(Error::ProgramNotFound);
            },
            Some(i) => i,
        };
        proof {
            lemma_program_index_is(self.programs@, program_id@, idx as int);
        }
        if caller != self.programs[idx].organizer && caller != self.programs[idx].admin {
            return Err(Error::Unauthorized);
        }
        if amount < 0 {
            return Err(Error::InvalidAmount);
        }
        if amount > self.programs[idx].remaining_balance {
            return Err(Error::InsufficientBalance);
        }
        if self.programs[idx].schedules.len() as u64 == u64::MAX {
            return Err(Error::InvalidInput);
        }
        let new_id = self.programs[idx].schedules.len() as u64 + 1;
        let schedule = ReleaseSchedule {
            schedule_id: new_id,
            amount,
            release_timestamp,
            recipient,
            released: false,
        };
        let p = &mut self.programs[idx];
        p.remaining_balance = p.remaining_balance - amount;
        p.schedules.push(schedule);
        proof {
            lemma_sum_schedules_push(old(self).programs@[idx as int].schedules@, schedule);
        }
        Ok(new_id)
    }

    /// Look up a release schedule of the program by its schedule id.
    pub fn get_program_release_schedule(&self, program_id: &String, schedule_id: u64) -> (r:
        Result<ReleaseSchedule, Error>)
        requires
            self.wf(),
        ensures
            verdict_of(r) == schedule_lookup_verdict(*self, program_id@, schedule_id),
            r is Ok ==> r->Ok_0 == self.programs@[program_index(
                self.programs@,
                program_id@,
            )].schedules@[schedule_id - 1],
    {
        let idx = match self.find_program_index(program_id) {
            None => {
                return Err(Error::ProgramNotFound);
            },
            Some(i) => i,
        };
        proof {
            lemma_program_index_is(self.programs@, program_id@, idx as int);
        }
        if schedule_id == 0 || schedule_id > self.programs[idx].schedules.len() as u64 {
            return Err(Error::ScheduleNotFound);
        }
        Ok(self.programs[idx].schedules[(schedule_id - 1) as usize])
    }

    /// The schedules of the program that are not yet released, in creation
    /// order.
    pub fn get_pending_program_schedules(&self, program_id: &String) -> (r: Result<
        Vec<ReleaseSchedule>,
        Error,
    >)
        requires
            self.wf(),
        ensures
            r is Ok <==> has_program(self.programs@, program_id@),
            r is Err ==> r->Err_0 == Error::ProgramNotFound,
            r is Ok ==> r->Ok_0@ == pending_schedules(
                self.programs@[program_index(self.programs@, program_id@)].schedules@,
            ),
    {
        let idx = match self.find_program_index(program_id) {
            None => {
                return Err(Error::ProgramNotFound);
            },
            Some(i) => i,
        };
        proof {
            lemma_program_index_is(self.programs@, program_id@, idx as int);
        }
        let s = &self.programs[idx].schedules;
        let n = s.len();
        let mut out: Vec<ReleaseSchedule> = Vec::new();
        let mut k: usize = 0;
        while k < n
            invariant
                k <= n,
                n == s@.len(),
                out@ == pending_schedules(s@.subrange(0, k as int)),
            decreases n - k,
        {
            proof {
                assert(s@.subrange(0, (k + 1) as int).drop_last() =~= s@.subrange(0, k as int));
            }
            if !s[k].released {
                out.push(s[k]);
            }
            k += 1;
        }
        proof {
            assert(s@.subrange(0, n as int) =~= s@);
        }
        Ok(out)
    }

    /// Execute a due release: mark the schedule released, exactly once.
    /// The actual transfer to the recipient belongs to the token
    /// collaborator; re-invocation after release fails.
    pub fn execute_program_release(
        &mut self,
        program_id: &String,
        schedule_id: u64,
        ledger: Ledger,
    ) -> (r: Result<(), Error>)
        requires
            old(self).wf(),
        ensures
            final(self).wf(),
            verdict_of(r) == execute_release_verdict(
                *old(self),
                program_id@,
                schedule_id,
                ledger.timestamp,
            ),
            r is Err ==> *final(self) == *old(self),
            r is Ok ==> execute_release_applied(*old(self), *final(self), program_id@, schedule_id),
    {
        let idx = match self.find_program_index(program_id) {
            None => {
                return Err(Error::ProgramNotFound);
            },
            Some(i) => i,
        };
        proof {
            lemma_program_index_is(self.programs@, program_id@, idx as int);
        }
        if schedule_id == 0 || schedule_id > self.programs[idx].schedules.len() as u64 {
            return Err(Error::ScheduleNotFound);
        }
        let si = (schedule_id - 1) as usize;
        let s = self.programs[idx].schedules[si];
        if s.released {
            return Err(Error::ScheduleAlreadyReleased);
        }
        if ledger.timestamp < s.release_timestamp {
            return Err(Error::ReleaseNotDue);
        }
        let p = &mut self.programs[idx];
        let slot = &mut p.schedules[si];
        slot.released = true;
        proof {
            lemma_sum_schedules_update_same_amount(
                old(self).programs@[idx as int].schedules@,
                si as int,
                ReleaseSchedule { released: true, ..s },
            );
        }
        Ok(())
    }

    /// Consume a validated identity claim as an update to the stored record
    /// of its address.  Admin-gated: the signature verification that
    /// produced the claim lives outside this engine, so only the admin may
    /// feed its results in.
    pub fn apply_identity_claim(
        &mut self,
        caller: u64,
        claim: crate::identity::IdentityClaim,
        now: u64,
    ) -> (r: Result<(), Error>)
        requires
            old(self).wf(),
        ensures
            final(self).wf(),
            r is Ok <==> old(self).is_admin(caller),
            r is Err ==> r->Err_0 == Error::Unauthorized && *final(self) == *old(self),
            r is Ok ==> ({
                let rec = IdentityRecord {
                    address: claim.address,
                    identity: AddressIdentity {
                        tier: claim.tier,
                        risk_score: claim.risk_score,
                        expiry: claim.expiry,
                        last_updated: now,
                    },
                };
                &&& (if has_identity(old(self).identities@, claim.address) {
                    final(self).identities@ == old(self).identities@.update(
                        identity_index(old(self).identities@, claim.address),
                        rec,
                    )
                } else {
                    final(self).identities@ == old(self).identities@.push(rec)
                })
                &&& identity_of(final(self).identities@, claim.address) == rec.identity
                &&& final(self).admin == old(self).admin
                &&& final(self).amount_limits == old(self).amount_limits
                &&& final(self).rate_config == old(self).rate_config
                &&& final(self).rate_state == old(self).rate_state
                &&& final(self).identity_policy == old(self).identity_policy
                &&& final(self).programs@ == old(self).programs@
            }),
    {
        let authorized = match self.admin {
            Some(a) => a == caller,
            None => false,
        };
        if !authorized {
            return Err(Error::Unauthorized);
        }
        let rec = IdentityRecord {
            address: claim.address,
            identity: AddressIdentity {
                tier: claim.tier,
                risk_score: claim.risk_score,
                expiry: claim.expiry,
                last_updated: now,
            },
        };
        let n = self.identities.len();
        let mut k: usize = 0;
        while k < n
            invariant
                k <= n,
                n == self.identities@.len(),
                *self == *old(self),
                old(self).wf(),
                old(self).is_admin(caller),
                rec == (IdentityRecord {
                    address: claim.address,
                    identity: AddressIdentity {
                        tier: claim.tier,
                        risk_score: claim.risk_score,
                        expiry: claim.expiry,
                        last_updated: now,
                    },
                }),
                forall|j: int| 0 <= j < k ==> self.identities@[j].address != claim.address,
            decreases n - k,
        {
            if self.identities[k].address == claim.address {
                proof {
                    lemma_identity_index_is(self.identities@, claim.address, k as int);
                }
                let slot = &mut self.identities[k];
                *slot = rec;
                proof {
                    assert(self.identities@ =~= old(self).identities@.update(k as int, rec));
                    assert forall|m: int| 0 <= m < self.identities@.len() implies (
                    #[trigger] self.identities@[m]).address == old(self).identities@[m].address by {
                        if m == k {
                            assert(self.identities@[m] == rec);
                            assert(old(self).identities@[m].address == claim.address);
                        } else {
                            assert(self.identities@[m] == old(self).identities@[m]);
                        }
                    }
                    assert(unique_addresses(self.identities@));
                    lemma_identity_index_is(self.identities@, claim.address, k as int);
                }
                return Ok(());
            }
            k += 1;
        }
        self.identities.push(rec);
        proof {
            lemma_identity_index_is(self.identities@, claim.address, n as int);
        }
        Ok(())
    }
}

/// The verdict of looking a schedule up: the program and the schedule must
/// exist.
pub open spec fn schedule_lookup_verdict(
    pre: EscrowState,
    id: Seq<char>,
    schedule_id: u64,
) -> Result<(), Error> {
    if !has_program(pre.programs@, id) {
        Err(Error::ProgramNotFound)
    } else {
        let p = pre.programs@[program_index(pre.programs@, id)];
        if schedule_id == 0 || schedule_id > p.schedules@.len() {
            Err(Error::ScheduleNotFound)
        } else {
            Ok(())
        }
    }
}

/// Copy a payout history for handing out in a [`ProgramState`].
fn copy_history(v: &Vec<PayoutRecord>) -> (r: Vec<PayoutRecord>)
    ensures
        r@ == v@,
{
    let n = v.len();
    let mut r: Vec<PayoutRecord> = Vec::new();
    let mut k: usize = 0;
    while k < n
        invariant
            k <= n,
            n == v@.len(),
            r@ == v@.subrange(0, k as int),
        decreases n - k,
    {
        r.push(v[k]);
        proof {
            assert(v@.subrange(0, (k + 1) as int) =~= v@.subrange(0, k as int).push(v@[k as int]));
        }
        k += 1;
    }
    proof {
        assert(v@.subrange(0, n as int) =~= v@);
    }
    r
}

/// Report the balances and history of `p`.
fn snapshot_program(p: &Program) -> (r: ProgramState)
    ensures
        is_snapshot_of(r, *p),
{
    ProgramState {
        locked_total: p.locked_total,
        remaining_balance: p.remaining_balance,
        claim_window: p.claim_window,
        payout_history: copy_history(&p.payout_history),
    }
}

/// The exec counterpart of [`default_identity`].
fn default_identity_record() -> (r: AddressIdentity)
    ensures
        r == default_identity(),
{
    AddressIdentity {
        tier: IdentityTier::Unverified,
        risk_score: 0,
        expiry: 0,
        last_updated: 0,
    }
}

/// Under unique identifiers, a position holding `id` is the program index.
pub proof fn lemma_program_index_is(s: Seq<Program>, id: Seq<char>, i: int)
    requires
        unique_ids(s),
        0 <= i < s.len(),
        s[i].program_id@ == id,
    ensures
        has_program(s, id),
        program_index(s, id) == i,
{
    assert(has_program(s, id));
    let j = program_index(s, id);
    assert(0 <= j < s.len() && s[j].program_id@ == id);
    if i < j {
        assert(s[i].program_id@ != s[j].program_id@);
    } else if j < i {
        assert(s[j].program_id@ != s[i].program_id@);
    }
}

/// Under unique addresses, a position holding `address` is the identity
/// index.
pub proof fn lemma_identity_index_is(s: Seq<IdentityRecord>, address: u64, i: int)
    requires
        unique_addresses(s),
        0 <= i < s.len(),
        s[i].address == address,
    ensures
        has_identity(s, address),
        identity_index(s, address) == i,
{
    assert(has_identity(s, address));
    let j = identity_index(s, address);
    assert(0 <= j < s.len() && s[j].address == address);
    if i < j {
        assert(s[i].address != s[j].address);
    } else if j < i {
        assert(s[j].address != s[i].address);
    }
}

} // verus!
