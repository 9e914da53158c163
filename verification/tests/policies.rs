use program_escrow::engine::{EscrowState, Ledger};
use program_escrow::errors::Error;
use program_escrow::identity::{
    effective_limit, tier_rank, AddressIdentity, IdentityClaim, IdentityPolicy, IdentityTier,
    RiskThresholds, TierLimits,
};
use program_escrow::limits::AmountLimits;
use program_escrow::rate::{rate_limit_check, RateLimitConfig, RateLimitState};

const ADMIN: u64 = 1;
const ORGANIZER: u64 = 2;
const TOKEN: u64 = 9;
const RECIPIENT: u64 = 3;

fn at(sequence: u64, timestamp: u64) -> Ledger {
    Ledger { sequence, timestamp }
}

fn funded_program(state: &mut EscrowState, amount: i128) -> String {
    let program_id = String::from("pool-a");
    state
        .initialize_program(&program_id, ADMIN, TOKEN, ORGANIZER, None, at(0, 0))
        .unwrap();
    state
        .lock_program_funds(ORGANIZER, &program_id, amount, at(0, 0))
        .unwrap();
    program_id
}

#[test]
fn amount_limit_validation_is_exact() {
    let limits = AmountLimits {
        min_lock_amount: 10,
        max_lock_amount: 100,
        min_payout: 5,
        max_payout: 50,
    };
    assert_eq!(limits.validate_lock(-1).err(), Some(Error::InvalidAmount));
    assert_eq!(limits.validate_lock(9).err(), Some(Error::LimitViolation));
    assert!(limits.validate_lock(10).is_ok());
    assert!(limits.validate_lock(100).is_ok());
    assert_eq!(limits.validate_lock(101).err(), Some(Error::LimitViolation));
    assert_eq!(limits.validate_payout(-7).err(), Some(Error::InvalidAmount));
    assert_eq!(limits.validate_payout(4).err(), Some(Error::LimitViolation));
    assert!(limits.validate_payout(5).is_ok());
    assert!(limits.validate_payout(50).is_ok());
    assert_eq!(limits.validate_payout(51).err(), Some(Error::LimitViolation));
}

#[test]
fn rate_limiter_counts_rolls_and_cools_down() {
    let config = RateLimitConfig {
        window_seconds: 100,
        max_ops: 2,
        cooldown_seconds: 0,
    };
    let s0 = RateLimitState::new();
    let s1 = rate_limit_check(config, s0, 10).unwrap();
    assert_eq!(s1.op_count, 1);
    assert_eq!(s1.window_start, 0);
    assert_eq!(s1.last_op_time, 10);
    let s2 = rate_limit_check(config, s1, 20).unwrap();
    assert_eq!(s2.op_count, 2);
    assert_eq!(
        rate_limit_check(config, s2, 30).err(),
        Some(Error::RateLimitExceeded)
    );
    let s3 = rate_limit_check(config, s2, 110).unwrap();
    assert_eq!(s3.op_count, 1);
    assert_eq!(s3.window_start, 110);

    let cooled = RateLimitConfig {
        window_seconds: 100,
        max_ops: 10,
        cooldown_seconds: 60,
    };
    let c1 = rate_limit_check(cooled, s0, 1000).unwrap();
    assert_eq!(
        rate_limit_check(cooled, c1, 1030).err(),
        Some(Error::CooldownActive)
    );
    assert!(rate_limit_check(cooled, c1, 1060).is_ok());
}

#[test]
fn identity_defaults_match_convention() {
    let identity = AddressIdentity::default();
    assert_eq!(identity.tier, IdentityTier::Unverified);
    assert_eq!(identity.risk_score, 0);
    assert_eq!(identity.expiry, 0);
    assert_eq!(identity.last_updated, 0);

    let tiers = TierLimits::default();
    assert_eq!(tiers.unverified_limit, 100_0000000);
    assert_eq!(tiers.basic_limit, 1000_0000000);
    assert_eq!(tiers.verified_limit, 10000_0000000);
    assert_eq!(tiers.premium_limit, 100000_0000000);

    let risk = RiskThresholds::default();
    assert_eq!(risk.high_risk_threshold, 70);
    assert_eq!(risk.high_risk_multiplier, 50);

    assert!(tier_rank(IdentityTier::Unverified) < tier_rank(IdentityTier::Basic));
    assert!(tier_rank(IdentityTier::Basic) < tier_rank(IdentityTier::Verified));
    assert!(tier_rank(IdentityTier::Verified) < tier_rank(IdentityTier::Premium));
}

#[test]
fn effective_limit_scales_high_risk_and_lapses() {
    let policy = IdentityPolicy {
        tier_limits: TierLimits::default(),
        risk_thresholds: RiskThresholds::default(),
    };
    let verified = AddressIdentity {
        tier: IdentityTier::Verified,
        risk_score: 10,
        expiry: 1_000,
        last_updated: 0,
    };
    assert_eq!(effective_limit(&policy, &verified, 500), 10000_0000000);

    let risky = AddressIdentity {
        risk_score: 70,
        ..verified
    };
    assert_eq!(effective_limit(&policy, &risky, 500), 5000_0000000);

    // At the expiry timestamp the record lapses to the unverified ceiling.
    assert_eq!(effective_limit(&policy, &verified, 1_000), 100_0000000);
}

#[test]
fn identity_policy_gates_payouts() {
    let mut state = EscrowState::new();
    let program_id = funded_program(&mut state, 1_000_0000000);
    state.set_admin(0, ADMIN).unwrap();
    state
        .set_identity_policy(
            ADMIN,
            IdentityPolicy {
                tier_limits: TierLimits::default(),
                risk_thresholds: RiskThresholds::default(),
            },
        )
        .unwrap();

    // An unknown recipient counts as unverified: ceiling 100 tokens.
    let r = state.single_payout(ORGANIZER, &program_id, RECIPIENT, 101_0000000, at(0, 10));
    assert_eq!(r.err(), Some(Error::LimitViolation));
    let ok = state
        .single_payout(ORGANIZER, &program_id, RECIPIENT, 100_0000000, at(0, 10))
        .unwrap();
    assert_eq!(ok.remaining_balance, 900_0000000);

    // A verified identity raises the ceiling until it lapses.
    state
        .apply_identity_claim(
            ADMIN,
            IdentityClaim {
                address: RECIPIENT,
                tier: IdentityTier::Verified,
                risk_score: 0,
                expiry: 1_000,
                issuer: 77,
            },
            10,
        )
        .unwrap();
    let ok = state
        .single_payout(ORGANIZER, &program_id, RECIPIENT, 500_0000000, at(0, 500))
        .unwrap();
    assert_eq!(ok.remaining_balance, 400_0000000);
    let r = state.single_payout(ORGANIZER, &program_id, RECIPIENT, 400_0000000, at(0, 1_000));
    assert_eq!(r.err(), Some(Error::LimitViolation));
}

#[test]
fn set_identity_policy_rejects_bad_multiplier() {
    let mut state = EscrowState::new();
    state.set_admin(0, ADMIN).unwrap();
    let r = state.set_identity_policy(
        ADMIN,
        IdentityPolicy {
            tier_limits: TierLimits::default(),
            risk_thresholds: RiskThresholds {
                high_risk_threshold: 70,
                high_risk_multiplier: 101,
            },
        },
    );
    assert_eq!(r.err(), Some(Error::ConfigInvalid));
}

#[test]
fn claim_indexes_and_terminality() {
    let mut state = EscrowState::new();
    let program_id = funded_program(&mut state, 1_000);
    state
        .set_program_claim_config(ORGANIZER, &program_id, 50)
        .unwrap();

    state
        .single_payout(ORGANIZER, &program_id, RECIPIENT, 400, at(5, 0))
        .unwrap();
    state
        .single_payout(ORGANIZER, &program_id, 4, 100, at(6, 0))
        .unwrap();

    // Claim index 1 is the second claim.
    let after = state.claim_payout(&program_id, 1, at(10, 0)).unwrap();
    assert_eq!(after.payout_history.len(), 1);
    assert_eq!(after.remaining_balance, 500);

    // A resolved claim is terminal, for claiming and for cancelling.
    assert_eq!(
        state.claim_payout(&program_id, 1, at(10, 0)).err(),
        Some(Error::ClaimAlreadyResolved)
    );
    assert_eq!(
        state.cancel_payout_claim(ORGANIZER, &program_id, 1).err(),
        Some(Error::ClaimAlreadyResolved)
    );

    // A missing index is not found; an unauthorized caller is refused.
    assert_eq!(
        state.claim_payout(&program_id, 2, at(10, 0)).err(),
        Some(Error::ClaimNotFound)
    );
    assert_eq!(
        state.cancel_payout_claim(55, &program_id, 0).err(),
        Some(Error::Unauthorized)
    );

    // Cancelling the still-pending claim restores its escrow.
    let back = state
        .cancel_payout_claim(ORGANIZER, &program_id, 0)
        .unwrap();
    assert_eq!(back.remaining_balance, 900);
}

#[test]
fn cancel_restores_balance_even_after_expiry() {
    let mut state = EscrowState::new();
    let program_id = funded_program(&mut state, 1_000);
    state
        .set_program_claim_config(ORGANIZER, &program_id, 10)
        .unwrap();
    state
        .single_payout(ORGANIZER, &program_id, RECIPIENT, 300, at(0, 0))
        .unwrap();

    assert_eq!(
        state.claim_payout(&program_id, 0, at(11, 0)).err(),
        Some(Error::ClaimExpired)
    );
    let back = state
        .cancel_payout_claim(ADMIN, &program_id, 0)
        .unwrap();
    assert_eq!(back.remaining_balance, 1_000);
}

#[test]
fn payout_failures_leave_no_trace() {
    let mut state = EscrowState::new();
    let program_id = funded_program(&mut state, 1_000);

    assert_eq!(
        state
            .single_payout(ORGANIZER, &program_id, RECIPIENT, 2_000, at(0, 0))
            .err(),
        Some(Error::InsufficientBalance)
    );
    assert_eq!(
        state
            .single_payout(55, &program_id, RECIPIENT, 100, at(0, 0))
            .err(),
        Some(Error::Unauthorized)
    );
    assert_eq!(
        state
            .single_payout(ORGANIZER, &String::from("missing"), RECIPIENT, 100, at(0, 0))
            .err(),
        Some(Error::ProgramNotFound)
    );
    assert_eq!(
        state
            .single_payout(ORGANIZER, &program_id, RECIPIENT, -5, at(0, 0))
            .err(),
        Some(Error::InvalidAmount)
    );

    let recipients: Vec<u64> = vec![3, 4];
    let amounts: Vec<i128> = vec![100];
    assert_eq!(
        state
            .batch_payout(ORGANIZER, &program_id, &recipients, &amounts, at(0, 0))
            .err(),
        Some(Error::InvalidInput)
    );

    // The batch is all-or-nothing: one bad pair applies none of it.
    let amounts: Vec<i128> = vec![600, 600];
    assert_eq!(
        state
            .batch_payout(ORGANIZER, &program_id, &recipients, &amounts, at(0, 0))
            .err(),
        Some(Error::InsufficientBalance)
    );
    let snapshot = state
        .single_payout(ORGANIZER, &program_id, RECIPIENT, 1_000, at(0, 0))
        .unwrap();
    assert_eq!(snapshot.remaining_balance, 0);
    assert_eq!(snapshot.payout_history.len(), 1);
}

#[test]
fn initialize_refuses_duplicate_ids() {
    let mut state = EscrowState::new();
    let program_id = String::from("pool-a");
    state
        .initialize_program(&program_id, ADMIN, TOKEN, ORGANIZER, None, at(0, 0))
        .unwrap();
    let r = state.initialize_program(&program_id, ADMIN, TOKEN, ORGANIZER, None, at(0, 0));
    assert_eq!(r.err(), Some(Error::ProgramAlreadyExists));
}

#[test]
fn admin_gates_hold() {
    let mut state = EscrowState::new();
    state.set_admin(0, ADMIN).unwrap();
    assert_eq!(
        state.set_admin(55, 56).err(),
        Some(Error::Unauthorized)
    );
    assert_eq!(
        state.update_amount_limits(55, 1, 2, 1, 2).err(),
        Some(Error::Unauthorized)
    );
    assert_eq!(
        state.update_rate_limit_config(55, 1, 1, 1).err(),
        Some(Error::Unauthorized)
    );
    state.set_admin(ADMIN, 56).unwrap();
    assert!(state.update_amount_limits(56, 1, 2, 1, 2).is_ok());
}

#[test]
fn release_schedule_lifecycle() {
    let mut state = EscrowState::new();
    let program_id = funded_program(&mut state, 1_000);

    let sid = state
        .create_program_release_schedule(ORGANIZER, &program_id, 400, 100, RECIPIENT)
        .unwrap();
    assert_eq!(sid, 1);
    let sid2 = state
        .create_program_release_schedule(ORGANIZER, &program_id, 600, 200, 4)
        .unwrap();
    assert_eq!(sid2, 2);

    // The reservation came out of the spendable pool at creation.
    assert_eq!(
        state
            .create_program_release_schedule(ORGANIZER, &program_id, 1, 100, RECIPIENT)
            .err(),
        Some(Error::InsufficientBalance)
    );

    assert_eq!(
        state.execute_program_release(&program_id, 1, at(0, 99)).err(),
        Some(Error::ReleaseNotDue)
    );
    state
        .execute_program_release(&program_id, 1, at(0, 100))
        .unwrap();
    assert_eq!(
        state.execute_program_release(&program_id, 1, at(0, 200)).err(),
        Some(Error::ScheduleAlreadyReleased)
    );
    assert_eq!(
        state.execute_program_release(&program_id, 3, at(0, 200)).err(),
        Some(Error::ScheduleNotFound)
    );

    let pending = state.get_pending_program_schedules(&program_id).unwrap();
    assert_eq!(pending.len(), 1);
    assert_eq!(pending[0].schedule_id, 2);
    assert_eq!(
        state.get_program_release_schedule(&program_id, 0).err(),
        Some(Error::ScheduleNotFound)
    );
}

#[test]
fn batch_payout_defers_when_window_set() {
    let mut state = EscrowState::new();
    let program_id = funded_program(&mut state, 1_000);
    state
        .set_program_claim_config(ORGANIZER, &program_id, 50)
        .unwrap();

    let recipients: Vec<u64> = vec![3, 4];
    let amounts: Vec<i128> = vec![100, 200];
    let snap = state
        .batch_payout(ORGANIZER, &program_id, &recipients, &amounts, at(7, 0))
        .unwrap();
    assert_eq!(snap.remaining_balance, 700);
    assert_eq!(snap.payout_history.len(), 0);

    let first = state.claim_payout(&program_id, 0, at(10, 0)).unwrap();
    assert_eq!(first.payout_history.len(), 1);
    let second = state.claim_payout(&program_id, 1, at(10, 0)).unwrap();
    assert_eq!(second.payout_history.len(), 2);
    assert_eq!(second.remaining_balance, 700);
}

#[test]
fn lock_refuses_unaccountable_totals() {
    let mut state = EscrowState::new();
    let program_id = funded_program(&mut state, i128::MAX - 10);
    let r = state.lock_program_funds(ORGANIZER, &program_id, 11, at(0, 0));
    assert_eq!(r.err(), Some(Error::InvalidAmount));
    let ok = state
        .lock_program_funds(ORGANIZER, &program_id, 10, at(0, 0))
        .unwrap();
    assert_eq!(ok.locked_total, i128::MAX);
}
