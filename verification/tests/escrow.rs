use program_escrow::engine::{EscrowState, Ledger};
use program_escrow::errors::Error;

const ADMIN: u64 = 1;
const ORGANIZER: u64 = 2;
const TOKEN: u64 = 9;
const RECIPIENT: u64 = 3;

fn at(sequence: u64, timestamp: u64) -> Ledger {
    Ledger { sequence, timestamp }
}

/// A program whose organizer doubles as its admin, as the limits tests use.
fn setup_program(state: &mut EscrowState) -> String {
    let program_id = String::from("hackathon-2024-q1");
    state
        .initialize_program(&program_id, ADMIN, TOKEN, ADMIN, None, at(0, 0))
        .unwrap();
    program_id
}

/// A program with a separate organizer, funded with `initial_amount`.
fn setup_program_with_funds(state: &mut EscrowState, initial_amount: i128) -> String {
    let program_id = String::from("hackathon-2024-q1");
    state
        .initialize_program(&program_id, ADMIN, TOKEN, ORGANIZER, None, at(0, 0))
        .unwrap();
    state
        .lock_program_funds(ORGANIZER, &program_id, initial_amount, at(0, 0))
        .unwrap();
    program_id
}

#[test]
fn test_program_claim_flow_success() {
    let mut state = EscrowState::new();
    let program_id = setup_program_with_funds(&mut state, 100_000_000_000);

    state
        .set_program_claim_config(ORGANIZER, &program_id, 100)
        .unwrap();

    let program_data = state
        .single_payout(ORGANIZER, &program_id, RECIPIENT, 50_000_000_000, at(0, 0))
        .unwrap();
    assert_eq!(program_data.remaining_balance, 50_000_000_000);

    let program_data_after = state.claim_payout(&program_id, 0, at(0, 0)).unwrap();
    assert_eq!(program_data_after.payout_history.len(), 1);
}

#[test]
fn test_program_claim_flow_expired() {
    let mut state = EscrowState::new();
    let program_id = setup_program_with_funds(&mut state, 100_000_000_000);

    state
        .set_program_claim_config(ORGANIZER, &program_id, 10)
        .unwrap();
    state
        .single_payout(ORGANIZER, &program_id, RECIPIENT, 50_000_000_000, at(0, 0))
        .unwrap();

    let r = state.claim_payout(&program_id, 0, at(20, 0));
    assert_eq!(r.err(), Some(Error::ClaimExpired));
}

#[test]
fn test_program_claim_flow_cancelled() {
    let mut state = EscrowState::new();
    let program_id = setup_program_with_funds(&mut state, 100_000_000_000);

    state
        .set_program_claim_config(ORGANIZER, &program_id, 100)
        .unwrap();
    state
        .single_payout(ORGANIZER, &program_id, RECIPIENT, 50_000_000_000, at(0, 0))
        .unwrap();

    let program_data = state
        .cancel_payout_claim(ORGANIZER, &program_id, 0)
        .unwrap();
    assert_eq!(program_data.remaining_balance, 100_000_000_000);
}

#[test]
fn test_amount_limits_initialization() {
    let mut state = EscrowState::new();
    let _program_id = setup_program(&mut state);

    let limits = state.get_amount_limits();
    assert_eq!(limits.min_lock_amount, 1);
    assert_eq!(limits.max_lock_amount, i128::MAX);
    assert_eq!(limits.min_payout, 1);
    assert_eq!(limits.max_payout, i128::MAX);
}

#[test]
fn test_update_amount_limits() {
    let mut state = EscrowState::new();
    let _program_id = setup_program(&mut state);

    let new_admin: u64 = 42;
    state.set_admin(ADMIN, new_admin).unwrap();

    state
        .update_amount_limits(new_admin, 200, 2000, 100, 1000)
        .unwrap();

    let limits = state.get_amount_limits();
    assert_eq!(limits.min_lock_amount, 200);
    assert_eq!(limits.max_lock_amount, 2000);
    assert_eq!(limits.min_payout, 100);
    assert_eq!(limits.max_payout, 1000);
}

#[test]
fn test_update_amount_limits_invalid_negative() {
    let mut state = EscrowState::new();
    let _program_id = setup_program(&mut state);
    let new_admin: u64 = 42;
    state.set_admin(ADMIN, new_admin).unwrap();

    let before = state.get_amount_limits();
    let r = state.update_amount_limits(new_admin, -100, 1000, 50, 500);
    assert_eq!(r.err(), Some(Error::InvalidAmount));

    let after = state.get_amount_limits();
    assert_eq!(after, before);
}

#[test]
fn test_update_amount_limits_invalid_min_greater_than_max() {
    let mut state = EscrowState::new();
    let _program_id = setup_program(&mut state);
    let new_admin: u64 = 42;
    state.set_admin(ADMIN, new_admin).unwrap();

    let r = state.update_amount_limits(new_admin, 1000, 100, 50, 500);
    assert_eq!(r.err(), Some(Error::ConfigInvalid));
}

#[test]
fn test_lock_program_funds_respects_amount_limits() {
    let mut state = EscrowState::new();
    let program_id = String::from("hackathon-2024-q1");
    state
        .initialize_program(&program_id, ADMIN, TOKEN, ADMIN, None, at(0, 0))
        .unwrap();
    state.set_admin(ADMIN, ADMIN).unwrap();

    state
        .update_amount_limits(ADMIN, 100, 1000, 50, 500)
        .unwrap();

    let result = state
        .lock_program_funds(ADMIN, &program_id, 500, at(0, 0))
        .unwrap();
    assert_eq!(result.remaining_balance, 500);

    let result = state
        .lock_program_funds(ADMIN, &program_id, 100, at(0, 0))
        .unwrap();
    assert_eq!(result.remaining_balance, 600);

    let result = state
        .lock_program_funds(ADMIN, &program_id, 1000, at(0, 0))
        .unwrap();
    assert_eq!(result.remaining_balance, 1600);
}

#[test]
fn test_lock_program_funds_below_minimum() {
    let mut state = EscrowState::new();
    let program_id = setup_program(&mut state);
    state.set_admin(ADMIN, 42).unwrap();
    state.update_amount_limits(42, 100, 1000, 50, 500).unwrap();

    let r = state.lock_program_funds(ADMIN, &program_id, 50, at(0, 0));
    assert_eq!(r.err(), Some(Error::LimitViolation));
}

#[test]
fn test_lock_program_funds_above_maximum() {
    let mut state = EscrowState::new();
    let program_id = setup_program(&mut state);
    state.set_admin(ADMIN, ADMIN).unwrap();
    state
        .update_amount_limits(ADMIN, 100, 1000, 50, 500)
        .unwrap();

    let r = state.lock_program_funds(ADMIN, &program_id, 1500, at(0, 0));
    assert_eq!(r.err(), Some(Error::LimitViolation));
}

#[test]
fn test_single_payout_respects_limits() {
    let mut state = EscrowState::new();
    let program_id = String::from("hackathon-2024-q1");
    state
        .initialize_program(&program_id, ADMIN, TOKEN, ADMIN, None, at(0, 0))
        .unwrap();
    state
        .lock_program_funds(ADMIN, &program_id, 1000, at(0, 0))
        .unwrap();
    state.set_admin(ADMIN, ADMIN).unwrap();
    state
        .update_amount_limits(ADMIN, 100, 2000, 100, 500)
        .unwrap();

    let result = state
        .single_payout(ADMIN, &program_id, RECIPIENT, 300, at(0, 0))
        .unwrap();
    assert_eq!(result.remaining_balance, 700);
}

#[test]
fn test_single_payout_above_maximum() {
    let mut state = EscrowState::new();
    let program_id = String::from("hackathon-2024-q1");
    state
        .initialize_program(&program_id, ADMIN, TOKEN, ADMIN, None, at(0, 0))
        .unwrap();
    state
        .lock_program_funds(ADMIN, &program_id, 1000, at(0, 0))
        .unwrap();
    state.set_admin(ADMIN, ADMIN).unwrap();
    state
        .update_amount_limits(ADMIN, 100, 2000, 100, 500)
        .unwrap();

    let r = state.single_payout(ADMIN, &program_id, RECIPIENT, 600, at(0, 0));
    assert_eq!(r.err(), Some(Error::LimitViolation));
}

#[test]
fn test_single_payout_below_minimum() {
    let mut state = EscrowState::new();
    let program_id = String::from("hackathon-2024-q1");
    state
        .initialize_program(&program_id, ADMIN, TOKEN, ADMIN, None, at(0, 0))
        .unwrap();
    state
        .lock_program_funds(ADMIN, &program_id, 1000, at(0, 0))
        .unwrap();
    state.set_admin(ADMIN, ADMIN).unwrap();
    state
        .update_amount_limits(ADMIN, 100, 2000, 100, 500)
        .unwrap();

    let r = state.single_payout(ADMIN, &program_id, RECIPIENT, 50, at(0, 0));
    assert_eq!(r.err(), Some(Error::LimitViolation));
}

#[test]
fn test_batch_payout_respects_limits() {
    let mut state = EscrowState::new();
    let program_id = String::from("hackathon-2024-q1");
    state
        .initialize_program(&program_id, ADMIN, TOKEN, ADMIN, None, at(0, 0))
        .unwrap();
    state
        .lock_program_funds(ADMIN, &program_id, 2000, at(0, 0))
        .unwrap();
    state.set_admin(ADMIN, ADMIN).unwrap();
    state
        .update_amount_limits(ADMIN, 100, 2000, 100, 500)
        .unwrap();

    let recipients: Vec<u64> = vec![3, 4];
    let amounts: Vec<i128> = vec![200, 300];

    let result = state
        .batch_payout(ADMIN, &program_id, &recipients, &amounts, at(0, 0))
        .unwrap();
    assert_eq!(result.remaining_balance, 1500);
}

#[test]
fn test_batch_payout_with_amount_above_maximum() {
    let mut state = EscrowState::new();
    let program_id = String::from("hackathon-2024-q1");
    state
        .initialize_program(&program_id, ADMIN, TOKEN, ADMIN, None, at(0, 0))
        .unwrap();
    state
        .lock_program_funds(ADMIN, &program_id, 2000, at(0, 0))
        .unwrap();
    state.set_admin(ADMIN, ADMIN).unwrap();
    state
        .update_amount_limits(ADMIN, 100, 2000, 100, 500)
        .unwrap();

    let recipients: Vec<u64> = vec![3, 4];
    let amounts: Vec<i128> = vec![200, 600];

    let r = state.batch_payout(ADMIN, &program_id, &recipients, &amounts, at(0, 0));
    assert_eq!(r.err(), Some(Error::LimitViolation));
}

#[test]
fn test_anti_abuse_cooldown_panic() {
    let mut state = EscrowState::new();
    state.set_admin(0, ADMIN).unwrap();
    state
        .update_rate_limit_config(ADMIN, 3600, 10, 60)
        .unwrap();

    let backend: u64 = 7;
    state
        .initialize_program(&String::from("P1"), backend, TOKEN, backend, None, at(0, 1000))
        .unwrap();

    let r = state.initialize_program(
        &String::from("P2"),
        backend,
        TOKEN,
        backend,
        None,
        at(0, 1030),
    );
    assert_eq!(r.err(), Some(Error::CooldownActive));
}

#[test]
fn test_anti_abuse_limit_panic() {
    let mut state = EscrowState::new();
    state.set_admin(0, ADMIN).unwrap();
    state.update_rate_limit_config(ADMIN, 3600, 2, 0).unwrap();

    let backend: u64 = 7;
    state
        .initialize_program(&String::from("P1"), backend, TOKEN, backend, None, at(0, 1000))
        .unwrap();
    state
        .initialize_program(&String::from("P2"), backend, TOKEN, backend, None, at(0, 1000))
        .unwrap();

    let r = state.initialize_program(
        &String::from("P3"),
        backend,
        TOKEN,
        backend,
        None,
        at(0, 1000),
    );
    assert_eq!(r.err(), Some(Error::RateLimitExceeded));
}

#[test]
fn test_single_program_release_schedule() {
    let mut state = EscrowState::new();
    let authorized_key: u64 = 11;
    let winner: u64 = 12;
    let program_id = String::from("Hackathon2024");
    let amount: i128 = 1000_0000000;
    let release_timestamp: u64 = 1000;

    state
        .initialize_program(&program_id, authorized_key, TOKEN, authorized_key, None, at(0, 0))
        .unwrap();
    state
        .lock_program_funds(authorized_key, &program_id, amount, at(0, 0))
        .unwrap();
    let sid = state
        .create_program_release_schedule(
            authorized_key,
            &program_id,
            amount,
            release_timestamp,
            winner,
        )
        .unwrap();
    assert_eq!(sid, 1);

    let schedule = state.get_program_release_schedule(&program_id, 1).unwrap();
    assert_eq!(schedule.schedule_id, 1);
    assert_eq!(schedule.amount, amount);
    assert_eq!(schedule.release_timestamp, release_timestamp);
    assert_eq!(schedule.recipient, winner);
    assert!(!schedule.released);

    let pending = state.get_pending_program_schedules(&program_id).unwrap();
    assert_eq!(pending.len(), 1);
}
