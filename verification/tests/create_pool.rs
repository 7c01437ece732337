use anchor_lang::prelude::{ProgramError, Pubkey};
use myla_program::errors::{InstructionError, MylaError};
use myla_program::instructions::create_pool::{create_pool, init_pool, validate_pool_params};

fn key(b: u8) -> Pubkey {
    Pubkey::new_from_array([b; 32])
}

#[test]
fn init_pool_writes_a_fresh_pool() {
    let p = init_pool(
        "12345".to_string(),
        "corners".to_string(),
        65,
        45,
        1_000,
        500,
        key(7),
        key(9),
        254,
        999,
    )
    .unwrap();
    assert_eq!(p.match_id, "12345");
    assert_eq!(p.asset, "corners");
    assert_eq!(p.strike_level, 65);
    assert_eq!(p.strike_minute, 45);
    assert_eq!(p.deadline, 1_000);
    assert_eq!(p.over_total, 0);
    assert_eq!(p.under_total, 0);
    assert_eq!(p.over_count, 0);
    assert_eq!(p.under_count, 0);
    assert!(!p.resolved);
    assert_eq!(p.winning_side, None);
    assert_eq!(p.actual_value, None);
    assert_eq!(p.commission_rate, 500);
    assert_eq!(p.commission_wallet, key(7));
    assert_eq!(p.oracle, key(9));
    assert_eq!(p.bump, 254);
}

#[test]
fn init_pool_rejects_a_deadline_not_in_the_future() {
    let r = init_pool("1".to_string(), "goals".to_string(), 25, 90, 1_000, 0, key(1), key(2), 1, 1_000);
    assert_eq!(r.unwrap_err(), MylaError::DeadlineInPast);
    let r = init_pool("1".to_string(), "goals".to_string(), 25, 90, 1_000, 0, key(1), key(2), 1, 2_000);
    assert_eq!(r.unwrap_err(), MylaError::DeadlineInPast);
}

#[test]
fn init_pool_accepts_the_limits() {
    let id = "a".repeat(32);
    let asset = "b".repeat(16);
    let r = init_pool(id, asset, 0, 0, i64::MAX, 10_000, key(1), key(2), 0, i64::MIN);
    assert!(r.is_ok());
}

#[test]
fn match_id_length_is_counted_in_bytes() {
    // 17 two-byte characters: 34 bytes, too long although only 17 characters.
    let id = "\u{e9}".repeat(17);
    assert_eq!(
        validate_pool_params(&id, &"cards".to_string(), 100),
        Err(MylaError::MatchIdTooLong)
    );
    let id = "\u{e9}".repeat(16);
    assert_eq!(validate_pool_params(&id, &"cards".to_string(), 100), Ok(()));
}

#[test]
fn pool_parameter_errors_in_order() {
    let long_id = "x".repeat(33);
    let long_asset = "y".repeat(17);
    assert_eq!(
        validate_pool_params(&long_id, &long_asset, 10_001),
        Err(MylaError::MatchIdTooLong)
    );
    assert_eq!(
        validate_pool_params(&"ok".to_string(), &long_asset, 10_001),
        Err(MylaError::AssetTooLong)
    );
    assert_eq!(
        validate_pool_params(&"ok".to_string(), &"ok".to_string(), 10_001),
        Err(MylaError::InvalidCommissionRate)
    );
    assert_eq!(validate_pool_params(&"ok".to_string(), &"ok".to_string(), 10_000), Ok(()));
}

#[test]
fn create_pool_checks_parameters_before_the_clock() {
    let r = create_pool("z".repeat(40), "goals".to_string(), 25, 90, 1_000, 0, key(1), key(2), 1);
    assert_eq!(r.unwrap_err(), InstructionError::Myla(MylaError::MatchIdTooLong));
}

#[test]
fn create_pool_off_chain_has_no_clock() {
    let r = create_pool("1".to_string(), "goals".to_string(), 25, 90, 1_000, 0, key(1), key(2), 1);
    assert_eq!(r.unwrap_err(), InstructionError::Sysvar(ProgramError::UnsupportedSysvar));
}

#[test]
fn least_deadline_is_always_in_the_past() {
    let r = init_pool("1".to_string(), "goals".to_string(), 25, 90, i64::MIN, 0, key(1), key(2), 1, i64::MIN);
    assert_eq!(r.unwrap_err(), MylaError::DeadlineInPast);
}
