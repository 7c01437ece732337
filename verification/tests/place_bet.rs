use anchor_lang::prelude::{ProgramError, Pubkey};
use myla_program::errors::{InstructionError, MylaError};
use myla_program::instructions::create_pool::init_pool;
use myla_program::instructions::place_bet::{apply_bet, check_bet, place_bet_precheck, MIN_STAKE_LAMPORTS};
use myla_program::state::Pool;

fn key(b: u8) -> Pubkey {
    Pubkey::new_from_array([b; 32])
}

fn open_pool() -> Pool {
    init_pool("777".to_string(), "goals".to_string(), 25, 90, 1_000, 500, key(1), key(2), 255, 0)
        .unwrap()
}

#[test]
fn minimum_stake_is_a_hundredth_of_a_sol() {
    assert_eq!(MIN_STAKE_LAMPORTS, 10_000_000);
}

#[test]
fn check_bet_errors_in_order() {
    let mut p = open_pool();
    assert_eq!(check_bet(&p, 2, 1, 5_000), Err(MylaError::InvalidSide));
    assert_eq!(check_bet(&p, 0, 9_999_999, 5_000), Err(MylaError::StakeTooSmall));
    assert_eq!(check_bet(&p, 1, 10_000_000, 1_000), Err(MylaError::DeadlinePassed));
    assert_eq!(check_bet(&p, 1, 10_000_000, 999), Ok(()));
    p.resolved = true;
    assert_eq!(check_bet(&p, 1, 10_000_000, 5_000), Err(MylaError::PoolAlreadyResolved));
}

#[test]
fn apply_bet_counts_the_stake_on_its_side() {
    let mut p = open_pool();
    let b = apply_bet(&mut p, 0, 20_000_000, &key(3), &key(4), 17).unwrap();
    assert_eq!((p.over_total, p.over_count, p.under_total, p.under_count), (20_000_000, 1, 0, 0));
    assert_eq!(b.pool, key(3));
    assert_eq!(b.user, key(4));
    assert_eq!(b.side, 0);
    assert_eq!(b.amount, 20_000_000);
    assert!(!b.claimed);
    assert_eq!(b.bump, 17);
    apply_bet(&mut p, 1, 30_000_000, &key(3), &key(5), 1).unwrap();
    apply_bet(&mut p, 1, 10_000_000, &key(3), &key(6), 1).unwrap();
    assert_eq!((p.over_total, p.over_count, p.under_total, p.under_count), (20_000_000, 1, 40_000_000, 2));
}

#[test]
fn apply_bet_overflow_leaves_the_pool_unchanged() {
    let mut p = open_pool();
    p.over_total = u64::MAX - 5;
    assert_eq!(apply_bet(&mut p, 0, 10_000_000, &key(3), &key(4), 1).unwrap_err(), MylaError::ArithmeticOverflow);
    assert_eq!((p.over_total, p.over_count), (u64::MAX - 5, 0));
    p.under_count = u32::MAX;
    assert_eq!(apply_bet(&mut p, 1, 10_000_000, &key(3), &key(4), 1).unwrap_err(), MylaError::ArithmeticOverflow);
    assert_eq!((p.under_total, p.under_count), (0, u32::MAX));
}

#[test]
fn precheck_refuses_before_reading_the_clock() {
    let mut p = open_pool();
    assert_eq!(place_bet_precheck(&p, 5, 10_000_000), Err(InstructionError::Myla(MylaError::InvalidSide)));
    assert_eq!(place_bet_precheck(&p, 0, 5), Err(InstructionError::Myla(MylaError::StakeTooSmall)));
    assert_eq!(
        place_bet_precheck(&p, 0, 10_000_000),
        Err(InstructionError::Sysvar(ProgramError::UnsupportedSysvar))
    );
    p.resolved = true;
    assert_eq!(
        place_bet_precheck(&p, 0, 10_000_000),
        Err(InstructionError::Myla(MylaError::PoolAlreadyResolved))
    );
}
