use anchor_lang::prelude::Pubkey;
use myla_program::errors::MylaError;
use myla_program::instructions::claim_winnings::claim_winnings;
use myla_program::instructions::create_pool::init_pool;
use myla_program::instructions::place_bet::{apply_bet, check_bet};
use myla_program::instructions::refund::refund;
use myla_program::instructions::resolve_pool::resolve;
use myla_program::lamports::move_lamports;

fn key(b: u8) -> Pubkey {
    Pubkey::new_from_array([b; 32])
}

#[test]
fn refund_after_bet_restores_totals() {
    let mut p = init_pool("1".to_string(), "goals".to_string(), 15, 80, 1_000, 500, key(1), key(2), 3, 0)
        .unwrap();
    apply_bet(&mut p, 1, 40_000_000, &key(50), &key(10), 1).unwrap();
    let before = (p.over_total, p.under_total, p.over_count, p.under_count);
    let b = apply_bet(&mut p, 0, 25_000_000, &key(50), &key(11), 1).unwrap();
    refund(&mut p, &b, 1_000_000).unwrap();
    assert_eq!((p.over_total, p.under_total, p.over_count, p.under_count), before);
}

#[test]
fn payouts_and_commission_stay_within_the_pool() {
    let mut p = init_pool("1".to_string(), "goals".to_string(), 15, 80, 1_000, 777, key(1), key(2), 3, 0)
        .unwrap();
    let stakes = [10_000_007u64, 33_333_333, 12_345_678, 99_999_999];
    let mut winners = Vec::new();
    for s in stakes {
        winners.push(apply_bet(&mut p, 1, s, &key(50), &key(10), 1).unwrap());
    }
    apply_bet(&mut p, 0, 55_555_555, &key(50), &key(20), 1).unwrap();
    let total = p.over_total + p.under_total;
    let commission = resolve(&mut p, 15, 1_000).unwrap();
    let mut paid = 0u64;
    for b in winners.iter_mut() {
        paid += claim_winnings(&p, b).unwrap();
    }
    assert!(commission + paid <= total);
    assert!(total - commission - paid < 4);
}

#[test]
fn resolved_pool_is_closed() {
    let mut p = init_pool("1".to_string(), "goals".to_string(), 15, 80, 1_000, 500, key(1), key(2), 3, 0)
        .unwrap();
    let b = apply_bet(&mut p, 0, 25_000_000, &key(50), &key(11), 1).unwrap();
    resolve(&mut p, 16, 1_000).unwrap();
    assert_eq!(check_bet(&p, 0, 25_000_000, 0), Err(MylaError::PoolAlreadyResolved));
    assert_eq!(resolve(&mut p, 1, 2_000), Err(MylaError::PoolAlreadyResolved));
    assert_eq!(refund(&mut p, &b, 1_000_000_000), Err(MylaError::RefundNotEligible));
}

#[test]
fn moving_lamports_conserves_them() {
    assert_eq!(move_lamports(100, 7, 40), (60, 47));
    assert_eq!(move_lamports(5, u64::MAX - 5, 5), (0, u64::MAX));
}

#[test]
fn refunds_keep_totals_equal_to_live_bets() {
    let mut p = init_pool("1".to_string(), "goals".to_string(), 15, 80, 1_000, 500, key(1), key(2), 3, 0)
        .unwrap();
    let mut vault: u64 = 0;
    let mut live = Vec::new();
    for (side, stake) in [(0u8, 11_000_000u64), (1, 12_000_000), (0, 13_000_000), (1, 14_000_000)] {
        live.push(apply_bet(&mut p, side, stake, &key(50), &key(10 + side), 1).unwrap());
        vault += stake;
    }
    while let Some(b) = live.pop() {
        let amount = refund(&mut p, &b, 100_000).unwrap();
        let (v, _) = move_lamports(vault, 0, amount);
        vault = v;
        let over: u64 = live.iter().filter(|x| x.side == 0).map(|x| x.amount).sum();
        let under: u64 = live.iter().filter(|x| x.side != 0).map(|x| x.amount).sum();
        assert_eq!((p.over_total, p.under_total), (over, under));
        assert_eq!(p.over_count as usize, live.iter().filter(|x| x.side == 0).count());
        assert_eq!(p.under_count as usize, live.iter().filter(|x| x.side != 0).count());
        assert!(vault >= p.over_total + p.under_total);
    }
    assert_eq!(vault, 0);
}
