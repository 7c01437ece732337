use anchor_lang::prelude::Pubkey;
use myla_program::errors::{InstructionError, MylaError};
use myla_program::instructions::claim_winnings::{check_claim_accounts, claim_payout, claim_winnings};
use myla_program::instructions::create_pool::init_pool;
use myla_program::instructions::place_bet::apply_bet;
use myla_program::instructions::resolve_pool::resolve;
use myla_program::state::{Bet, Pool};

fn key(b: u8) -> Pubkey {
    Pubkey::new_from_array([b; 32])
}

fn market() -> (Pool, Vec<Bet>) {
    let mut p = init_pool("42".to_string(), "cards".to_string(), 35, 60, 1_000, 500, key(1), key(2), 3, 0)
        .unwrap();
    let mut bets = Vec::new();
    bets.push(apply_bet(&mut p, 0, 1_000_000_000, &key(50), &key(10), 1).unwrap());
    bets.push(apply_bet(&mut p, 0, 1_000_000_000, &key(50), &key(11), 1).unwrap());
    bets.push(apply_bet(&mut p, 1, 1_000_000_000, &key(50), &key(12), 1).unwrap());
    (p, bets)
}

#[test]
fn winner_gets_a_share_of_the_pool_after_commission() {
    let (mut p, mut bets) = market();
    resolve(&mut p, 40, 1_000).unwrap();
    // total 3 SOL, 5% commission, 2.85 SOL shared by two equal Over stakes.
    assert_eq!(claim_payout(&p, &bets[0]), Ok(1_425_000_000));
    assert_eq!(claim_winnings(&p, &mut bets[0]), Ok(1_425_000_000));
    assert!(bets[0].claimed);
    assert_eq!(claim_winnings(&p, &mut bets[1]), Ok(1_425_000_000));
}

#[test]
fn claim_errors() {
    let (mut p, mut bets) = market();
    assert_eq!(claim_payout(&p, &bets[0]), Err(MylaError::PoolNotResolved));
    resolve(&mut p, 40, 1_000).unwrap();
    assert_eq!(claim_winnings(&p, &mut bets[2]), Err(MylaError::NotAWinner));
    assert!(!bets[2].claimed);
    claim_winnings(&p, &mut bets[0]).unwrap();
    assert_eq!(claim_winnings(&p, &mut bets[0]), Err(MylaError::AlreadyClaimed));
}

#[test]
fn claim_payout_rounds_down() {
    let (mut p, mut bets) = market();
    bets.push(apply_bet(&mut p, 1, 10_000_001, &key(50), &key(13), 1).unwrap());
    resolve(&mut p, 0, 1_000).unwrap();
    assert_eq!(p.winning_side, Some(1));
    // total 3_010_000_001, commission 150_500_000, distributable 2_859_500_001
    // 1e9 * 2_859_500_001 / 1_010_000_001 = 2_831_188_116.0...
    assert_eq!(claim_payout(&p, &bets[2]), Ok(2_831_188_116));
}

#[test]
fn empty_winning_side_is_an_arithmetic_error() {
    let (mut p, _) = market();
    resolve(&mut p, 40, 1_000).unwrap();
    p.over_total = 0;
    let b = Bet { pool: key(50), user: key(10), side: 0, amount: 1, claimed: false, bump: 1 };
    assert_eq!(claim_payout(&p, &b), Err(MylaError::ArithmeticOverflow));
}

#[test]
fn commission_above_pool_is_an_arithmetic_error() {
    let (mut p, bets) = market();
    resolve(&mut p, 40, 1_000).unwrap();
    p.commission_rate = 10_001;
    assert_eq!(claim_payout(&p, &bets[0]), Err(MylaError::ArithmeticOverflow));
    p.commission_rate = 10_000;
    assert_eq!(claim_payout(&p, &bets[0]), Ok(0));
}

#[test]
fn only_the_bettor_claims() {
    let (mut p, bets) = market();
    assert_eq!(
        check_claim_accounts(&p, &bets[0], &key(50), &key(10)),
        Err(InstructionError::Myla(MylaError::PoolNotResolved))
    );
    resolve(&mut p, 40, 1_000).unwrap();
    assert_eq!(check_claim_accounts(&p, &bets[0], &key(50), &key(10)), Ok(()));
    assert_eq!(check_claim_accounts(&p, &bets[0], &key(50), &key(11)), Err(InstructionError::ConstraintRaw));
    assert_eq!(check_claim_accounts(&p, &bets[0], &key(51), &key(10)), Err(InstructionError::ConstraintRaw));
}
