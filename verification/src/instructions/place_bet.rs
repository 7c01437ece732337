use vstd::prelude::*;
use anchor_lang::prelude::Pubkey;
use crate::errors::{InstructionError, MylaError};
use crate::runtime::clock_unix_timestamp;
use crate::state::{Bet, Pool, SIDE_OVER, SIDE_UNDER};

verus! {

/// Minimum stake: 0.01 SOL.
pub const MIN_STAKE_LAMPORTS: u64 = 10_000_000;

/// The checks on the arguments of a bet alone: the side is Over or Under and
/// the stake is at least the minimum.
pub open spec fn bet_args_outcome(side: u8, amount: u64) -> Result<(), MylaError> {
    if !(side == SIDE_OVER || side == SIDE_UNDER) {
        Err(MylaError::InvalidSide)
    } else if amount < MIN_STAKE_LAMPORTS {
        Err(MylaError::StakeTooSmall)
    } else {
        Ok(())
    }
}

/// The checks made before the clock is read: the arguments, and that the
/// pool is still open.
pub open spec fn bet_precheck_outcome(pool: Pool, side: u8, amount: u64) -> Result<(), MylaError> {
    if bet_args_outcome(side, amount) is Err {
        bet_args_outcome(side, amount)
    } else if pool.resolved {
        Err(MylaError::PoolAlreadyResolved)
    } else {
        Ok(())
    }
}

/// Whether a bet of `amount` on `side` may be taken on `pool` at unix time
/// `now`, or why not. Bets close at the deadline.
pub open spec fn bet_check_outcome(pool: Pool, side: u8, amount: u64, now: i64) -> Result<
    (),
    MylaError,
> {
    if bet_precheck_outcome(pool, side, amount) is Err {
        bet_precheck_outcome(pool, side, amount)
    } else if !(now < pool.deadline) {
        Err(MylaError::DeadlinePassed)
    } else {
        Ok(())
    }
}

/// The pool once a bet of `amount` on `side` is counted in, or
/// `ArithmeticOverflow` when a total or a count would not fit. Any side other
/// than Over counts as Under.
pub open spec fn pool_after_bet(pool: Pool, side: u8, amount: u64) -> Result<Pool, MylaError> {
    if side == SIDE_OVER {
        if pool.over_total + amount > u64::MAX {
            Err(MylaError::ArithmeticOverflow)
        } else if pool.over_count + 1 > u32::MAX {
            Err(MylaError::ArithmeticOverflow)
        } else {
            Ok(
                Pool {
                    over_total: (pool.over_total + amount) as u64,
                    over_count: (pool.over_count + 1) as u32,
                    ..pool
                },
            )
        }
    } else {
        if pool.under_total + amount > u64::MAX {
            Err(MylaError::ArithmeticOverflow)
        } else if pool.under_count + 1 > u32::MAX {
            Err(MylaError::ArithmeticOverflow)
        } else {
            Ok(
                Pool {
                    under_total: (pool.under_total + amount) as u64,
                    under_count: (pool.under_count + 1) as u32,
                    ..pool
                },
            )
        }
    }
}

/// The bet record written for a new bet.
pub open spec fn placed_bet(pool_key: Pubkey, user_key: Pubkey, side: u8, amount: u64, bump: u8) -> Bet {
    Bet { pool: pool_key, user: user_key, side, amount, claimed: false, bump }
}

/// Checks whether a bet may be taken at unix time `now`.
pub fn check_bet(pool: &Pool, side: u8, amount: u64, now: i64) -> (r: Result<(), MylaError>)
    ensures
        r == bet_check_outcome(*pool, side, amount, now),
{
    if !(side == SIDE_OVER || side == SIDE_UNDER) {
        return Err(MylaError::InvalidSide);
    }
    if amount < MIN_STAKE_LAMPORTS {
        return Err(MylaError::StakeTooSmall);
    }
    if pool.resolved {
        return Err(MylaError::PoolAlreadyResolved);
    }
    if !(now < pool.deadline) {
        return Err(MylaError::DeadlinePassed);
    }
    Ok(())
}

/// The checks of the bet instruction that come before the stake is moved:
/// the arguments and the pool's state, then the clock, then the deadline.
pub fn place_bet_precheck(pool: &Pool, side: u8, amount: u64) -> (r: Result<(), InstructionError>)
    ensures
        bet_precheck_outcome(*pool, side, amount) matches Err(e) ==> r == Err::<(), InstructionError>(
            InstructionError::Myla(e),
        ),
        match r {
            Ok(_) => exists|now: i64| #[trigger]
                bet_check_outcome(*pool, side, amount, now) == Ok::<(), MylaError>(()),
            Err(InstructionError::Myla(e)) => exists|now: i64| #[trigger]
                bet_check_outcome(*pool, side, amount, now) == Err::<(), MylaError>(e),
            Err(InstructionError::ConstraintRaw) => false,
            Err(InstructionError::Sysvar(_)) => bet_precheck_outcome(*pool, side, amount) is Ok,
        },
{
    if !(side == SIDE_OVER || side == SIDE_UNDER) {
        assert(bet_check_outcome(*pool, side, amount, 0) == Err::<(), MylaError>(
            MylaError::InvalidSide,
        ));
        return Err(InstructionError::Myla(MylaError::InvalidSide));
    }
    if amount < MIN_STAKE_LAMPORTS {
        assert(bet_check_outcome(*pool, side, amount, 0) == Err::<(), MylaError>(
            MylaError::StakeTooSmall,
        ));
        return Err(InstructionError::Myla(MylaError::StakeTooSmall));
    }
    if pool.resolved {
        assert(bet_check_outcome(*pool, side, amount, 0) == Err::<(), MylaError>(
            MylaError::PoolAlreadyResolved,
        ));
        return Err(InstructionError::Myla(MylaError::PoolAlreadyResolved));
    }
    let now = match clock_unix_timestamp() {
        Ok(t) => t,
        Err(e) => {
            return Err(InstructionError::Sysvar(e));
        },
    };
    match check_bet(pool, side, amount, now) {
        Ok(()) => Ok(()),
        Err(e) => Err(InstructionError::Myla(e)),
    }
}

/// Counts a bet in the pool's totals and returns the bet record to store.
/// On any error the pool is left as it was.
pub fn apply_bet(
    pool: &mut Pool,
    side: u8,
    amount: u64,
    pool_key: &Pubkey,
    user_key: &Pubkey,
    bump: u8,
) -> (r: Result<Bet, MylaError>)
    ensures
        match pool_after_bet(*old(pool), side, amount) {
            Ok(p) => *final(pool) == p && r == Ok::<Bet, MylaError>(
                placed_bet(*pool_key, *user_key, side, amount, bump),
            ),
            Err(e) => *final(pool) == *old(pool) && r == Err::<Bet, MylaError>(e),
        },
        old(pool).wf() ==> final(pool).wf(),
{
    if side == SIDE_OVER {
        let total = match pool.over_total.checked_add(amount) {
            Some(t) => t,
            None => {
                return Err(MylaError::ArithmeticOverflow);
            },
        };
        let count = match pool.over_count.checked_add(1) {
            Some(c) => c,
            None => {
                return Err(MylaError::ArithmeticOverflow);
            },
        };
        pool.over_total = total;
        pool.over_count = count;
    } else {
        let total = match pool.under_total.checked_add(amount) {
            Some(t) => t,
            None => {
                return Err(MylaError::ArithmeticOverflow);
            },
        };
        let count = match pool.under_count.checked_add(1) {
            Some(c) => c,
            None => {
                return Err(MylaError::ArithmeticOverflow);
            },
        };
        pool.under_total = total;
        pool.under_count = count;
    }
    Ok(Bet { pool: *pool_key, user: *user_key, side, amount, claimed: false, bump })
}

} // verus!
