use vstd::prelude::*;
use anchor_lang::prelude::Pubkey;
use crate::errors::{InstructionError, MylaError};
use crate::runtime::same_key;
use crate::state::{Bet, Pool, BASIS_POINTS, SIDE_OVER};

verus! {

/// The commission on a pool of `total` lamports at `rate` basis points,
/// rounded down.
pub open spec fn commission_of(total: int, rate: int) -> int {
    total * rate / (BASIS_POINTS as int)
}

/// A winner's share: `amount / side_total` of the `distributable` lamports,
/// rounded down.
pub open spec fn payout_of(amount: int, distributable: int, side_total: int) -> int {
    amount * distributable / side_total
}

/// What a claim of `bet` against `pool` pays out, or why it is refused.
/// The payout is `amount × (total − commission) / winning_side_total`,
/// computed without overflow and truncated to 64 bits.
pub open spec fn claim_outcome(pool: Pool, bet: Bet) -> Result<u64, MylaError> {
    let total = pool.total();
    let rate = pool.commission_rate as int;
    match pool.winning_side {
        None => Err(MylaError::PoolNotResolved),
        Some(winning_side) => {
            if bet.side != winning_side {
                Err(MylaError::NotAWinner)
            } else if bet.claimed {
                Err(MylaError::AlreadyClaimed)
            } else if total > u64::MAX {
                Err(MylaError::ArithmeticOverflow)
            } else if total * rate > u64::MAX {
                Err(MylaError::ArithmeticOverflow)
            } else if commission_of(total, rate) > total {
                Err(MylaError::ArithmeticOverflow)
            } else if pool.side_total(winning_side) == 0 {
                Err(MylaError::ArithmeticOverflow)
            } else {
                Ok(
                    payout_of(
                        bet.amount as int,
                        total - commission_of(total, rate),
                        pool.side_total(winning_side) as int,
                    ) as u64,
                )
            }
        },
    }
}

/// What the account checks of a claim decide: the pool must be resolved, and
/// the bet must belong to the signing user and to this pool.
pub open spec fn claim_accounts_outcome(
    pool: Pool,
    bet: Bet,
    pool_key: Pubkey,
    user_key: Pubkey,
) -> Result<(), InstructionError> {
    if !pool.resolved {
        Err(InstructionError::Myla(MylaError::PoolNotResolved))
    } else if bet.user != user_key {
        Err(InstructionError::ConstraintRaw)
    } else if bet.pool != pool_key {
        Err(InstructionError::ConstraintRaw)
    } else {
        Ok(())
    }
}

/// Checks the accounts of a claim: the pool is resolved, the bet is the
/// signer's and is placed on `pool_key`.
pub fn check_claim_accounts(pool: &Pool, bet: &Bet, pool_key: &Pubkey, user_key: &Pubkey) -> (r:
    Result<(), InstructionError>)
    ensures
        r == claim_accounts_outcome(*pool, *bet, *pool_key, *user_key),
{
    if !pool.resolved {
        return Err(InstructionError::Myla(MylaError::PoolNotResolved));
    }
    if !same_key(&bet.user, user_key) {
        return Err(InstructionError::ConstraintRaw);
    }
    if !same_key(&bet.pool, pool_key) {
        return Err(InstructionError::ConstraintRaw);
    }
    Ok(())
}

/// Computes the payout owed on a winning bet.
pub fn claim_payout(pool: &Pool, bet: &Bet) -> (r: Result<u64, MylaError>)
    ensures
        r == claim_outcome(*pool, *bet),
{
    let winning_side = match pool.winning_side {
        Some(side) => side,
        None => {
            return Err(MylaError::PoolNotResolved);
        },
    };
    if bet.side != winning_side {
        return Err(MylaError::NotAWinner);
    }
    if bet.claimed {
        return Err(MylaError::AlreadyClaimed);
    }
    let total_pool = match pool.over_total.checked_add(pool.under_total) {
        Some(t) => t,
        None => {
            return Err(MylaError::ArithmeticOverflow);
        },
    };
    let rate = pool.commission_rate as u64;
    let scaled = match total_pool.checked_mul(rate) {
        Some(s) => s,
        None => {
            return Err(MylaError::ArithmeticOverflow);
        },
    };
    let commission = scaled / BASIS_POINTS;
    let distributable = match total_pool.checked_sub(commission) {
        Some(d) => d,
        None => {
            return Err(MylaError::ArithmeticOverflow);
        },
    };
    let winning_side_total = if winning_side == SIDE_OVER {
        pool.over_total
    } else {
        pool.under_total
    };
    let amount = bet.amount;
    assert((amount as int) * (distributable as int) <= u128::MAX) by (nonlinear_arith)
        requires
            amount <= u64::MAX,
            distributable <= u64::MAX,
    ;
    let product = (amount as u128) * (distributable as u128);
    if winning_side_total == 0 {
        return Err(MylaError::ArithmeticOverflow);
    }
    let payout = (product / (winning_side_total as u128)) as u64;
    Ok(payout)
}

/// Settles a claim: computes the payout and marks the bet as claimed. On any
/// error the bet is left as it was.
pub fn claim_winnings(pool: &Pool, bet: &mut Bet) -> (r: Result<u64, MylaError>)
    ensures
        r == claim_outcome(*pool, *old(bet)),
        r is Ok ==> *final(bet) == (Bet { claimed: true, ..*old(bet) }),
        r is Err ==> *final(bet) == *old(bet),
{
    let payout = claim_payout(pool, bet)?;
    bet.claimed = true;
    Ok(payout)
}

} // verus!
