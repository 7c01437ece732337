use vstd::prelude::*;
use anchor_lang::prelude::Pubkey;
use crate::errors::{InstructionError, MylaError};
use crate::instructions::claim_winnings::commission_of;
use crate::runtime::{clock_unix_timestamp, same_key};
use crate::state::{winner_for, Pool, BASIS_POINTS, SIDE_OVER, SIDE_UNDER};

verus! {

/// What the account checks of a resolution decide: the signer must be the
/// pool's oracle, and the commission account the pool's commission wallet.
pub open spec fn resolve_accounts_outcome(
    pool: Pool,
    oracle_key: Pubkey,
    commission_wallet_key: Pubkey,
) -> Result<(), InstructionError> {
    if pool.oracle != oracle_key {
        Err(InstructionError::Myla(MylaError::UnauthorizedOracle))
    } else if commission_wallet_key != pool.commission_wallet {
        Err(InstructionError::ConstraintRaw)
    } else {
        Ok(())
    }
}

/// The pool once resolved with `actual_value`.
pub open spec fn resolved_pool(pool: Pool, actual_value: u16) -> Pool {
    Pool {
        resolved: true,
        winning_side: Some(winner_for(actual_value, pool.strike_level)),
        actual_value: Some(actual_value),
        ..pool
    }
}

/// What resolving `pool` with `actual_value` at unix time `now` gives: the
/// commission owed to the treasury, or why the resolution is refused.
pub open spec fn resolve_outcome(pool: Pool, actual_value: u16, now: i64) -> Result<
    u64,
    MylaError,
> {
    let total = pool.total();
    let rate = pool.commission_rate as int;
    if pool.resolved {
        Err(MylaError::PoolAlreadyResolved)
    } else if now < pool.deadline {
        Err(MylaError::DeadlineNotReached)
    } else if total > u64::MAX {
        Err(MylaError::ArithmeticOverflow)
    } else if total * rate > u64::MAX {
        Err(MylaError::ArithmeticOverflow)
    } else {
        Ok(commission_of(total, rate) as u64)
    }
}

/// Checks the accounts of a resolution: the signer is the pool's oracle and
/// the commission account is the pool's commission wallet.
pub fn check_resolve_accounts(pool: &Pool, oracle_key: &Pubkey, commission_wallet_key: &Pubkey) -> (r:
    Result<(), InstructionError>)
    ensures
        r == resolve_accounts_outcome(*pool, *oracle_key, *commission_wallet_key),
{
    if !same_key(&pool.oracle, oracle_key) {
        return Err(InstructionError::Myla(MylaError::UnauthorizedOracle));
    }
    if !same_key(commission_wallet_key, &pool.commission_wallet) {
        return Err(InstructionError::ConstraintRaw);
    }
    Ok(())
}

/// Resolves the pool at unix time `now`: records the winning side and the
/// actual value, and returns the commission to move from the vault to the
/// treasury. On any error the pool is left as it was.
pub fn resolve(pool: &mut Pool, actual_value: u16, now: i64) -> (r: Result<u64, MylaError>)
    ensures
        r == resolve_outcome(*old(pool), actual_value, now),
        r is Ok ==> *final(pool) == resolved_pool(*old(pool), actual_value),
        r is Err ==> *final(pool) == *old(pool),
        old(pool).wf() ==> final(pool).wf(),
{
    if pool.resolved {
        return Err(MylaError::PoolAlreadyResolved);
    }
    if now < pool.deadline {
        return Err(MylaError::DeadlineNotReached);
    }
    let winning_side: u8 = if actual_value > pool.strike_level {
        SIDE_OVER
    } else {
        SIDE_UNDER
    };
    let total_pool = match pool.over_total.checked_add(pool.under_total) {
        Some(t) => t,
        None => {
            return Err(MylaError::ArithmeticOverflow);
        },
    };
    let scaled = match total_pool.checked_mul(pool.commission_rate as u64) {
        Some(s) => s,
        None => {
            return Err(MylaError::ArithmeticOverflow);
        },
    };
    let commission = scaled / BASIS_POINTS;
    pool.resolved = true;
    pool.winning_side = Some(winning_side);
    pool.actual_value = Some(actual_value);
    Ok(commission)
}

/// The resolve instruction: reads the clock and resolves the pool at that
/// time. A resolved pool is refused before the clock is read.
pub fn resolve_pool(pool: &mut Pool, actual_value: u16) -> (r: Result<u64, InstructionError>)
    ensures
        old(pool).resolved ==> r == Err::<u64, InstructionError>(
            InstructionError::Myla(MylaError::PoolAlreadyResolved),
        ),
        match r {
            Ok(commission) => exists|now: i64|
                #[trigger] resolve_outcome(*old(pool), actual_value, now) == Ok::<u64, MylaError>(
                    commission,
                ),
            Err(InstructionError::Myla(e)) => exists|now: i64|
                #[trigger] resolve_outcome(*old(pool), actual_value, now) == Err::<u64, MylaError>(
                    e,
                ),
            Err(InstructionError::ConstraintRaw) => false,
            Err(InstructionError::Sysvar(_)) => !old(pool).resolved,
        },
        r is Ok ==> *final(pool) == resolved_pool(*old(pool), actual_value),
        r is Err ==> *final(pool) == *old(pool),
{
    if pool.resolved {
        assert(resolve_outcome(*pool, actual_value, 0) == Err::<u64, MylaError>(
            MylaError::PoolAlreadyResolved,
        ));
        return Err(InstructionError::Myla(MylaError::PoolAlreadyResolved));
    }
    let now = match clock_unix_timestamp() {
        Ok(t) => t,
        Err(e) => {
            return Err(InstructionError::Sysvar(e));
        },
    };
    match resolve(pool, actual_value, now) {
        Ok(c) => Ok(c),
        Err(e) => Err(InstructionError::Myla(e)),
    }
}

} // verus!
