use vstd::prelude::*;
use anchor_lang::prelude::Pubkey;
use crate::errors::{InstructionError, MylaError};
use crate::runtime::{clock_unix_timestamp, same_key};
use crate::state::{Bet, Pool, SIDE_OVER};

verus! {

/// Time after the deadline within which the oracle is expected to resolve a
/// pool (24 hours, in seconds); once it is over, every bettor may withdraw.
pub const REFUND_GRACE_PERIOD: i64 = 86_400;

/// What the account checks of a refund decide: the bet must belong to the
/// signing user and to this pool.
pub open spec fn refund_accounts_outcome(bet: Bet, pool_key: Pubkey, user_key: Pubkey) -> Result<
    (),
    InstructionError,
> {
    if bet.user != user_key {
        Err(InstructionError::ConstraintRaw)
    } else if bet.pool != pool_key {
        Err(InstructionError::ConstraintRaw)
    } else {
        Ok(())
    }
}

/// Whether the pool pays stakes back at unix time `now`: never once resolved;
/// when only one side has stakes, from the deadline on; otherwise once the
/// grace period after the deadline is over.
pub open spec fn refund_eligible(pool: Pool, now: i64) -> bool {
    let one_sided = pool.over_total == 0 || pool.under_total == 0;
    &&& !pool.resolved
    &&& ((one_sided && now >= pool.deadline) || now >= pool.deadline + REFUND_GRACE_PERIOD)
}

/// What a refund of `bet` at unix time `now` pays back (the whole stake), or
/// why it is refused.
pub open spec fn refund_outcome(pool: Pool, bet: Bet, now: i64) -> Result<u64, MylaError> {
    if bet.claimed {
        Err(MylaError::AlreadyClaimed)
    } else if !refund_eligible(pool, now) {
        Err(MylaError::RefundNotEligible)
    } else {
        Ok(bet.amount)
    }
}

/// The pool once a stake of `amount` on `side` is taken back out; totals and
/// counts stop at zero. Any side other than Over counts as Under.
pub open spec fn pool_after_refund(pool: Pool, side: u8, amount: u64) -> Pool {
    if side == SIDE_OVER {
        Pool {
            over_total: if pool.over_total >= amount {
                (pool.over_total - amount) as u64
            } else {
                0
            },
            over_count: if pool.over_count >= 1 {
                (pool.over_count - 1) as u32
            } else {
                0
            },
            ..pool
        }
    } else {
        Pool {
            under_total: if pool.under_total >= amount {
                (pool.under_total - amount) as u64
            } else {
                0
            },
            under_count: if pool.under_count >= 1 {
                (pool.under_count - 1) as u32
            } else {
                0
            },
            ..pool
        }
    }
}

/// Whether computing the end of the grace period stays within `i64`; the
/// program panics on that overflow.
pub open spec fn grace_end_fits(pool: Pool) -> bool {
    pool.deadline + REFUND_GRACE_PERIOD <= i64::MAX
}

/// Checks the accounts of a refund: the bet is the signer's and is placed on
/// `pool_key`.
pub fn check_refund_accounts(bet: &Bet, pool_key: &Pubkey, user_key: &Pubkey) -> (r: Result<
    (),
    InstructionError,
>)
    ensures
        r == refund_accounts_outcome(*bet, *pool_key, *user_key),
{
    if !same_key(&bet.user, user_key) {
        return Err(InstructionError::ConstraintRaw);
    }
    if !same_key(&bet.pool, pool_key) {
        return Err(InstructionError::ConstraintRaw);
    }
    Ok(())
}

/// Refunds `bet` at unix time `now`: returns the lamports to pay back and
/// takes the stake out of the pool's totals. On any error the pool is left
/// as it was.
pub fn refund(pool: &mut Pool, bet: &Bet, now: i64) -> (r: Result<u64, MylaError>)
    requires
        !bet.claimed ==> grace_end_fits(*old(pool)),
    ensures
        r == refund_outcome(*old(pool), *bet, now),
        r is Ok ==> *final(pool) == pool_after_refund(*old(pool), bet.side, bet.amount),
        r is Err ==> *final(pool) == *old(pool),
        old(pool).wf() ==> final(pool).wf(),
{
    if bet.claimed {
        return Err(MylaError::AlreadyClaimed);
    }
    let is_one_sided = pool.over_total == 0 || pool.under_total == 0;
    let deadline_passed = now >= pool.deadline;
    let grace_expired = now >= pool.deadline + REFUND_GRACE_PERIOD;
    let eligible = if pool.resolved {
        false
    } else if is_one_sided && deadline_passed {
        true
    } else if grace_expired {
        true
    } else {
        false
    };
    if !eligible {
        return Err(MylaError::RefundNotEligible);
    }
    let refund_amount = bet.amount;
    if bet.side == SIDE_OVER {
        pool.over_total = pool.over_total.saturating_sub(refund_amount);
        pool.over_count = pool.over_count.saturating_sub(1);
    } else {
        pool.under_total = pool.under_total.saturating_sub(refund_amount);
        pool.under_count = pool.under_count.saturating_sub(1);
    }
    Ok(refund_amount)
}

/// The checks of the refund instruction that come before the refund itself:
/// a claimed bet is refused, then the clock is read and its unix time handed
/// back, at which `refund` is then made.
pub fn refund_precheck(bet: &Bet) -> (r: Result<i64, InstructionError>)
    ensures
        bet.claimed ==> r == Err::<i64, InstructionError>(
            InstructionError::Myla(MylaError::AlreadyClaimed),
        ),
        match r {
            Ok(_) => !bet.claimed,
            Err(InstructionError::Myla(e)) => bet.claimed && e == MylaError::AlreadyClaimed,
            Err(InstructionError::ConstraintRaw) => false,
            Err(InstructionError::Sysvar(_)) => !bet.claimed,
        },
{
    if bet.claimed {
        return Err(InstructionError::Myla(MylaError::AlreadyClaimed));
    }
    match clock_unix_timestamp() {
        Ok(t) => Ok(t),
        Err(e) => Err(InstructionError::Sysvar(e)),
    }
}

} // verus!
