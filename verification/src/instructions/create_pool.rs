use vstd::prelude::*;
use anchor_lang::prelude::Pubkey;
use crate::errors::{InstructionError, MylaError};
use crate::runtime::clock_unix_timestamp;
use crate::state::{byte_len, Pool, BASIS_POINTS, MAX_ASSET_LEN, MAX_MATCH_ID_LEN};

verus! {

/// The checks on a new pool's parameters alone: the lengths of the match id
/// and of the asset name, and the commission rate.
pub open spec fn pool_params_outcome(match_id: String, asset: String, commission_rate: u16) -> Result<
    (),
    MylaError,
> {
    if byte_len(&match_id) > MAX_MATCH_ID_LEN {
        Err(MylaError::MatchIdTooLong)
    } else if byte_len(&asset) > MAX_ASSET_LEN {
        Err(MylaError::AssetTooLong)
    } else if commission_rate > BASIS_POINTS {
        Err(MylaError::InvalidCommissionRate)
    } else {
        Ok(())
    }
}

/// The pool written by a successful creation: no stakes, unresolved.
pub open spec fn fresh_pool(
    match_id: String,
    asset: String,
    strike_level: u16,
    strike_minute: u8,
    deadline: i64,
    commission_rate: u16,
    commission_wallet: Pubkey,
    oracle: Pubkey,
    bump: u8,
) -> Pool {
    Pool {
        match_id,
        asset,
        strike_level,
        strike_minute,
        deadline,
        over_total: 0,
        under_total: 0,
        over_count: 0,
        under_count: 0,
        resolved: false,
        winning_side: None,
        actual_value: None,
        commission_rate,
        commission_wallet,
        oracle,
        bump,
    }
}

/// Checks a new pool's parameters.
pub fn validate_pool_params(match_id: &String, asset: &String, commission_rate: u16) -> (r: Result<
    (),
    MylaError,
>)
    ensures
        r == pool_params_outcome(*match_id, *asset, commission_rate),
{
    if match_id.as_str().len() > MAX_MATCH_ID_LEN {
        return Err(MylaError::MatchIdTooLong);
    }
    if asset.as_str().len() > MAX_ASSET_LEN {
        return Err(MylaError::AssetTooLong);
    }
    if commission_rate as u64 > BASIS_POINTS {
        return Err(MylaError::InvalidCommissionRate);
    }
    Ok(())
}

/// Creates a pool at unix time `now`: the parameters must pass their checks
/// and the deadline must lie after `now`.
pub fn init_pool(
    match_id: String,
    asset: String,
    strike_level: u16,
    strike_minute: u8,
    deadline: i64,
    commission_rate: u16,
    commission_wallet: Pubkey,
    oracle: Pubkey,
    bump: u8,
    now: i64,
) -> (r: Result<Pool, MylaError>)
    ensures
        pool_params_outcome(match_id, asset, commission_rate) matches Err(e) ==> r == Err::<
            Pool,
            MylaError,
        >(e),
        pool_params_outcome(match_id, asset, commission_rate) is Ok ==> r == (if deadline > now {
            Ok::<Pool, MylaError>(
                fresh_pool(
                    match_id,
                    asset,
                    strike_level,
                    strike_minute,
                    deadline,
                    commission_rate,
                    commission_wallet,
                    oracle,
                    bump,
                ),
            )
        } else {
            Err::<Pool, MylaError>(MylaError::DeadlineInPast)
        }),
        r matches Ok(p) ==> p.wf(),
{
    validate_pool_params(&match_id, &asset, commission_rate)?;
    if !(deadline > now) {
        return Err(MylaError::DeadlineInPast);
    }
    Ok(
        Pool {
            match_id,
            asset,
            strike_level,
            strike_minute,
            deadline,
            over_total: 0,
            under_total: 0,
            over_count: 0,
            under_count: 0,
            resolved: false,
            winning_side: None,
            actual_value: None,
            commission_rate,
            commission_wallet,
            oracle,
            bump,
        },
    )
}

/// The create instruction: checks the parameters, reads the clock, and
/// creates the pool at that time. A pool is only created with a deadline
/// after the clock's time, so never with the least `i64` as deadline.
pub fn create_pool(
    match_id: String,
    asset: String,
    strike_level: u16,
    strike_minute: u8,
    deadline: i64,
    commission_rate: u16,
    commission_wallet: Pubkey,
    oracle: Pubkey,
    bump: u8,
) -> (r: Result<Pool, InstructionError>)
    ensures
        pool_params_outcome(match_id, asset, commission_rate) matches Err(e) ==> r == Err::<
            Pool,
            InstructionError,
        >(InstructionError::Myla(e)),
        match r {
            Ok(p) => p == fresh_pool(
                match_id,
                asset,
                strike_level,
                strike_minute,
                deadline,
                commission_rate,
                commission_wallet,
                oracle,
                bump,
            ) && p.wf() && deadline > i64::MIN,
            Err(InstructionError::Myla(e)) => pool_params_outcome(
                match_id,
                asset,
                commission_rate,
            ) == Err::<(), MylaError>(e) || (pool_params_outcome(match_id, asset, commission_rate)
                is Ok && e == MylaError::DeadlineInPast),
            Err(InstructionError::ConstraintRaw) => false,
            Err(InstructionError::Sysvar(_)) => pool_params_outcome(
                match_id,
                asset,
                commission_rate,
            ) is Ok,
        },
{
    match validate_pool_params(&match_id, &asset, commission_rate) {
        Ok(()) => {},
        Err(e) => {
            return Err(InstructionError::Myla(e));
        },
    }
    let now = match clock_unix_timestamp() {
        Ok(t) => t,
        Err(e) => {
            return Err(InstructionError::Sysvar(e));
        },
    };
    match init_pool(
        match_id,
        asset,
        strike_level,
        strike_minute,
        deadline,
        commission_rate,
        commission_wallet,
        oracle,
        bump,
        now,
    ) {
        Ok(p) => Ok(p),
        Err(e) => Err(InstructionError::Myla(e)),
    }
}

} // verus!
