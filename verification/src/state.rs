use vstd::prelude::*;
use vstd::utf8::encode_utf8;
use anchor_lang::prelude::Pubkey;

verus! {

/// Largest byte length of a pool's match id.
pub const MAX_MATCH_ID_LEN: usize = 32;

/// Largest byte length of a pool's asset name.
pub const MAX_ASSET_LEN: usize = 16;

/// Commission rates are in basis points: 10_000 is 100%.
pub const BASIS_POINTS: u64 = 10_000;

/// Side index of "Over" bets.
pub const SIDE_OVER: u8 = 0;

/// Side index of "Under" bets.
pub const SIDE_UNDER: u8 = 1;

/// The length in bytes that `String::len` reports for `s`.
pub open spec fn byte_len(s: &String) -> usize {
    encode_utf8(s@).len() as usize
}

/// One pool per prediction target: the stakes on each side of a strike
/// level, and, once the oracle has spoken, the winning side.
#[derive(Debug)]
pub struct Pool {
    /// Fixture id of the match (at most 32 bytes).
    pub match_id: String,
    /// Statistic predicted on: "corners", "goals" or "cards" (at most 16 bytes).
    pub asset: String,
    /// Strike level, scaled by ten (65 stands for 6.5).
    pub strike_level: u16,
    /// Minute of the match at which the prediction resolves.
    pub strike_minute: u8,
    /// Unix time after which no more bets are taken.
    pub deadline: i64,
    /// Lamports staked on Over.
    pub over_total: u64,
    /// Lamports staked on Under.
    pub under_total: u64,
    /// Number of Over bettors.
    pub over_count: u32,
    /// Number of Under bettors.
    pub under_count: u32,
    /// Whether the oracle has resolved the pool.
    pub resolved: bool,
    /// 0 when Over won, 1 when Under won; `None` while unresolved.
    pub winning_side: Option<u8>,
    /// The statistic's value at the strike minute (scaled by ten).
    pub actual_value: Option<u16>,
    /// Commission in basis points.
    pub commission_rate: u16,
    /// Treasury wallet that receives the commission.
    pub commission_wallet: Pubkey,
    /// The only key allowed to resolve the pool.
    pub oracle: Pubkey,
    /// Bump seed of the pool's program-derived address.
    pub bump: u8,
}

/// One user's stake in one pool.
#[derive(Debug)]
pub struct Bet {
    /// Address of the pool the bet belongs to.
    pub pool: Pubkey,
    /// The bettor's wallet.
    pub user: Pubkey,
    /// 0 for Over, 1 for Under.
    pub side: u8,
    /// Lamports staked.
    pub amount: u64,
    /// Whether the winnings have been paid out.
    pub claimed: bool,
    /// Bump seed of the bet's program-derived address.
    pub bump: u8,
}

/// The side that wins when the statistic ends at `actual_value`: Over when it
/// is strictly above the strike level, Under otherwise.
pub open spec fn winner_for(actual_value: u16, strike_level: u16) -> u8 {
    if actual_value > strike_level { SIDE_OVER } else { SIDE_UNDER }
}

impl Pool {
    /// What every pool the program creates and updates satisfies.
    pub open spec fn wf(&self) -> bool {
        &&& byte_len(&self.match_id) <= MAX_MATCH_ID_LEN
        &&& byte_len(&self.asset) <= MAX_ASSET_LEN
        &&& self.commission_rate <= BASIS_POINTS
        &&& self.resolved == self.winning_side.is_some()
        &&& self.resolved == self.actual_value.is_some()
        &&& (self.resolved ==> self.winning_side == Some(
            winner_for(self.actual_value->0, self.strike_level),
        ))
    }

    /// Lamports staked on both sides.
    pub open spec fn total(&self) -> int {
        self.over_total + self.under_total
    }

    /// Lamports staked on `side` (any side other than Over counts as Under).
    pub open spec fn side_total(&self, side: u8) -> u64 {
        if side == SIDE_OVER { self.over_total } else { self.under_total }
    }
}

} // verus!
