//! The program's instructions, one module each.

pub mod claim_winnings;
pub mod create_pool;
pub mod place_bet;
pub mod refund;
pub mod resolve_pool;
