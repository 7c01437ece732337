//! Verified core of the MYLA over/under prediction-pool program.
//!
//! Every instruction of the program is split into the decisions it makes
//! (validation, payout arithmetic, state transitions), which live here with
//! contracts, and the account plumbing of the Solana runtime, which stays with
//! the program entry points.

pub mod errors;
pub mod runtime;
pub mod state;
pub mod instructions;
pub mod laws;
pub mod lamports;
