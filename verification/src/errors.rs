use vstd::prelude::*;
use anchor_lang::prelude::ProgramError;

verus! {

/// Errors raised by the program's own checks.
#[derive(Clone, Copy, Debug, PartialEq, Eq, Structural)]
pub enum MylaError {
    DeadlineInPast,
    InvalidCommissionRate,
    PoolAlreadyResolved,
    DeadlinePassed,
    StakeTooSmall,
    InvalidSide,
    UnauthorizedOracle,
    DeadlineNotReached,
    PoolNotResolved,
    NotAWinner,
    AlreadyClaimed,
    RefundNotEligible,
    ArithmeticOverflow,
    MatchIdTooLong,
    AssetTooLong,
}

/// Why an instruction failed: one of the program's own errors, an account
/// constraint without a custom error (the program framework's
/// `ConstraintRaw`), or a failed read of the clock sysvar.
#[derive(Debug, PartialEq)]
pub enum InstructionError {
    Myla(MylaError),
    ConstraintRaw,
    Sysvar(ProgramError),
}

impl MylaError {
    /// The message the program attaches to each error.
    pub open spec fn spec_message(self) -> Seq<char> {
        match self {
            MylaError::DeadlineInPast => "The deadline must be in the future"@,
            MylaError::InvalidCommissionRate =>
                "The commission rate must be between 0 and 10000 basis points (100%)"@,
            MylaError::PoolAlreadyResolved => "The pool has already been resolved"@,
            MylaError::DeadlinePassed => "The betting deadline has passed"@,
            MylaError::StakeTooSmall => "The minimum stake is 0.01 SOL (10,000,000 lamports)"@,
            MylaError::InvalidSide => "Invalid side: must be 0 (Over) or 1 (Under)"@,
            MylaError::UnauthorizedOracle => "Only the authorized oracle can resolve this pool"@,
            MylaError::DeadlineNotReached => "The pool deadline has not passed yet"@,
            MylaError::PoolNotResolved => "The pool has not been resolved yet"@,
            MylaError::NotAWinner => "Your bet is on the losing side"@,
            MylaError::AlreadyClaimed => "You have already claimed your winnings"@,
            MylaError::RefundNotEligible => "The pool is not eligible for a refund"@,
            MylaError::ArithmeticOverflow => "Arithmetic overflow"@,
            MylaError::MatchIdTooLong => "Match ID is too long (max 32 characters)"@,
            MylaError::AssetTooLong => "Asset name is too long (max 16 characters)"@,
        }
    }

    /// The message the program attaches to this error.
    pub fn message(&self) -> (r: &'static str)
        ensures
            r@ == self.spec_message(),
    {
        match self {
            MylaError::DeadlineInPast => "The deadline must be in the future",
            MylaError::InvalidCommissionRate =>
                "The commission rate must be between 0 and 10000 basis points (100%)",
            MylaError::PoolAlreadyResolved => "The pool has already been resolved",
            MylaError::DeadlinePassed => "The betting deadline has passed",
            MylaError::StakeTooSmall => "The minimum stake is 0.01 SOL (10,000,000 lamports)",
            MylaError::InvalidSide => "Invalid side: must be 0 (Over) or 1 (Under)",
            MylaError::UnauthorizedOracle => "Only the authorized oracle can resolve this pool",
            MylaError::DeadlineNotReached => "The pool deadline has not passed yet",
            MylaError::PoolNotResolved => "The pool has not been resolved yet",
            MylaError::NotAWinner => "Your bet is on the losing side",
            MylaError::AlreadyClaimed => "You have already claimed your winnings",
            MylaError::RefundNotEligible => "The pool is not eligible for a refund",
            MylaError::ArithmeticOverflow => "Arithmetic overflow",
            MylaError::MatchIdTooLong => "Match ID is too long (max 32 characters)",
            MylaError::AssetTooLong => "Asset name is too long (max 16 characters)",
        }
    }
}

} // verus!
