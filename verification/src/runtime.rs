//! The outside items the program relies on: account addresses, the runtime's
//! error type, address comparison and the cluster clock.

use vstd::prelude::*;
use anchor_lang::prelude::Pubkey;
use anchor_lang::prelude::ProgramError;
use anchor_lang::prelude::Clock;
use anchor_lang::prelude::SolanaSysvar;

verus! {

/// A Solana account address (32 bytes).
#[verifier::external_type_specification]
#[verifier::external_body]
pub struct ExPubkey(Pubkey);

/// The error type of the Solana runtime's system calls.
#[verifier::external_type_specification]
#[verifier::external_body]
pub struct ExProgramError(ProgramError);

/// Compares two addresses with `Pubkey`'s derived `==`, which compares the
/// 32 bytes; the contract claims it is `true` exactly when the two values are
/// the same address.
#[verifier::external_body]
pub(crate) fn same_key(a: &Pubkey, b: &Pubkey) -> (r: bool)
    ensures
        r == (*a == *b),
{
    a == b
}

/// Reads the cluster clock through `Clock::get` (the clock sysvar) and hands
/// back its `unix_timestamp`. What it returns depends on the runtime, so
/// nothing is claimed of the result: off-chain the call always fails.
#[verifier::external_body]
pub(crate) fn clock_unix_timestamp() -> (r: Result<i64, ProgramError>) {
    Clock::get().map(|c| c.unix_timestamp)
}

} // verus!
