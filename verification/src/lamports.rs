use vstd::prelude::*;

verus! {

/// Moves `amount` lamports from the balance `from_balance` to the balance
/// `to_balance`, returning both new balances. The program aborts the
/// transaction when the source holds too little or the destination would
/// overflow, so those inputs are excluded.
pub fn move_lamports(from_balance: u64, to_balance: u64, amount: u64) -> (r: (u64, u64))
    requires
        amount <= from_balance,
        to_balance + amount <= u64::MAX,
    ensures
        r.0 == from_balance - amount,
        r.1 == to_balance + amount,
        r.0 + r.1 == from_balance + to_balance,
{
    (from_balance - amount, to_balance + amount)
}

} // verus!
