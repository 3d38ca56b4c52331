//! The arithmetic that relates deposited value, shares and fees.

use crate::error::Error;
use crate::ledger::Balance;
use crate::wide::{mul_div, mul_div_spec};
use vstd::prelude::*;

verus! {

/// The largest fee rate, in percent.
pub const FULL_RATE: Balance = 100;

/// The shares that a deposit of `amount` buys from a pool of `total_shares`
/// shares valued at `valuation`.
///
/// An empty pool issues one share per unit of value. Otherwise the deposit
/// buys `amount * total_shares / valuation` shares, rounded down.
pub open spec fn issued_shares(amount: nat, total_shares: nat, valuation: nat) -> Result<
    Balance,
    Error,
> {
    if total_shares == 0 {
        Ok(amount as Balance)
    } else {
        match mul_div_spec(amount, total_shares, valuation) {
            Some(shares) => Ok(shares),
            None => Err(Error::ArithmeticError),
        }
    }
}

/// The value that `shares` shares are worth in a pool of `total_shares`
/// shares valued at `valuation`: `shares * valuation / total_shares`, rounded
/// down.
pub open spec fn redeemed_tokens(shares: nat, valuation: nat, total_shares: nat) -> Result<
    Balance,
    Error,
> {
    match mul_div_spec(shares, valuation, total_shares) {
        Some(tokens) => Ok(tokens),
        None => Err(Error::ArithmeticError),
    }
}

/// The manager's part of `tokens` at `rate` percent, rounded down.
pub open spec fn fee_share(tokens: nat, rate: nat) -> Result<Balance, Error> {
    if tokens * rate > u128::MAX {
        Err(Error::ArithmeticError)
    } else {
        Ok((tokens * rate / 100) as Balance)
    }
}

/// A fee at a rate of at most a hundred percent does not exceed what it is
/// taken from.
pub proof fn lemma_fee_within_tokens(tokens: nat, rate: nat)
    requires
        rate <= FULL_RATE,
    ensures
        tokens * rate / 100 <= tokens,
{
    assert(tokens * rate <= tokens * 100) by (nonlinear_arith)
        requires
            rate <= 100,
    ;
}

/// The shares issued for a deposit of `amount`.
///
/// Fails with `ArithmeticError` where the pool has shares and its valuation
/// is zero, or where the shares do not fit in 128 bits.
pub fn shares_for(amount: Balance, total_shares: Balance, valuation: Balance) -> (shares: Result<
    Balance,
    Error,
>)
    ensures
        shares == issued_shares(amount as nat, total_shares as nat, valuation as nat),
{
    if total_shares == 0 {
        Ok(amount)
    } else {
        match mul_div(amount, total_shares, valuation) {
            Some(shares) => Ok(shares),
            None => Err(Error::ArithmeticError),
        }
    }
}

/// The value paid out for burning `shares`.
///
/// Fails with `ArithmeticError` where the pool has no shares, or where the
/// value does not fit in 128 bits.
pub fn tokens_for(shares: Balance, valuation: Balance, total_shares: Balance) -> (tokens: Result<
    Balance,
    Error,
>)
    ensures
        tokens == redeemed_tokens(shares as nat, valuation as nat, total_shares as nat),
{
    match mul_div(shares, valuation, total_shares) {
        Some(tokens) => Ok(tokens),
        None => Err(Error::ArithmeticError),
    }
}

/// The fee on `tokens` at `rate` percent.
///
/// Fails with `ArithmeticError` where `tokens * rate` does not fit in 128
/// bits.
pub fn fee_on(tokens: Balance, rate: Balance) -> (fee: Result<Balance, Error>)
    ensures
        fee == fee_share(tokens as nat, rate as nat),
{
    match tokens.checked_mul(rate) {
        Some(scaled) => Ok(scaled / 100),
        None => Err(Error::ArithmeticError),
    }
}

} // verus!
