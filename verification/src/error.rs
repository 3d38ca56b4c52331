//! The ways in which an operation of a fund fails.

use vstd::prelude::*;

verus! {

/// Why an operation of a fund did not take place.
#[derive(Clone, Copy, Debug, PartialEq, Eq, Structural)]
pub enum Error {
    /// A conversion between value and shares overflowed or divided by zero.
    ArithmeticError,
    /// A withdrawal asked for more shares than the caller holds.
    NotEnoughShares,
    /// An invocation of the strategy could not be completed.
    InvokeError,
    /// An operation reserved to the manager was asked for by someone else.
    Unauthorized,
}

} // verus!
