//! What passes between a fund and the host that carries it.
//!
//! An operation of a fund that needs the strategy does not run to its end in
//! one call. It stops with an [`Action::Invoke`], which names the invocation
//! that the host must make and the [`Pending`] operation to take up again
//! with the reply. An operation that has come to its end stops with an
//! [`Action::Finish`].

use crate::account::AccountId;
use crate::error::Error;
use crate::ledger::Balance;
use crate::strategy::Invocation;
use vstd::prelude::*;

verus! {

/// A payment that the host must make out of the fund's own balance.
#[derive(Clone, Copy, Debug, PartialEq, Eq)]
pub struct Transfer {
    pub to: AccountId,
    pub value: Balance,
}

/// An operation that waits for the reply to an invocation. The host hands
/// it back as it got it. A fund that is resumed believes nothing that it
/// can check itself: it looks up the caller's balance and the total of
/// shares again.
#[derive(Clone, Copy, Debug, PartialEq, Eq)]
pub enum Pending {
    /// A deposit of `amount` by `caller` waits for the valuation.
    Deposit { caller: AccountId, amount: Balance },
    /// A withdrawal of `shares` by `caller` waits for the valuation.
    Withdraw { caller: AccountId, shares: Balance },
    /// A withdrawal worth `tokens` waits for the strategy to free them.
    Payout { caller: AccountId, shares: Balance, tokens: Balance },
    /// The manager waits for the strategy to be activated.
    Activate,
    /// A quote of the shares for `amount` waits for the valuation.
    Shares { amount: Balance },
    /// A quote of the value of `shares` waits for the valuation.
    Tokens { shares: Balance },
}

/// What an operation that succeeded has done or found.
#[derive(Clone, Copy, Debug, PartialEq, Eq)]
pub enum Receipt {
    /// The depositor was issued `shares`.
    Deposited { shares: Balance },
    /// Shares were burned. The host must pay `payout` to the caller and then
    /// `fee` to the manager.
    Withdrawn { payout: Transfer, fee: Transfer },
    /// The strategy was activated.
    Activated,
    /// A deposit would be issued this many shares.
    Shares(Balance),
    /// A withdrawal would be worth this much.
    Tokens(Balance),
}

/// What the host must do next.
#[derive(Clone, Copy, Debug, PartialEq, Eq)]
pub enum Action {
    /// Make `invocation`, then resume `pending` with the reply.
    Invoke { invocation: Invocation, pending: Pending },
    /// The operation is over, with this result.
    Finish(Result<Receipt, Error>),
}

} // verus!
