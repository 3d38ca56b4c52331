//! The fund as a mathematical state machine.
//!
//! [`FundState`] is what a fund is worth to a proof: a map of balances, the
//! total of shares, the manager, the fee rate and the strategy bound. Each
//! operation of a fund is a function on such states, and the executable
//! fund is proved to compute exactly these functions.

use crate::account::{AccountId, StrategyRef};
use crate::conversion::{fee_share, issued_shares, redeemed_tokens, FULL_RATE};
use crate::error::Error;
use crate::ledger::{balance_in, sum_of_shares, Balance};
use crate::protocol::{Action, Pending, Receipt, Transfer};
use crate::strategy::{Invocation, Reply, Rotation, StrategyCall};
use vstd::prelude::*;

verus! {

/// The state of a fund.
#[verifier::ext_equal]
pub struct FundState {
    /// The shares that each account holds.
    pub shares: Map<AccountId, nat>,
    /// The shares outstanding.
    pub total_shares: nat,
    /// Who may rotate the strategy, and who receives the fees.
    pub manager: AccountId,
    /// The fee on withdrawals, in percent.
    pub fee: nat,
    /// The strategy that is bound.
    pub strategy: StrategyRef,
}

impl FundState {
    /// The invariant of a fund: the balances sum to the total of shares,
    /// which fits in 128 bits, and the fee is at most a hundred percent.
    pub open spec fn wf(self) -> bool {
        &&& self.shares.dom().finite()
        &&& sum_of_shares(self.shares) == self.total_shares
        &&& self.total_shares <= u128::MAX
        &&& self.fee <= FULL_RATE
    }

    /// The state of a fund that `manager` has just set up.
    pub open spec fn initial(strategy: StrategyRef, fee: nat, manager: AccountId) -> FundState {
        FundState { shares: Map::empty(), total_shares: 0, manager, fee, strategy }
    }

    /// The shares of `account`: none where it has no entry.
    pub open spec fn balance_of(self, account: AccountId) -> nat {
        balance_in(self.shares, account)
    }

    /// The strategies on which the fund holds a lock.
    pub open spec fn locked(self) -> Set<StrategyRef> {
        set![self.strategy]
    }

    /// The state after `shares` new shares were issued to `account`.
    pub open spec fn credit(self, account: AccountId, shares: nat) -> FundState {
        FundState {
            shares: self.shares.insert(account, self.balance_of(account) + shares),
            total_shares: self.total_shares + shares,
            ..self
        }
    }

    /// The state after `shares` shares of `account` were burned.
    pub open spec fn debit(self, account: AccountId, shares: nat) -> FundState {
        FundState {
            shares: self.shares.insert(account, (self.balance_of(account) - shares) as nat),
            total_shares: (self.total_shares - shares) as nat,
            ..self
        }
    }

    /// The invocation that asks the bound strategy for `call`.
    pub open spec fn invocation(self, call: StrategyCall) -> Invocation {
        Invocation { strategy: self.strategy, call }
    }

    /// The manager rotates the strategy; anyone else is refused.
    pub open spec fn update_strategy(self, caller: AccountId, strategy: StrategyRef) -> (
        FundState,
        Result<Rotation, Error>,
    ) {
        if caller == self.manager {
            (
                FundState { strategy, ..self },
                Ok(Rotation { release: self.strategy, acquire: strategy }),
            )
        } else {
            (self, Err(Error::Unauthorized))
        }
    }

    /// The manager asks for the strategy to be activated.
    pub open spec fn invest_in_strategy(self, caller: AccountId) -> Action {
        if caller == self.manager {
            Action::Invoke {
                invocation: self.invocation(StrategyCall::Activate),
                pending: Pending::Activate,
            }
        } else {
            Action::Finish(Err(Error::Unauthorized))
        }
    }

    /// A quote of the shares for `amount` begins. An empty pool needs no
    /// valuation.
    pub open spec fn calculate_shares(self, amount: Balance) -> Action {
        if self.total_shares == 0 {
            Action::Finish(Ok(Receipt::Shares(amount)))
        } else {
            Action::Invoke {
                invocation: self.invocation(StrategyCall::GetBalance),
                pending: Pending::Shares { amount },
            }
        }
    }

    /// A quote of the value of `shares` begins.
    pub open spec fn calculate_tokens(self, shares: Balance) -> Action {
        Action::Invoke {
            invocation: self.invocation(StrategyCall::GetBalance),
            pending: Pending::Tokens { shares },
        }
    }

    /// A deposit of `amount` by `caller` begins. Into an empty pool it is
    /// over at once, at one share per unit of value.
    pub open spec fn deposit(self, caller: AccountId, amount: Balance) -> (FundState, Action) {
        if self.total_shares == 0 {
            (
                self.credit(caller, amount as nat),
                Action::Finish(Ok(Receipt::Deposited { shares: amount })),
            )
        } else {
            (
                self,
                Action::Invoke {
                    invocation: self.invocation(StrategyCall::GetBalance),
                    pending: Pending::Deposit { caller, amount },
                },
            )
        }
    }

    /// The end of a deposit for which `shares` were computed: they are
    /// issued unless the total of shares would overflow.
    pub open spec fn issue(self, caller: AccountId, shares: Result<Balance, Error>) -> (
        FundState,
        Action,
    ) {
        match shares {
            Ok(n) => if self.total_shares + n > u128::MAX {
                (self, Action::Finish(Err(Error::ArithmeticError)))
            } else {
                (
                    self.credit(caller, n as nat),
                    Action::Finish(Ok(Receipt::Deposited { shares: n })),
                )
            },
            Err(e) => (self, Action::Finish(Err(e))),
        }
    }

    /// A withdrawal of `shares` by `caller` begins, unless `caller` holds
    /// less.
    pub open spec fn withdraw(self, caller: AccountId, shares: Balance) -> Action {
        if self.balance_of(caller) < shares {
            Action::Finish(Err(Error::NotEnoughShares))
        } else {
            Action::Invoke {
                invocation: self.invocation(StrategyCall::GetBalance),
                pending: Pending::Withdraw { caller, shares },
            }
        }
    }

    /// The end of a withdrawal worth `tokens`: the shares are burned, and
    /// the tokens are split between the caller and the manager.
    pub open spec fn pay_out(self, caller: AccountId, shares: Balance, tokens: Balance) -> (
        FundState,
        Action,
    ) {
        if self.balance_of(caller) < shares {
            (self, Action::Finish(Err(Error::NotEnoughShares)))
        } else {
            match fee_share(tokens as nat, self.fee) {
                Ok(fee) => (
                    self.debit(caller, shares as nat),
                    Action::Finish(
                        Ok(
                            Receipt::Withdrawn {
                                payout: Transfer { to: caller, value: (tokens - fee) as Balance },
                                fee: Transfer { to: self.manager, value: fee },
                            },
                        ),
                    ),
                ),
                Err(e) => (self, Action::Finish(Err(e))),
            }
        }
    }

    /// A withdrawal goes on with the valuation `valuation`, while the fund
    /// has `liquid` at hand: where that is less than the withdrawal is
    /// worth, the strategy is asked to free the tokens first.
    pub open spec fn price_withdrawal(
        self,
        caller: AccountId,
        shares: Balance,
        valuation: Balance,
        liquid: Balance,
    ) -> (FundState, Action) {
        if self.balance_of(caller) < shares {
            (self, Action::Finish(Err(Error::NotEnoughShares)))
        } else {
            match redeemed_tokens(shares as nat, valuation as nat, self.total_shares) {
                Ok(tokens) => if fee_share(tokens as nat, self.fee) is Ok && liquid < tokens {
                    (
                        self,
                        Action::Invoke {
                            invocation: self.invocation(StrategyCall::RetrieveTokens(tokens)),
                            pending: Pending::Payout { caller, shares, tokens },
                        },
                    )
                } else {
                    self.pay_out(caller, shares, tokens)
                },
                Err(e) => (self, Action::Finish(Err(e))),
            }
        }
    }

    /// The operation `pending` goes on with `reply`, while the fund has
    /// `liquid` at hand. A reply of another kind than was asked for counts
    /// as a failed invocation.
    pub open spec fn resume(self, pending: Pending, reply: Reply, liquid: Balance) -> (
        FundState,
        Action,
    ) {
        match (pending, reply) {
            (Pending::Deposit { caller, amount }, Reply::Balance(valuation)) => self.issue(
                caller,
                issued_shares(amount as nat, self.total_shares, valuation as nat),
            ),
            (Pending::Withdraw { caller, shares }, Reply::Balance(valuation)) => {
                self.price_withdrawal(caller, shares, valuation, liquid)
            },
            (Pending::Payout { caller, shares, tokens }, Reply::Done) => self.pay_out(
                caller,
                shares,
                tokens,
            ),
            (Pending::Activate, Reply::Done) => (self, Action::Finish(Ok(Receipt::Activated))),
            (Pending::Shares { amount }, Reply::Balance(valuation)) => (
                self,
                Action::Finish(
                    match issued_shares(amount as nat, self.total_shares, valuation as nat) {
                        Ok(shares) => Ok(Receipt::Shares(shares)),
                        Err(e) => Err(e),
                    },
                ),
            ),
            (Pending::Tokens { shares }, Reply::Balance(valuation)) => (
                self,
                Action::Finish(
                    match redeemed_tokens(shares as nat, valuation as nat, self.total_shares) {
                        Ok(tokens) => Ok(Receipt::Tokens(tokens)),
                        Err(e) => Err(e),
                    },
                ),
            ),
            _ => (self, Action::Finish(Err(Error::InvokeError))),
        }
    }
}

/// Something that a host asks of a fund and that may change its state.
pub enum Event {
    /// `caller` begins a deposit of `amount`.
    Deposit { caller: AccountId, amount: Balance },
    /// The operation `pending` is resumed with `reply`, the fund having
    /// `liquid` at hand.
    Resume { pending: Pending, reply: Reply, liquid: Balance },
    /// `caller` asks for the fund to be bound to `strategy`.
    UpdateStrategy { caller: AccountId, strategy: StrategyRef },
}

impl FundState {
    /// The state after `event`.
    pub open spec fn after(self, event: Event) -> FundState {
        match event {
            Event::Deposit { caller, amount } => self.deposit(caller, amount).0,
            Event::Resume { pending, reply, liquid } => self.resume(pending, reply, liquid).0,
            Event::UpdateStrategy { caller, strategy } => self.update_strategy(caller, strategy).0,
        }
    }

    /// The state after all of `events`, in their order.
    pub open spec fn after_all(self, events: Seq<Event>) -> FundState
        decreases events.len(),
    {
        if events.len() == 0 {
            self
        } else {
            self.after_all(events.drop_last()).after(events.last())
        }
    }

    /// A deposit of `amount` by `caller` from its beginning to its end,
    /// where the strategy answers the request for its valuation with
    /// `valuation`.
    ///
    /// An empty pool issues `amount` shares and asks nothing. Otherwise a
    /// failed invocation is an `InvokeError`, and the shares follow the
    /// valuation. Shares that cannot be computed, or that would take the
    /// total beyond 128 bits, are an `ArithmeticError`. Only success changes
    /// the state.
    pub open spec fn deposited(self, caller: AccountId, amount: Balance, valuation: Reply) -> (
        FundState,
        Result<Receipt, Error>,
    ) {
        let shares = if self.total_shares == 0 {
            Ok(amount)
        } else {
            match valuation {
                Reply::Balance(v) => issued_shares(amount as nat, self.total_shares, v as nat),
                _ => Err(Error::InvokeError),
            }
        };
        match shares {
            Ok(n) if self.total_shares + n <= u128::MAX => (
                self.credit(caller, n as nat),
                Ok(Receipt::Deposited { shares: n }),
            ),
            Ok(_) => (self, Err(Error::ArithmeticError)),
            Err(e) => (self, Err(e)),
        }
    }

    /// A withdrawal of `shares` by `caller` from its beginning to its end,
    /// where the strategy answers the request for its valuation with
    /// `valuation`, the fund then has `liquid` at hand, and the strategy
    /// answers a request to free tokens with `retrieval`.
    ///
    /// A caller who holds less is refused with `NotEnoughShares`. A failed
    /// valuation is an `InvokeError`. The shares are worth
    /// `shares * valuation / total_shares` tokens, of which the fee rate
    /// goes to the manager; where either cannot be computed the withdrawal
    /// fails with `ArithmeticError`. Where the tokens exceed `liquid` and the
    /// strategy does not free them, it fails with `InvokeError`. Only
    /// success changes the state.
    pub open spec fn withdrawn(
        self,
        caller: AccountId,
        shares: Balance,
        valuation: Reply,
        liquid: Balance,
        retrieval: Reply,
    ) -> (FundState, Result<Receipt, Error>) {
        if self.balance_of(caller) < shares {
            (self, Err(Error::NotEnoughShares))
        } else {
            match valuation {
                Reply::Balance(v) => match redeemed_tokens(
                    shares as nat,
                    v as nat,
                    self.total_shares,
                ) {
                    Ok(tokens) => match fee_share(tokens as nat, self.fee) {
                        Ok(fee) => if liquid < tokens && retrieval != Reply::Done {
                            (self, Err(Error::InvokeError))
                        } else {
                            (
                                self.debit(caller, shares as nat),
                                Ok(
                                    Receipt::Withdrawn {
                                        payout: Transfer {
                                            to: caller,
                                            value: (tokens - fee) as Balance,
                                        },
                                        fee: Transfer { to: self.manager, value: fee },
                                    },
                                ),
                            )
                        },
                        Err(e) => (self, Err(e)),
                    },
                    Err(e) => (self, Err(e)),
                },
                _ => (self, Err(Error::InvokeError)),
            }
        }
    }

    /// Where the host gets to when it carries out `action` and every
    /// invocation that follows from it, each answered by the next of
    /// `replies`: a reply and the liquid balance at that time. It stops at
    /// the end of the operation, or at an invocation for which no reply is
    /// left.
    pub open spec fn drive(self, action: Action, replies: Seq<(Reply, Balance)>) -> (
        FundState,
        Action,
    )
        decreases replies.len(),
    {
        match action {
            Action::Invoke { invocation, pending } if replies.len() > 0 => {
                let (next, then) = self.resume(pending, replies[0].0, replies[0].1);
                next.drive(then, replies.drop_first())
            },
            _ => (self, action),
        }
    }
}

} // verus!
