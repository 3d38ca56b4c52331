//! The fund: share accounting for many depositors over one pool.
//!
//! A fund owns the balances, the total of shares, the manager, the fee rate
//! and the reference to the strategy bound. It never reaches out of itself:
//! the caller of an operation, the value that came with it and the fund's
//! liquid balance are handed in, and what has to happen outside (an
//! invocation of the strategy, a payment, a change of locks) is handed back
//! for the host to carry out.
//!
//! In every fund the balances sum to the total of shares: the type keeps this
//! invariant by itself, so that no operation asks its caller for it, and each
//! operation states it of the fund that it leaves behind.
//!
//! While an invocation is made the host may let the strategy work on the fund
//! through the operations below. Whatever it does, the fund that is resumed
//! meets the invariant, and the operation resumed checks the state again as
//! it then finds it.

use crate::account::{AccountId, StrategyRef};
use crate::conversion::{fee_on, lemma_fee_within_tokens, shares_for, tokens_for, FULL_RATE};
use crate::error::Error;
use crate::ledger::{
    distinct_accounts, ledger_of, lemma_balance_within_sum, lemma_sum_insert, lemma_total_held,
    sum_of_shares, total_held, Balance, Holding, ShareLedger,
};
use crate::model::FundState;
use crate::protocol::{Action, Pending, Receipt, Transfer};
use crate::strategy::{Invocation, Reply, Rotation, StrategyCall};
use vstd::prelude::*;

verus! {

/// The balances of a fund with their total.
#[derive(Debug)]
struct Pool {
    users: ShareLedger,
    users_total_shares: Balance,
}

impl Pool {
    fn empty() -> (pool: Pool)
        ensures
            pool.users@ == Map::<AccountId, nat>::empty(),
            pool.users_total_shares == 0,
    {
        Pool { users: ShareLedger::new(), users_total_shares: 0 }
    }
}

/// A pooled investment fund.
#[derive(Debug)]
pub struct InvestmentFund {
    pool: Pool,
    strategy: StrategyRef,
    manager: AccountId,
    fee: Balance,
}

impl View for InvestmentFund {
    type V = FundState;

    closed spec fn view(&self) -> FundState {
        FundState {
            shares: self.pool.users@,
            total_shares: self.pool.users_total_shares as nat,
            manager: self.manager,
            fee: self.fee as nat,
            strategy: self.strategy,
        }
    }
}

impl InvestmentFund {
    #[verifier::type_invariant]
    spec fn balanced(self) -> bool {
        self@.wf()
    }

    /// A fund without shares, bound to `hash`, that charges `fee` percent on
    /// withdrawals and is managed by `caller`. The host must hold a lock on
    /// `hash` from now on.
    pub fn new(hash: StrategyRef, fee: Balance, caller: AccountId) -> (fund: InvestmentFund)
        requires
            fee <= FULL_RATE,
        ensures
            fund@ == FundState::initial(hash, fee as nat, caller),
            fund@.wf(),
    {
        let fund = InvestmentFund { pool: Pool::empty(), strategy: hash, manager: caller, fee };
        assert(fund@ =~= FundState::initial(hash, fee as nat, caller));
        fund
    }

    /// The fund in the state that is given, where that is the state of a
    /// fund: no account occurs twice in `holdings`, their shares sum to
    /// `total_shares`, and `fee` is at most a hundred percent.
    pub fn restore(
        hash: StrategyRef,
        fee: Balance,
        manager: AccountId,
        total_shares: Balance,
        holdings: &Vec<Holding>,
    ) -> (fund: Option<InvestmentFund>)
        ensures
            fund.is_some() == (distinct_accounts(holdings@) && total_held(holdings@)
                == total_shares && fee <= FULL_RATE),
            fund matches Some(f) ==> f@.wf() && f@ == (FundState {
                shares: ledger_of(holdings@),
                total_shares: total_shares as nat,
                manager,
                fee: fee as nat,
                strategy: hash,
            }),
    {
        if fee > FULL_RATE {
            return None;
        }
        match ShareLedger::from_holdings(holdings) {
            Some(users) => {
                proof {
                    lemma_total_held(holdings@);
                }
                match users.total() {
                    Some(sum) if sum == total_shares => {
                        let fund = InvestmentFund {
                            pool: Pool { users, users_total_shares: total_shares },
                            strategy: hash,
                            manager,
                            fee,
                        };
                        assert(fund@ =~= (FundState {
                            shares: ledger_of(holdings@),
                            total_shares: total_shares as nat,
                            manager,
                            fee: fee as nat,
                            strategy: hash,
                        }));
                        Some(fund)
                    },
                    _ => None,
                }
            },
            None => None,
        }
    }

    /// The holdings of all accounts, each account once. With the other
    /// parts of the state they are what [`InvestmentFund::restore`] takes.
    pub fn holdings(&self) -> (list: Vec<Holding>)
        ensures
            distinct_accounts(list@),
            ledger_of(list@) == self@.shares,
            total_held(list@) == self@.total_shares,
    {
        let list = self.pool.users.holdings();
        proof {
            use_type_invariant(self);
            lemma_total_held(list@);
        }
        list
    }

    /// The strategy that is bound.
    pub fn strategy(&self) -> (hash: StrategyRef)
        ensures
            hash == self@.strategy,
    {
        self.strategy
    }

    /// The manager.
    pub fn manager(&self) -> (manager: AccountId)
        ensures
            manager == self@.manager,
    {
        self.manager
    }

    /// The fee on withdrawals, in percent.
    pub fn fee(&self) -> (fee: Balance)
        ensures
            fee == self@.fee,
            fee <= FULL_RATE,
    {
        proof {
            use_type_invariant(self);
        }
        self.fee
    }

    /// The shares outstanding, which are the sum of all balances.
    pub fn total_shares(&self) -> (total: Balance)
        ensures
            total == self@.total_shares,
            total == sum_of_shares(self@.shares),
    {
        proof {
            use_type_invariant(self);
        }
        self.pool.users_total_shares
    }

    /// Whether `caller` is the manager.
    pub fn caller_is_manager(&self, caller: AccountId) -> (yes: bool)
        ensures
            yes == (caller == self@.manager),
    {
        caller == self.manager
    }

    /// The shares of `caller`: none where it never deposited.
    pub fn get_shares(&self, caller: AccountId) -> (shares: Balance)
        ensures
            shares == self@.balance_of(caller),
            self@.wf(),
    {
        proof {
            use_type_invariant(self);
        }
        match self.pool.users.get(&caller) {
            Some(shares) => shares,
            None => 0,
        }
    }

    /// Binds the fund to `hash`, for the manager only. The host must carry
    /// out the rotation of locks that is returned.
    pub fn update_strategy(&mut self, caller: AccountId, hash: StrategyRef) -> (rotation: Result<
        Rotation,
        Error,
    >)
        ensures
            final(self)@ == old(self)@.update_strategy(caller, hash).0,
            rotation == old(self)@.update_strategy(caller, hash).1,
            rotation matches Ok(r) ==> r.apply(old(self)@.locked()) == final(self)@.locked(),
            final(self)@.wf(),
    {
        proof {
            use_type_invariant(&*self);
        }
        if !self.caller_is_manager(caller) {
            return Err(Error::Unauthorized);
        }
        let release = self.strategy;
        self.strategy = hash;
        proof {
            assert(self@ =~= old(self)@.update_strategy(caller, hash).0);
            assert(set![release].remove(release).insert(hash) =~= set![hash]);
        }
        Ok(Rotation { release, acquire: hash })
    }

    /// Begins the activation of the strategy, for the manager only.
    pub fn invest_in_strategy(&self, caller: AccountId) -> (action: Action)
        ensures
            action == self@.invest_in_strategy(caller),
    {
        if !self.caller_is_manager(caller) {
            return Action::Finish(Err(Error::Unauthorized));
        }
        Action::Invoke {
            invocation: self.invocation(StrategyCall::Activate),
            pending: Pending::Activate,
        }
    }

    /// Begins a quote of the shares that a deposit of `amount` would be
    /// issued.
    pub fn calculate_shares(&self, amount: Balance) -> (action: Action)
        ensures
            action == self@.calculate_shares(amount),
    {
        if self.pool.users_total_shares == 0 {
            Action::Finish(Ok(Receipt::Shares(amount)))
        } else {
            Action::Invoke {
                invocation: self.invocation(StrategyCall::GetBalance),
                pending: Pending::Shares { amount },
            }
        }
    }

    /// Begins a quote of what `shares` shares are worth.
    pub fn calculate_tokens(&self, shares: Balance) -> (action: Action)
        ensures
            action == self@.calculate_tokens(shares),
    {
        Action::Invoke {
            invocation: self.invocation(StrategyCall::GetBalance),
            pending: Pending::Tokens { shares },
        }
    }

    /// Begins a deposit of `amount` by `caller`.
    pub fn deposit(&mut self, caller: AccountId, amount: Balance) -> (action: Action)
        ensures
            final(self)@ == old(self)@.deposit(caller, amount).0,
            action == old(self)@.deposit(caller, amount).1,
            final(self)@.wf(),
    {
        if self.pool.users_total_shares == 0 {
            self.credit(caller, amount);
            Action::Finish(Ok(Receipt::Deposited { shares: amount }))
        } else {
            proof {
                use_type_invariant(&*self);
            }
            Action::Invoke {
                invocation: self.invocation(StrategyCall::GetBalance),
                pending: Pending::Deposit { caller, amount },
            }
        }
    }

    /// Begins a withdrawal of `amount` shares by `caller`.
    pub fn withdraw(&self, caller: AccountId, amount: Balance) -> (action: Action)
        ensures
            action == self@.withdraw(caller, amount),
    {
        if self.get_shares(caller) < amount {
            return Action::Finish(Err(Error::NotEnoughShares));
        }
        Action::Invoke {
            invocation: self.invocation(StrategyCall::GetBalance),
            pending: Pending::Withdraw { caller, shares: amount },
        }
    }

    /// Takes up `pending` with the `reply` to its invocation. `liquid` is
    /// the fund's own balance at that time.
    pub fn resume(&mut self, pending: Pending, reply: Reply, liquid: Balance) -> (action: Action)
        ensures
            final(self)@ == old(self)@.resume(pending, reply, liquid).0,
            action == old(self)@.resume(pending, reply, liquid).1,
            final(self)@.wf(),
    {
        proof {
            use_type_invariant(&*self);
        }
        match (pending, reply) {
            (Pending::Deposit { caller, amount }, Reply::Balance(valuation)) => {
                let shares = shares_for(amount, self.pool.users_total_shares, valuation);
                self.issue(caller, shares)
            },
            (Pending::Withdraw { caller, shares }, Reply::Balance(valuation)) => {
                self.price_withdrawal(caller, shares, valuation, liquid)
            },
            (Pending::Payout { caller, shares, tokens }, Reply::Done) => {
                self.pay_out(caller, shares, tokens)
            },
            (Pending::Activate, Reply::Done) => Action::Finish(Ok(Receipt::Activated)),
            (Pending::Shares { amount }, Reply::Balance(valuation)) => {
                match shares_for(amount, self.pool.users_total_shares, valuation) {
                    Ok(shares) => Action::Finish(Ok(Receipt::Shares(shares))),
                    Err(e) => Action::Finish(Err(e)),
                }
            },
            (Pending::Tokens { shares }, Reply::Balance(valuation)) => {
                match tokens_for(shares, valuation, self.pool.users_total_shares) {
                    Ok(tokens) => Action::Finish(Ok(Receipt::Tokens(tokens))),
                    Err(e) => Action::Finish(Err(e)),
                }
            },
            _ => Action::Finish(Err(Error::InvokeError)),
        }
    }

    fn invocation(&self, call: StrategyCall) -> (invocation: Invocation)
        ensures
            invocation == self@.invocation(call),
    {
        Invocation { strategy: self.strategy, call }
    }

    fn credit(&mut self, account: AccountId, shares: Balance)
        requires
            old(self)@.total_shares + shares <= u128::MAX,
        ensures
            final(self)@ == old(self)@.credit(account, shares as nat),
            final(self)@.wf(),
    {
        proof {
            use_type_invariant(&*self);
        }
        let mut pool = Pool::empty();
        std::mem::swap(&mut pool, &mut self.pool);
        let held = match pool.users.get(&account) {
            Some(held) => held,
            None => 0,
        };
        proof {
            lemma_balance_within_sum(pool.users@, account);
            lemma_sum_insert(pool.users@, account, (held + shares) as nat);
        }
        pool.users.insert(account, held + shares);
        pool.users_total_shares = pool.users_total_shares + shares;
        self.pool = pool;
        assert(self@ =~= old(self)@.credit(account, shares as nat));
    }

    fn debit(&mut self, account: AccountId, shares: Balance)
        requires
            shares <= old(self)@.balance_of(account),
        ensures
            final(self)@ == old(self)@.debit(account, shares as nat),
            final(self)@.wf(),
    {
        proof {
            use_type_invariant(&*self);
        }
        let mut pool = Pool::empty();
        std::mem::swap(&mut pool, &mut self.pool);
        let held = match pool.users.get(&account) {
            Some(held) => held,
            None => 0,
        };
        proof {
            lemma_balance_within_sum(pool.users@, account);
            lemma_sum_insert(pool.users@, account, (held - shares) as nat);
        }
        pool.users.insert(account, held - shares);
        pool.users_total_shares = pool.users_total_shares - shares;
        self.pool = pool;
        assert(self@ =~= old(self)@.debit(account, shares as nat));
    }

    fn issue(&mut self, caller: AccountId, shares: Result<Balance, Error>) -> (action: Action)
        ensures
            final(self)@ == old(self)@.issue(caller, shares).0,
            action == old(self)@.issue(caller, shares).1,
            final(self)@.wf(),
    {
        proof {
            use_type_invariant(&*self);
        }
        match shares {
            Ok(n) => match self.pool.users_total_shares.checked_add(n) {
                Some(_) => {
                    self.credit(caller, n);
                    Action::Finish(Ok(Receipt::Deposited { shares: n }))
                },
                None => Action::Finish(Err(Error::ArithmeticError)),
            },
            Err(e) => Action::Finish(Err(e)),
        }
    }

    fn pay_out(&mut self, caller: AccountId, shares: Balance, tokens: Balance) -> (action: Action)
        ensures
            final(self)@ == old(self)@.pay_out(caller, shares, tokens).0,
            action == old(self)@.pay_out(caller, shares, tokens).1,
            final(self)@.wf(),
    {
        if self.get_shares(caller) < shares {
            return Action::Finish(Err(Error::NotEnoughShares));
        }
        match fee_on(tokens, self.fee) {
            Ok(fee) => {
                proof {
                    lemma_fee_within_tokens(tokens as nat, self.fee as nat);
                }
                self.debit(caller, shares);
                Action::Finish(
                    Ok(
                        Receipt::Withdrawn {
                            payout: Transfer { to: caller, value: tokens - fee },
                            fee: Transfer { to: self.manager, value: fee },
                        },
                    ),
                )
            },
            Err(e) => Action::Finish(Err(e)),
        }
    }

    fn price_withdrawal(
        &mut self,
        caller: AccountId,
        shares: Balance,
        valuation: Balance,
        liquid: Balance,
    ) -> (action: Action)
        ensures
            final(self)@ == old(self)@.price_withdrawal(caller, shares, valuation, liquid).0,
            action == old(self)@.price_withdrawal(caller, shares, valuation, liquid).1,
            final(self)@.wf(),
    {
        if self.get_shares(caller) < shares {
            return Action::Finish(Err(Error::NotEnoughShares));
        }
        match tokens_for(shares, valuation, self.pool.users_total_shares) {
            Ok(tokens) => {
                if fee_on(tokens, self.fee).is_ok() && liquid < tokens {
                    Action::Invoke {
                        invocation: self.invocation(StrategyCall::RetrieveTokens(tokens)),
                        pending: Pending::Payout { caller, shares, tokens },
                    }
                } else {
                    self.pay_out(caller, shares, tokens)
                }
            },
            Err(e) => Action::Finish(Err(e)),
        }
    }
}

} // verus!
