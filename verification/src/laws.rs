//! What holds of every fund.
//!
//! The laws below are proved of the state machine of [`crate::model`], which
//! the executable fund is proved to follow step by step.

use crate::account::{AccountId, StrategyRef};
use crate::conversion::{
    issued_shares, lemma_fee_within_tokens, redeemed_tokens, FULL_RATE,
};
use crate::error::Error;
use crate::ledger::{lemma_balance_within_sum, lemma_sum_insert, sum_of_shares, Balance};
use crate::model::{Event, FundState};
use crate::protocol::{Action, Pending, Receipt};
use crate::strategy::{Reply, StrategyCall};
use vstd::arithmetic::div_mod::{lemma_div_is_ordered, lemma_div_multiples_vanish};
use vstd::prelude::*;

verus! {

/// Issuing shares keeps the invariant, adds them to the account's balance
/// and leaves every other balance as it was.
pub proof fn lemma_credit(s: FundState, account: AccountId, shares: nat)
    requires
        s.wf(),
        s.total_shares + shares <= u128::MAX,
    ensures
        s.credit(account, shares).wf(),
        s.credit(account, shares).balance_of(account) == s.balance_of(account) + shares,
        forall|other: AccountId|
            other != account ==> s.credit(account, shares).balance_of(other) == s.balance_of(
                other,
            ),
{
    lemma_sum_insert(s.shares, account, s.balance_of(account) + shares);
}

/// Burning shares that the account holds keeps the invariant, takes them
/// off the account's balance and leaves every other balance as it was.
pub proof fn lemma_debit(s: FundState, account: AccountId, shares: nat)
    requires
        s.wf(),
        shares <= s.balance_of(account),
    ensures
        s.debit(account, shares).wf(),
        s.debit(account, shares).balance_of(account) == s.balance_of(account) - shares,
        s.debit(account, shares).total_shares == s.total_shares - shares,
        forall|other: AccountId|
            other != account ==> s.debit(account, shares).balance_of(other) == s.balance_of(
                other,
            ),
{
    lemma_balance_within_sum(s.shares, account);
    lemma_sum_insert(s.shares, account, (s.balance_of(account) - shares) as nat);
}

/// No event breaks the invariant of a fund: after it the balances still sum
/// to the total of shares.
pub proof fn law_event_keeps_invariant(s: FundState, event: Event)
    requires
        s.wf(),
    ensures
        s.after(event).wf(),
{
    match event {
        Event::Deposit { caller, amount } => {
            if s.total_shares == 0 {
                lemma_credit(s, caller, amount as nat);
            }
        },
        Event::Resume { pending, reply, liquid } => {
            match (pending, reply) {
                (Pending::Deposit { caller, amount }, Reply::Balance(valuation)) => {
                    let shares = issued_shares(amount as nat, s.total_shares, valuation as nat);
                    match shares {
                        Ok(n) if s.total_shares + n <= u128::MAX => {
                            lemma_credit(s, caller, n as nat);
                        },
                        _ => {},
                    }
                },
                (Pending::Withdraw { caller, shares }, _) => {
                    if s.balance_of(caller) >= shares {
                        lemma_debit(s, caller, shares as nat);
                    }
                },
                (Pending::Payout { caller, shares, tokens }, _) => {
                    if s.balance_of(caller) >= shares {
                        lemma_debit(s, caller, shares as nat);
                    }
                },
                _ => {},
            }
        },
        Event::UpdateStrategy { caller, strategy } => {},
    }
}

/// In every state that a fund can reach from its construction, the balances
/// sum to the total of shares.
pub proof fn law_reachable_states_balanced(
    strategy: StrategyRef,
    fee: nat,
    manager: AccountId,
    events: Seq<Event>,
)
    requires
        fee <= FULL_RATE,
    ensures
        FundState::initial(strategy, fee, manager).after_all(events).wf(),
        sum_of_shares(FundState::initial(strategy, fee, manager).after_all(events).shares)
            == FundState::initial(strategy, fee, manager).after_all(events).total_shares,
    decreases events.len(),
{
    if events.len() > 0 {
        law_reachable_states_balanced(strategy, fee, manager, events.drop_last());
        law_event_keeps_invariant(
            FundState::initial(strategy, fee, manager).after_all(events.drop_last()),
            events.last(),
        );
    }
}

/// The account whose shares `event` may burn, if it is a step of a
/// withdrawal.
pub open spec fn withdrawer(event: Event) -> Option<AccountId> {
    match event {
        Event::Resume { pending: Pending::Withdraw { caller, .. }, .. } => Some(caller),
        Event::Resume { pending: Pending::Payout { caller, .. }, .. } => Some(caller),
        _ => None,
    }
}

/// The total of shares falls only in a withdrawal, and then by no more than
/// the withdrawing account held.
pub proof fn law_total_falls_by_own_balance_at_most(s: FundState, event: Event)
    requires
        s.wf(),
    ensures
        (match withdrawer(event) {
            Some(caller) => s.total_shares - s.after(event).total_shares <= s.balance_of(caller),
            None => s.total_shares <= s.after(event).total_shares,
        }),
{
}

/// A deposit into a pool without shares is over at once and issues exactly
/// as many shares as was deposited, which are then all that the depositor
/// holds.
pub proof fn law_first_deposit_one_to_one(s: FundState, caller: AccountId, amount: Balance)
    requires
        s.wf(),
        s.total_shares == 0,
    ensures
        s.deposit(caller, amount).1 == Action::Finish(Ok(Receipt::Deposited { shares: amount })),
        s.deposit(caller, amount).0.balance_of(caller) == amount,
        s.deposit(caller, amount).0.total_shares == amount,
{
    lemma_balance_within_sum(s.shares, caller);
}

/// A deposit of nothing succeeds, issues no shares and leaves every balance
/// and the total as they were. Where the pool has shares this holds
/// provided that the strategy answers with a valuation other than zero.
pub proof fn law_deposit_of_nothing(s: FundState, caller: AccountId, reply: Reply, liquid: Balance)
    requires
        s.wf(),
        s.total_shares != 0 ==> (reply matches Reply::Balance(valuation) && valuation != 0),
    ensures
        ({
            let start = s.deposit(caller, 0);
            let end = start.0.drive(start.1, seq![(reply, liquid)]);
            &&& end.1 == Action::Finish(Ok(Receipt::Deposited { shares: 0 }))
            &&& end.0.total_shares == s.total_shares
            &&& forall|account: AccountId| end.0.balance_of(account) == s.balance_of(account)
        }),
{
    let replies = seq![(reply, liquid)];
    lemma_credit(s, caller, 0);
    if s.total_shares != 0 {
        let valuation = reply->Balance_0;
        assert(0 * s.total_shares == 0) by (nonlinear_arith);
        assert(0int / (valuation as int) == 0) by (nonlinear_arith)
            requires
                valuation > 0,
        ;
        let settled = s.resume(Pending::Deposit { caller, amount: 0 }, replies[0].0, replies[0].1);
        assert(settled.0.drive(settled.1, replies.drop_first()) == settled);
    }
}

/// A withdrawal of more shares than the caller holds is refused with
/// `NotEnoughShares` before anything is invoked, whatever the host would
/// reply, and a step of such a withdrawal that is resumed all the same
/// changes nothing.
pub proof fn law_overdraw_refused(
    s: FundState,
    caller: AccountId,
    shares: Balance,
    replies: Seq<(Reply, Balance)>,
    event: Event,
)
    requires
        s.wf(),
        shares > s.balance_of(caller),
    ensures
        s.withdraw(caller, shares) == Action::Finish(Err(Error::NotEnoughShares)),
        s.drive(s.withdraw(caller, shares), replies) == (
            s,
            Action::Finish(Err(Error::NotEnoughShares)),
        ),
        (event matches Event::Resume { pending: Pending::Withdraw { caller: c, shares: n }, .. }
            && c == caller && n == shares) ==> s.after(event) == s,
        (event matches Event::Resume { pending: Pending::Payout { caller: c, shares: n, .. }, .. }
            && c == caller && n == shares) ==> s.after(event) == s,
{
}

/// An invocation that failed ends the operation with `InvokeError` and
/// changes nothing.
pub proof fn law_failed_invocation_changes_nothing(s: FundState, pending: Pending, liquid: Balance)
    ensures
        s.resume(pending, Reply::Failed, liquid) == (s, Action::Finish(Err(Error::InvokeError))),
{
}

/// Operations are atomic: a step that does not end in success leaves the
/// state as it was.
pub proof fn law_only_success_changes_state(s: FundState, event: Event)
    ensures
        (match event {
            Event::Deposit { caller, amount } => !(s.deposit(caller, amount).1 matches Action::Finish(
                Ok(_),
            )) ==> s.after(event) == s,
            Event::Resume { pending, reply, liquid } => !(s.resume(pending, reply, liquid).1
                matches Action::Finish(Ok(_))) ==> s.after(event) == s,
            Event::UpdateStrategy { caller, strategy } => s.update_strategy(caller, strategy).1
                is Err ==> s.after(event) == s,
        }),
{
}

/// Driven from its beginning with the strategy's answer, a deposit ends as
/// [`FundState::deposited`] says.
pub proof fn law_deposit_as_a_whole(
    s: FundState,
    caller: AccountId,
    amount: Balance,
    valuation: Reply,
    liquid: Balance,
)
    ensures
        ({
            let start = s.deposit(caller, amount);
            let end = start.0.drive(start.1, seq![(valuation, liquid)]);
            let whole = s.deposited(caller, amount, valuation);
            end == (whole.0, Action::Finish(whole.1))
        }),
{
    let start = s.deposit(caller, amount);
    let replies = seq![(valuation, liquid)];
    if s.total_shares != 0 {
        let next = s.resume(Pending::Deposit { caller, amount }, replies[0].0, replies[0].1);
        assert(next.0.drive(next.1, replies.drop_first()) == next);
    }
}

/// Driven from its beginning with the strategy's answers, a withdrawal ends
/// as [`FundState::withdrawn`] says: after the valuation it asks for at
/// most one more invocation, which is the retrieval of the tokens it is
/// worth, and only where these exceed what the fund has at hand.
pub proof fn law_withdrawal_as_a_whole(
    s: FundState,
    caller: AccountId,
    shares: Balance,
    valuation: Reply,
    liquid: Balance,
    retrieval: Reply,
    liquid_then: Balance,
)
    ensures
        ({
            let end = s.drive(
                s.withdraw(caller, shares),
                seq![(valuation, liquid), (retrieval, liquid_then)],
            );
            let whole = s.withdrawn(caller, shares, valuation, liquid, retrieval);
            end == (whole.0, Action::Finish(whole.1))
        }),
        ({
            let priced = s.resume(Pending::Withdraw { caller, shares }, valuation, liquid);
            priced.1 matches Action::Invoke { invocation, pending } ==> {
                &&& priced.0 == s
                &&& valuation matches Reply::Balance(v)
                &&& redeemed_tokens(shares as nat, v as nat, s.total_shares) matches Ok(tokens)
                &&& liquid < tokens
                &&& invocation == s.invocation(StrategyCall::RetrieveTokens(tokens))
                &&& pending == (Pending::Payout { caller, shares, tokens })
            }
        }),
{
    let replies = seq![(valuation, liquid), (retrieval, liquid_then)];
    let start = s.withdraw(caller, shares);
    if s.balance_of(caller) >= shares {
        let priced = s.resume(Pending::Withdraw { caller, shares }, replies[0].0, replies[0].1);
        let rest = replies.drop_first();
        assert(rest[0] == (retrieval, liquid_then));
        assert(s.drive(start, replies) == priced.0.drive(priced.1, rest));
        match priced.1 {
            Action::Invoke { invocation, pending } => {
                let paid = priced.0.resume(pending, rest[0].0, rest[0].1);
                assert(priced.0.drive(priced.1, rest) == paid.0.drive(paid.1, rest.drop_first()));
                assert(paid.1 is Finish);
            },
            Action::Finish(_) => {},
        }
    }
}

/// A withdrawal that succeeds stays within what the fund is worth: the
/// caller and the manager together receive exactly the tokens that the
/// shares are worth, and these are no more than the valuation.
pub proof fn law_withdrawal_within_valuation(
    s: FundState,
    caller: AccountId,
    shares: Balance,
    valuation: Balance,
    liquid: Balance,
    retrieval: Reply,
)
    requires
        s.wf(),
    ensures
        (s.withdrawn(caller, shares, Reply::Balance(valuation), liquid, retrieval).1 matches Ok(
            Receipt::Withdrawn { payout, fee },
        ) ==> {
            &&& payout.to == caller
            &&& fee.to == s.manager
            &&& Ok::<Balance, Error>((payout.value + fee.value) as Balance) == redeemed_tokens(
                shares as nat,
                valuation as nat,
                s.total_shares,
            )
            &&& payout.value + fee.value <= valuation
        }),
{
    if s.withdrawn(caller, shares, Reply::Balance(valuation), liquid, retrieval).1 is Ok {
        let tokens = redeemed_tokens(shares as nat, valuation as nat, s.total_shares)->Ok_0;
        lemma_fee_within_tokens(tokens as nat, s.fee);
        lemma_balance_within_sum(s.shares, caller);
        let total = s.total_shares as int;
        assert(shares * valuation <= total * valuation) by (nonlinear_arith)
            requires
                shares <= total,
                valuation >= 0,
        ;
        lemma_div_is_ordered(shares * valuation, total * valuation, total);
        lemma_div_multiples_vanish(valuation as int, total);
        assert(total * valuation == valuation * total) by (nonlinear_arith);
    }
}

/// The manager and the fee rate of a fund never change, and the strategy
/// bound changes only where the manager rotates it.
pub proof fn law_only_the_manager_rebinds(s: FundState, event: Event)
    ensures
        s.after(event).manager == s.manager,
        s.after(event).fee == s.fee,
        s.after(event).strategy != s.strategy ==> (event matches Event::UpdateStrategy {
            caller,
            strategy,
        } && caller == s.manager && s.after(event).strategy == strategy),
{
}

} // verus!
