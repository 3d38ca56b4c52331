use investment_fund::account::{AccountId, StrategyRef};
use investment_fund::error::Error;
use investment_fund::fund::InvestmentFund;
use investment_fund::protocol::{Action, Pending, Receipt, Transfer};
use investment_fund::strategy::{Invocation, Reply, Rotation, StrategyCall};

fn account(tag: u8) -> AccountId {
    AccountId([tag; 32])
}

fn strategy(tag: u8) -> StrategyRef {
    StrategyRef([tag; 32])
}

fn valuation_call(hash: StrategyRef) -> Invocation {
    Invocation { strategy: hash, call: StrategyCall::GetBalance }
}

/// A fund with fee 3 in which `account(1)` holds 100 shares.
fn funded() -> InvestmentFund {
    let mut fund = InvestmentFund::new(strategy(7), 3, account(9));
    assert_eq!(
        fund.deposit(account(1), 100),
        Action::Finish(Ok(Receipt::Deposited { shares: 100 }))
    );
    fund
}

#[test]
fn new_fund_is_empty_and_managed_by_its_creator() {
    let fund = InvestmentFund::new(strategy(7), 3, account(9));
    assert_eq!(fund.total_shares(), 0);
    assert_eq!(fund.fee(), 3);
    assert_eq!(fund.manager(), account(9));
    assert_eq!(fund.strategy(), strategy(7));
    assert_eq!(fund.get_shares(account(9)), 0);
    assert!(fund.caller_is_manager(account(9)));
    assert!(!fund.caller_is_manager(account(1)));
}

#[test]
fn identities_compare_by_all_their_bytes() {
    let mut bytes = [5u8; 32];
    assert_eq!(AccountId(bytes), account(5));
    bytes[31] = 6;
    assert_ne!(AccountId(bytes), account(5));
    assert_ne!(strategy(1), strategy(2));
    assert_eq!(strategy(3), StrategyRef([3; 32]));
}

#[test]
fn first_deposit_is_one_to_one_and_asks_nothing() {
    let mut fund = InvestmentFund::new(strategy(7), 3, account(9));
    let action = fund.deposit(account(1), 12345);
    assert_eq!(action, Action::Finish(Ok(Receipt::Deposited { shares: 12345 })));
    assert_eq!(fund.get_shares(account(1)), 12345);
    assert_eq!(fund.total_shares(), 12345);
}

#[test]
fn two_depositors_at_a_higher_valuation() {
    let mut fund = InvestmentFund::new(strategy(7), 3, account(9));
    assert_eq!(
        fund.deposit(account(1), 100),
        Action::Finish(Ok(Receipt::Deposited { shares: 100 }))
    );
    assert_eq!(fund.get_shares(account(1)), 100);
    assert_eq!(fund.total_shares(), 100);

    let pending = Pending::Deposit { caller: account(2), amount: 100 };
    assert_eq!(
        fund.deposit(account(2), 100),
        Action::Invoke { invocation: valuation_call(strategy(7)), pending }
    );
    assert_eq!(fund.total_shares(), 100);
    assert_eq!(
        fund.resume(pending, Reply::Balance(1100), 0),
        Action::Finish(Ok(Receipt::Deposited { shares: 9 }))
    );
    assert_eq!(fund.get_shares(account(2)), 9);
    assert_eq!(fund.get_shares(account(1)), 100);
    assert_eq!(fund.total_shares(), 109);
}

#[test]
fn deposit_adds_to_what_the_depositor_holds() {
    let mut fund = funded();
    let pending = Pending::Deposit { caller: account(1), amount: 50 };
    assert_eq!(
        fund.resume(pending, Reply::Balance(100), 0),
        Action::Finish(Ok(Receipt::Deposited { shares: 50 }))
    );
    assert_eq!(fund.get_shares(account(1)), 150);
    assert_eq!(fund.total_shares(), 150);
}

#[test]
fn deposit_of_nothing_changes_nothing() {
    let mut fund = InvestmentFund::new(strategy(7), 3, account(9));
    assert_eq!(
        fund.deposit(account(1), 0),
        Action::Finish(Ok(Receipt::Deposited { shares: 0 }))
    );
    assert_eq!(fund.total_shares(), 0);
    assert_eq!(fund.get_shares(account(1)), 0);

    let mut fund = funded();
    let pending = Pending::Deposit { caller: account(2), amount: 0 };
    assert_eq!(
        fund.deposit(account(2), 0),
        Action::Invoke { invocation: valuation_call(strategy(7)), pending }
    );
    assert_eq!(
        fund.resume(pending, Reply::Balance(1000), 0),
        Action::Finish(Ok(Receipt::Deposited { shares: 0 }))
    );
    assert_eq!(fund.total_shares(), 100);
    assert_eq!(fund.get_shares(account(1)), 100);
    assert_eq!(fund.get_shares(account(2)), 0);
}

#[test]
fn deposit_fails_on_a_valuation_of_zero() {
    let mut fund = funded();
    let pending = Pending::Deposit { caller: account(2), amount: 10 };
    assert_eq!(
        fund.resume(pending, Reply::Balance(0), 0),
        Action::Finish(Err(Error::ArithmeticError))
    );
    assert_eq!(fund.total_shares(), 100);
    assert_eq!(fund.get_shares(account(2)), 0);
}

#[test]
fn deposit_fails_where_the_total_would_overflow() {
    let mut fund = InvestmentFund::new(strategy(7), 3, account(9));
    assert_eq!(
        fund.deposit(account(1), u128::MAX),
        Action::Finish(Ok(Receipt::Deposited { shares: u128::MAX }))
    );
    let pending = Pending::Deposit { caller: account(2), amount: 1 };
    assert_eq!(
        fund.resume(pending, Reply::Balance(u128::MAX), 0),
        Action::Finish(Err(Error::ArithmeticError))
    );
    assert_eq!(fund.total_shares(), u128::MAX);
    assert_eq!(fund.get_shares(account(1)), u128::MAX);
    assert_eq!(fund.get_shares(account(2)), 0);
}

#[test]
fn deposit_fails_where_the_valuation_cannot_be_had() {
    let mut fund = funded();
    let pending = Pending::Deposit { caller: account(2), amount: 100 };
    assert_eq!(
        fund.deposit(account(2), 100),
        Action::Invoke { invocation: valuation_call(strategy(7)), pending }
    );
    assert_eq!(
        fund.resume(pending, Reply::Failed, 0),
        Action::Finish(Err(Error::InvokeError))
    );
    assert_eq!(fund.total_shares(), 100);
    assert_eq!(fund.get_shares(account(1)), 100);
    assert_eq!(fund.get_shares(account(2)), 0);
}

#[test]
fn reply_of_the_wrong_kind_counts_as_failure() {
    let mut fund = funded();
    assert_eq!(
        fund.resume(Pending::Deposit { caller: account(2), amount: 100 }, Reply::Done, 0),
        Action::Finish(Err(Error::InvokeError))
    );
    assert_eq!(
        fund.resume(Pending::Activate, Reply::Balance(1), 0),
        Action::Finish(Err(Error::InvokeError))
    );
    assert_eq!(
        fund.resume(
            Pending::Payout { caller: account(1), shares: 1, tokens: 1 },
            Reply::Balance(1),
            0
        ),
        Action::Finish(Err(Error::InvokeError))
    );
    assert_eq!(fund.total_shares(), 100);
    assert_eq!(fund.get_shares(account(1)), 100);
}

#[test]
fn get_shares_reads_without_changing() {
    let fund = funded();
    assert_eq!(fund.get_shares(account(1)), 100);
    assert_eq!(fund.get_shares(account(1)), 100);
    assert_eq!(fund.get_shares(account(2)), 0);
    assert_eq!(fund.get_shares(account(2)), 0);
    assert_eq!(fund.total_shares(), 100);
}

#[test]
fn withdraw_of_more_than_held_is_refused() {
    let fund = funded();
    assert_eq!(
        fund.withdraw(account(1), 101),
        Action::Finish(Err(Error::NotEnoughShares))
    );
    assert_eq!(
        fund.withdraw(account(2), 1),
        Action::Finish(Err(Error::NotEnoughShares))
    );
    assert_eq!(fund.get_shares(account(1)), 100);
    assert_eq!(fund.total_shares(), 100);
}

#[test]
fn resumed_withdrawal_checks_the_balance_again() {
    let mut fund = funded();
    assert_eq!(
        fund.resume(Pending::Withdraw { caller: account(1), shares: 101 }, Reply::Balance(1000), 5000),
        Action::Finish(Err(Error::NotEnoughShares))
    );
    assert_eq!(
        fund.resume(
            Pending::Payout { caller: account(2), shares: 1, tokens: 10 },
            Reply::Done,
            5000
        ),
        Action::Finish(Err(Error::NotEnoughShares))
    );
    assert_eq!(fund.get_shares(account(1)), 100);
    assert_eq!(fund.total_shares(), 100);
}

#[test]
fn withdraw_pays_the_caller_and_the_manager() {
    let mut fund = funded();
    let pending = Pending::Withdraw { caller: account(1), shares: 50 };
    assert_eq!(
        fund.withdraw(account(1), 50),
        Action::Invoke { invocation: valuation_call(strategy(7)), pending }
    );
    assert_eq!(fund.get_shares(account(1)), 100);
    // 50 * 1000 / 100 = 500 tokens, of which 3 percent are 15
    assert_eq!(
        fund.resume(pending, Reply::Balance(1000), 500),
        Action::Finish(Ok(Receipt::Withdrawn {
            payout: Transfer { to: account(1), value: 485 },
            fee: Transfer { to: account(9), value: 15 },
        }))
    );
    assert_eq!(fund.get_shares(account(1)), 50);
    assert_eq!(fund.total_shares(), 50);
}

#[test]
fn withdraw_uses_the_total_before_the_burn() {
    let mut fund = funded();
    // all shares: 100 * 777 / 100 = 777 tokens, fee 23
    assert_eq!(
        fund.resume(Pending::Withdraw { caller: account(1), shares: 100 }, Reply::Balance(777), 1000),
        Action::Finish(Ok(Receipt::Withdrawn {
            payout: Transfer { to: account(1), value: 754 },
            fee: Transfer { to: account(9), value: 23 },
        }))
    );
    assert_eq!(fund.get_shares(account(1)), 0);
    assert_eq!(fund.total_shares(), 0);
}

#[test]
fn withdraw_of_nothing_from_an_empty_pool_cannot_be_priced() {
    let mut fund = InvestmentFund::new(strategy(7), 3, account(9));
    let pending = Pending::Withdraw { caller: account(1), shares: 0 };
    assert_eq!(
        fund.withdraw(account(1), 0),
        Action::Invoke { invocation: valuation_call(strategy(7)), pending }
    );
    assert_eq!(
        fund.resume(pending, Reply::Balance(1000), 0),
        Action::Finish(Err(Error::ArithmeticError))
    );
}

#[test]
fn withdraw_fails_where_the_tokens_overflow() {
    let mut fund = funded();
    assert_eq!(
        fund.resume(
            Pending::Withdraw { caller: account(1), shares: 100 },
            Reply::Balance(u128::MAX),
            0
        ),
        Action::Finish(Err(Error::ArithmeticError))
    );
    assert_eq!(
        fund.resume(
            Pending::Withdraw { caller: account(1), shares: 100 },
            Reply::Balance(u128::MAX / 2),
            0
        ),
        Action::Finish(Err(Error::ArithmeticError))
    );
    assert_eq!(fund.get_shares(account(1)), 100);
    assert_eq!(fund.total_shares(), 100);
}

#[test]
fn withdraw_fails_where_the_valuation_cannot_be_had() {
    let mut fund = funded();
    assert_eq!(
        fund.resume(Pending::Withdraw { caller: account(1), shares: 50 }, Reply::Failed, 500),
        Action::Finish(Err(Error::InvokeError))
    );
    assert_eq!(fund.get_shares(account(1)), 100);
    assert_eq!(fund.total_shares(), 100);
}

#[test]
fn withdraw_retrieves_tokens_once_when_short_of_liquidity() {
    let mut fund = funded();
    let priced = fund.resume(
        Pending::Withdraw { caller: account(1), shares: 50 },
        Reply::Balance(1000),
        499,
    );
    let payout = Pending::Payout { caller: account(1), shares: 50, tokens: 500 };
    assert_eq!(
        priced,
        Action::Invoke {
            invocation: Invocation {
                strategy: strategy(7),
                call: StrategyCall::RetrieveTokens(500),
            },
            pending: payout,
        }
    );
    // nothing is burned or paid before the strategy has answered
    assert_eq!(fund.get_shares(account(1)), 100);
    assert_eq!(fund.total_shares(), 100);

    // a retrieval that succeeded is followed by the payment, not by another invocation
    assert_eq!(
        fund.resume(payout, Reply::Done, 500),
        Action::Finish(Ok(Receipt::Withdrawn {
            payout: Transfer { to: account(1), value: 485 },
            fee: Transfer { to: account(9), value: 15 },
        }))
    );
    assert_eq!(fund.get_shares(account(1)), 50);
    assert_eq!(fund.total_shares(), 50);
}

#[test]
fn withdraw_fails_without_payment_where_retrieval_fails() {
    let mut fund = funded();
    let priced = fund.resume(
        Pending::Withdraw { caller: account(1), shares: 50 },
        Reply::Balance(1000),
        0,
    );
    let payout = Pending::Payout { caller: account(1), shares: 50, tokens: 500 };
    assert_eq!(
        priced,
        Action::Invoke {
            invocation: Invocation {
                strategy: strategy(7),
                call: StrategyCall::RetrieveTokens(500),
            },
            pending: payout,
        }
    );
    assert_eq!(
        fund.resume(payout, Reply::Failed, 0),
        Action::Finish(Err(Error::InvokeError))
    );
    assert_eq!(fund.get_shares(account(1)), 100);
    assert_eq!(fund.total_shares(), 100);
}

#[test]
fn withdraw_with_exactly_enough_liquidity_retrieves_nothing() {
    let mut fund = funded();
    let done = fund.resume(
        Pending::Withdraw { caller: account(1), shares: 50 },
        Reply::Balance(1000),
        500,
    );
    assert!(matches!(done, Action::Finish(Ok(Receipt::Withdrawn { .. }))));
}

#[test]
fn total_falls_by_no_more_than_the_caller_held() {
    let mut fund = funded();
    assert_eq!(
        fund.resume(Pending::Deposit { caller: account(2), amount: 40 }, Reply::Balance(100), 0),
        Action::Finish(Ok(Receipt::Deposited { shares: 40 }))
    );
    let held = fund.get_shares(account(2));
    let before = fund.total_shares();
    let done = fund.resume(
        Pending::Withdraw { caller: account(2), shares: 40 },
        Reply::Balance(140),
        1000,
    );
    assert!(matches!(done, Action::Finish(Ok(Receipt::Withdrawn { .. }))));
    assert_eq!(held, 40);
    assert_eq!(before - fund.total_shares(), 40);
    assert!(before - fund.total_shares() <= held);
    assert_eq!(fund.get_shares(account(1)), 100);
}

#[test]
fn fee_of_a_hundred_percent_goes_wholly_to_the_manager() {
    let mut fund = InvestmentFund::new(strategy(7), 100, account(9));
    fund.deposit(account(1), 10);
    assert_eq!(
        fund.resume(Pending::Withdraw { caller: account(1), shares: 10 }, Reply::Balance(10), 10),
        Action::Finish(Ok(Receipt::Withdrawn {
            payout: Transfer { to: account(1), value: 0 },
            fee: Transfer { to: account(9), value: 10 },
        }))
    );
}

#[test]
fn fee_that_overflows_fails_the_withdrawal() {
    let mut fund = InvestmentFund::new(strategy(7), 3, account(9));
    fund.deposit(account(1), 1);
    // 1 share worth the largest value: its fee cannot be computed
    assert_eq!(
        fund.resume(
            Pending::Withdraw { caller: account(1), shares: 1 },
            Reply::Balance(u128::MAX),
            0
        ),
        Action::Finish(Err(Error::ArithmeticError))
    );
    assert_eq!(fund.get_shares(account(1)), 1);
    assert_eq!(fund.total_shares(), 1);
}

#[test]
fn update_strategy_by_the_manager_rotates_the_locks() {
    let mut fund = funded();
    assert_eq!(
        fund.update_strategy(account(9), strategy(8)),
        Ok(Rotation { release: strategy(7), acquire: strategy(8) })
    );
    assert_eq!(fund.strategy(), strategy(8));
    assert_eq!(
        fund.withdraw(account(1), 1),
        Action::Invoke {
            invocation: valuation_call(strategy(8)),
            pending: Pending::Withdraw { caller: account(1), shares: 1 },
        }
    );
    assert_eq!(fund.get_shares(account(1)), 100);
    assert_eq!(fund.total_shares(), 100);
}

#[test]
fn update_strategy_by_another_is_refused() {
    let mut fund = funded();
    assert_eq!(fund.update_strategy(account(1), strategy(8)), Err(Error::Unauthorized));
    assert_eq!(fund.strategy(), strategy(7));
    assert_eq!(fund.manager(), account(9));
    assert_eq!(fund.total_shares(), 100);
}

#[test]
fn invest_in_strategy_is_for_the_manager() {
    let mut fund = funded();
    assert_eq!(
        fund.invest_in_strategy(account(1)),
        Action::Finish(Err(Error::Unauthorized))
    );
    assert_eq!(
        fund.invest_in_strategy(account(9)),
        Action::Invoke {
            invocation: Invocation { strategy: strategy(7), call: StrategyCall::Activate },
            pending: Pending::Activate,
        }
    );
    assert_eq!(
        fund.resume(Pending::Activate, Reply::Done, 0),
        Action::Finish(Ok(Receipt::Activated))
    );
    assert_eq!(
        fund.resume(Pending::Activate, Reply::Failed, 0),
        Action::Finish(Err(Error::InvokeError))
    );
    assert_eq!(fund.total_shares(), 100);
}

#[test]
fn calculate_shares_quotes_without_issuing() {
    let mut fund = InvestmentFund::new(strategy(7), 3, account(9));
    assert_eq!(fund.calculate_shares(55), Action::Finish(Ok(Receipt::Shares(55))));
    fund.deposit(account(1), 100);
    let pending = Pending::Shares { amount: 100 };
    assert_eq!(
        fund.calculate_shares(100),
        Action::Invoke { invocation: valuation_call(strategy(7)), pending }
    );
    assert_eq!(
        fund.resume(pending, Reply::Balance(1100), 0),
        Action::Finish(Ok(Receipt::Shares(9)))
    );
    assert_eq!(
        fund.resume(pending, Reply::Balance(0), 0),
        Action::Finish(Err(Error::ArithmeticError))
    );
    assert_eq!(
        fund.resume(pending, Reply::Failed, 0),
        Action::Finish(Err(Error::InvokeError))
    );
    assert_eq!(fund.total_shares(), 100);
}

#[test]
fn calculate_tokens_quotes_without_burning() {
    let mut fund = funded();
    let pending = Pending::Tokens { shares: 9 };
    assert_eq!(
        fund.calculate_tokens(9),
        Action::Invoke { invocation: valuation_call(strategy(7)), pending }
    );
    assert_eq!(
        fund.resume(pending, Reply::Balance(1200), 0),
        Action::Finish(Ok(Receipt::Tokens(108)))
    );
    assert_eq!(
        fund.resume(pending, Reply::Failed, 0),
        Action::Finish(Err(Error::InvokeError))
    );
    assert_eq!(fund.get_shares(account(1)), 100);
    assert_eq!(fund.total_shares(), 100);
}
