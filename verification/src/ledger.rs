//! The share ledger: which account holds how many shares.
//!
//! A ledger is viewed as a finite map from accounts to balances. The sum of
//! its balances is what a fund keeps equal to its total of shares.

use crate::account::AccountId;
use vstd::prelude::*;

verus! {

/// An amount of value or of shares.
pub type Balance = u128;

/// The sum of all balances of a finite ledger.
pub open spec fn sum_of_shares(m: Map<AccountId, nat>) -> nat
    decreases m.dom().len(),
    when m.dom().finite()
{
    if m.dom().len() == 0 {
        0
    } else {
        let a = m.dom().choose();
        m[a] + sum_of_shares(m.remove(a))
    }
}

/// What `account` holds in `m`: its entry, or nothing where it has none.
pub open spec fn balance_in(m: Map<AccountId, nat>, account: AccountId) -> nat {
    if m.dom().contains(account) {
        m[account]
    } else {
        0
    }
}

/// Any one entry can be taken out of the sum.
pub proof fn lemma_sum_remove(m: Map<AccountId, nat>, account: AccountId)
    requires
        m.dom().finite(),
        m.dom().contains(account),
    ensures
        sum_of_shares(m) == m[account] + sum_of_shares(m.remove(account)),
    decreases m.dom().len(),
{
    let a = m.dom().choose();
    if a != account {
        lemma_sum_remove(m.remove(a), account);
        lemma_sum_remove(m.remove(account), a);
        assert(m.remove(a).remove(account) =~= m.remove(account).remove(a));
    }
}

/// Writing an entry changes the sum by the difference to what the account
/// held before.
pub proof fn lemma_sum_insert(m: Map<AccountId, nat>, account: AccountId, shares: nat)
    requires
        m.dom().finite(),
    ensures
        sum_of_shares(m.insert(account, shares)) + balance_in(m, account) == sum_of_shares(m)
            + shares,
{
    let after = m.insert(account, shares);
    lemma_sum_remove(after, account);
    assert(after.remove(account) =~= m.remove(account));
    if m.dom().contains(account) {
        lemma_sum_remove(m, account);
    } else {
        assert(m.remove(account) =~= m);
    }
}

/// No account holds more than the sum of all balances.
pub proof fn lemma_balance_within_sum(m: Map<AccountId, nat>, account: AccountId)
    requires
        m.dom().finite(),
    ensures
        balance_in(m, account) <= sum_of_shares(m),
{
    if m.dom().contains(account) {
        lemma_sum_remove(m, account);
    }
}

/// One holding of one account.
#[derive(Clone, Copy, Debug, PartialEq, Eq)]
pub struct Holding {
    pub account: AccountId,
    pub shares: Balance,
}

/// No account occurs twice in `s`.
pub open spec fn distinct_accounts(s: Seq<Holding>) -> bool {
    forall|i: int, j: int| 0 <= i < j < s.len() ==> s[i].account != s[j].account
}

/// The ledger that lists the holdings of `s`.
pub open spec fn ledger_of(s: Seq<Holding>) -> Map<AccountId, nat>
    decreases s.len(),
{
    if s.len() == 0 {
        Map::empty()
    } else {
        ledger_of(s.drop_last()).insert(s.last().account, s.last().shares as nat)
    }
}

/// The shares of all holdings of `s` together.
pub open spec fn total_held(s: Seq<Holding>) -> nat
    decreases s.len(),
{
    if s.len() == 0 {
        0
    } else {
        total_held(s.drop_last()) + s.last().shares as nat
    }
}

/// The ledger of a list has an entry for exactly the accounts of the list,
/// and finitely many.
pub proof fn lemma_ledger_of_accounts(s: Seq<Holding>)
    ensures
        ledger_of(s).dom().finite(),
        forall|a: AccountId|
            ledger_of(s).dom().contains(a) <==> exists|i: int|
                0 <= i < s.len() && s[i].account == a,
    decreases s.len(),
{
    if s.len() > 0 {
        let t = s.drop_last();
        lemma_ledger_of_accounts(t);
        assert forall|a: AccountId|
            ledger_of(s).dom().contains(a) <==> exists|i: int|
                0 <= i < s.len() && s[i].account == a by {
            if ledger_of(t).dom().contains(a) {
                let i = choose|i: int| 0 <= i < t.len() && t[i].account == a;
                assert(s[i].account == a);
            }
            if a == s.last().account {
                assert(s[s.len() - 1].account == a);
            }
            if exists|i: int| 0 <= i < s.len() && s[i].account == a {
                let i = choose|i: int| 0 <= i < s.len() && s[i].account == a;
                if i < t.len() {
                    assert(t[i].account == a);
                }
            }
        }
    }
}

/// Where no account occurs twice, the ledger of a list gives each account
/// the shares of its holding.
pub proof fn lemma_ledger_of_entry(s: Seq<Holding>, i: int)
    requires
        distinct_accounts(s),
        0 <= i < s.len(),
    ensures
        ledger_of(s).dom().contains(s[i].account),
        ledger_of(s)[s[i].account] == s[i].shares,
    decreases s.len(),
{
    if i < s.len() - 1 {
        lemma_ledger_of_entry(s.drop_last(), i);
    }
}

/// Where no account occurs twice, the balances of the ledger of a list sum
/// to the shares of the list.
pub proof fn lemma_total_held(s: Seq<Holding>)
    requires
        distinct_accounts(s),
    ensures
        ledger_of(s).dom().finite(),
        sum_of_shares(ledger_of(s)) == total_held(s),
    decreases s.len(),
{
    lemma_ledger_of_accounts(s);
    if s.len() > 0 {
        let t = s.drop_last();
        lemma_total_held(t);
        lemma_ledger_of_accounts(t);
        if ledger_of(t).dom().contains(s.last().account) {
            let i = choose|i: int| 0 <= i < t.len() && t[i].account == s.last().account;
            assert(s[i].account == s[s.len() - 1].account);
        }
        lemma_sum_insert(ledger_of(t), s.last().account, s.last().shares as nat);
    }
}

/// The shares of the first holdings of a list are no more than those of
/// all.
pub proof fn lemma_total_held_grows(s: Seq<Holding>, k: int)
    requires
        0 <= k <= s.len(),
    ensures
        total_held(s.take(k)) <= total_held(s),
    decreases s.len(),
{
    if k < s.len() {
        lemma_total_held_grows(s.drop_last(), k);
        assert(s.drop_last().take(k) =~= s.take(k));
    } else {
        assert(s.take(k) =~= s);
    }
}

/// Balances by account. Each account has at most one entry.
#[derive(Debug)]
pub struct ShareLedger {
    holdings: Vec<Holding>,
}

impl View for ShareLedger {
    type V = Map<AccountId, nat>;

    closed spec fn view(&self) -> Map<AccountId, nat> {
        ledger_of(self.holdings@)
    }
}

impl ShareLedger {
    #[verifier::type_invariant]
    spec fn listed_once(self) -> bool {
        distinct_accounts(self.holdings@)
    }

    /// A ledger has finitely many entries.
    pub proof fn lemma_finite(&self)
        ensures
            self@.dom().finite(),
    {
        lemma_ledger_of_accounts(self.holdings@);
    }

    /// The ledger without entries.
    pub fn new() -> (ledger: ShareLedger)
        ensures
            ledger@ == Map::<AccountId, nat>::empty(),
    {
        ShareLedger { holdings: Vec::new() }
    }

    /// The ledger that lists `holdings`, unless an account occurs twice.
    pub fn from_holdings(holdings: &Vec<Holding>) -> (ledger: Option<ShareLedger>)
        ensures
            ledger.is_some() == distinct_accounts(holdings@),
            ledger matches Some(l) ==> l@ == ledger_of(holdings@),
    {
        let mut ledger = ShareLedger::new();
        let mut k: usize = 0;
        while k < holdings.len()
            invariant
                k <= holdings@.len(),
                ledger@ == ledger_of(holdings@.take(k as int)),
                distinct_accounts(holdings@.take(k as int)),
            decreases holdings@.len() - k,
        {
            let holding = holdings[k];
            proof {
                lemma_ledger_of_accounts(holdings@.take(k as int));
                assert(holdings@.take(k + 1).drop_last() =~= holdings@.take(k as int));
            }
            if ledger.get(&holding.account).is_some() {
                proof {
                    let i = choose|i: int|
                        0 <= i < k && holdings@.take(k as int)[i].account == holding.account;
                    assert(holdings@[i].account == holdings@[k as int].account);
                }
                return None;
            }
            ledger.insert(holding.account, holding.shares);
            k += 1;
        }
        assert(holdings@.take(k as int) =~= holdings@);
        Some(ledger)
    }

    /// The holdings that the ledger lists, each account once.
    pub fn holdings(&self) -> (list: Vec<Holding>)
        ensures
            distinct_accounts(list@),
            ledger_of(list@) == self@,
    {
        let mut list: Vec<Holding> = Vec::new();
        let mut k: usize = 0;
        while k < self.holdings.len()
            invariant
                k <= self.holdings@.len(),
                list@ == self.holdings@.take(k as int),
            decreases self.holdings@.len() - k,
        {
            list.push(self.holdings[k]);
            assert(self.holdings@.take(k + 1) =~= self.holdings@.take(k as int).push(
                self.holdings@[k as int],
            ));
            k += 1;
        }
        proof {
            use_type_invariant(self);
            assert(list@ =~= self.holdings@);
        }
        list
    }

    /// The sum of all balances, unless it exceeds 128 bits.
    pub fn total(&self) -> (sum: Option<Balance>)
        ensures
            (match sum {
                Some(n) => n == sum_of_shares(self@),
                None => sum_of_shares(self@) > u128::MAX,
            }),
    {
        proof {
            use_type_invariant(self);
            lemma_total_held(self.holdings@);
        }
        let mut sum: Balance = 0;
        let mut k: usize = 0;
        while k < self.holdings.len()
            invariant
                k <= self.holdings@.len(),
                sum == total_held(self.holdings@.take(k as int)),
                sum_of_shares(self@) == total_held(self.holdings@),
            decreases self.holdings@.len() - k,
        {
            proof {
                assert(self.holdings@.take(k + 1).drop_last() =~= self.holdings@.take(k as int));
                lemma_total_held_grows(self.holdings@, k + 1);
            }
            match sum.checked_add(self.holdings[k].shares) {
                Some(more) => {
                    sum = more;
                },
                None => {
                    return None;
                },
            }
            k += 1;
        }
        assert(self.holdings@.take(k as int) =~= self.holdings@);
        Some(sum)
    }

    fn find(&self, account: &AccountId) -> (at: Option<usize>)
        ensures
            (match at {
                Some(i) => i < self.holdings@.len() && self.holdings@[i as int].account
                    == *account,
                None => forall|j: int|
                    0 <= j < self.holdings@.len() ==> self.holdings@[j].account != *account,
            }),
    {
        let mut i: usize = 0;
        while i < self.holdings.len()
            invariant
                i <= self.holdings@.len(),
                forall|j: int| 0 <= j < i ==> self.holdings@[j].account != *account,
            decreases self.holdings@.len() - i,
        {
            if self.holdings[i].account == *account {
                return Some(i);
            }
            i += 1;
        }
        None
    }

    /// The entry of `account`, if it has one.
    pub fn get(&self, account: &AccountId) -> (shares: Option<Balance>)
        ensures
            shares.is_some() == self@.dom().contains(*account),
            shares.is_some() ==> shares.unwrap() == self@[*account],
    {
        proof {
            use_type_invariant(self);
            lemma_ledger_of_accounts(self.holdings@);
        }
        match self.find(account) {
            Some(i) => {
                proof {
                    lemma_ledger_of_entry(self.holdings@, i as int);
                }
                Some(self.holdings[i].shares)
            },
            None => None,
        }
    }

    /// Writes the entry of `account`, creating it where there was none.
    pub fn insert(&mut self, account: AccountId, shares: Balance)
        ensures
            final(self)@ == old(self)@.insert(account, shares as nat),
    {
        proof {
            use_type_invariant(&*self);
        }
        let found = self.find(&account);
        let mut holdings: Vec<Holding> = Vec::new();
        std::mem::swap(&mut holdings, &mut self.holdings);
        let ghost before = holdings@;
        match found {
            Some(i) => {
                holdings.set(i, Holding { account, shares });
                proof {
                    lemma_entry_rewritten(before, i as int, shares);
                }
            },
            None => {
                holdings.push(Holding { account, shares });
                assert(holdings@.drop_last() =~= before);
            },
        }
        self.holdings = holdings;
    }
}

/// Rewriting the shares of a holding rewrites the entry of its account and
/// no other.
proof fn lemma_entry_rewritten(s: Seq<Holding>, i: int, shares: Balance)
    requires
        distinct_accounts(s),
        0 <= i < s.len(),
    ensures
        distinct_accounts(s.update(i, Holding { account: s[i].account, shares })),
        ledger_of(s.update(i, Holding { account: s[i].account, shares })) == ledger_of(s).insert(
            s[i].account,
            shares as nat,
        ),
{
    let account = s[i].account;
    let after = s.update(i, Holding { account, shares });
    lemma_ledger_of_accounts(s);
    lemma_ledger_of_accounts(after);
    assert forall|a: AccountId|
        ledger_of(after).dom().contains(a) <==> ledger_of(s).dom().contains(a) by {
        if ledger_of(after).dom().contains(a) {
            let j = choose|j: int| 0 <= j < after.len() && after[j].account == a;
            assert(s[j].account == a);
        }
        if ledger_of(s).dom().contains(a) {
            let j = choose|j: int| 0 <= j < s.len() && s[j].account == a;
            assert(after[j].account == a);
        }
    }
    lemma_ledger_of_entry(s, i);
    assert forall|a: AccountId| ledger_of(after).dom().contains(a) implies ledger_of(after)[a]
        == ledger_of(s).insert(account, shares as nat)[a] by {
        let j = choose|j: int| 0 <= j < after.len() && after[j].account == a;
        lemma_ledger_of_entry(after, j);
        if j != i {
            lemma_ledger_of_entry(s, j);
        }
    }
    assert(ledger_of(after) =~= ledger_of(s).insert(account, shares as nat));
}

} // verus!
