//! Accounts, and balances kept by account.

use vstd::prelude::*;

verus! {

/// The address of an account: 160 bits, held as the upper 32 and the lower
/// 128 of them.
#[derive(Clone, Copy, Debug, PartialEq, Eq, Structural)]
pub struct Address {
    pub upper: u32,
    pub lower: u128,
}

/// An amount of tokens.
pub type Balance = u128;

/// One account with what it holds.
#[derive(Clone, Copy, Debug, PartialEq, Eq, Structural)]
pub struct Holding {
    pub account: Address,
    pub amount: Balance,
}

/// The amounts that a list of holdings stands for. Where an account is
/// listed more than once, its last holding counts.
pub open spec fn holdings_map(holdings: Seq<Holding>) -> Map<Address, Balance>
    decreases holdings.len(),
{
    if holdings.len() == 0 {
        Map::empty()
    } else {
        holdings_map(holdings.drop_last()).insert(holdings.last().account, holdings.last().amount)
    }
}

/// The accounts that a list of holdings names, in order.
pub open spec fn holders(holdings: Seq<Holding>) -> Seq<Address> {
    Seq::new(holdings.len(), |i: int| holdings[i].account)
}

/// The accounts that [`holdings_map`] knows are those that the holdings
/// name.
pub proof fn lemma_holdings_dom(holdings: Seq<Holding>)
    ensures
        forall|account: Address|
            holdings_map(holdings).dom().contains(account) <==> holders(holdings).contains(account),
    decreases holdings.len(),
{
    let named = holders(holdings);
    if holdings.len() > 0 {
        let rest = holdings.drop_last();
        lemma_holdings_dom(rest);
        assert forall|account: Address|
            holdings_map(holdings).dom().contains(account) <==> named.contains(account) by {
            if named.contains(account) {
                let i = choose|i: int| 0 <= i < named.len() && named[i] == account;
                if i < rest.len() {
                    assert(holders(rest)[i] == account);
                }
            }
            if holders(rest).contains(account) {
                let i = choose|i: int| 0 <= i < rest.len() && holders(rest)[i] == account;
                assert(named[i] == account);
            }
            if account == holdings.last().account {
                assert(named[named.len() - 1] == account);
            }
        }
    }
}

/// Where no account is listed twice, each holding's amount is the one that
/// [`holdings_map`] gives its account.
pub proof fn lemma_holdings_entry(holdings: Seq<Holding>, i: int)
    requires
        holders(holdings).no_duplicates(),
        0 <= i < holdings.len(),
    ensures
        holdings_map(holdings).dom().contains(holdings[i].account),
        holdings_map(holdings)[holdings[i].account] == holdings[i].amount,
    decreases holdings.len(),
{
    let named = holders(holdings);
    let rest = holdings.drop_last();
    if i < holdings.len() - 1 {
        assert forall|a: int, b: int|
            0 <= a < rest.len() && 0 <= b < rest.len() && a != b implies holders(rest)[a]
            != holders(rest)[b] by {
            assert(named[a] != named[b]);
        }
        lemma_holdings_entry(rest, i);
        assert(named[i] != named[holdings.len() - 1]);
    }
}

/// Where no account is listed twice, replacing the amount of one holding
/// replaces the amount that [`holdings_map`] gives its account.
pub proof fn lemma_holdings_update(holdings: Seq<Holding>, i: int, amount: Balance)
    requires
        holders(holdings).no_duplicates(),
        0 <= i < holdings.len(),
    ensures
        holdings_map(holdings.update(i, Holding { account: holdings[i].account, amount }))
            == holdings_map(holdings).insert(holdings[i].account, amount),
        holders(holdings.update(i, Holding { account: holdings[i].account, amount })) == holders(
            holdings,
        ),
    decreases holdings.len(),
{
    let named = holders(holdings);
    let account = holdings[i].account;
    let changed = holdings.update(i, Holding { account, amount });
    let rest = holdings.drop_last();
    assert(holders(changed) =~= named);
    if i == holdings.len() - 1 {
        assert(changed.drop_last() =~= rest);
        assert(holdings_map(changed) =~= holdings_map(holdings).insert(account, amount));
    } else {
        assert forall|a: int, b: int|
            0 <= a < rest.len() && 0 <= b < rest.len() && a != b implies holders(rest)[a]
            != holders(rest)[b] by {
            assert(named[a] != named[b]);
        }
        lemma_holdings_update(rest, i, amount);
        assert(changed.drop_last() =~= rest.update(i, Holding { account, amount }));
        assert(changed.last() == holdings.last());
        assert(named[i] != named[holdings.len() - 1]);
        assert(holdings_map(changed) =~= holdings_map(holdings).insert(account, amount));
    }
}

/// The sum of the amounts of a list of holdings.
pub open spec fn sum_of(holdings: Seq<Holding>) -> nat
    decreases holdings.len(),
{
    if holdings.len() == 0 {
        0
    } else {
        sum_of(holdings.drop_last()) + holdings.last().amount as nat
    }
}

/// No holding is larger than the sum of all.
pub proof fn lemma_sum_bounds_entry(holdings: Seq<Holding>, i: int)
    requires
        0 <= i < holdings.len(),
    ensures
        holdings[i].amount <= sum_of(holdings),
    decreases holdings.len(),
{
    if i < holdings.len() - 1 {
        lemma_sum_bounds_entry(holdings.drop_last(), i);
    }
}

/// Replacing the amount of one holding changes the sum by the difference.
pub proof fn lemma_sum_update(holdings: Seq<Holding>, i: int, amount: Balance)
    requires
        0 <= i < holdings.len(),
    ensures
        sum_of(holdings.update(i, Holding { account: holdings[i].account, amount })) == sum_of(
            holdings,
        ) - holdings[i].amount + amount,
    decreases holdings.len(),
{
    let changed = holdings.update(i, Holding { account: holdings[i].account, amount });
    let rest = holdings.drop_last();
    if i == holdings.len() - 1 {
        assert(changed.drop_last() =~= rest);
    } else {
        lemma_sum_update(rest, i, amount);
        assert(changed.drop_last() =~= rest.update(
            i,
            Holding { account: holdings[i].account, amount },
        ));
        assert(changed.last() == holdings.last());
    }
}

/// What an account holds by `amounts`: its amount, or nothing where it has
/// none.
pub open spec fn held(amounts: Map<Address, Balance>, account: Address) -> Balance {
    if amounts.dom().contains(account) {
        amounts[account]
    } else {
        0
    }
}

/// Balances kept by account. An account that was never given a balance
/// holds nothing.
#[derive(Debug)]
pub struct Balances {
    holdings: Vec<Holding>,
}

impl View for Balances {
    type V = Map<Address, Balance>;

    closed spec fn view(&self) -> Map<Address, Balance> {
        holdings_map(self.holdings@)
    }
}

impl Balances {
    /// What holds of all balances: no account is listed twice.
    #[verifier::type_invariant]
    pub closed spec fn inv(&self) -> bool {
        holders(self.holdings@).no_duplicates()
    }

    /// The sum of what all accounts hold.
    pub closed spec fn total(&self) -> nat {
        sum_of(self.holdings@)
    }

    /// No account holds more than all accounts together.
    pub proof fn lemma_within_total(&self, account: Address)
        requires
            self.inv(),
        ensures
            held(self@, account) <= self.total(),
    {
        lemma_holdings_dom(self.holdings@);
        if self@.dom().contains(account) {
            let named = holders(self.holdings@);
            assert(holdings_map(self.holdings@).dom().contains(account) <==> named.contains(
                account,
            ));
            let i = choose|i: int| 0 <= i < named.len() && named[i] == account;
            lemma_holdings_entry(self.holdings@, i);
            lemma_sum_bounds_entry(self.holdings@, i);
        }
    }

    /// Balances in which no account holds anything.
    pub fn new() -> (r: Balances)
        ensures
            r@ == Map::<Address, Balance>::empty(),
            r.total() == 0,
    {
        Balances { holdings: Vec::new() }
    }

    /// The place of the holding of `account`, if it has one.
    fn place(&self, account: Address) -> (r: Option<usize>)
        ensures
            match r {
                Some(i) => i < self.holdings.len() && self.holdings[i as int].account == account,
                None => !holders(self.holdings@).contains(account),
            },
    {
        let n = self.holdings.len();
        let mut i: usize = 0;
        while i < n
            invariant
                n == self.holdings.len(),
                i <= n,
                forall|a: int| 0 <= a < i ==> self.holdings[a].account != account,
            decreases n - i,
        {
            if self.holdings[i].account == account {
                return Some(i);
            }
            i += 1;
        }
        proof {
            let named = holders(self.holdings@);
            assert forall|a: int| 0 <= a < named.len() implies named[a] != account by {
                assert(self.holdings[a].account != account);
            }
        }
        None
    }

    /// The balance that was given to `account`, if any was.
    pub fn get(&self, account: Address) -> (r: Option<Balance>)
        ensures
            r == if self@.dom().contains(account) {
                Some(self@[account])
            } else {
                None
            },
    {
        proof {
            use_type_invariant(self);
            lemma_holdings_dom(self.holdings@);
        }
        match self.place(account) {
            Some(i) => {
                proof {
                    lemma_holdings_entry(self.holdings@, i as int);
                }
                Some(self.holdings[i].amount)
            },
            None => None,
        }
    }

    /// What `account` holds.
    pub fn balance_of(&self, account: Address) -> (r: Balance)
        ensures
            r == held(self@, account),
    {
        match self.get(account) {
            Some(amount) => amount,
            None => 0,
        }
    }

    /// Gives `account` the balance `amount`, in place of what it held.
    pub fn insert(&mut self, account: Address, amount: Balance)
        ensures
            final(self)@ == old(self)@.insert(account, amount),
            final(self).total() == old(self).total() - held(old(self)@, account) + amount,
    {
        proof {
            use_type_invariant(&*self);
            lemma_holdings_dom(self.holdings@);
        }
        let ghost before = self.holdings@;
        let place = self.place(account);
        let mut holdings: Vec<Holding> = Vec::new();
        core::mem::swap(&mut self.holdings, &mut holdings);
        match place {
            Some(i) => {
                proof {
                    lemma_holdings_update(before, i as int, amount);
                    lemma_holdings_entry(before, i as int);
                    lemma_sum_update(before, i as int, amount);
                }
                holdings.set(i, Holding { account, amount });
            },
            None => {
                holdings.push(Holding { account, amount });
                proof {
                    assert(holdings@.drop_last() =~= before);
                    assert(holders(holdings@) =~= holders(before).push(account));
                    crate::text::lemma_push_fresh(holders(before), account);
                }
            },
        }
        self.holdings = holdings;
    }
}

} // verus!
