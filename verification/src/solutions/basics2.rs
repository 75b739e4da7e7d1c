//! A token without a fixed supply: every account mints and burns its own
//! tokens and may hand them to another account.

use vstd::prelude::*;

use crate::solutions::account::{held, Address, Balance, Balances};

verus! {

/// Why an operation was refused.
#[derive(Clone, Copy, Debug, PartialEq, Eq, Structural)]
pub enum Error {
    /// The account holds less than the operation takes.
    InsufficientBalance,
    /// The amount is zero.
    ZeroAmount,
    /// The account would hold more than a balance can say.
    Overflow,
}

/// A contract that keeps a balance for each account.
#[derive(Debug)]
pub struct Basic2 {
    balances: Balances,
}

impl View for Basic2 {
    type V = Map<Address, Balance>;

    closed spec fn view(&self) -> Map<Address, Balance> {
        self.balances@
    }
}

impl Basic2 {
    /// A contract in which no account holds anything.
    pub fn new() -> (r: Self)
        ensures
            r@ == Map::<Address, Balance>::empty(),
    {
        Self { balances: Balances::new() }
    }

    /// What `account` holds.
    pub fn balance_of(&self, account: Address) -> (r: Balance)
        ensures
            r == held(self@, account),
    {
        self.balances.balance_of(account)
    }

    /// Adds `amount` new tokens to what the caller holds.
    pub fn mint(&mut self, caller: Address, amount: Balance) -> (r: Result<(), Error>)
        ensures
            match r {
                Ok(()) => {
                    &&& amount != 0
                    &&& held(old(self)@, caller) + amount <= Balance::MAX
                    &&& final(self)@ == old(self)@.insert(
                        caller,
                        (held(old(self)@, caller) + amount) as Balance,
                    )
                },
                Err(e) => {
                    &&& final(self)@ == old(self)@
                    &&& e == if amount == 0 {
                        Error::ZeroAmount
                    } else {
                        Error::Overflow
                    }
                    &&& amount == 0 || held(old(self)@, caller) + amount > Balance::MAX
                },
            },
    {
        if amount == 0 {
            return Err(Error::ZeroAmount);
        }
        let current_balance = self.balance_of(caller);
        match current_balance.checked_add(amount) {
            Some(new_balance) => {
                self.balances.insert(caller, new_balance);
                Ok(())
            },
            None => Err(Error::Overflow),
        }
    }

    /// Takes `amount` tokens from what the caller holds.
    pub fn burn(&mut self, caller: Address, amount: Balance) -> (r: Result<(), Error>)
        ensures
            match r {
                Ok(()) => {
                    &&& amount != 0
                    &&& amount <= held(old(self)@, caller)
                    &&& final(self)@ == old(self)@.insert(
                        caller,
                        (held(old(self)@, caller) - amount) as Balance,
                    )
                },
                Err(e) => {
                    &&& final(self)@ == old(self)@
                    &&& e == if amount == 0 {
                        Error::ZeroAmount
                    } else {
                        Error::InsufficientBalance
                    }
                    &&& amount == 0 || amount > held(old(self)@, caller)
                },
            },
    {
        if amount == 0 {
            return Err(Error::ZeroAmount);
        }
        let current_balance = self.balance_of(caller);
        match current_balance.checked_sub(amount) {
            Some(new_balance) => {
                self.balances.insert(caller, new_balance);
                Ok(())
            },
            None => Err(Error::InsufficientBalance),
        }
    }

    /// Hands `amount` tokens of the caller to the account `to`.
    ///
    /// The balance that `to` will hold is computed from what it held before
    /// the caller gave anything: a caller who hands tokens to itself holds
    /// the amount more afterwards.
    pub fn transfer(&mut self, caller: Address, to: Address, amount: Balance) -> (r: Result<
        (),
        Error,
    >)
        ensures
            match r {
                Ok(()) => {
                    &&& amount != 0
                    &&& amount <= held(old(self)@, caller)
                    &&& held(old(self)@, to) + amount <= Balance::MAX
                    &&& final(self)@ == old(self)@.insert(
                        caller,
                        (held(old(self)@, caller) - amount) as Balance,
                    ).insert(to, (held(old(self)@, to) + amount) as Balance)
                },
                Err(e) => {
                    &&& final(self)@ == old(self)@
                    &&& e == if amount == 0 {
                        Error::ZeroAmount
                    } else if amount > held(old(self)@, caller) {
                        Error::InsufficientBalance
                    } else {
                        Error::Overflow
                    }
                    &&& amount == 0 || amount > held(old(self)@, caller) || held(old(self)@, to)
                        + amount > Balance::MAX
                },
            },
    {
        if amount == 0 {
            return Err(Error::ZeroAmount);
        }
        let from_balance = self.balance_of(caller);
        if from_balance < amount {
            return Err(Error::InsufficientBalance);
        }
        let recipients_bal = self.balance_of(to);
        let new_from_balance = from_balance - amount;
        match recipients_bal.checked_add(amount) {
            Some(new_recipients_balance) => {
                self.balances.insert(caller, new_from_balance);
                self.balances.insert(to, new_recipients_balance);
                Ok(())
            },
            None => Err(Error::Overflow),
        }
    }
}

} // verus!
