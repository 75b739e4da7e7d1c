//! A token that tells of every movement: transfers and mints return the
//! event that reports them.

use vstd::prelude::*;

use crate::solutions::account::{held, Address, Balance, Balances};

verus! {

/// Why an operation was refused.
#[derive(Clone, Copy, Debug, PartialEq, Eq, Structural)]
pub enum Error {
    /// The account holds less than the operation takes.
    InsufficientBalance,
}

/// Tells that tokens moved. New tokens come from nowhere: `from` is `None`.
#[derive(Clone, Copy, Debug, PartialEq, Eq, Structural)]
pub struct Transfer {
    pub from: Option<Address>,
    pub to: Option<Address>,
    pub value: Balance,
}

/// Tells that an owner lets a spender take tokens.
#[derive(Clone, Copy, Debug, PartialEq, Eq, Structural)]
pub struct Approval {
    pub owner: Address,
    pub spender: Address,
    pub value: Balance,
}

/// A contract that keeps a balance for each account and the sum of all
/// tokens.
#[derive(Debug)]
pub struct Events2 {
    balances: Balances,
    total_supply: Balance,
}

/// The mathematical value of an [`Events2`].
pub struct Events2View {
    pub balances: Map<Address, Balance>,
    pub total_supply: Balance,
}

impl View for Events2 {
    type V = Events2View;

    closed spec fn view(&self) -> Events2View {
        Events2View { balances: self.balances@, total_supply: self.total_supply }
    }
}

/// The balances after `from` handed `value` to `to`: `from` is given what
/// it held less the value, and then `to` what it holds by then and the
/// value. An account that hands tokens to itself holds what it held.
pub open spec fn moved(
    balances: Map<Address, Balance>,
    from: Address,
    to: Address,
    value: Balance,
) -> Map<Address, Balance> {
    let taken = balances.insert(from, (held(balances, from) - value) as Balance);
    taken.insert(to, (held(taken, to) + value) as Balance)
}

impl Events2 {
    /// What holds of every such contract: the supply is the sum of what all
    /// accounts hold.
    #[verifier::type_invariant]
    pub closed spec fn inv(&self) -> bool {
        self.balances.total() == self.total_supply
    }

    /// A contract whose caller holds the whole supply.
    pub fn new(caller: Address, total_supply: Balance) -> (r: Self)
        ensures
            r@ == (Events2View {
                balances: Map::<Address, Balance>::empty().insert(caller, total_supply),
                total_supply,
            }),
    {
        let mut balances = Balances::new();
        balances.insert(caller, total_supply);
        Self { balances, total_supply }
    }

    /// Takes the contract apart, leaving an empty one in its place.
    fn take(&mut self) -> (parts: (Balances, Balance))
        ensures
            parts.0@ == old(self)@.balances,
            parts.1 == old(self)@.total_supply,
            parts.0.total() == parts.1,
    {
        proof {
            use_type_invariant(&*self);
        }
        let mut taken = Self { balances: Balances::new(), total_supply: 0 };
        core::mem::swap(self, &mut taken);
        let Self { balances, total_supply } = taken;
        (balances, total_supply)
    }

    /// Hands `value` tokens of the caller to the account `to`, and returns
    /// the event that tells of it.
    pub fn transfer(&mut self, caller: Address, to: Address, value: Balance) -> (r: Result<
        Transfer,
        Error,
    >)
        ensures
            match r {
                Ok(event) => {
                    &&& value <= held(old(self)@.balances, caller)
                    &&& final(self)@ == (Events2View {
                        balances: moved(old(self)@.balances, caller, to, value),
                        ..old(self)@
                    })
                    &&& event == (Transfer { from: Some(caller), to: Some(to), value })
                },
                Err(e) => {
                    &&& e == Error::InsufficientBalance
                    &&& value > held(old(self)@.balances, caller)
                    &&& final(self)@ == old(self)@
                },
            },
    {
        let from_balance = self.balance_of(caller);
        if from_balance < value {
            return Err(Error::InsufficientBalance);
        }
        let (mut balances, total_supply) = self.take();
        proof {
            use_type_invariant(&balances);
            balances.lemma_within_total(caller);
        }
        balances.insert(caller, from_balance - value);
        let to_balance = balances.balance_of(to);
        proof {
            use_type_invariant(&balances);
            balances.lemma_within_total(to);
        }
        balances.insert(to, to_balance + value);
        *self = Self { balances, total_supply };
        Ok(Transfer { from: Some(caller), to: Some(to), value })
    }

    /// What `account` holds, which is never more than the supply.
    pub fn balance_of(&self, account: Address) -> (r: Balance)
        ensures
            r == held(self@.balances, account),
            r <= self@.total_supply,
    {
        proof {
            use_type_invariant(self);
            use_type_invariant(&self.balances);
            self.balances.lemma_within_total(account);
        }
        self.balances.balance_of(account)
    }

    /// The sum of all tokens.
    pub fn total_supply(&self) -> (r: Balance)
        ensures
            r == self@.total_supply,
    {
        self.total_supply
    }

    /// Makes `value` new tokens for the account `to`, and returns the event
    /// that tells of it. The supply must not become more than a balance can
    /// say.
    pub fn mint(&mut self, to: Address, value: Balance) -> (r: Result<Transfer, Error>)
        requires
            old(self)@.total_supply + value <= Balance::MAX,
        ensures
            r == Ok::<Transfer, Error>(Transfer { from: None, to: Some(to), value }),
            final(self)@ == (Events2View {
                balances: old(self)@.balances.insert(
                    to,
                    (held(old(self)@.balances, to) + value) as Balance,
                ),
                total_supply: (old(self)@.total_supply + value) as Balance,
            }),
    {
        let (mut balances, total_supply) = self.take();
        let to_balance = balances.balance_of(to);
        proof {
            use_type_invariant(&balances);
            balances.lemma_within_total(to);
        }
        balances.insert(to, to_balance + value);
        *self = Self { balances, total_supply: total_supply + value };
        Ok(Transfer { from: None, to: Some(to), value })
    }
}

} // verus!
