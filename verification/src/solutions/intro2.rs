//! The second exercise: a contract with a counter and a balance for each
//! account.

use vstd::prelude::*;

use crate::solutions::account::{held, Address, Balances};

verus! {

/// A contract that stores a counter and a balance for each account.
#[derive(Debug)]
pub struct Intro2 {
    counter: u32,
    balances: Balances,
}

/// The mathematical value of an [`Intro2`].
pub struct Intro2View {
    pub counter: u32,
    pub balances: Map<Address, u128>,
}

impl View for Intro2 {
    type V = Intro2View;

    closed spec fn view(&self) -> Intro2View {
        Intro2View { counter: self.counter, balances: self.balances@ }
    }
}

impl Intro2 {
    /// A contract with the counter at zero and no balances.
    pub fn new() -> (r: Self)
        ensures
            r@ == (Intro2View { counter: 0, balances: Map::empty() }),
    {
        Self { counter: 0, balances: Balances::new() }
    }

    /// The counter.
    pub fn get_counter(&self) -> (r: u32)
        ensures
            r == self@.counter,
    {
        self.counter
    }

    /// Adds one to the counter, which must not be at its largest value.
    pub fn increment(&mut self)
        requires
            old(self)@.counter < u32::MAX,
        ensures
            final(self)@ == (Intro2View {
                counter: (old(self)@.counter + 1) as u32,
                balances: old(self)@.balances,
            }),
    {
        self.counter += 1;
    }

    /// The balance of the caller.
    pub fn get_balance(&self, caller: Address) -> (r: u128)
        ensures
            r == held(self@.balances, caller),
    {
        self.balances.balance_of(caller)
    }

    /// Sets the balance of the caller.
    pub fn set_balance(&mut self, caller: Address, amount: u128)
        ensures
            final(self)@ == (Intro2View {
                counter: old(self)@.counter,
                balances: old(self)@.balances.insert(caller, amount),
            }),
    {
        self.balances.insert(caller, amount);
    }
}

} // verus!
