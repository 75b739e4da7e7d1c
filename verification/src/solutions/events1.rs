//! Events: a counter that tells of every increment.

use vstd::prelude::*;

use crate::solutions::account::Address;

verus! {

/// Tells that the counter was incremented.
#[derive(Clone, Copy, Debug, PartialEq, Eq, Structural)]
pub struct Incremented {
    /// The counter after the increment.
    pub value: u32,
    /// Who incremented it.
    pub by: Address,
}

/// A contract that stores a counter.
#[derive(Debug)]
pub struct Events1 {
    counter: u32,
}

impl View for Events1 {
    type V = u32;

    closed spec fn view(&self) -> u32 {
        self.counter
    }
}

impl Events1 {
    /// A contract with the counter at zero.
    pub fn new() -> (r: Self)
        ensures
            r@ == 0,
    {
        Self { counter: 0 }
    }

    /// Adds one to the counter, which must not be at its largest value, and
    /// returns the event that tells of it.
    pub fn increment(&mut self, caller: Address) -> (event: Incremented)
        requires
            old(self)@ < u32::MAX,
        ensures
            final(self)@ == old(self)@ + 1,
            event == (Incremented { value: final(self)@, by: caller }),
    {
        self.counter += 1;
        Incremented { value: self.counter, by: caller }
    }

    /// The counter.
    pub fn get(&self) -> (r: u32)
        ensures
            r == self@,
    {
        self.counter
    }
}

} // verus!
