//! The first exercise: a contract that stores one boolean and flips it.

use vstd::prelude::*;

verus! {

/// A contract that stores a single boolean.
#[derive(Debug)]
pub struct Intro1 {
    value: bool,
}

impl View for Intro1 {
    type V = bool;

    closed spec fn view(&self) -> bool {
        self.value
    }
}

impl Intro1 {
    /// A contract that stores `init_value`.
    pub fn new(init_value: bool) -> (r: Self)
        ensures
            r@ == init_value,
    {
        Self { value: init_value }
    }

    /// A contract that stores `false`.
    pub fn default() -> (r: Self)
        ensures
            r@ == false,
    {
        Self::new(false)
    }

    /// The stored value.
    pub fn get(&self) -> (r: bool)
        ensures
            r == self@,
    {
        self.value
    }

    /// Replaces the stored value by its negation.
    pub fn flip(&mut self)
        ensures
            final(self)@ == !old(self)@,
    {
        self.value = !self.value;
    }
}

} // verus!
