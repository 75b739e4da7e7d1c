//! Checked arithmetic: a contract that stores a number and refuses every
//! operation whose result it could not hold.

use vstd::prelude::*;

verus! {

/// Why an operation was refused.
#[derive(Clone, Copy, Debug, PartialEq, Eq, Structural)]
pub enum Error {
    /// The result would be too large.
    Overflow,
    /// The result would be below zero.
    Underflow,
    /// The divisor is zero.
    DivisionByZero,
}

/// A contract that stores one number.
#[derive(Debug)]
pub struct Basic1 {
    value: u32,
}

impl View for Basic1 {
    type V = u32;

    closed spec fn view(&self) -> u32 {
        self.value
    }
}

impl Basic1 {
    /// A contract that stores `init_value`.
    pub fn new(init_value: u32) -> (r: Self)
        ensures
            r@ == init_value,
    {
        Self { value: init_value }
    }

    /// Adds `amount` to the stored value, unless the sum is too large.
    pub fn add(&mut self, amount: u32) -> (r: Result<(), Error>)
        ensures
            match r {
                Ok(()) => old(self)@ + amount <= u32::MAX && final(self)@ == old(self)@ + amount,
                Err(e) => e == Error::Overflow && old(self)@ + amount > u32::MAX && final(self)@
                    == old(self)@,
            },
    {
        match self.value.checked_add(amount) {
            Some(sum) => {
                self.value = sum;
                Ok(())
            },
            None => Err(Error::Overflow),
        }
    }

    /// Takes `amount` from the stored value, unless it is larger than that.
    pub fn subtract(&mut self, amount: u32) -> (r: Result<(), Error>)
        ensures
            match r {
                Ok(()) => amount <= old(self)@ && final(self)@ == old(self)@ - amount,
                Err(e) => e == Error::Underflow && amount > old(self)@ && final(self)@ == old(
                    self,
                )@,
            },
    {
        match self.value.checked_sub(amount) {
            Some(difference) => {
                self.value = difference;
                Ok(())
            },
            None => Err(Error::Underflow),
        }
    }

    /// Multiplies the stored value by `factor`, unless the product is too
    /// large.
    pub fn multiply(&mut self, factor: u32) -> (r: Result<(), Error>)
        ensures
            match r {
                Ok(()) => old(self)@ * factor <= u32::MAX && final(self)@ == old(self)@ * factor,
                Err(e) => e == Error::Overflow && old(self)@ * factor > u32::MAX && final(self)@
                    == old(self)@,
            },
    {
        match self.value.checked_mul(factor) {
            Some(product) => {
                self.value = product;
                Ok(())
            },
            None => Err(Error::Overflow),
        }
    }

    /// Divides the stored value by `divisor`, rounding down, unless the
    /// divisor is zero.
    pub fn divide(&mut self, divisor: u32) -> (r: Result<(), Error>)
        ensures
            match r {
                Ok(()) => divisor != 0 && final(self)@ == old(self)@ / divisor,
                Err(e) => e == Error::DivisionByZero && divisor == 0 && final(self)@ == old(
                    self,
                )@,
            },
    {
        if divisor == 0 {
            return Err(Error::DivisionByZero);
        }
        self.value = self.value / divisor;
        Ok(())
    }

    /// The stored value.
    pub fn get_value(&self) -> (r: u32)
        ensures
            r == self@,
    {
        self.value
    }
}

} // verus!
