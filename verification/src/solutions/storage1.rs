//! Owned storage: a contract whose name and description only its owner may
//! change.

use vstd::prelude::*;

use crate::solutions::account::Address;

verus! {

/// Why an operation was refused.
#[derive(Clone, Copy, Debug, PartialEq, Eq, Structural)]
pub enum Error {
    /// The caller is not the owner.
    NotOwner,
}

/// A contract that stores a name and a description for its owner.
#[derive(Debug)]
pub struct Storage1 {
    name: String,
    description: String,
    owner: Address,
}

/// The mathematical value of a [`Storage1`].
pub struct Storage1View {
    pub name: Seq<char>,
    pub description: Seq<char>,
    pub owner: Address,
}

impl View for Storage1 {
    type V = Storage1View;

    closed spec fn view(&self) -> Storage1View {
        Storage1View { name: self.name@, description: self.description@, owner: self.owner }
    }
}

impl Storage1 {
    /// A contract with the given name and description, owned by the caller.
    pub fn new(caller: Address, name: String, description: String) -> (r: Self)
        ensures
            r@ == (Storage1View { name: name@, description: description@, owner: caller }),
    {
        Self { name, description, owner: caller }
    }

    /// The name.
    pub fn get_name(&self) -> (r: String)
        ensures
            r@ == self@.name,
    {
        self.name.clone()
    }

    /// The description.
    pub fn get_description(&self) -> (r: String)
        ensures
            r@ == self@.description,
    {
        self.description.clone()
    }

    /// Replaces the name, for the owner only.
    pub fn set_name(&mut self, caller: Address, new_name: String) -> (r: Result<(), Error>)
        ensures
            match r {
                Ok(()) => caller == old(self)@.owner && final(self)@ == (Storage1View {
                    name: new_name@,
                    ..old(self)@
                }),
                Err(e) => e == Error::NotOwner && caller != old(self)@.owner && final(self)@
                    == old(self)@,
            },
    {
        if caller != self.owner {
            return Err(Error::NotOwner);
        }
        self.name = new_name;
        Ok(())
    }

    /// Replaces the description, for the owner only.
    pub fn set_description(&mut self, caller: Address, new_description: String) -> (r: Result<
        (),
        Error,
    >)
        ensures
            match r {
                Ok(()) => caller == old(self)@.owner && final(self)@ == (Storage1View {
                    description: new_description@,
                    ..old(self)@
                }),
                Err(e) => e == Error::NotOwner && caller != old(self)@.owner && final(self)@
                    == old(self)@,
            },
    {
        if caller != self.owner {
            return Err(Error::NotOwner);
        }
        self.description = new_description;
        Ok(())
    }

    /// The owner.
    pub fn get_owner(&self) -> (r: Address)
        ensures
            r == self@.owner,
    {
        self.owner
    }

    /// Makes `new_owner` the owner, for the owner only.
    pub fn transfer_ownership(&mut self, caller: Address, new_owner: Address) -> (r: Result<
        (),
        Error,
    >)
        ensures
            match r {
                Ok(()) => caller == old(self)@.owner && final(self)@ == (Storage1View {
                    owner: new_owner,
                    ..old(self)@
                }),
                Err(e) => e == Error::NotOwner && caller != old(self)@.owner && final(self)@
                    == old(self)@,
            },
    {
        if caller != self.owner {
            return Err(Error::NotOwner);
        }
        self.owner = new_owner;
        Ok(())
    }
}

} // verus!
