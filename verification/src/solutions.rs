//! Reference solutions of the exercises, each as a plain state machine: what
//! a contract stores, and what each of its messages does to it.
//!
//! A contract on chain reads the caller of a message from its environment
//! and hands the events that it emits to it. Here the caller is a
//! parameter of the message, and an emitted event is what the message
//! returns.

pub mod account;
pub mod basics1;
pub mod basics2;
pub mod events1;
pub mod events2;
pub mod intro1;
pub mod intro2;
pub mod storage1;
pub mod storage2;
