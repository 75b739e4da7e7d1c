//! The progression engine of a tool for self-paced exercises in writing
//! smart contracts.
//!
//! The engine knows the exercises in their order ([`catalog`]), remembers
//! what a learner has done ([`progress`]), checks an exercise against the
//! toolchain ([`verification`]), says which exercise comes next
//! ([`suggest`]), re-checks an exercise when its source changes ([`watch`])
//! and reports how the learner stands ([`report`]).
//!
//! Nothing here touches a file, a process or a clock. What the engine needs
//! from outside it is told, and what is to be done outside it asks for.

pub mod catalog;
pub mod deployment;
pub mod error;
pub mod exercise;
pub mod progress;
pub mod prompt;
pub mod report;
pub mod solutions;
pub mod suggest;
pub mod text;
pub mod verification;
pub mod watch;
