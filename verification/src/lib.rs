//! A verified vanity-address search library.
//!
//! The library generates secp256k1 keypairs, derives the blockchain-style
//! address of each candidate, matches addresses against user-supplied
//! prefix and prefix/suffix rules, formats durably persisted match records,
//! renders live search statistics, and models the cancellation state machine
//! that a pool of search workers polls.

pub mod text;
pub mod encoding;
pub mod candidate;
pub mod pattern;
pub mod stats;
pub mod sink;
pub mod control;
pub mod worker;
