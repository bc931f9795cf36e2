//! Two-party escrow over a registry of unique assets.
//!
//! A seller and a client each confirm once; when both have confirmed, the
//! escrow closes and transfers of registered tokens are let through. Every
//! mutating request is recorded in a journal under the caller and a nonce the
//! caller chose, so that a request that is delivered twice is carried out once
//! and answered twice with the same event.
//!
//! The parts, leaves first:
//!
//! - `types`: addresses, token identifiers, errors;
//! - `index`, `table`: the keyed tables that the registry is made of;
//! - `payout`: the royalty split of a sale amount;
//! - `escrow`: the confirmation state machine;
//! - `events`, `journal`: the answers to requests, and where they are filed;
//! - `signing`: what is signed for a delegated approval;
//! - `registry`: owners, approvals, metadata, and the tokens of each owner;
//! - `guard`: who may do what;
//! - `contract`: the state of one contract and the dispatcher;
//! - `io`, `queries`: the contract laid out flat, and questions about it.
//!
//! The executable code is verified against the contracts written on each
//! function. What this crate takes on trust is the behaviour of the hash map
//! in `index`, and nothing else.

pub mod types;
pub mod index;
pub mod table;
pub mod payout;
pub mod escrow;
pub mod events;
pub mod journal;
pub mod signing;
pub mod registry;
pub mod guard;
pub mod contract;
pub mod io;
pub mod queries;

pub use crate::types::{Address, Key, TokenId};
