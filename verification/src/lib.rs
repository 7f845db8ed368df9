//! Client-side transaction orchestration core for a Miden-style ledger.
//!
//! The crate models the data a ledger client works with — field elements,
//! words, account identifiers, storage slots, notes — as plain values, and
//! verifies the coordination logic built on them: resolving the foreign
//! accounts a cross-contract read depends on, deriving chained note
//! identities, and tracking asynchronous transaction settlement.

pub mod account;
pub mod chain;
pub mod digest;
mod entropy;
pub mod field;
pub mod note;
pub mod orchestrator;
pub mod request;
pub mod resolver;
pub mod search;
pub mod storage;
pub mod tracker;
