//! Governance primitives for a shared ledger: a quorum-based multisig
//! treasury with a mandatory execution delay, a role registry, and
//! authorization-gated oracle feeds.
//!
//! Every operation is a total function from the contract's persisted state
//! and the caller's identity to a new state and a typed result; the host
//! shell is responsible only for loading state, reading the ledger clock,
//! authenticating the caller, and storing the state back.

pub mod account;
pub mod errors;
pub mod governance;
pub mod oracle;
pub mod proposals;
pub mod registry;
pub mod timelock;
pub mod treasury;
