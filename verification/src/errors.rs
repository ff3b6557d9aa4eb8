//! The error taxonomy.
//!
//! Every failing operation reports a distinct, named reason, so a caller can
//! tell "not yet ready, retry later" from "permanently dead" from "never
//! retry". No operation panics: each aborts by returning one of these.

use vstd::prelude::*;

verus! {

#[derive(Clone, Copy, PartialEq, Eq, Structural, Debug)]
pub enum Error {
    /// `initialize` was called on an instance that already has a config.
    AlreadyInitialized,
    /// The caller lacks the capability the operation demands.
    Unauthorized,
    /// The named id, signer or record does not exist.
    NotFound,
    /// A threshold of zero, or one above the signer count, was requested.
    InvalidThreshold,
    /// Removing the signer would leave fewer signers than the threshold.
    ThresholdViolation,
    /// The signer is already present.
    DuplicateSigner,
    /// A proposal amount must be strictly positive.
    InvalidAmount,
    /// A delay window with a zero bound, or with its minimum above its
    /// maximum, or outside the configured floor and ceiling.
    InvalidDelay,
    /// The operation is not valid for the proposal's current status.
    InvalidState,
    /// `execute` was called before the queued action's earliest time.
    TimelockNotReady,
    /// `execute` was called at or after the queued action's expiry.
    TimelockExpired,
    /// The proposal was already executed.
    AlreadyExecuted,
}

} // verus!
