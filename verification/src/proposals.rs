//! Proposals: treasury actions and their approval tallies.
//!
//! A proposal is identified by a monotonically increasing integer id and is
//! never deleted; it only ever moves forward through its status machine,
//! which keeps the full audit trail on the ledger.

use vstd::prelude::*;

use crate::account::AccountId;

verus! {

/// The proposal status machine. The happy path is
/// `Pending -> Approved -> Queued -> Executed`; an admin abort gives
/// `Pending | Approved -> Cancelled`, and a queued action that misses its
/// window gives `Queued -> Expired`. No transition is ever re-entered.
///
/// Quorum satisfaction and queuing happen in one atomic step, so a stored
/// proposal is never observed in the transient `Approved` status.
#[derive(Clone, Copy, PartialEq, Eq, Structural, Debug)]
pub enum ProposalStatus {
    Pending,
    Approved,
    Queued,
    Executed,
    Cancelled,
    Expired,
}

impl ProposalStatus {
    /// A terminal status: once reached, the proposal never changes again.
    pub open spec fn is_terminal(self) -> bool {
        self == ProposalStatus::Executed || self == ProposalStatus::Cancelled
            || self == ProposalStatus::Expired
    }
}

/// A proposed treasury action: move `amount` to `recipient`, once enough
/// distinct signers have approved and the timelock window has been served.
pub struct Proposal {
    pub id: u64,
    pub recipient: AccountId,
    pub amount: i128,
    pub created_at: u64,
    pub approvals: Vec<AccountId>,
    pub status: ProposalStatus,
}

impl Proposal {
    /// The approvals, as a mathematical set of distinct signers.
    pub open spec fn approval_set(self) -> Set<AccountId> {
        self.approvals@.to_set()
    }

    /// Per-proposal invariant: the amount is strictly positive, no signer
    /// is counted twice, and the transient `Approved` status is never
    /// stored.
    pub open spec fn wf(self) -> bool {
        &&& self.amount > 0
        &&& self.approvals@.no_duplicates()
        &&& self.status != ProposalStatus::Approved
    }
}

/// The fund-moving action an executed proposal asks of the ledger: the
/// treasury's configured asset, `amount` of it, to `recipient`. Performing
/// it is the host's job; if the host's transfer fails, the whole execution
/// transaction is rolled back and the proposal stays queued and retryable.
#[derive(Clone, Copy, PartialEq, Eq, Structural, Debug)]
pub struct Transfer {
    pub recipient: AccountId,
    pub amount: i128,
}

} // verus!
