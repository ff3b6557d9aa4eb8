//! Account identifiers.
//!
//! On the ledger an account is an opaque address; the logic here only ever
//! compares addresses for equality, so an account is modelled by a plain
//! numeric identifier. The host shell keeps the mapping between real
//! addresses and these identifiers.

use vstd::prelude::*;

verus! {

/// An account on the ledger, reduced to the one thing the governance logic
/// reads from it: a stable identity that can be compared for equality.
#[derive(Clone, Copy, PartialEq, Eq, Structural, Debug, Hash)]
pub struct AccountId {
    pub id: u64,
}

impl AccountId {
    pub fn new(id: u64) -> (r: AccountId)
        ensures
            r.id == id,
    {
        AccountId { id }
    }
}

} // verus!
