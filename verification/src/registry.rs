//! The signer registry: the active signer set and the approval threshold.
//!
//! The registry's one invariant is that the threshold always lies between 1
//! and the signer count; every mutation that would break it is rejected by
//! the treasury's operations.

use vstd::prelude::*;

use crate::account::AccountId;

verus! {

/// The treasury's singleton configuration: the admin with override
/// authority, the set of active signers, and the approval threshold.
pub struct TreasuryConfig {
    pub admin: AccountId,
    pub signers: Vec<AccountId>,
    pub required: u32,
}

impl TreasuryConfig {
    /// The signer set, as a mathematical set.
    pub open spec fn signer_set(self) -> Set<AccountId> {
        self.signers@.to_set()
    }

    /// The registry invariant: signers are pairwise distinct and
    /// `1 <= required <= |signers|`.
    pub open spec fn wf(self) -> bool {
        &&& self.signers@.no_duplicates()
        &&& 1 <= self.required
        &&& self.required <= self.signers@.len()
    }
}

/// Whether `v` holds `x`.
pub fn accounts_contain(v: &Vec<AccountId>, x: AccountId) -> (r: bool)
    ensures
        r == v@.contains(x),
{
    let mut i: usize = 0;
    while i < v.len()
        invariant
            i <= v.len(),
            forall|j: int| 0 <= j < i ==> v@[j] != x,
        decreases v.len() - i,
    {
        if v[i] == x {
            return true;
        }
        i = i + 1;
    }
    false
}

/// The position of `x` in `v`, which must be present.
pub fn accounts_index_of(v: &Vec<AccountId>, x: AccountId) -> (r: usize)
    requires
        v@.contains(x),
    ensures
        r < v@.len(),
        v@[r as int] == x,
{
    let mut i: usize = 0;
    while i < v.len()
        invariant
            i <= v.len(),
            v@.contains(x),
            forall|j: int| 0 <= j < i ==> v@[j] != x,
        decreases v.len() - i,
    {
        if v[i] == x {
            return i;
        }
        i = i + 1;
    }
    proof {
        let w = choose|w: int| 0 <= w < v@.len() && v@[w] == x;
        assert(v@[w] != x);
    }
    unreached()
}

/// Whether `v` holds the same account twice.
pub fn accounts_have_duplicate(v: &Vec<AccountId>) -> (r: bool)
    ensures
        r == !v@.no_duplicates(),
{
    let mut i: usize = 0;
    while i < v.len()
        invariant
            i <= v.len(),
            forall|p: int, q: int| 0 <= p < q < i ==> v@[p] != v@[q],
            forall|p: int, q: int| 0 <= p < i && p < q < v@.len() ==> v@[p] != v@[q],
        decreases v.len() - i,
    {
        let mut j: usize = i + 1;
        while j < v.len()
            invariant
                i < j,
                j <= v.len(),
                i < v.len(),
                forall|q: int| i < q < j ==> v@[i as int] != v@[q],
            decreases v.len() - j,
        {
            if v[i] == v[j] {
                return true;
            }
            j = j + 1;
        }
        i = i + 1;
    }
    false
}

} // verus!
