//! The timelocked multisig treasury: the execution coordinator that ties
//! quorum satisfaction to timelock queuing and, after the window has been
//! served, to irrevocable execution.
//!
//! Every operation is a single atomic step over the whole contract state:
//! it either returns `Ok` with all its effects applied, or a typed error
//! with the state untouched. The one exception is written into `execute`'s
//! contract: an attempt after the window closed reports `TimelockExpired`
//! and records the proposal as `Expired`.

use vstd::prelude::*;

use crate::account::AccountId;
use crate::errors::Error;
use crate::proposals::{Proposal, ProposalStatus, Transfer};
use crate::registry::{
    accounts_contain, accounts_have_duplicate, accounts_index_of, TreasuryConfig,
};
use crate::timelock::{entry_at, has_entry, TimelockEntry, TimelockScheduler};

verus! {

/// Discarding the one entry keyed by `id` keeps every remaining entry's
/// proposal id inside the table bounds.
proof fn lemma_entry_bounds_after_removal(
    pre: Seq<TimelockEntry>,
    post: Seq<TimelockEntry>,
    id: u64,
    plen: nat,
)
    requires
        forall|j: int|
            0 <= j < pre.len() ==> 1 <= (#[trigger] pre[j]).proposal_id && pre[j].proposal_id
                <= plen,
        !has_entry(post, id),
        forall|oid: u64| oid != id ==> #[trigger] has_entry(post, oid) == has_entry(pre, oid),
    ensures
        forall|j: int|
            0 <= j < post.len() ==> 1 <= (#[trigger] post[j]).proposal_id && post[j].proposal_id
                <= plen,
{
    assert forall|j: int|
        0 <= j < post.len() implies 1 <= (#[trigger] post[j]).proposal_id && post[j].proposal_id
        <= plen by {
        let oid = post[j].proposal_id;
        assert(has_entry(post, oid));
        assert(oid != id);
        assert(has_entry(pre, oid));
        let w = choose|w: int| 0 <= w < pre.len() && pre[w].proposal_id == oid;
        assert(1 <= pre[w].proposal_id && pre[w].proposal_id <= plen);
    }
}

/// The whole persisted state of the treasury: the signer registry's
/// configuration, the proposal table keyed by id, the timelock scheduler,
/// and the account holding the executor capability.
///
/// Proposal ids start at 1 and grow by one per submission; proposal `id`
/// lives at table index `id - 1` and is never deleted.
pub struct MultisigTreasuryContract {
    pub config: Option<TreasuryConfig>,
    pub executor: Option<AccountId>,
    pub scheduler: Option<TimelockScheduler>,
    pub proposals: Vec<Proposal>,
}

impl MultisigTreasuryContract {
    /// Whether `initialize` has run.
    pub open spec fn is_initialized(self) -> bool {
        self.config is Some
    }

    /// The configuration; meaningful only once initialized.
    pub open spec fn cfg(self) -> TreasuryConfig {
        self.config->0
    }

    /// The scheduler; meaningful only once initialized.
    pub open spec fn sched(self) -> TimelockScheduler {
        self.scheduler->0
    }

    /// The queued timelock entries (none before initialization).
    pub open spec fn entries_seq(self) -> Seq<TimelockEntry> {
        if self.scheduler is Some {
            self.sched().entries@
        } else {
            Seq::empty()
        }
    }

    /// Whether `id` names a proposal.
    pub open spec fn valid_id(self, id: u64) -> bool {
        1 <= id <= self.proposals@.len()
    }

    /// The proposal named by `id`.
    pub open spec fn proposal_of(self, id: u64) -> Proposal {
        self.proposals@[id - 1]
    }

    /// The contract invariant, established by `new` and preserved by every
    /// operation:
    /// - initialization sets config, executor and scheduler together;
    /// - the registry invariant `1 <= required <= |signers|` holds;
    /// - the scheduler's window bounds satisfy `1 <= floor <= ceiling`;
    /// - proposal `id` sits at index `id - 1`, is well-formed, and is in
    ///   the `Queued` status exactly when the scheduler holds an entry for
    ///   it, an entry whose window contains its queueing time.
    pub open spec fn inv(self) -> bool {
        &&& (self.config is Some <==> self.executor is Some)
        &&& (self.config is Some <==> self.scheduler is Some)
        &&& (!self.is_initialized() ==> self.proposals@.len() == 0)
        &&& (self.is_initialized() ==> {
            &&& self.cfg().wf()
            &&& 1 <= self.sched().min_delay_floor
            &&& self.sched().min_delay_floor <= self.sched().max_delay_ceiling
            &&& self.sched().inv()
        })
        &&& forall|i: int|
            0 <= i < self.proposals@.len() ==> {
                &&& (#[trigger] self.proposals@[i]).id == i + 1
                &&& self.proposals@[i].wf()
                &&& (self.proposals@[i].status is Queued <==> has_entry(
                    self.entries_seq(),
                    (i + 1) as u64,
                ))
            }
        &&& forall|j: int|
            0 <= j < self.entries_seq().len() ==> {
                &&& 1 <= (#[trigger] self.entries_seq()[j]).proposal_id
                &&& self.entries_seq()[j].proposal_id <= self.proposals@.len()
            }
    }

    /// A freshly deployed, uninitialized treasury.
    pub fn new() -> (r: MultisigTreasuryContract)
        ensures
            r.inv(),
            !r.is_initialized(),
            r.proposals@.len() == 0,
    {
        MultisigTreasuryContract {
            config: None,
            executor: None,
            scheduler: None,
            proposals: Vec::new(),
        }
    }

    /// The reason `initialize` rejects, if any: a second initialization, a
    /// threshold of zero or above the signer count, a repeated signer, or a
    /// delay window with a zero bound or a minimum above its maximum.
    pub open spec fn spec_initialize_error(
        self,
        signers: Seq<AccountId>,
        required: u32,
        min_delay: u64,
        max_delay: u64,
    ) -> Option<Error> {
        if self.is_initialized() {
            Some(Error::AlreadyInitialized)
        } else if required == 0 || required > signers.len() {
            Some(Error::InvalidThreshold)
        } else if !signers.no_duplicates() {
            Some(Error::DuplicateSigner)
        } else if min_delay == 0 || max_delay == 0 || min_delay > max_delay {
            Some(Error::InvalidDelay)
        } else {
            None
        }
    }

    /// Install the singleton configuration: the admin, the signer set, the
    /// approval threshold, the account holding the executor capability, and
    /// the timelock window served by every queued action. Runs at most once
    /// per instance; a second call fails with `AlreadyInitialized` and
    /// leaves the original configuration untouched.
    pub fn initialize(
        &mut self,
        admin: AccountId,
        signers: Vec<AccountId>,
        required: u32,
        executor: AccountId,
        min_delay: u64,
        max_delay: u64,
    ) -> (r: Result<(), Error>)
        requires
            old(self).inv(),
        ensures
            final(self).inv(),
            r is Ok <==> old(self).spec_initialize_error(
                signers@,
                required,
                min_delay,
                max_delay,
            ) is None,
            r matches Err(e) ==> Some(e) == old(self).spec_initialize_error(
                signers@,
                required,
                min_delay,
                max_delay,
            ) && *final(self) == *old(self),
            r is Ok ==> {
                &&& final(self).is_initialized()
                &&& final(self).cfg().admin == admin
                &&& final(self).cfg().signers@ == signers@
                &&& final(self).cfg().required == required
                &&& final(self).executor == Some(executor)
                &&& final(self).sched().min_delay_floor == min_delay
                &&& final(self).sched().max_delay_ceiling == max_delay
                &&& final(self).entries_seq().len() == 0
                &&& final(self).proposals@ == old(self).proposals@
            },
    {
        if self.config.is_some() {
            return Err(Error::AlreadyInitialized);
        }
        if required == 0 || (required as usize) > signers.len() {
            return Err(Error::InvalidThreshold);
        }
        if accounts_have_duplicate(&signers) {
            return Err(Error::DuplicateSigner);
        }
        if min_delay == 0 || max_delay == 0 || min_delay > max_delay {
            return Err(Error::InvalidDelay);
        }
        self.config = Some(TreasuryConfig { admin, signers, required });
        self.executor = Some(executor);
        self.scheduler = Some(TimelockScheduler::new(min_delay, max_delay));
        Ok(())
    }

    /// The admin of an initialized treasury matches `caller`.
    pub open spec fn spec_is_admin(self, caller: AccountId) -> bool {
        self.is_initialized() && self.cfg().admin == caller
    }

    /// The reason `add_signer` rejects, if any.
    pub open spec fn spec_add_signer_error(self, caller: AccountId, signer: AccountId) -> Option<
        Error,
    > {
        if !self.is_initialized() {
            Some(Error::NotFound)
        } else if self.cfg().admin != caller {
            Some(Error::Unauthorized)
        } else if self.cfg().signers@.contains(signer) {
            Some(Error::DuplicateSigner)
        } else {
            None
        }
    }

    /// Add `signer` to the active set. Admin only; a signer already present
    /// is reported as `DuplicateSigner`.
    pub fn add_signer(&mut self, caller: AccountId, signer: AccountId) -> (r: Result<(), Error>)
        requires
            old(self).inv(),
        ensures
            final(self).inv(),
            r is Ok <==> old(self).spec_add_signer_error(caller, signer) is None,
            r matches Err(e) ==> Some(e) == old(self).spec_add_signer_error(caller, signer)
                && *final(self) == *old(self),
            r is Ok ==> {
                &&& final(self).cfg().signers@ == old(self).cfg().signers@.push(signer)
                &&& final(self).cfg().admin == old(self).cfg().admin
                &&& final(self).cfg().required == old(self).cfg().required
                &&& final(self).executor == old(self).executor
                &&& final(self).scheduler == old(self).scheduler
                &&& final(self).proposals@ == old(self).proposals@
            },
    {
        let r = match &mut self.config {
            None => Err(Error::NotFound),
            Some(cfg) => {
                if cfg.admin != caller {
                    Err(Error::Unauthorized)
                } else if accounts_contain(&cfg.signers, signer) {
                    Err(Error::DuplicateSigner)
                } else {
                    cfg.signers.push(signer);
                    Ok(())
                }
            },
        };
        proof {
            assert(self.entries_seq() =~= old(self).entries_seq());
            assert(self.proposals@ =~= old(self).proposals@);
        }
        r
    }

    /// The reason `remove_signer` rejects, if any: an unknown signer is
    /// `NotFound`, and a removal that would leave fewer signers than the
    /// threshold is `ThresholdViolation`.
    pub open spec fn spec_remove_signer_error(self, caller: AccountId, signer: AccountId) -> Option<
        Error,
    > {
        if !self.is_initialized() {
            Some(Error::NotFound)
        } else if self.cfg().admin != caller {
            Some(Error::Unauthorized)
        } else if !self.cfg().signers@.contains(signer) {
            Some(Error::NotFound)
        } else if self.cfg().required > self.cfg().signers@.len() - 1 {
            Some(Error::ThresholdViolation)
        } else {
            None
        }
    }

    /// Remove `signer` from the active set. Admin only; rejected where the
    /// remaining signers could no longer meet the threshold. Approvals the
    /// signer already gave are historical facts and stay counted.
    pub fn remove_signer(&mut self, caller: AccountId, signer: AccountId) -> (r: Result<(), Error>)
        requires
            old(self).inv(),
        ensures
            final(self).inv(),
            r is Ok <==> old(self).spec_remove_signer_error(caller, signer) is None,
            r matches Err(e) ==> Some(e) == old(self).spec_remove_signer_error(caller, signer)
                && *final(self) == *old(self),
            r is Ok ==> {
                &&& exists|k: int|
                    0 <= k < old(self).cfg().signers@.len() && old(self).cfg().signers@[k]
                        == signer && final(self).cfg().signers@ == old(self).cfg().signers@.remove(k)
                &&& !final(self).cfg().signers@.contains(signer)
                &&& final(self).cfg().admin == old(self).cfg().admin
                &&& final(self).cfg().required == old(self).cfg().required
                &&& final(self).executor == old(self).executor
                &&& final(self).scheduler == old(self).scheduler
                &&& final(self).proposals@ == old(self).proposals@
            },
    {
        let r = match &mut self.config {
            None => Err(Error::NotFound),
            Some(cfg) => {
                if cfg.admin != caller {
                    Err(Error::Unauthorized)
                } else if !accounts_contain(&cfg.signers, signer) {
                    Err(Error::NotFound)
                } else if cfg.required as usize > cfg.signers.len() - 1 {
                    Err(Error::ThresholdViolation)
                } else {
                    let ghost pre = cfg.signers@;
                    let k = accounts_index_of(&cfg.signers, signer);
                    cfg.signers.remove(k);
                    proof {
                        let post = cfg.signers@;
                        assert forall|j: int| 0 <= j < post.len() implies post[j] != signer by {
                            if j < k {
                                assert(post[j] == pre[j]);
                                assert(pre[j] != signer || pre[k as int] != signer || j == k);
                            } else {
                                assert(post[j] == pre[j + 1]);
                            }
                        }
                    }
                    Ok(())
                }
            },
        };
        proof {
            assert(self.entries_seq() =~= old(self).entries_seq());
            assert(self.proposals@ =~= old(self).proposals@);
        }
        r
    }

    /// The reason `set_threshold` rejects, if any.
    pub open spec fn spec_set_threshold_error(self, caller: AccountId, required: u32) -> Option<
        Error,
    > {
        if !self.is_initialized() {
            Some(Error::NotFound)
        } else if self.cfg().admin != caller {
            Some(Error::Unauthorized)
        } else if required == 0 || required > self.cfg().signers@.len() {
            Some(Error::InvalidThreshold)
        } else {
            None
        }
    }

    /// Set the approval threshold. Admin only; bounded by the signer count
    /// on both sides, so the registry invariant can never be broken.
    pub fn set_threshold(&mut self, caller: AccountId, required: u32) -> (r: Result<(), Error>)
        requires
            old(self).inv(),
        ensures
            final(self).inv(),
            r is Ok <==> old(self).spec_set_threshold_error(caller, required) is None,
            r matches Err(e) ==> Some(e) == old(self).spec_set_threshold_error(caller, required)
                && *final(self) == *old(self),
            r is Ok ==> {
                &&& final(self).cfg().required == required
                &&& final(self).cfg().admin == old(self).cfg().admin
                &&& final(self).cfg().signers@ == old(self).cfg().signers@
                &&& final(self).executor == old(self).executor
                &&& final(self).scheduler == old(self).scheduler
                &&& final(self).proposals@ == old(self).proposals@
            },
    {
        let r = match &mut self.config {
            None => Err(Error::NotFound),
            Some(cfg) => {
                if cfg.admin != caller {
                    Err(Error::Unauthorized)
                } else if required == 0 || required as usize > cfg.signers.len() {
                    Err(Error::InvalidThreshold)
                } else {
                    cfg.required = required;
                    Ok(())
                }
            },
        };
        proof {
            assert(self.entries_seq() =~= old(self).entries_seq());
            assert(self.proposals@ =~= old(self).proposals@);
        }
        r
    }

    /// Whether `account` is an active signer. Read-only, no authorization.
    pub fn is_signer(&self, account: AccountId) -> (r: bool)
        ensures
            r == (self.is_initialized() && self.cfg().signers@.contains(account)),
    {
        match &self.config {
            None => false,
            Some(cfg) => accounts_contain(&cfg.signers, account),
        }
    }

    /// The configuration. Read-only; `NotFound` before initialization.
    pub fn get_config(&self) -> (r: Result<&TreasuryConfig, Error>)
        ensures
            r is Ok <==> self.is_initialized(),
            r matches Ok(c) ==> *c == self.cfg(),
            r is Err ==> r == Err::<&TreasuryConfig, Error>(Error::NotFound),
    {
        match &self.config {
            None => Err(Error::NotFound),
            Some(cfg) => Ok(cfg),
        }
    }

    /// In every reachable initialized state the registry invariant holds:
    /// the threshold lies between 1 and the number of distinct signers.
    /// `initialize` establishes it, and any later `set_threshold` or
    /// `remove_signer` that would break it is rejected with its state
    /// untouched.
    pub proof fn lemma_threshold_within_signers(t: MultisigTreasuryContract)
        requires
            t.inv(),
            t.is_initialized(),
        ensures
            1 <= t.cfg().required,
            t.cfg().required <= t.cfg().signer_set().len(),
            t.cfg().signer_set().len() == t.cfg().signers@.len(),
    {
        t.cfg().signers@.unique_seq_to_set();
    }

    /// Proposals in a terminal status are permanent: whatever `pre` settled
    /// (executed, cancelled or expired) stands unchanged in `post`. Every
    /// mutating operation ensures this relation between its old and new
    /// state, which is what makes cancellation and execution irrevocable.
    pub open spec fn keeps_settled_proposals(
        pre: MultisigTreasuryContract,
        post: MultisigTreasuryContract,
    ) -> bool {
        forall|i: int|
            0 <= i < pre.proposals@.len() && (#[trigger] pre.proposals@[i]).status.is_terminal()
                ==> i < post.proposals@.len() && post.proposals@[i] == pre.proposals@[i]
    }

    /// The reason `submit` rejects, if any.
    pub open spec fn spec_submit_error(self, signer: AccountId, amount: i128) -> Option<Error> {
        if !self.is_initialized() {
            Some(Error::NotFound)
        } else if !self.cfg().signers@.contains(signer) {
            Some(Error::Unauthorized)
        } else if amount <= 0 {
            Some(Error::InvalidAmount)
        } else {
            None
        }
    }

    /// Submit a proposal to move `amount` to `recipient`. Only an active
    /// signer may submit, and the amount must be strictly positive. The new
    /// proposal starts `Pending` with the submitter's own approval already
    /// counted — submitting is approving.
    pub fn submit(
        &mut self,
        signer: AccountId,
        recipient: AccountId,
        amount: i128,
        now: u64,
    ) -> (r: Result<u64, Error>)
        requires
            old(self).inv(),
            old(self).proposals@.len() < u64::MAX,
        ensures
            final(self).inv(),
            Self::keeps_settled_proposals(*old(self), *final(self)),
            r is Ok <==> old(self).spec_submit_error(signer, amount) is None,
            r matches Err(e) ==> Some(e) == old(self).spec_submit_error(signer, amount) && *final(self) == *old(self),
            r matches Ok(id) ==> {
                &&& id == old(self).proposals@.len() + 1
                &&& final(self).proposals@.len() == old(self).proposals@.len() + 1
                &&& forall|i: int|
                    0 <= i < old(self).proposals@.len() ==> final(self).proposals@[i] == old(self).proposals@[i]
                &&& final(self).proposal_of(id).id == id
                &&& final(self).proposal_of(id).recipient == recipient
                &&& final(self).proposal_of(id).amount == amount
                &&& final(self).proposal_of(id).created_at == now
                &&& final(self).proposal_of(id).approvals@ =~= seq![signer]
                &&& final(self).proposal_of(id).status is Pending
                &&& final(self).config == old(self).config
                &&& final(self).executor == old(self).executor
                &&& final(self).scheduler == old(self).scheduler
            },
    {
        if self.config.is_none() {
            return Err(Error::NotFound);
        }
        if !self.is_signer(signer) {
            return Err(Error::Unauthorized);
        }
        if amount <= 0 {
            return Err(Error::InvalidAmount);
        }
        let id = (self.proposals.len() as u64) + 1;
        let mut approvals: Vec<AccountId> = Vec::new();
        approvals.push(signer);
        let p = Proposal {
            id,
            recipient,
            amount,
            created_at: now,
            approvals,
            status: ProposalStatus::Pending,
        };
        self.proposals.push(p);
        proof {
            assert(self.entries_seq() =~= old(self).entries_seq());
            assert(!has_entry(self.entries_seq(), id));
        }
        Ok(id)
    }

    /// The reason `approve` rejects, if any: an unknown id is `NotFound`, a
    /// non-signer is `Unauthorized`, an executed proposal is
    /// `AlreadyExecuted`, and any other non-`Pending` status is
    /// `InvalidState`.
    pub open spec fn spec_approve_error(self, signer: AccountId, id: u64) -> Option<Error> {
        if !self.is_initialized() {
            Some(Error::NotFound)
        } else if !self.cfg().signers@.contains(signer) {
            Some(Error::Unauthorized)
        } else if !self.valid_id(id) {
            Some(Error::NotFound)
        } else if self.proposal_of(id).status is Executed {
            Some(Error::AlreadyExecuted)
        } else if !(self.proposal_of(id).status is Pending) {
            Some(Error::InvalidState)
        } else {
            None
        }
    }

    /// Whether this approval completes the quorum: with `signer` counted,
    /// the distinct approvals reach the threshold.
    pub open spec fn spec_quorum_reached(self, signer: AccountId, id: u64) -> bool {
        self.proposal_of(id).approvals@.len() + 1 >= self.cfg().required
    }

    /// Approve proposal `id`. A repeated approval by the same signer is a
    /// no-op: it succeeds and changes nothing, so no signer is ever counted
    /// twice. A fresh approval adds exactly one entry to the tally; the
    /// moment the tally reaches the threshold, the proposal is atomically
    /// queued behind the configured timelock window starting at `now` —
    /// quorum reached but not queued is not an observable state.
    pub fn approve(&mut self, signer: AccountId, proposal_id: u64, now: u64) -> (r: Result<
        (),
        Error,
    >)
        requires
            old(self).inv(),
            old(self).is_initialized() ==> now + old(self).sched().max_delay_ceiling <= u64::MAX,
        ensures
            final(self).inv(),
            Self::keeps_settled_proposals(*old(self), *final(self)),
            r is Ok <==> old(self).spec_approve_error(signer, proposal_id) is None,
            r matches Err(e) ==> Some(e) == old(self).spec_approve_error(signer, proposal_id)
                && *final(self) == *old(self),
            r is Ok && old(self).proposal_of(proposal_id).approvals@.contains(signer) ==> *final(self) == *old(self),
            r is Ok && !old(self).proposal_of(proposal_id).approvals@.contains(signer) ==> {
                &&& final(self).proposal_of(proposal_id).approvals@ == old(self).proposal_of(
                    proposal_id,
                ).approvals@.push(signer)
                &&& final(self).proposal_of(proposal_id).status == (if old(self).spec_quorum_reached(signer, proposal_id) {
                    ProposalStatus::Queued
                } else {
                    ProposalStatus::Pending
                })
                &&& final(self).proposal_of(proposal_id).id == old(self).proposal_of(
                    proposal_id,
                ).id
                &&& final(self).proposal_of(proposal_id).recipient == old(self).proposal_of(
                    proposal_id,
                ).recipient
                &&& final(self).proposal_of(proposal_id).amount == old(self).proposal_of(
                    proposal_id,
                ).amount
                &&& final(self).proposal_of(proposal_id).created_at == old(self).proposal_of(
                    proposal_id,
                ).created_at
                &&& final(self).proposals@.len() == old(self).proposals@.len()
                &&& forall|i: int|
                    0 <= i < old(self).proposals@.len() && i != proposal_id - 1 ==> final(self).proposals@[i] == old(self).proposals@[i]
                &&& final(self).config == old(self).config
                &&& final(self).executor == old(self).executor
                &&& final(self).sched().min_delay_floor == old(self).sched().min_delay_floor
                &&& final(self).sched().max_delay_ceiling == old(self).sched().max_delay_ceiling
                &&& old(self).spec_quorum_reached(signer, proposal_id) ==> {
                    &&& has_entry(final(self).entries_seq(), proposal_id)
                    &&& entry_at(final(self).entries_seq(), proposal_id) == (TimelockEntry {
                        proposal_id,
                        queued_at: now,
                        eta: (now + old(self).sched().min_delay_floor) as u64,
                        expiry: (now + old(self).sched().max_delay_ceiling) as u64,
                    })
                    &&& forall|oid: u64| oid != proposal_id
                        ==> #[trigger] has_entry(final(self).entries_seq(), oid) == has_entry(
                        old(self).entries_seq(),
                        oid,
                    )
                }
                &&& !old(self).spec_quorum_reached(signer, proposal_id) ==> final(self).scheduler
                    == old(self).scheduler
            },
    {
        if self.config.is_none() {
            return Err(Error::NotFound);
        }
        if !self.is_signer(signer) {
            return Err(Error::Unauthorized);
        }
        if proposal_id < 1 || proposal_id > (self.proposals.len() as u64) {
            return Err(Error::NotFound);
        }
        let idx = (proposal_id - 1) as usize;
        match self.proposals[idx].status {
            ProposalStatus::Executed => {
                return Err(Error::AlreadyExecuted);
            },
            ProposalStatus::Pending => {},
            _ => {
                return Err(Error::InvalidState);
            },
        }
        if accounts_contain(&self.proposals[idx].approvals, signer) {
            return Ok(());
        }
        let required = match &self.config {
            Some(cfg) => cfg.required,
            None => unreached(),
        };
        let p = &mut self.proposals[idx];
        p.approvals.push(signer);
        let quorum = p.approvals.len() >= required as usize;
        if quorum {
            p.status = ProposalStatus::Queued;
            let floor = match &self.scheduler {
                Some(s) => s.min_delay_floor,
                None => unreached(),
            };
            let ceiling = match &self.scheduler {
                Some(s) => s.max_delay_ceiling,
                None => unreached(),
            };
            proof {
                assert(self.entries_seq() =~= old(self).entries_seq());
                assert(!has_entry(self.entries_seq(), proposal_id));
            }
            let qr = match &mut self.scheduler {
                Some(s) => s.queue(proposal_id, floor, ceiling, now),
                None => unreached(),
            };
            proof {
                assert(qr is Ok);
            }
        } else {
            proof {
                assert(self.entries_seq() =~= old(self).entries_seq());
            }
        }
        Ok(())
    }

    /// The reason `revoke_approval` rejects, if any: approval is revocable
    /// only while the proposal is still `Pending` — once quorum is reached
    /// the safety guarantee rests on the timelock, not on late revocation.
    pub open spec fn spec_revoke_error(self, id: u64) -> Option<Error> {
        if !self.is_initialized() {
            Some(Error::NotFound)
        } else if !self.valid_id(id) {
            Some(Error::NotFound)
        } else if !(self.proposal_of(id).status is Pending) {
            Some(Error::InvalidState)
        } else {
            None
        }
    }

    /// Remove `signer` from the tally of a still-`Pending` proposal. A
    /// signer who never approved is a no-op. After quorum the tally is
    /// immutable and the call fails with `InvalidState`: approvals are
    /// never un-counted by revocation once the proposal is queued.
    pub fn revoke_approval(&mut self, signer: AccountId, proposal_id: u64) -> (r: Result<
        (),
        Error,
    >)
        requires
            old(self).inv(),
        ensures
            final(self).inv(),
            Self::keeps_settled_proposals(*old(self), *final(self)),
            r is Ok <==> old(self).spec_revoke_error(proposal_id) is None,
            r matches Err(e) ==> Some(e) == old(self).spec_revoke_error(proposal_id) && *final(self) == *old(self),
            r is Ok && !old(self).proposal_of(proposal_id).approvals@.contains(signer) ==> *final(self) == *old(self),
            r is Ok && old(self).proposal_of(proposal_id).approvals@.contains(signer) ==> {
                &&& exists|k: int|
                    0 <= k < old(self).proposal_of(proposal_id).approvals@.len() && old(self).proposal_of(proposal_id).approvals@[k] == signer && final(self).proposal_of(
                        proposal_id,
                    ).approvals@ == old(self).proposal_of(proposal_id).approvals@.remove(k)
                &&& !final(self).proposal_of(proposal_id).approvals@.contains(signer)
                &&& final(self).proposal_of(proposal_id).status is Pending
                &&& final(self).proposal_of(proposal_id).id == old(self).proposal_of(
                    proposal_id,
                ).id
                &&& final(self).proposal_of(proposal_id).recipient == old(self).proposal_of(
                    proposal_id,
                ).recipient
                &&& final(self).proposal_of(proposal_id).amount == old(self).proposal_of(
                    proposal_id,
                ).amount
                &&& final(self).proposal_of(proposal_id).created_at == old(self).proposal_of(
                    proposal_id,
                ).created_at
                &&& final(self).proposals@.len() == old(self).proposals@.len()
                &&& forall|i: int|
                    0 <= i < old(self).proposals@.len() && i != proposal_id - 1 ==> final(self).proposals@[i] == old(self).proposals@[i]
                &&& final(self).config == old(self).config
                &&& final(self).executor == old(self).executor
                &&& final(self).scheduler == old(self).scheduler
            },
    {
        if self.config.is_none() {
            return Err(Error::NotFound);
        }
        if proposal_id < 1 || proposal_id > (self.proposals.len() as u64) {
            return Err(Error::NotFound);
        }
        let idx = (proposal_id - 1) as usize;
        match self.proposals[idx].status {
            ProposalStatus::Pending => {},
            _ => {
                return Err(Error::InvalidState);
            },
        }
        if !accounts_contain(&self.proposals[idx].approvals, signer) {
            return Ok(());
        }
        let p = &mut self.proposals[idx];
        let ghost pre = p.approvals@;
        let k = accounts_index_of(&p.approvals, signer);
        p.approvals.remove(k);
        proof {
            let post = p.approvals@;
            assert forall|j: int| 0 <= j < post.len() implies post[j] != signer by {
                if j < k {
                    assert(post[j] == pre[j]);
                } else {
                    assert(post[j] == pre[j + 1]);
                }
            }
            assert(post.no_duplicates()) by {
                assert forall|a: int, b: int| 0 <= a < b < post.len() implies post[a] != post[b] by {
                    if b < k {
                    } else if a < k {
                        assert(post[b] == pre[b + 1]);
                    } else {
                        assert(post[a] == pre[a + 1] && post[b] == pre[b + 1]);
                    }
                }
            }
        }
        proof {
            assert(self.entries_seq() =~= old(self).entries_seq());
        }
        Ok(())
    }

    /// The reason `cancel` rejects, if any: only the admin may cancel, and
    /// only a proposal that has not yet settled — `Pending` or `Queued`.
    pub open spec fn spec_cancel_error(self, caller: AccountId, id: u64) -> Option<Error> {
        if !self.is_initialized() {
            Some(Error::NotFound)
        } else if self.cfg().admin != caller {
            Some(Error::Unauthorized)
        } else if !self.valid_id(id) {
            Some(Error::NotFound)
        } else if self.proposal_of(id).status is Executed {
            Some(Error::AlreadyExecuted)
        } else if !(self.proposal_of(id).status is Pending || self.proposal_of(id).status
            is Queued) {
            Some(Error::InvalidState)
        } else {
            None
        }
    }

    /// Cancel proposal `id` before execution. Admin only. The proposal
    /// becomes `Cancelled` — permanently non-executable, whatever its
    /// quorum state — and a queued timelock entry is discarded.
    pub fn cancel(&mut self, caller: AccountId, proposal_id: u64) -> (r: Result<(), Error>)
        requires
            old(self).inv(),
        ensures
            final(self).inv(),
            Self::keeps_settled_proposals(*old(self), *final(self)),
            r is Ok <==> old(self).spec_cancel_error(caller, proposal_id) is None,
            r matches Err(e) ==> Some(e) == old(self).spec_cancel_error(caller, proposal_id)
                && *final(self) == *old(self),
            r is Ok ==> {
                &&& final(self).proposal_of(proposal_id).status is Cancelled
                &&& final(self).proposal_of(proposal_id).id == old(self).proposal_of(
                    proposal_id,
                ).id
                &&& final(self).proposal_of(proposal_id).recipient == old(self).proposal_of(
                    proposal_id,
                ).recipient
                &&& final(self).proposal_of(proposal_id).amount == old(self).proposal_of(
                    proposal_id,
                ).amount
                &&& final(self).proposal_of(proposal_id).created_at == old(self).proposal_of(
                    proposal_id,
                ).created_at
                &&& final(self).proposal_of(proposal_id).approvals@ == old(self).proposal_of(
                    proposal_id,
                ).approvals@
                &&& final(self).proposals@.len() == old(self).proposals@.len()
                &&& forall|i: int|
                    0 <= i < old(self).proposals@.len() && i != proposal_id - 1 ==> final(self).proposals@[i] == old(self).proposals@[i]
                &&& !has_entry(final(self).entries_seq(), proposal_id)
                &&& forall|oid: u64| oid != proposal_id
                    ==> #[trigger] has_entry(final(self).entries_seq(), oid) == has_entry(
                    old(self).entries_seq(),
                    oid,
                )
                &&& final(self).config == old(self).config
                &&& final(self).executor == old(self).executor
                &&& final(self).sched().min_delay_floor == old(self).sched().min_delay_floor
                &&& final(self).sched().max_delay_ceiling == old(self).sched().max_delay_ceiling
            },
    {
        if self.config.is_none() {
            return Err(Error::NotFound);
        }
        let admin = match &self.config {
            Some(cfg) => cfg.admin,
            None => unreached(),
        };
        if admin != caller {
            return Err(Error::Unauthorized);
        }
        if proposal_id < 1 || proposal_id > (self.proposals.len() as u64) {
            return Err(Error::NotFound);
        }
        let idx = (proposal_id - 1) as usize;
        let was_queued: bool;
        match self.proposals[idx].status {
            ProposalStatus::Pending => {
                was_queued = false;
            },
            ProposalStatus::Queued => {
                was_queued = true;
            },
            ProposalStatus::Executed => {
                return Err(Error::AlreadyExecuted);
            },
            _ => {
                return Err(Error::InvalidState);
            },
        }
        let p = &mut self.proposals[idx];
        p.status = ProposalStatus::Cancelled;
        if was_queued {
            let cr = match &mut self.scheduler {
                Some(s) => s.cancel(proposal_id),
                None => unreached(),
            };
            proof {
                assert(cr is Ok);
                lemma_entry_bounds_after_removal(
                    old(self).entries_seq(),
                    self.entries_seq(),
                    proposal_id,
                    old(self).proposals@.len(),
                );
            }
        } else {
            proof {
                assert(self.entries_seq() =~= old(self).entries_seq());
                assert(!has_entry(self.entries_seq(), proposal_id));
            }
        }
        Ok(())
    }

    /// The reason `execute` rejects, if any. `TimelockNotReady` asks the
    /// caller to retry once `eta` has passed; `TimelockExpired` is final
    /// and, alone among errors, leaves a mark: the proposal is recorded as
    /// `Expired`.
    pub open spec fn spec_execute_error(self, caller: AccountId, id: u64, now: u64) -> Option<
        Error,
    > {
        if !self.is_initialized() {
            Some(Error::NotFound)
        } else if self.executor != Some(caller) {
            Some(Error::Unauthorized)
        } else if !self.valid_id(id) {
            Some(Error::NotFound)
        } else if self.proposal_of(id).status is Executed {
            Some(Error::AlreadyExecuted)
        } else if !(self.proposal_of(id).status is Queued) {
            Some(Error::InvalidState)
        } else if now < entry_at(self.entries_seq(), id).eta {
            Some(Error::TimelockNotReady)
        } else if now >= entry_at(self.entries_seq(), id).expiry {
            Some(Error::TimelockExpired)
        } else {
            None
        }
    }

    /// Execute a queued, ready proposal. Only the executor capability may
    /// call this. It fails with `TimelockNotReady` for any `now` before
    /// `eta`, succeeds for `eta <= now < expiry`, and fails with
    /// `TimelockExpired` for `now >= expiry`, in which case the proposal is
    /// recorded as `Expired` and is permanently non-executable.
    ///
    /// On success the proposal is marked `Executed` — exactly once: the
    /// transition out of `Queued` consumes the timelock entry, so a second
    /// call for the same id fails with `AlreadyExecuted` and never moves
    /// funds twice. The returned `Transfer` is the fund-moving call the
    /// host must now perform; if the host's transfer fails, the host
    /// discards the whole transaction, leaving the proposal queued and
    /// retryable.
    pub fn execute(&mut self, caller: AccountId, proposal_id: u64, now: u64) -> (r: Result<
        Transfer,
        Error,
    >)
        requires
            old(self).inv(),
        ensures
            final(self).inv(),
            Self::keeps_settled_proposals(*old(self), *final(self)),
            r is Ok <==> old(self).spec_execute_error(caller, proposal_id, now) is None,
            r matches Err(e) ==> Some(e) == old(self).spec_execute_error(caller, proposal_id, now),
            r matches Err(e) && e != Error::TimelockExpired ==> *final(self) == *old(self),
            r == Err::<Transfer, Error>(Error::TimelockExpired) || r is Ok ==> {
                &&& final(self).proposal_of(proposal_id).status == (if r is Ok {
                    ProposalStatus::Executed
                } else {
                    ProposalStatus::Expired
                })
                &&& final(self).proposal_of(proposal_id).id == old(self).proposal_of(
                    proposal_id,
                ).id
                &&& final(self).proposal_of(proposal_id).recipient == old(self).proposal_of(
                    proposal_id,
                ).recipient
                &&& final(self).proposal_of(proposal_id).amount == old(self).proposal_of(
                    proposal_id,
                ).amount
                &&& final(self).proposal_of(proposal_id).created_at == old(self).proposal_of(
                    proposal_id,
                ).created_at
                &&& final(self).proposal_of(proposal_id).approvals@ == old(self).proposal_of(
                    proposal_id,
                ).approvals@
                &&& final(self).proposals@.len() == old(self).proposals@.len()
                &&& forall|i: int|
                    0 <= i < old(self).proposals@.len() && i != proposal_id - 1 ==> final(self).proposals@[i] == old(self).proposals@[i]
                &&& !has_entry(final(self).entries_seq(), proposal_id)
                &&& forall|oid: u64| oid != proposal_id
                    ==> #[trigger] has_entry(final(self).entries_seq(), oid) == has_entry(
                    old(self).entries_seq(),
                    oid,
                )
                &&& final(self).config == old(self).config
                &&& final(self).executor == old(self).executor
            },
            r matches Ok(t) ==> t == (Transfer {
                recipient: old(self).proposal_of(proposal_id).recipient,
                amount: old(self).proposal_of(proposal_id).amount,
            }),
    {
        if self.config.is_none() {
            return Err(Error::NotFound);
        }
        let executor = match &self.executor {
            Some(e) => *e,
            None => unreached(),
        };
        if executor != caller {
            return Err(Error::Unauthorized);
        }
        if proposal_id < 1 || proposal_id > (self.proposals.len() as u64) {
            return Err(Error::NotFound);
        }
        let idx = (proposal_id - 1) as usize;
        match self.proposals[idx].status {
            ProposalStatus::Executed => {
                return Err(Error::AlreadyExecuted);
            },
            ProposalStatus::Queued => {},
            _ => {
                return Err(Error::InvalidState);
            },
        }
        let (eta, expiry): (u64, u64) = match &self.scheduler {
            Some(s) => {
                match s.lookup(proposal_id) {
                    Some(e) => (e.eta, e.expiry),
                    None => unreached(),
                }
            },
            None => unreached(),
        };
        if now < eta {
            return Err(Error::TimelockNotReady);
        }
        if now >= expiry {
            let p = &mut self.proposals[idx];
            p.status = ProposalStatus::Expired;
            let cr = match &mut self.scheduler {
                Some(s) => s.cancel(proposal_id),
                None => unreached(),
            };
            proof {
                assert(cr is Ok);
                lemma_entry_bounds_after_removal(
                    old(self).entries_seq(),
                    self.entries_seq(),
                    proposal_id,
                    old(self).proposals@.len(),
                );
            }
            return Err(Error::TimelockExpired);
        }
        let recipient = self.proposals[idx].recipient;
        let amount = self.proposals[idx].amount;
        let p = &mut self.proposals[idx];
        p.status = ProposalStatus::Executed;
        let cr = match &mut self.scheduler {
            Some(s) => s.cancel(proposal_id),
            None => unreached(),
        };
        proof {
            assert(cr is Ok);
            lemma_entry_bounds_after_removal(
                old(self).entries_seq(),
                self.entries_seq(),
                proposal_id,
                old(self).proposals@.len(),
            );
        }
        Ok(Transfer { recipient, amount })
    }

    /// The proposal named by `id`. Read-only; `NotFound` for an unknown id.
    pub fn get_proposal(&self, id: u64) -> (r: Result<&Proposal, Error>)
        ensures
            r is Ok <==> self.valid_id(id),
            r matches Ok(p) ==> *p == self.proposal_of(id),
            r is Err ==> r == Err::<&Proposal, Error>(Error::NotFound),
    {
        if id >= 1 && id <= (self.proposals.len() as u64) {
            Ok(&self.proposals[(id - 1) as usize])
        } else {
            Err(Error::NotFound)
        }
    }
}

} // verus!
