use pulsar_governance::account::AccountId;
use pulsar_governance::errors::Error;
use pulsar_governance::proposals::ProposalStatus;
use pulsar_governance::treasury::MultisigTreasuryContract;

fn acct(id: u64) -> AccountId {
    AccountId::new(id)
}

fn fresh_treasury(
    admin: u64,
    signers: &[u64],
    required: u32,
    executor: u64,
    min_delay: u64,
    max_delay: u64,
) -> MultisigTreasuryContract {
    let mut t = MultisigTreasuryContract::new();
    let signer_accounts: Vec<AccountId> = signers.iter().map(|s| acct(*s)).collect();
    t.initialize(acct(admin), signer_accounts, required, acct(executor), min_delay, max_delay)
        .unwrap();
    t
}

#[test]
fn test_initialize() {
    let mut t = MultisigTreasuryContract::new();
    let admin = acct(1);
    let initial_signers = vec![acct(2)];
    let required = 1u32;
    let r = t.initialize(admin, initial_signers, required, acct(3), 1, 1);
    assert!(r.is_ok());
    let cfg = t.get_config().unwrap();
    assert_eq!(cfg.admin, admin);
    assert_eq!(cfg.required, 1);
    assert_eq!(cfg.signers.len(), 1);
}

#[test]
fn test_initialize_timelock_window() {
    let mut t = MultisigTreasuryContract::new();
    let admin = acct(1);
    let executor = acct(2);
    let min_delay_secs = 1u64;
    let max_delay_secs = 1u64;
    let r = t.initialize(admin, vec![acct(3)], 1, executor, min_delay_secs, max_delay_secs);
    assert!(r.is_ok());
}

#[test]
fn test_initialize_twice() {
    let mut t = MultisigTreasuryContract::new();
    let admin = acct(1);
    assert!(t.initialize(admin, vec![acct(2)], 1, acct(3), 1, 1).is_ok());
    let r = t.initialize(acct(9), vec![acct(8)], 1, acct(7), 5, 9);
    assert_eq!(r, Err(Error::AlreadyInitialized));
    // The original configuration is untouched.
    let cfg = t.get_config().unwrap();
    assert_eq!(cfg.admin, admin);
    assert_eq!(cfg.required, 1);
    assert_eq!(cfg.signers, vec![acct(2)]);
}

#[test]
fn test_initialize_invalid_threshold() {
    let mut t = MultisigTreasuryContract::new();
    let r = t.initialize(acct(1), vec![acct(2), acct(3)], 0, acct(4), 1, 1);
    assert_eq!(r, Err(Error::InvalidThreshold));
    let r = t.initialize(acct(1), vec![acct(2), acct(3)], 3, acct(4), 1, 1);
    assert_eq!(r, Err(Error::InvalidThreshold));
    let r = t.initialize(acct(1), vec![acct(2), acct(3)], 2, acct(4), 1, 1);
    assert!(r.is_ok());
}

#[test]
fn test_initialize_duplicate_signer() {
    let mut t = MultisigTreasuryContract::new();
    let r = t.initialize(acct(1), vec![acct(2), acct(3), acct(2)], 2, acct(4), 1, 1);
    assert_eq!(r, Err(Error::DuplicateSigner));
}

#[test]
fn test_initialize_invalid_delay() {
    let mut t = MultisigTreasuryContract::new();
    assert_eq!(t.initialize(acct(1), vec![acct(2)], 1, acct(4), 0, 5), Err(Error::InvalidDelay));
    assert_eq!(t.initialize(acct(1), vec![acct(2)], 1, acct(4), 5, 0), Err(Error::InvalidDelay));
    assert_eq!(t.initialize(acct(1), vec![acct(2)], 1, acct(4), 9, 5), Err(Error::InvalidDelay));
}

#[test]
fn test_submit_approve_execute_flow() {
    // Signers {A, B, C}, required = 2: the submitter counts as the first
    // approval, one more approval reaches quorum and queues the action.
    let (a, b, recipient, executor) = (10u64, 11u64, 50u64, 60u64);
    let mut t = fresh_treasury(1, &[a, b, 12], 2, executor, 10, 100);

    let id = t.submit(acct(a), acct(recipient), 1000, 50).unwrap();
    assert_eq!(id, 1);
    let p = t.get_proposal(id).unwrap();
    assert_eq!(p.status, ProposalStatus::Pending);
    assert_eq!(p.approvals, vec![acct(a)]);

    assert!(t.approve(acct(b), id, 60).is_ok());
    let p = t.get_proposal(id).unwrap();
    assert_eq!(p.status, ProposalStatus::Queued);

    // eta = 60 + 10 = 70: earlier attempts are not ready.
    assert_eq!(t.execute(acct(executor), id, 69), Err(Error::TimelockNotReady));
    let transfer = t.execute(acct(executor), id, 70).unwrap();
    assert_eq!(transfer.recipient, acct(recipient));
    assert_eq!(transfer.amount, 1000);
    assert_eq!(t.get_proposal(id).unwrap().status, ProposalStatus::Executed);
}

#[test]
fn test_execute_exactly_once() {
    let executor = 60u64;
    let mut t = fresh_treasury(1, &[10, 11], 2, executor, 10, 100);
    let id = t.submit(acct(10), acct(50), 777, 0).unwrap();
    t.approve(acct(11), id, 0).unwrap();
    assert!(t.execute(acct(executor), id, 10).is_ok());
    // A second execution never moves funds again.
    assert_eq!(t.execute(acct(executor), id, 11), Err(Error::AlreadyExecuted));
    assert_eq!(t.get_proposal(id).unwrap().status, ProposalStatus::Executed);
}

#[test]
fn test_cancel_after_quorum() {
    // After quorum the admin cancels before eta; execution then fails.
    let executor = 60u64;
    let mut t = fresh_treasury(1, &[10, 11, 12], 2, executor, 10, 100);
    let id = t.submit(acct(10), acct(50), 1000, 0).unwrap();
    t.approve(acct(11), id, 0).unwrap();
    assert_eq!(t.get_proposal(id).unwrap().status, ProposalStatus::Queued);
    assert!(t.cancel(acct(1), id).is_ok());
    assert_eq!(t.get_proposal(id).unwrap().status, ProposalStatus::Cancelled);
    assert_eq!(t.execute(acct(executor), id, 10), Err(Error::InvalidState));
    assert_eq!(t.execute(acct(executor), id, 1000), Err(Error::InvalidState));
}

#[test]
fn test_cancel_pending() {
    let mut t = fresh_treasury(1, &[10, 11], 2, 60, 10, 100);
    let id = t.submit(acct(10), acct(50), 5, 0).unwrap();
    assert!(t.cancel(acct(1), id).is_ok());
    assert_eq!(t.get_proposal(id).unwrap().status, ProposalStatus::Cancelled);
    // A cancelled proposal cannot be approved or cancelled again.
    assert_eq!(t.approve(acct(11), id, 0), Err(Error::InvalidState));
    assert_eq!(t.cancel(acct(1), id), Err(Error::InvalidState));
}

#[test]
fn test_remove_signer_threshold_violation() {
    // required = 2 with signers {A, B}: removing B would leave one signer.
    let mut t = fresh_treasury(1, &[10, 11], 2, 60, 1, 1);
    assert_eq!(t.remove_signer(acct(1), acct(11)), Err(Error::ThresholdViolation));
    // Lowering the threshold first makes the removal legal.
    assert!(t.set_threshold(acct(1), 1).is_ok());
    assert!(t.remove_signer(acct(1), acct(11)).is_ok());
    assert!(!t.is_signer(acct(11)));
    assert!(t.is_signer(acct(10)));
}

#[test]
fn test_timelock_expiry() {
    // expiry = queued_at + max_delay; execution at expiry + 1 reports
    // TimelockExpired and permanently expires the proposal.
    let executor = 60u64;
    let mut t = fresh_treasury(1, &[10, 11], 2, executor, 10, 100);
    let id = t.submit(acct(10), acct(50), 1000, 0).unwrap();
    t.approve(acct(11), id, 7).unwrap();
    // queued_at = 7, expiry = 107.
    assert_eq!(t.execute(acct(executor), id, 108), Err(Error::TimelockExpired));
    assert_eq!(t.get_proposal(id).unwrap().status, ProposalStatus::Expired);
    assert_eq!(t.execute(acct(executor), id, 108), Err(Error::InvalidState));
}

#[test]
fn test_execute_window_boundaries() {
    let executor = 60u64;
    let mut t = fresh_treasury(1, &[10, 11], 2, executor, 10, 100);
    let id = t.submit(acct(10), acct(50), 9, 0).unwrap();
    t.approve(acct(11), id, 0).unwrap();
    // eta = 10, expiry = 100: now = 9 is early, now = 100 is late.
    assert_eq!(t.execute(acct(executor), id, 9), Err(Error::TimelockNotReady));
    assert_eq!(t.execute(acct(executor), id, 100), Err(Error::TimelockExpired));
}

#[test]
fn test_approve_idempotent() {
    let mut t = fresh_treasury(1, &[10, 11, 12], 3, 60, 1, 1);
    let id = t.submit(acct(10), acct(50), 42, 0).unwrap();
    assert_eq!(t.get_proposal(id).unwrap().approvals.len(), 1);
    // The submitter approving again changes nothing.
    assert!(t.approve(acct(10), id, 0).is_ok());
    assert_eq!(t.get_proposal(id).unwrap().approvals.len(), 1);
    assert!(t.approve(acct(11), id, 0).is_ok());
    assert!(t.approve(acct(11), id, 0).is_ok());
    assert_eq!(t.get_proposal(id).unwrap().approvals.len(), 2);
    assert_eq!(t.get_proposal(id).unwrap().status, ProposalStatus::Pending);
}

#[test]
fn test_revoke_approval() {
    let mut t = fresh_treasury(1, &[10, 11], 2, 60, 1, 1);
    let id = t.submit(acct(10), acct(50), 42, 0).unwrap();
    assert!(t.revoke_approval(acct(10), id).is_ok());
    assert_eq!(t.get_proposal(id).unwrap().approvals.len(), 0);
    // Revoking an approval that was never given is a no-op.
    assert!(t.revoke_approval(acct(11), id).is_ok());
    assert_eq!(t.get_proposal(id).unwrap().approvals.len(), 0);
}

#[test]
fn test_revoke_approval_after_quorum_fails() {
    let mut t = fresh_treasury(1, &[10, 11], 2, 60, 1, 1);
    let id = t.submit(acct(10), acct(50), 42, 0).unwrap();
    t.approve(acct(11), id, 0).unwrap();
    assert_eq!(t.get_proposal(id).unwrap().status, ProposalStatus::Queued);
    // Approval is irrevocable after quorum.
    assert_eq!(t.revoke_approval(acct(10), id), Err(Error::InvalidState));
    assert_eq!(t.get_proposal(id).unwrap().approvals.len(), 2);
}

#[test]
fn test_submit_unauthorized_and_invalid_amount() {
    let mut t = fresh_treasury(1, &[10], 1, 60, 1, 1);
    assert_eq!(t.submit(acct(99), acct(50), 10, 0), Err(Error::Unauthorized));
    assert_eq!(t.submit(acct(10), acct(50), 0, 0), Err(Error::InvalidAmount));
    assert_eq!(t.submit(acct(10), acct(50), -5, 0), Err(Error::InvalidAmount));
}

#[test]
fn test_admin_and_executor_gates() {
    let mut t = fresh_treasury(1, &[10, 11], 1, 60, 1, 1);
    assert_eq!(t.add_signer(acct(99), acct(12)), Err(Error::Unauthorized));
    assert_eq!(t.remove_signer(acct(99), acct(11)), Err(Error::Unauthorized));
    assert_eq!(t.set_threshold(acct(99), 1), Err(Error::Unauthorized));
    assert_eq!(t.cancel(acct(99), 1), Err(Error::Unauthorized));
    let id = t.submit(acct(10), acct(50), 10, 0).unwrap();
    assert_eq!(t.execute(acct(99), id, 5), Err(Error::Unauthorized));
}

#[test]
fn test_unknown_ids_not_found() {
    let mut t = fresh_treasury(1, &[10], 1, 60, 1, 1);
    assert_eq!(t.approve(acct(10), 1, 0), Err(Error::NotFound));
    assert_eq!(t.revoke_approval(acct(10), 7), Err(Error::NotFound));
    assert_eq!(t.cancel(acct(1), 7), Err(Error::NotFound));
    assert_eq!(t.execute(acct(60), 7, 0), Err(Error::NotFound));
    assert!(t.get_proposal(0).is_err());
    assert_eq!(t.remove_signer(acct(1), acct(77)), Err(Error::NotFound));
}

#[test]
fn test_add_signer() {
    let mut t = fresh_treasury(1, &[10], 1, 60, 1, 1);
    assert!(t.add_signer(acct(1), acct(11)).is_ok());
    assert!(t.is_signer(acct(11)));
    assert_eq!(t.add_signer(acct(1), acct(11)), Err(Error::DuplicateSigner));
    // A removed signer's old approvals stay counted.
    let id = t.submit(acct(11), acct(50), 3, 0).unwrap();
    let _ = id;
    assert!(t.set_threshold(acct(1), 2).is_ok());
    assert_eq!(t.set_threshold(acct(1), 3), Err(Error::InvalidThreshold));
    assert_eq!(t.set_threshold(acct(1), 0), Err(Error::InvalidThreshold));
}

#[test]
fn test_removed_signer_approvals_stand() {
    // Historical approvals are immutable facts: removing a signer does not
    // retroactively invalidate an approval already given.
    let mut t = fresh_treasury(1, &[10, 11, 12], 2, 60, 1, 1);
    let id = t.submit(acct(10), acct(50), 25, 0).unwrap();
    assert!(t.remove_signer(acct(1), acct(10)).is_ok());
    assert_eq!(t.get_proposal(id).unwrap().approvals, vec![acct(10)]);
    // The standing approval still counts toward quorum.
    assert!(t.approve(acct(11), id, 3).is_ok());
    assert_eq!(t.get_proposal(id).unwrap().status, ProposalStatus::Queued);
}

#[test]
fn test_uninitialized_operations_fail() {
    let mut t = MultisigTreasuryContract::new();
    assert_eq!(t.submit(acct(10), acct(50), 10, 0), Err(Error::NotFound));
    assert_eq!(t.add_signer(acct(1), acct(2)), Err(Error::NotFound));
    assert!(t.get_config().is_err());
    assert!(!t.is_signer(acct(10)));
}
