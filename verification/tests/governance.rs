use pulsar_governance::account::AccountId;
use pulsar_governance::errors::Error;
use pulsar_governance::governance::{GovernanceCoreContract, GovernanceParams, Role};

fn acct(id: u64) -> AccountId {
    AccountId::new(id)
}

#[test]
fn test_governance_initialize() {
    let mut g = GovernanceCoreContract::new();
    assert!(g.initialize(acct(1)).is_ok());
    let params = g.get_params().unwrap();
    assert_eq!(params.min_proposal_threshold, 1_000_000);
    assert_eq!(params.voting_period_ledgers, 10_000);
    assert_eq!(params.quorum_pct, 10);
    assert_eq!(params.pass_threshold_pct, 51);
    assert_eq!(params.timelock_ledgers, 1_000);
    assert_eq!(params.max_active_proposals, 20);
}

#[test]
fn test_governance_initialize_twice() {
    let mut g = GovernanceCoreContract::new();
    assert!(g.initialize(acct(1)).is_ok());
    assert_eq!(g.initialize(acct(2)), Err(Error::AlreadyInitialized));
}

#[test]
fn test_grant_and_has_role() {
    let mut g = GovernanceCoreContract::new();
    g.initialize(acct(1)).unwrap();
    assert!(!g.has_role(acct(5), Role::Oracle, 0));
    assert!(g.grant_role(acct(1), acct(5), Role::Oracle, None, 7).is_ok());
    assert!(g.has_role(acct(5), Role::Oracle, 0));
    assert!(g.has_role(acct(5), Role::Oracle, 1_000_000));
    // A different role is a different grant.
    assert!(!g.has_role(acct(5), Role::Moderator, 0));
    assert!(g.revoke_role(acct(1), acct(5), Role::Oracle).is_ok());
    assert!(!g.has_role(acct(5), Role::Oracle, 0));
}

#[test]
fn test_role_expiry() {
    let mut g = GovernanceCoreContract::new();
    g.initialize(acct(1)).unwrap();
    g.grant_role(acct(1), acct(5), Role::Operator, Some(100), 7).unwrap();
    // The grant is good strictly before its expiry timestamp.
    assert!(g.has_role(acct(5), Role::Operator, 99));
    assert!(!g.has_role(acct(5), Role::Operator, 100));
    assert!(!g.has_role(acct(5), Role::Operator, 200));
    // The stored grant itself is still readable after expiry.
    let grant = g.get_role_grant(acct(5), Role::Operator).unwrap();
    assert_eq!(grant.granted_by, acct(1));
    assert_eq!(grant.granted_at, 7);
    assert_eq!(grant.expires_at, Some(100));
    assert_eq!(grant.role, Role::Operator);
}

#[test]
fn test_grant_replaces_existing() {
    let mut g = GovernanceCoreContract::new();
    g.initialize(acct(1)).unwrap();
    g.grant_role(acct(1), acct(5), Role::Oracle, Some(10), 1).unwrap();
    g.grant_role(acct(1), acct(5), Role::Oracle, None, 2).unwrap();
    let grant = g.get_role_grant(acct(5), Role::Oracle).unwrap();
    assert_eq!(grant.granted_at, 2);
    assert_eq!(grant.expires_at, None);
}

#[test]
fn test_governance_admin_gate() {
    let mut g = GovernanceCoreContract::new();
    assert_eq!(g.grant_role(acct(1), acct(5), Role::Oracle, None, 0), Err(Error::NotFound));
    g.initialize(acct(1)).unwrap();
    assert_eq!(g.grant_role(acct(9), acct(5), Role::Oracle, None, 0), Err(Error::Unauthorized));
    assert_eq!(g.revoke_role(acct(9), acct(5), Role::Oracle), Err(Error::Unauthorized));
    let params = GovernanceParams {
        min_proposal_threshold: 5,
        voting_period_ledgers: 6,
        quorum_pct: 7,
        pass_threshold_pct: 8,
        timelock_ledgers: 9,
        max_active_proposals: 10,
    };
    assert_eq!(g.update_params(acct(9), params), Err(Error::Unauthorized));
    assert!(g.update_params(acct(1), params).is_ok());
    assert_eq!(*g.get_params().unwrap(), params);
}

#[test]
fn test_revoke_missing_grant_is_noop() {
    let mut g = GovernanceCoreContract::new();
    g.initialize(acct(1)).unwrap();
    assert!(g.revoke_role(acct(1), acct(5), Role::Admin).is_ok());
    assert!(g.get_role_grant(acct(5), Role::Admin).is_none());
}
