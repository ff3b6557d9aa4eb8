//! The governance core: global parameters and role-based access control.
//!
//! Roles are granted per account with an optional expiry; the registry is
//! an authorization-gated table keyed by the pair of account and role, each
//! pair holding at most one grant.

use vstd::prelude::*;

use crate::account::AccountId;
use crate::errors::Error;

verus! {

/// The capabilities the governance registry hands out.
#[derive(Clone, Copy, PartialEq, Eq, Structural, Debug)]
pub enum Role {
    Admin,
    Moderator,
    Oracle,
    Operator,
}

/// One role grant: who granted it, when, and until when it is good
/// (`None` means it never expires).
#[derive(Clone, Copy, PartialEq, Eq, Structural, Debug)]
pub struct RoleGrant {
    pub role: Role,
    pub granted_by: AccountId,
    pub granted_at: u64,
    pub expires_at: Option<u64>,
}

/// The tunable governance parameters.
#[derive(Clone, Copy, PartialEq, Eq, Structural, Debug)]
pub struct GovernanceParams {
    pub min_proposal_threshold: i128,
    pub voting_period_ledgers: u32,
    pub quorum_pct: u32,
    pub pass_threshold_pct: u32,
    pub timelock_ledgers: u32,
    pub max_active_proposals: u32,
}

/// Whether the table `s` holds a grant keyed by `(a, role)`.
pub open spec fn has_grant(s: Seq<(AccountId, RoleGrant)>, a: AccountId, role: Role) -> bool {
    exists|i: int| 0 <= i < s.len() && s[i].0 == a && s[i].1.role == role
}

/// The grant keyed by `(a, role)`; meaningful only where `has_grant` holds
/// and the keys in `s` are unique.
pub open spec fn grant_at(s: Seq<(AccountId, RoleGrant)>, a: AccountId, role: Role) -> RoleGrant {
    s[choose|i: int| 0 <= i < s.len() && s[i].0 == a && s[i].1.role == role].1
}

/// Whether the grants in `s` are keyed by pairwise distinct pairs.
pub open spec fn unique_grant_keys(s: Seq<(AccountId, RoleGrant)>) -> bool {
    forall|i: int, j: int|
        0 <= i < j < s.len() ==> !(s[i].0 == s[j].0 && s[i].1.role == s[j].1.role)
}

/// The governance registry's persisted state: the admin, the parameters,
/// and the role-grant table.
pub struct GovernanceCoreContract {
    pub admin: Option<AccountId>,
    pub params: Option<GovernanceParams>,
    pub grants: Vec<(AccountId, RoleGrant)>,
}

impl GovernanceCoreContract {
    /// Whether `initialize` has run.
    pub open spec fn is_initialized(self) -> bool {
        self.admin is Some
    }

    /// Registry invariant: parameters exist exactly once initialized, no
    /// grants before initialization, one grant per (account, role) pair,
    /// and each grant records the role it is keyed under.
    pub open spec fn inv(self) -> bool {
        &&& (self.admin is Some <==> self.params is Some)
        &&& (!self.is_initialized() ==> self.grants@.len() == 0)
        &&& unique_grant_keys(self.grants@)
    }

    /// A freshly deployed, uninitialized registry.
    pub fn new() -> (r: GovernanceCoreContract)
        ensures
            r.inv(),
            !r.is_initialized(),
    {
        GovernanceCoreContract { admin: None, params: None, grants: Vec::new() }
    }

    /// The parameter values installed at initialization.
    pub open spec fn spec_default_params() -> GovernanceParams {
        GovernanceParams {
            min_proposal_threshold: 1_000_000,
            voting_period_ledgers: 10_000,
            quorum_pct: 10,
            pass_threshold_pct: 51,
            timelock_ledgers: 1_000,
            max_active_proposals: 20,
        }
    }

    /// Install `admin` and the default parameters. Runs at most once; a
    /// second call fails with `AlreadyInitialized` and changes nothing.
    pub fn initialize(&mut self, admin: AccountId) -> (r: Result<(), Error>)
        requires
            old(self).inv(),
        ensures
            final(self).inv(),
            r is Ok <==> !old(self).is_initialized(),
            r is Err ==> r == Err::<(), Error>(Error::AlreadyInitialized) && *final(self) == *old(
                self,
            ),
            r is Ok ==> {
                &&& final(self).admin == Some(admin)
                &&& final(self).params == Some(Self::spec_default_params())
                &&& final(self).grants@ == old(self).grants@
            },
    {
        if self.admin.is_some() {
            return Err(Error::AlreadyInitialized);
        }
        self.admin = Some(admin);
        self.params = Some(
            GovernanceParams {
                min_proposal_threshold: 1_000_000,
                voting_period_ledgers: 10_000,
                quorum_pct: 10,
                pass_threshold_pct: 51,
                timelock_ledgers: 1_000,
                max_active_proposals: 20,
            },
        );
        Ok(())
    }

    /// The reason an admin-gated operation rejects, if any.
    pub open spec fn spec_admin_error(self, caller: AccountId) -> Option<Error> {
        if !self.is_initialized() {
            Some(Error::NotFound)
        } else if self.admin != Some(caller) {
            Some(Error::Unauthorized)
        } else {
            None
        }
    }

    /// Grant `role` to `account`, optionally expiring at `expires_at`.
    /// Admin only. Granting a role the account already holds replaces the
    /// old grant.
    pub fn grant_role(
        &mut self,
        caller: AccountId,
        account: AccountId,
        role: Role,
        expires_at: Option<u64>,
        now: u64,
    ) -> (r: Result<(), Error>)
        requires
            old(self).inv(),
        ensures
            final(self).inv(),
            r is Ok <==> old(self).spec_admin_error(caller) is None,
            r matches Err(e) ==> Some(e) == old(self).spec_admin_error(caller) && *final(self)
                == *old(self),
            r is Ok ==> {
                &&& has_grant(final(self).grants@, account, role)
                &&& grant_at(final(self).grants@, account, role) == (RoleGrant {
                    role,
                    granted_by: caller,
                    granted_at: now,
                    expires_at,
                })
                &&& !has_grant(old(self).grants@, account, role) ==> final(self).grants@ == old(
                    self,
                ).grants@.push((account, grant_at(final(self).grants@, account, role)))
                &&& has_grant(old(self).grants@, account, role) ==> exists|k: int|
                    0 <= k < old(self).grants@.len() && old(self).grants@[k].0 == account && old(
                        self,
                    ).grants@[k].1.role == role && final(self).grants@ == old(
                        self,
                    ).grants@.update(k, (account, grant_at(final(self).grants@, account, role)))
                &&& final(self).admin == old(self).admin
                &&& final(self).params == old(self).params
            },
    {
        match &self.admin {
            None => {
                return Err(Error::NotFound);
            },
            Some(a) => {
                if *a != caller {
                    return Err(Error::Unauthorized);
                }
            },
        }
        let ghost pre = self.grants@;
        let mut i: usize = 0;
        while i < self.grants.len()
            invariant
                *self == *old(self),
                old(self).inv(),
                old(self).spec_admin_error(caller) is None,
                pre == self.grants@,
                i <= pre.len(),
                unique_grant_keys(pre),
                forall|j: int| 0 <= j < i ==> !(pre[j].0 == account && pre[j].1.role == role),
            decreases pre.len() - i,
        {
            if self.grants[i].0 == account && self.grants[i].1.role == role {
                let grant = RoleGrant { role, granted_by: caller, granted_at: now, expires_at };
                self.grants.set(i, (account, grant));
                proof {
                    let post = self.grants@;
                    assert(post == pre.update(i as int, (account, grant)));
                    assert(post[i as int] == (account, grant));
                    assert(unique_grant_keys(post)) by {
                        assert forall|p: int, q: int| 0 <= p < q < post.len() implies !(post[p].0
                            == post[q].0 && post[p].1.role == post[q].1.role) by {
                            assert(pre[p].0 == post[p].0 && pre[p].1.role == post[p].1.role);
                            assert(pre[q].0 == post[q].0 && pre[q].1.role == post[q].1.role);
                        }
                    }
                    let w = choose|w: int|
                        0 <= w < post.len() && post[w].0 == account && post[w].1.role == role;
                    assert(post[i as int].0 == account && post[i as int].1.role == role);
                    assert(w == i);
                }
                return Ok(());
            }
            i = i + 1;
        }
        let grant = RoleGrant { role, granted_by: caller, granted_at: now, expires_at };
        self.grants.push((account, grant));
        proof {
            let post = self.grants@;
            assert(post[post.len() - 1] == (account, grant));
            let w = choose|w: int|
                0 <= w < post.len() && post[w].0 == account && post[w].1.role == role;
            assert(w == post.len() - 1);
        }
        Ok(())
    }

    /// Revoke `role` from `account`. Admin only; revoking a grant that does
    /// not exist succeeds and changes nothing.
    pub fn revoke_role(&mut self, caller: AccountId, account: AccountId, role: Role) -> (r: Result<
        (),
        Error,
    >)
        requires
            old(self).inv(),
        ensures
            final(self).inv(),
            r is Ok <==> old(self).spec_admin_error(caller) is None,
            r matches Err(e) ==> Some(e) == old(self).spec_admin_error(caller) && *final(self)
                == *old(self),
            r is Ok ==> {
                &&& !has_grant(final(self).grants@, account, role)
                &&& !has_grant(old(self).grants@, account, role) ==> *final(self) == *old(self)
                &&& has_grant(old(self).grants@, account, role) ==> exists|k: int|
                    0 <= k < old(self).grants@.len() && old(self).grants@[k].0 == account && old(
                        self,
                    ).grants@[k].1.role == role && final(self).grants@ == old(
                        self,
                    ).grants@.remove(k)
                &&& final(self).admin == old(self).admin
                &&& final(self).params == old(self).params
            },
    {
        match &self.admin {
            None => {
                return Err(Error::NotFound);
            },
            Some(a) => {
                if *a != caller {
                    return Err(Error::Unauthorized);
                }
            },
        }
        let ghost pre = self.grants@;
        let mut i: usize = 0;
        while i < self.grants.len()
            invariant
                *self == *old(self),
                old(self).inv(),
                old(self).spec_admin_error(caller) is None,
                pre == self.grants@,
                i <= pre.len(),
                unique_grant_keys(pre),
                forall|j: int| 0 <= j < i ==> !(pre[j].0 == account && pre[j].1.role == role),
            decreases pre.len() - i,
        {
            if self.grants[i].0 == account && self.grants[i].1.role == role {
                self.grants.remove(i);
                proof {
                    let post = self.grants@;
                    assert forall|j: int| 0 <= j < post.len() implies !((#[trigger] post[j]).0
                        == account && post[j].1.role == role) by {
                        if j < i {
                            assert(post[j] == pre[j]);
                        } else {
                            assert(post[j] == pre[j + 1]);
                        }
                    }
                    assert(unique_grant_keys(post)) by {
                        assert forall|p: int, q: int| 0 <= p < q < post.len() implies !(post[p].0
                            == post[q].0 && post[p].1.role == post[q].1.role) by {
                            if q < i {
                            } else if p < i {
                                assert(post[q] == pre[q + 1]);
                            } else {
                                assert(post[p] == pre[p + 1] && post[q] == pre[q + 1]);
                            }
                        }
                    }
                }
                return Ok(());
            }
            i = i + 1;
        }
        Ok(())
    }

    /// Whether `account` holds `role` at time `now`: the grant exists and
    /// either never expires or expires strictly after `now`.
    pub fn has_role(&self, account: AccountId, role: Role, now: u64) -> (r: bool)
        requires
            self.inv(),
        ensures
            r == (has_grant(self.grants@, account, role) && (grant_at(
                self.grants@,
                account,
                role,
            ).expires_at matches Some(t) ==> t > now)),
    {
        let mut i: usize = 0;
        while i < self.grants.len()
            invariant
                self.inv(),
                i <= self.grants@.len(),
                forall|j: int|
                    0 <= j < i ==> !((#[trigger] self.grants@[j]).0 == account
                        && self.grants@[j].1.role == role),
            decreases self.grants@.len() - i,
        {
            if self.grants[i].0 == account && self.grants[i].1.role == role {
                proof {
                    let w = choose|w: int|
                        0 <= w < self.grants@.len() && self.grants@[w].0 == account
                            && self.grants@[w].1.role == role;
                    assert(self.grants@[i as int].0 == account && self.grants@[i as int].1.role
                        == role);
                    assert(w == i);
                }
                return match self.grants[i].1.expires_at {
                    Some(t) => t > now,
                    None => true,
                };
            }
            i = i + 1;
        }
        false
    }

    /// Replace the governance parameters. Admin only.
    pub fn update_params(&mut self, caller: AccountId, params: GovernanceParams) -> (r: Result<
        (),
        Error,
    >)
        requires
            old(self).inv(),
        ensures
            final(self).inv(),
            r is Ok <==> old(self).spec_admin_error(caller) is None,
            r matches Err(e) ==> Some(e) == old(self).spec_admin_error(caller) && *final(self)
                == *old(self),
            r is Ok ==> {
                &&& final(self).params == Some(params)
                &&& final(self).admin == old(self).admin
                &&& final(self).grants@ == old(self).grants@
            },
    {
        match &self.admin {
            None => {
                return Err(Error::NotFound);
            },
            Some(a) => {
                if *a != caller {
                    return Err(Error::Unauthorized);
                }
            },
        }
        self.params = Some(params);
        Ok(())
    }

    /// The current governance parameters; `NotFound` before initialization.
    pub fn get_params(&self) -> (r: Result<&GovernanceParams, Error>)
        requires
            self.inv(),
        ensures
            r is Ok <==> self.is_initialized(),
            r matches Ok(p) ==> Some(*p) == self.params,
            r is Err ==> r == Err::<&GovernanceParams, Error>(Error::NotFound),
    {
        match &self.params {
            Some(p) => Ok(p),
            None => Err(Error::NotFound),
        }
    }

    /// The stored grant for `(account, role)`, expired or not, if any.
    pub fn get_role_grant(&self, account: AccountId, role: Role) -> (r: Option<&RoleGrant>)
        requires
            self.inv(),
        ensures
            r is Some <==> has_grant(self.grants@, account, role),
            r matches Some(g) ==> *g == grant_at(self.grants@, account, role),
    {
        let mut i: usize = 0;
        while i < self.grants.len()
            invariant
                self.inv(),
                i <= self.grants@.len(),
                forall|j: int|
                    0 <= j < i ==> !((#[trigger] self.grants@[j]).0 == account
                        && self.grants@[j].1.role == role),
            decreases self.grants@.len() - i,
        {
            if self.grants[i].0 == account && self.grants[i].1.role == role {
                proof {
                    let w = choose|w: int|
                        0 <= w < self.grants@.len() && self.grants@[w].0 == account
                            && self.grants@[w].1.role == role;
                    assert(self.grants@[i as int].0 == account && self.grants@[i as int].1.role
                        == role);
                    assert(w == i);
                }
                return Some(&self.grants[i].1);
            }
            i = i + 1;
        }
        None
    }
}

} // verus!
