//! Oracle integration: authorization-gated price and performance feeds.
//!
//! The admin maintains the set of authorized oracle accounts; an
//! authorized oracle may overwrite the feed for an asset or a campaign,
//! each feed stamped with the time it was reported.

use vstd::prelude::*;

use crate::account::AccountId;
use crate::errors::Error;
use crate::registry::{accounts_contain, accounts_index_of};

verus! {

/// One asset's price feed: the price in USD scaled by ten million, a
/// confidence percentage, the reporting time and the reporting source.
#[derive(Debug)]
pub struct PriceFeed {
    pub asset: String,
    pub price_usd: i128,
    pub confidence: u32,
    pub timestamp: u64,
    pub source: String,
}

/// One campaign's performance counters, with a fraud score where lower is
/// better.
#[derive(Clone, Copy, PartialEq, Eq, Structural, Debug)]
pub struct PerformanceData {
    pub campaign_id: u64,
    pub impressions: u64,
    pub clicks: u64,
    pub conversions: u64,
    pub fraud_score: u32,
    pub timestamp: u64,
}

/// Whether `s` holds a feed for `asset`.
pub open spec fn has_feed(s: Seq<PriceFeed>, asset: Seq<char>) -> bool {
    exists|i: int| 0 <= i < s.len() && s[i].asset@ == asset
}

/// The feed for `asset`; meaningful only where `has_feed` holds and the
/// assets in `s` are unique.
pub open spec fn feed_at(s: Seq<PriceFeed>, asset: Seq<char>) -> PriceFeed {
    s[choose|i: int| 0 <= i < s.len() && s[i].asset@ == asset]
}

/// Whether the feeds in `s` are for pairwise distinct assets.
pub open spec fn unique_assets(s: Seq<PriceFeed>) -> bool {
    forall|i: int, j: int| 0 <= i < j < s.len() ==> s[i].asset@ != s[j].asset@
}

/// Whether `s` holds a record for `campaign_id`.
pub open spec fn has_perf(s: Seq<PerformanceData>, campaign_id: u64) -> bool {
    exists|i: int| 0 <= i < s.len() && s[i].campaign_id == campaign_id
}

/// The record for `campaign_id`; meaningful only where `has_perf` holds
/// and the campaign ids in `s` are unique.
pub open spec fn perf_at(s: Seq<PerformanceData>, campaign_id: u64) -> PerformanceData {
    s[choose|i: int| 0 <= i < s.len() && s[i].campaign_id == campaign_id]
}

/// Whether the records in `s` are for pairwise distinct campaigns.
pub open spec fn unique_campaigns(s: Seq<PerformanceData>) -> bool {
    forall|i: int, j: int| 0 <= i < j < s.len() ==> s[i].campaign_id != s[j].campaign_id
}

/// The oracle registry's persisted state: the admin, the authorized oracle
/// accounts, and the two feed tables.
pub struct OracleIntegrationContract {
    pub admin: Option<AccountId>,
    pub oracles: Vec<AccountId>,
    pub prices: Vec<PriceFeed>,
    pub performance: Vec<PerformanceData>,
}

impl OracleIntegrationContract {
    /// Whether `initialize` has run.
    pub open spec fn is_initialized(self) -> bool {
        self.admin is Some
    }

    /// Registry invariant: nothing is stored before initialization, no
    /// oracle is listed twice, and each asset and campaign has at most one
    /// feed.
    pub open spec fn inv(self) -> bool {
        &&& (!self.is_initialized() ==> self.oracles@.len() == 0 && self.prices@.len() == 0
            && self.performance@.len() == 0)
        &&& self.oracles@.no_duplicates()
        &&& unique_assets(self.prices@)
        &&& unique_campaigns(self.performance@)
    }

    /// A freshly deployed, uninitialized registry.
    pub fn new() -> (r: OracleIntegrationContract)
        ensures
            r.inv(),
            !r.is_initialized(),
    {
        OracleIntegrationContract {
            admin: None,
            oracles: Vec::new(),
            prices: Vec::new(),
            performance: Vec::new(),
        }
    }

    /// Install `admin`. Runs at most once; a second call fails with
    /// `AlreadyInitialized` and changes nothing.
    pub fn initialize(&mut self, admin: AccountId) -> (r: Result<(), Error>)
        requires
            old(self).inv(),
        ensures
            final(self).inv(),
            r is Ok <==> !old(self).is_initialized(),
            r is Err ==> r == Err::<(), Error>(Error::AlreadyInitialized) && *final(self) == *old(
                self,
            ),
            r is Ok ==> {
                &&& final(self).admin == Some(admin)
                &&& final(self).oracles@ == old(self).oracles@
                &&& final(self).prices@ == old(self).prices@
                &&& final(self).performance@ == old(self).performance@
            },
    {
        if self.admin.is_some() {
            return Err(Error::AlreadyInitialized);
        }
        self.admin = Some(admin);
        Ok(())
    }

    /// The reason an admin-gated operation rejects, if any.
    pub open spec fn spec_admin_error(self, caller: AccountId) -> Option<Error> {
        if !self.is_initialized() {
            Some(Error::NotFound)
        } else if self.admin != Some(caller) {
            Some(Error::Unauthorized)
        } else {
            None
        }
    }

    /// The reason an oracle-gated operation rejects, if any.
    pub open spec fn spec_oracle_error(self, oracle: AccountId) -> Option<Error> {
        if !self.is_initialized() {
            Some(Error::NotFound)
        } else if !self.oracles@.contains(oracle) {
            Some(Error::Unauthorized)
        } else {
            None
        }
    }

    /// Authorize `oracle` to report feeds. Admin only; authorizing an
    /// account twice succeeds and changes nothing.
    pub fn authorize_oracle(&mut self, caller: AccountId, oracle: AccountId) -> (r: Result<
        (),
        Error,
    >)
        requires
            old(self).inv(),
        ensures
            final(self).inv(),
            r is Ok <==> old(self).spec_admin_error(caller) is None,
            r matches Err(e) ==> Some(e) == old(self).spec_admin_error(caller) && *final(self)
                == *old(self),
            r is Ok ==> {
                &&& final(self).oracles@.contains(oracle)
                &&& old(self).oracles@.contains(oracle) ==> *final(self) == *old(self)
                &&& !old(self).oracles@.contains(oracle) ==> final(self).oracles@ == old(
                    self,
                ).oracles@.push(oracle)
                &&& final(self).admin == old(self).admin
                &&& final(self).prices@ == old(self).prices@
                &&& final(self).performance@ == old(self).performance@
            },
    {
        match &self.admin {
            None => {
                return Err(Error::NotFound);
            },
            Some(a) => {
                if *a != caller {
                    return Err(Error::Unauthorized);
                }
            },
        }
        if !accounts_contain(&self.oracles, oracle) {
            self.oracles.push(oracle);
            proof {
                let post = self.oracles@;
                assert(post.last() == oracle);
                assert(post.contains(oracle));
                assert(post.no_duplicates()) by {
                    assert forall|a: int, b: int| 0 <= a < b < post.len() implies post[a]
                        != post[b] by {
                        if b == post.len() - 1 {
                            assert(!old(self).oracles@.contains(oracle));
                            assert(old(self).oracles@[a] == post[a]);
                        }
                    }
                }
            }
        }
        Ok(())
    }

    /// Withdraw `oracle`'s authorization. Admin only; revoking an account
    /// that was never authorized succeeds and changes nothing.
    pub fn revoke_oracle(&mut self, caller: AccountId, oracle: AccountId) -> (r: Result<(), Error>)
        requires
            old(self).inv(),
        ensures
            final(self).inv(),
            r is Ok <==> old(self).spec_admin_error(caller) is None,
            r matches Err(e) ==> Some(e) == old(self).spec_admin_error(caller) && *final(self)
                == *old(self),
            r is Ok ==> {
                &&& !final(self).oracles@.contains(oracle)
                &&& !old(self).oracles@.contains(oracle) ==> *final(self) == *old(self)
                &&& old(self).oracles@.contains(oracle) ==> exists|k: int|
                    0 <= k < old(self).oracles@.len() && old(self).oracles@[k] == oracle && final(
                    self).oracles@ == old(self).oracles@.remove(k)
                &&& final(self).admin == old(self).admin
                &&& final(self).prices@ == old(self).prices@
                &&& final(self).performance@ == old(self).performance@
            },
    {
        match &self.admin {
            None => {
                return Err(Error::NotFound);
            },
            Some(a) => {
                if *a != caller {
                    return Err(Error::Unauthorized);
                }
            },
        }
        if accounts_contain(&self.oracles, oracle) {
            let ghost pre = self.oracles@;
            let k = accounts_index_of(&self.oracles, oracle);
            self.oracles.remove(k);
            proof {
                let post = self.oracles@;
                assert forall|j: int| 0 <= j < post.len() implies post[j] != oracle by {
                    if j < k {
                        assert(post[j] == pre[j]);
                    } else {
                        assert(post[j] == pre[j + 1]);
                    }
                }
                assert(post.no_duplicates()) by {
                    assert forall|a: int, b: int| 0 <= a < b < post.len() implies post[a]
                        != post[b] by {
                        if b < k {
                        } else if a < k {
                            assert(post[b] == pre[b + 1]);
                        } else {
                            assert(post[a] == pre[a + 1] && post[b] == pre[b + 1]);
                        }
                    }
                }
            }
        }
        Ok(())
    }

    /// Whether `oracle` is currently authorized. Read-only.
    pub fn is_oracle_authorized(&self, oracle: AccountId) -> (r: bool)
        ensures
            r == self.oracles@.contains(oracle),
    {
        accounts_contain(&self.oracles, oracle)
    }

    /// The position of the feed for `asset`, if one exists.
    fn find_price_index(&self, asset: &String) -> (r: Option<usize>)
        requires
            self.inv(),
        ensures
            r is Some <==> has_feed(self.prices@, asset@),
            r matches Some(i) ==> i < self.prices@.len() && self.prices@[i as int].asset@
                == asset@,
    {
        let mut i: usize = 0;
        while i < self.prices.len()
            invariant
                i <= self.prices@.len(),
                forall|j: int| 0 <= j < i ==> (#[trigger] self.prices@[j]).asset@ != asset@,
            decreases self.prices@.len() - i,
        {
            if self.prices[i].asset == *asset {
                return Some(i);
            }
            i = i + 1;
        }
        None
    }

    /// Report the price of `asset`. Only an authorized oracle may report;
    /// the new feed replaces any earlier feed for the same asset and is
    /// stamped with `now`.
    pub fn update_price(
        &mut self,
        oracle: AccountId,
        asset: String,
        price_usd: i128,
        confidence: u32,
        source: String,
        now: u64,
    ) -> (r: Result<(), Error>)
        requires
            old(self).inv(),
        ensures
            final(self).inv(),
            r is Ok <==> old(self).spec_oracle_error(oracle) is None,
            r matches Err(e) ==> Some(e) == old(self).spec_oracle_error(oracle) && *final(self)
                == *old(self),
            r is Ok ==> {
                &&& has_feed(final(self).prices@, asset@)
                &&& feed_at(final(self).prices@, asset@).asset@ == asset@
                &&& feed_at(final(self).prices@, asset@).price_usd == price_usd
                &&& feed_at(final(self).prices@, asset@).confidence == confidence
                &&& feed_at(final(self).prices@, asset@).timestamp == now
                &&& feed_at(final(self).prices@, asset@).source@ == source@
                &&& !has_feed(old(self).prices@, asset@) ==> final(self).prices@ == old(
                    self,
                ).prices@.push(feed_at(final(self).prices@, asset@))
                &&& has_feed(old(self).prices@, asset@) ==> exists|k: int|
                    0 <= k < old(self).prices@.len() && old(self).prices@[k].asset@ == asset@
                        && final(self).prices@ == old(self).prices@.update(
                        k,
                        feed_at(final(self).prices@, asset@),
                    )
                &&& final(self).admin == old(self).admin
                &&& final(self).oracles@ == old(self).oracles@
                &&& final(self).performance@ == old(self).performance@
            },
    {
        if self.admin.is_none() {
            return Err(Error::NotFound);
        }
        if !accounts_contain(&self.oracles, oracle) {
            return Err(Error::Unauthorized);
        }
        let idx = self.find_price_index(&asset);
        let feed = PriceFeed { asset, price_usd, confidence, timestamp: now, source };
        match idx {
            Some(i) => {
                let ghost pre = self.prices@;
                self.prices.set(i, feed);
                proof {
                    let post = self.prices@;
                    assert(unique_assets(post)) by {
                        assert forall|p: int, q: int| 0 <= p < q < post.len() implies post[
                        p].asset@ != post[q].asset@ by {
                            assert(pre[p].asset@ == post[p].asset@ || p == i);
                            assert(pre[q].asset@ == post[q].asset@ || q == i);
                        }
                    }
                    let w = choose|w: int| 0 <= w < post.len() && post[w].asset@ == feed.asset@;
                    assert(post[i as int].asset@ == feed.asset@);
                    assert(w == i);
                }
            },
            None => {
                self.prices.push(feed);
                proof {
                    let post = self.prices@;
                    assert(post[post.len() - 1].asset@ == feed.asset@);
                    let w = choose|w: int| 0 <= w < post.len() && post[w].asset@ == feed.asset@;
                    assert(w == post.len() - 1);
                }
            },
        }
        Ok(())
    }

    /// The position of the record for `campaign_id`, if one exists.
    fn find_perf_index(&self, campaign_id: u64) -> (r: Option<usize>)
        requires
            self.inv(),
        ensures
            r is Some <==> has_perf(self.performance@, campaign_id),
            r matches Some(i) ==> i < self.performance@.len() && self.performance@[
                i as int
            ].campaign_id == campaign_id,
    {
        let mut i: usize = 0;
        while i < self.performance.len()
            invariant
                i <= self.performance@.len(),
                forall|j: int|
                    0 <= j < i ==> (#[trigger] self.performance@[j]).campaign_id != campaign_id,
            decreases self.performance@.len() - i,
        {
            if self.performance[i].campaign_id == campaign_id {
                return Some(i);
            }
            i = i + 1;
        }
        None
    }

    /// Report a campaign's performance counters. Only an authorized oracle
    /// may report; the new record replaces any earlier record for the same
    /// campaign and is stamped with `now`.
    pub fn update_performance(
        &mut self,
        oracle: AccountId,
        campaign_id: u64,
        impressions: u64,
        clicks: u64,
        conversions: u64,
        fraud_score: u32,
        now: u64,
    ) -> (r: Result<(), Error>)
        requires
            old(self).inv(),
        ensures
            final(self).inv(),
            r is Ok <==> old(self).spec_oracle_error(oracle) is None,
            r matches Err(e) ==> Some(e) == old(self).spec_oracle_error(oracle) && *final(self)
                == *old(self),
            r is Ok ==> {
                &&& has_perf(final(self).performance@, campaign_id)
                &&& perf_at(final(self).performance@, campaign_id) == (PerformanceData {
                    campaign_id,
                    impressions,
                    clicks,
                    conversions,
                    fraud_score,
                    timestamp: now,
                })
                &&& !has_perf(old(self).performance@, campaign_id) ==> final(self).performance@
                    == old(self).performance@.push(perf_at(final(self).performance@, campaign_id))
                &&& has_perf(old(self).performance@, campaign_id) ==> exists|k: int|
                    0 <= k < old(self).performance@.len() && old(self).performance@[k].campaign_id
                        == campaign_id && final(self).performance@ == old(
                        self,
                    ).performance@.update(k, perf_at(final(self).performance@, campaign_id))
                &&& final(self).admin == old(self).admin
                &&& final(self).oracles@ == old(self).oracles@
                &&& final(self).prices@ == old(self).prices@
            },
    {
        if self.admin.is_none() {
            return Err(Error::NotFound);
        }
        if !accounts_contain(&self.oracles, oracle) {
            return Err(Error::Unauthorized);
        }
        let idx = self.find_perf_index(campaign_id);
        let data = PerformanceData {
            campaign_id,
            impressions,
            clicks,
            conversions,
            fraud_score,
            timestamp: now,
        };
        match idx {
            Some(i) => {
                let ghost pre = self.performance@;
                self.performance.set(i, data);
                proof {
                    let post = self.performance@;
                    assert(unique_campaigns(post)) by {
                        assert forall|p: int, q: int| 0 <= p < q < post.len() implies post[
                        p].campaign_id != post[q].campaign_id by {
                            assert(pre[p].campaign_id == post[p].campaign_id || p == i);
                            assert(pre[q].campaign_id == post[q].campaign_id || q == i);
                        }
                    }
                    let w = choose|w: int|
                        0 <= w < post.len() && post[w].campaign_id == campaign_id;
                    assert(post[i as int].campaign_id == campaign_id);
                    assert(w == i);
                }
            },
            None => {
                self.performance.push(data);
                proof {
                    let post = self.performance@;
                    assert(post[post.len() - 1].campaign_id == campaign_id);
                    let w = choose|w: int|
                        0 <= w < post.len() && post[w].campaign_id == campaign_id;
                    assert(w == post.len() - 1);
                }
            },
        }
        Ok(())
    }

    /// The stored feed for `asset`, if any. Read-only.
    pub fn get_price(&self, asset: &String) -> (r: Option<&PriceFeed>)
        requires
            self.inv(),
        ensures
            r is Some <==> has_feed(self.prices@, asset@),
            r matches Some(f) ==> *f == feed_at(self.prices@, asset@),
    {
        match self.find_price_index(asset) {
            Some(i) => {
                proof {
                    let w = choose|w: int|
                        0 <= w < self.prices@.len() && self.prices@[w].asset@ == asset@;
                    assert(self.prices@[i as int].asset@ == asset@);
                    assert(w == i);
                }
                Some(&self.prices[i])
            },
            None => None,
        }
    }

    /// The stored record for `campaign_id`, if any. Read-only.
    pub fn get_performance(&self, campaign_id: u64) -> (r: Option<&PerformanceData>)
        requires
            self.inv(),
        ensures
            r is Some <==> has_perf(self.performance@, campaign_id),
            r matches Some(d) ==> *d == perf_at(self.performance@, campaign_id),
    {
        match self.find_perf_index(campaign_id) {
            Some(i) => {
                proof {
                    let w = choose|w: int|
                        0 <= w < self.performance@.len() && self.performance@[w].campaign_id
                            == campaign_id;
                    assert(self.performance@[i as int].campaign_id == campaign_id);
                    assert(w == i);
                }
                Some(&self.performance[i])
            },
            None => None,
        }
    }
}

} // verus!
