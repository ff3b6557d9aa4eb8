//! The timelock scheduler: the queued-for-execution state and the enforced
//! delay window of any action.
//!
//! The scheduler is deliberately action-agnostic: it knows nothing about
//! recipients or amounts, only proposal ids and timestamps, so the delay
//! enforcement can be audited in isolation and reused by any
//! proposal-bearing component.

use vstd::prelude::*;

use crate::errors::Error;

verus! {

/// A queued action's window, keyed by its proposal id. `eta` is the
/// earliest timestamp at which execution may happen, `expiry` the first
/// timestamp at which it no longer may.
#[derive(Clone, Copy, PartialEq, Eq, Structural, Debug)]
pub struct TimelockEntry {
    pub proposal_id: u64,
    pub queued_at: u64,
    pub eta: u64,
    pub expiry: u64,
}

impl TimelockEntry {
    /// Window sanity: the window opens no earlier than it was queued and
    /// closes no earlier than it opens.
    pub open spec fn wf(self) -> bool {
        self.queued_at <= self.eta && self.eta <= self.expiry
    }
}

/// Whether some entry in `s` is keyed by `id`.
pub open spec fn has_entry(s: Seq<TimelockEntry>, id: u64) -> bool {
    exists|i: int| 0 <= i < s.len() && s[i].proposal_id == id
}

/// The entry in `s` keyed by `id`; meaningful only where `has_entry` holds
/// and the ids in `s` are unique.
pub open spec fn entry_at(s: Seq<TimelockEntry>, id: u64) -> TimelockEntry {
    s[choose|i: int| 0 <= i < s.len() && s[i].proposal_id == id]
}

/// Whether the entries of `s` are keyed by pairwise distinct ids.
pub open spec fn unique_entry_ids(s: Seq<TimelockEntry>) -> bool {
    forall|i: int, j: int| 0 <= i < j < s.len() ==> s[i].proposal_id != s[j].proposal_id
}

/// The scheduler: the configured bounds on any delay window, and the table
/// of currently queued actions.
pub struct TimelockScheduler {
    pub min_delay_floor: u64,
    pub max_delay_ceiling: u64,
    pub entries: Vec<TimelockEntry>,
}

impl TimelockScheduler {
    /// Scheduler invariant: one entry per proposal id, each with a sane
    /// window.
    pub open spec fn inv(self) -> bool {
        &&& unique_entry_ids(self.entries@)
        &&& forall|i: int| 0 <= i < self.entries@.len() ==> (#[trigger] self.entries@[i]).wf()
    }

    /// A scheduler with the given window bounds and nothing queued.
    pub fn new(min_delay_floor: u64, max_delay_ceiling: u64) -> (r: TimelockScheduler)
        ensures
            r.min_delay_floor == min_delay_floor,
            r.max_delay_ceiling == max_delay_ceiling,
            r.entries@ =~= Seq::<TimelockEntry>::empty(),
            r.inv(),
    {
        TimelockScheduler { min_delay_floor, max_delay_ceiling, entries: Vec::new() }
    }

    /// Queue `proposal_id` with the window `[now + min_delay, now + max_delay)`.
    ///
    /// Rejected with `InvalidDelay` where either bound is zero, where the
    /// minimum exceeds the maximum, or where the window falls outside the
    /// configured floor and ceiling (so a coordinator cannot bypass the
    /// configured safety window); rejected with `InvalidState` where the id
    /// is already queued.
    pub fn queue(
        &mut self,
        proposal_id: u64,
        min_delay: u64,
        max_delay: u64,
        now: u64,
    ) -> (r: Result<TimelockEntry, Error>)
        requires
            old(self).inv(),
            now + max_delay <= u64::MAX,
        ensures
            final(self).inv(),
            final(self).min_delay_floor == old(self).min_delay_floor,
            final(self).max_delay_ceiling == old(self).max_delay_ceiling,
            r is Ok <==> ({
                &&& min_delay >= 1
                &&& max_delay >= 1
                &&& min_delay <= max_delay
                &&& min_delay >= old(self).min_delay_floor
                &&& max_delay <= old(self).max_delay_ceiling
                &&& !has_entry(old(self).entries@, proposal_id)
            }),
            r matches Ok(e) ==> {
                &&& e == (TimelockEntry {
                    proposal_id,
                    queued_at: now,
                    eta: (now + min_delay) as u64,
                    expiry: (now + max_delay) as u64,
                })
                &&& final(self).entries@ == old(self).entries@.push(e)
                &&& has_entry(final(self).entries@, proposal_id)
                &&& entry_at(final(self).entries@, proposal_id) == e
                &&& forall|oid: u64| oid != proposal_id
                    ==> #[trigger] has_entry(final(self).entries@, oid) == has_entry(
                    old(self).entries@,
                    oid,
                )
                &&& forall|oid: u64| oid != proposal_id && has_entry(old(self).entries@, oid)
                    ==> #[trigger] entry_at(final(self).entries@, oid) == entry_at(
                    old(self).entries@,
                    oid,
                )
            },
            r matches Err(e) ==> {
                &&& *final(self) == *old(self)
                &&& e == (if !(min_delay >= 1 && max_delay >= 1 && min_delay <= max_delay
                    && min_delay >= old(self).min_delay_floor
                    && max_delay <= old(self).max_delay_ceiling) {
                    Error::InvalidDelay
                } else {
                    Error::InvalidState
                })
            },
    {
        if min_delay == 0 || max_delay == 0 || min_delay > max_delay
            || min_delay < self.min_delay_floor || max_delay > self.max_delay_ceiling {
            return Err(Error::InvalidDelay);
        }
        if self.lookup(proposal_id).is_some() {
            return Err(Error::InvalidState);
        }
        let e = TimelockEntry {
            proposal_id,
            queued_at: now,
            eta: now + min_delay,
            expiry: now + max_delay,
        };
        self.entries.push(e);
        proof {
            let post = self.entries@;
            let pre = old(self).entries@;
            assert(post[post.len() - 1] == e);
            assert(has_entry(post, proposal_id));
            assert forall|oid: u64| oid != proposal_id implies #[trigger] has_entry(post, oid)
                == has_entry(pre, oid) by {
                if has_entry(pre, oid) {
                    let w = choose|w: int| 0 <= w < pre.len() && pre[w].proposal_id == oid;
                    assert(post[w].proposal_id == oid);
                }
                if has_entry(post, oid) {
                    let w = choose|w: int| 0 <= w < post.len() && post[w].proposal_id == oid;
                    assert(w < pre.len() && pre[w].proposal_id == oid);
                }
            }
            assert forall|oid: u64| oid != proposal_id && has_entry(pre, oid)
                implies #[trigger] entry_at(post, oid) == entry_at(pre, oid) by {
                let w1 = choose|w: int| 0 <= w < post.len() && post[w].proposal_id == oid;
                let w2 = choose|w: int| 0 <= w < pre.len() && pre[w].proposal_id == oid;
                assert(post[w2].proposal_id == oid);
                assert(w1 < pre.len());
                assert(unique_entry_ids(pre));
                assert(pre[w1] == post[w1] && pre[w2] == post[w2]);
            }
            let w1 = choose|w: int| 0 <= w < post.len() && post[w].proposal_id == proposal_id;
            if w1 < pre.len() {
                assert(pre[w1].proposal_id == proposal_id);
                assert(has_entry(pre, proposal_id));
            }
            assert(entry_at(post, proposal_id) == e);
        }
        Ok(e)
    }

    /// The queued entry for `id`, if any.
    pub fn lookup(&self, id: u64) -> (r: Option<&TimelockEntry>)
        requires
            self.inv(),
        ensures
            r is Some <==> has_entry(self.entries@, id),
            r matches Some(e) ==> *e == entry_at(self.entries@, id),
    {
        let mut i: usize = 0;
        while i < self.entries.len()
            invariant
                self.inv(),
                i <= self.entries@.len(),
                forall|j: int| 0 <= j < i ==> self.entries@[j].proposal_id != id,
            decreases self.entries@.len() - i,
        {
            if self.entries[i].proposal_id == id {
                proof {
                    let w = choose|w: int|
                        0 <= w < self.entries@.len() && self.entries@[w].proposal_id == id;
                    assert(self.entries@[w].proposal_id == id && self.entries@[
                        i as int
                    ].proposal_id == id);
                    assert(w == i);
                }
                return Some(&self.entries[i]);
            }
            i = i + 1;
        }
        None
    }

    /// True iff `id` is queued and `now` lies inside its window:
    /// `eta <= now < expiry`.
    pub fn is_ready(&self, id: u64, now: u64) -> (r: bool)
        requires
            self.inv(),
        ensures
            r == (has_entry(self.entries@, id) && entry_at(self.entries@, id).eta <= now
                && now < entry_at(self.entries@, id).expiry),
    {
        match self.lookup(id) {
            Some(e) => e.eta <= now && now < e.expiry,
            None => false,
        }
    }

    /// True iff `id` is queued and its window has closed: `now >= expiry`.
    pub fn is_expired(&self, id: u64, now: u64) -> (r: bool)
        requires
            self.inv(),
        ensures
            r == (has_entry(self.entries@, id) && now >= entry_at(self.entries@, id).expiry),
    {
        match self.lookup(id) {
            Some(e) => now >= e.expiry,
            None => false,
        }
    }

    /// Discard the entry for `id`. The entry is consumed, never re-created:
    /// the coordinator calls this on execution, expiry and admin
    /// cancellation.
    pub fn cancel(&mut self, id: u64) -> (r: Result<(), Error>)
        requires
            old(self).inv(),
        ensures
            final(self).inv(),
            final(self).min_delay_floor == old(self).min_delay_floor,
            final(self).max_delay_ceiling == old(self).max_delay_ceiling,
            r is Ok <==> has_entry(old(self).entries@, id),
            r is Err ==> *final(self) == *old(self) && r == Err::<(), Error>(Error::NotFound),
            r is Ok ==> {
                &&& !has_entry(final(self).entries@, id)
                &&& final(self).entries@.len() == old(self).entries@.len() - 1
                &&& forall|oid: u64| oid != id
                    ==> #[trigger] has_entry(final(self).entries@, oid) == has_entry(
                    old(self).entries@,
                    oid,
                )
                &&& forall|oid: u64| oid != id && has_entry(old(self).entries@, oid)
                    ==> #[trigger] entry_at(final(self).entries@, oid) == entry_at(
                    old(self).entries@,
                    oid,
                )
            },
    {
        let ghost pre = self.entries@;
        let mut i: usize = 0;
        while i < self.entries.len()
            invariant
                self.inv(),
                self.entries@ == pre,
                pre == old(self).entries@,
                *self == *old(self),
                self.min_delay_floor == old(self).min_delay_floor,
                self.max_delay_ceiling == old(self).max_delay_ceiling,
                i <= pre.len(),
                forall|j: int| 0 <= j < i ==> pre[j].proposal_id != id,
            decreases pre.len() - i,
        {
            if self.entries[i].proposal_id == id {
                self.entries.remove(i);
                proof {
                    let post = self.entries@;
                    assert(post =~= pre.subrange(0, i as int) + pre.subrange(
                        i + 1,
                        pre.len() as int,
                    ));
                    assert forall|j: int| 0 <= j < post.len() implies (#[trigger] post[j]) == (
                    if j < i { pre[j] } else { pre[j + 1] }) by {}
                    assert forall|oid: u64| oid != id implies #[trigger] has_entry(post, oid)
                        == has_entry(pre, oid) by {
                        if has_entry(pre, oid) {
                            let w = choose|w: int| 0 <= w < pre.len() && pre[w].proposal_id == oid;
                            if w < i {
                                assert(post[w].proposal_id == oid);
                            } else {
                                assert(w != i);
                                assert(post[w - 1].proposal_id == oid);
                            }
                        }
                        if has_entry(post, oid) {
                            let w = choose|w: int|
                                0 <= w < post.len() && post[w].proposal_id == oid;
                            if w < i {
                                assert(pre[w].proposal_id == oid);
                            } else {
                                assert(pre[w + 1].proposal_id == oid);
                            }
                        }
                    }
                    assert forall|oid: u64| oid != id && has_entry(pre, oid)
                        implies #[trigger] entry_at(post, oid) == entry_at(pre, oid) by {
                        assert(has_entry(post, oid));
                        let w1 = choose|w: int| 0 <= w < post.len() && post[w].proposal_id == oid;
                        let w2 = choose|w: int| 0 <= w < pre.len() && pre[w].proposal_id == oid;
                        if w1 < i {
                            assert(pre[w1].proposal_id == oid);
                            assert(w1 == w2);
                        } else {
                            assert(pre[w1 + 1].proposal_id == oid);
                            assert(w1 + 1 == w2);
                        }
                    }
                    assert forall|j: int| 0 <= j < post.len() implies (
                    #[trigger] post[j]).proposal_id != id by {
                        if j < i {
                        } else {
                            assert(post[j] == pre[j + 1]);
                        }
                    }
                    assert(!has_entry(post, id));
                    assert(unique_entry_ids(post)) by {
                        assert forall|p: int, q: int| 0 <= p < q < post.len() implies post[
                        p].proposal_id != post[q].proposal_id by {
                            if q < i {
                            } else if p < i {
                                assert(post[q] == pre[q + 1]);
                            } else {
                                assert(post[p] == pre[p + 1] && post[q] == pre[q + 1]);
                            }
                        }
                    }
                }
                return Ok(());
            }
            i = i + 1;
        }
        Err(Error::NotFound)
    }
}

} // verus!
