//! The outbox: DNS work that is owed, handed out to the worker of the right shard.

use crate::ids::Uuid;
use crate::store::model::{DnsJobScope, OutboxJob, Store};
use crate::text::same_text;
use vstd::prelude::*;

verus! {

/// Two to the power of a small number.
pub open spec fn power_of_two(exponent: nat) -> nat
    decreases exponent,
{
    if exponent == 0 {
        1
    } else {
        2 * power_of_two((exponent - 1) as nat)
    }
}

/// How many seconds a job waits after its `attempt`-th attempt: two to that power, but at least
/// a minute and at most five.
pub open spec fn retry_delay_seconds(attempt: nat) -> nat {
    let exponent = if attempt < 8 {
        attempt
    } else {
        8
    };
    let doubled = power_of_two(exponent);
    let bounded = if doubled < 300 {
        doubled
    } else {
        300
    };
    if bounded < 60 {
        60
    } else {
        bounded
    }
}

/// Computes how many seconds a job waits after its `attempt`-th attempt.
pub fn retry_delay(attempt: u64) -> (seconds: u64)
    ensures
        seconds == retry_delay_seconds(attempt as nat),
        60 <= seconds <= 256,
{
    proof {
        reveal_with_fuel(power_of_two, 9);
    }
    if attempt <= 5 {
        60
    } else if attempt == 6 {
        64
    } else if attempt == 7 {
        128
    } else {
        256
    }
}

/// Whether a job can be handed out to the worker of a shard: it is not done, it is due, and its
/// installation is placed there.
pub open spec fn claimable(
    store: crate::store::model::StoreView,
    i: int,
    placement: Seq<char>,
    now_ms: u64,
) -> bool {
    &&& 0 <= i < store.outbox.len()
    &&& !store.outbox[i].completed
    &&& store.outbox[i].next_attempt_ms <= now_ms
    &&& store.installations.dom().contains(store.outbox[i].installation_id)
    &&& store.installations[store.outbox[i].installation_id].placement == placement
}

/// Whether a job can be handed out to a worker of a shard that does the work of a scope, or all
/// work where none is given.
pub open spec fn claimable_in(
    store: crate::store::model::StoreView,
    i: int,
    placement: Seq<char>,
    scope: Option<DnsJobScope>,
    now_ms: u64,
) -> bool {
    &&& claimable(store, i, placement, now_ms)
    &&& scope matches Some(wanted) ==> wanted.covers(store.outbox[i].kind)
}

/// Whether a job was handed out: it is the first that can be, and is due again after its delay.
pub open spec fn is_claim(
    before: crate::store::model::StoreView,
    after: crate::store::model::StoreView,
    placement: Seq<char>,
    scope: Option<DnsJobScope>,
    now_ms: u64,
    job: Option<OutboxJob>,
) -> bool {
    match job {
        Some(found) => exists|i: int|
            #[trigger] claimable_in(before, i, placement, scope, now_ms) && found
                == before.outbox[i] && (forall|j: int|
                0 <= j < i ==> !#[trigger] claimable_in(before, j, placement, scope, now_ms))
                && after == (crate::store::model::StoreView {
                outbox: before.outbox.update(i, attempted(before.outbox[i], now_ms)),
                ..before
            }).advanced(),
        None => {
            &&& forall|j: int| !#[trigger] claimable_in(before, j, placement, scope, now_ms)
            &&& after == before
        },
    }
}

/// A job that has been handed out: one more attempt, and not due again before its delay.
pub open spec fn attempted(job: OutboxJob, now_ms: u64) -> OutboxJob {
    let attempts = if job.attempts < u32::MAX {
        (job.attempts + 1) as u32
    } else {
        job.attempts
    };
    OutboxJob {
        attempts,
        next_attempt_ms: (now_ms + 1000 * retry_delay_seconds((job.attempts + 1) as nat)) as u64,
        ..job
    }
}

/// The store after a job was done.
pub open spec fn completed(
    store: crate::store::model::StoreView,
    id: u64,
) -> crate::store::model::StoreView {
    crate::store::model::StoreView {
        outbox: store.outbox.map_values(
            |job: OutboxJob|
                if job.id == id {
                    OutboxJob { completed: true, ..job }
                } else {
                    job
                },
        ),
        ..store
    }
}

impl Store {
    /// Whether the installation of a job is placed on a shard.
    fn placed_on(&self, id: Uuid, placement: &str) -> (placed: bool)
        requires
            self.well_formed(),
        ensures
            placed == (self@.installations.dom().contains(id) && self@.installations[id].placement
                == placement@),
    {
        match self.installations.get(id) {
            Some(row) => same_text(row.placement.as_str(), placement),
            None => false,
        }
    }

    /// Hands out the first due job of a shard, as it was before this attempt.
    pub fn claim_job(&mut self, placement: &str, now_ms: u64) -> (job: Option<OutboxJob>)
        requires
            old(self).well_formed(),
            old(self).has_room(1),
            now_ms + 256_000 <= u64::MAX,
        ensures
            final(self).well_formed(),
            is_claim(old(self)@, final(self)@, placement@, None, now_ms, job),
    {
        self.claim_scoped_job(placement, None, now_ms)
    }

    /// Hands out the first due job of a shard that is in a scope, or of all where none is
    /// given, as it was before this attempt.
    pub fn claim_scoped_job(
        &mut self,
        placement: &str,
        scope: Option<DnsJobScope>,
        now_ms: u64,
    ) -> (job: Option<OutboxJob>)
        requires
            old(self).well_formed(),
            old(self).has_room(1),
            now_ms + 256_000 <= u64::MAX,
        ensures
            final(self).well_formed(),
            is_claim(old(self)@, final(self)@, placement@, scope, now_ms, job),
    {
        let mut i: usize = 0;
        while i < self.outbox.len()
            invariant
                i <= self.outbox@.len(),
                *self == *old(self),
                self.well_formed(),
                self.has_room(1),
                now_ms + 256_000 <= u64::MAX,
                forall|j: int|
                    0 <= j < i ==> !#[trigger] claimable_in(
                        self@,
                        j,
                        placement@,
                        scope,
                        now_ms,
                    ),
            decreases self.outbox@.len() - i,
        {
            let job: OutboxJob = self.outbox[i];
            let placed: bool = self.placed_on(job.installation_id, placement);
            let covered: bool = match scope {
                Some(wanted) => wanted.admits(job.kind),
                None => true,
            };
            if !job.completed && job.next_attempt_ms <= now_ms && placed && covered {
                proof {
                    assert(claimable_in(self@, i as int, placement@, scope, now_ms));
                }
                let attempts: u32 = if job.attempts < u32::MAX {
                    job.attempts + 1
                } else {
                    job.attempts
                };
                let delay: u64 = retry_delay(job.attempts as u64 + 1);
                self.outbox[i] = OutboxJob {
                    id: job.id,
                    installation_id: job.installation_id,
                    kind: job.kind,
                    attempts,
                    next_attempt_ms: now_ms + 1000 * delay,
                    completed: job.completed,
                };
                self.advance();
                proof {
                    assert(self@.outbox =~= old(self)@.outbox.update(
                        i as int,
                        attempted(old(self)@.outbox[i as int], now_ms),
                    ));
                }
                return Some(job);
            }
            i += 1;
        }
        None
    }

    /// Takes note that a job was done.
    pub fn complete_job(&mut self, id: u64)
        requires
            old(self).well_formed(),
        ensures
            final(self).well_formed(),
            final(self)@ == completed(old(self)@, id),
    {
        let ghost target = completed(old(self)@, id).outbox;
        let mut i: usize = 0;
        while i < self.outbox.len()
            invariant
                i <= self.outbox@.len() == old(self).outbox@.len(),
                *self == (Store { outbox: self.outbox, ..*old(self) }),
                target == completed(old(self)@, id).outbox,
                forall|j: int| 0 <= j < i ==> self.outbox@[j] == target[j],
                forall|j: int|
                    i <= j < self.outbox@.len() ==> self.outbox@[j] == old(self).outbox@[j],
            decreases self.outbox@.len() - i,
        {
            let job: OutboxJob = self.outbox[i];
            if job.id == id {
                self.outbox[i] = OutboxJob {
                    id: job.id,
                    installation_id: job.installation_id,
                    kind: job.kind,
                    attempts: job.attempts,
                    next_attempt_ms: job.next_attempt_ms,
                    completed: true,
                };
            }
            i += 1;
        }
        proof {
            assert(self.outbox@ =~= target);
            assert forall|j: int, k: int| 0 <= j < k < self@.outbox.len() implies (
            #[trigger] self@.outbox[j]).id < (#[trigger] self@.outbox[k]).id by {
                assert(self@.outbox[j].id == old(self)@.outbox[j].id);
                assert(self@.outbox[k].id == old(self)@.outbox[k].id);
            }
            assert forall|j: int| 0 <= j < self@.outbox.len() implies (
            #[trigger] self@.outbox[j]).id < self@.next_job by {
                assert(self@.outbox[j].id == old(self)@.outbox[j].id);
            }
        }
    }
}

} // verus!
