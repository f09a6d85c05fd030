//! DNS-01 answers: short leases of one TXT value at a time.

use crate::ids::Uuid;
use crate::protocol::{AllocationState, ChallengeLease};
use crate::store::model::{AuditEvent, Challenge, Installation, JobKind, Store, StoreError};
use crate::text::{chars_of, range_in, same_text, CharClass};
use vstd::prelude::*;

verus! {

/// The longest lease of a DNS-01 answer, in milliseconds.
pub const CHALLENGE_LIFETIME_MS: u64 = 900_000;

/// A DNS-01 answer: 43 characters of the URL-safe alphabet.
pub open spec fn valid_txt(value: Seq<char>) -> bool {
    value.len() == 43 && crate::text::all_in(value, CharClass::UrlSafe)
}

/// Whether a text has the form of a DNS-01 answer.
pub fn txt_is_valid(value: &str) -> (valid: bool)
    ensures
        valid == valid_txt(value@),
{
    let chars: Vec<char> = chars_of(value);
    proof {
        assert(chars@.subrange(0, chars@.len() as int) =~= value@);
    }
    chars.len() == 43 && range_in(&chars, 0, chars.len(), CharClass::UrlSafe)
}

/// Whether another answer than the given one is live.
pub open spec fn other_live(
    row: crate::store::model::InstallationView,
    lease_id: Uuid,
    now_ms: u64,
) -> bool {
    exists|i: int|
        0 <= i < row.challenges.len() && (#[trigger] row.challenges[i]).lease_id != lease_id
            && row.challenges[i].live(now_ms)
}

/// Whether an answer was ever leased under an identifier.
pub open spec fn leased(row: crate::store::model::InstallationView, lease_id: Uuid) -> bool {
    exists|i: int|
        0 <= i < row.challenges.len() && (#[trigger] row.challenges[i]).lease_id == lease_id
}

/// The answer that was leased under an identifier.
pub open spec fn lease_of(
    row: crate::store::model::InstallationView,
    lease_id: Uuid,
) -> crate::store::model::ChallengeView {
    row.challenges[choose|i: int|
        0 <= i < row.challenges.len() && (#[trigger] row.challenges[i]).lease_id == lease_id]
}

/// Where the answer of an identifier stands, that answer is the one.
proof fn lemma_lease_of(row: crate::store::model::InstallationView, i: int)
    requires
        row.valid(),
        0 <= i < row.challenges.len(),
    ensures
        leased(row, row.challenges[i].lease_id),
        lease_of(row, row.challenges[i].lease_id) == row.challenges[i],
{
    let lease_id = row.challenges[i].lease_id;
    let k = choose|k: int|
        0 <= k < row.challenges.len() && (#[trigger] row.challenges[k]).lease_id == lease_id;
    assert(0 <= k < row.challenges.len() && row.challenges[k].lease_id == lease_id);
    if k < i {
        assert(row.challenges[k].lease_id != row.challenges[i].lease_id);
    }
    if i < k {
        assert(row.challenges[i].lease_id != row.challenges[k].lease_id);
    }
}

/// What a request to publish a DNS-01 answer does and answers. One answer is live at a time; a
/// retry with the same value and generation changes nothing.
pub open spec fn create_outcome(
    store: crate::store::model::StoreView,
    id: Uuid,
    generation: u64,
    lease_id: Uuid,
    txt_value: Seq<char>,
    expires_at_ms: u64,
    now_ms: u64,
) -> (crate::store::model::StoreView, Result<(), StoreError>) {
    if expires_at_ms <= now_ms || expires_at_ms > now_ms + CHALLENGE_LIFETIME_MS || !valid_txt(
        txt_value,
    ) {
        (store, Err(StoreError::InvalidRequest))
    } else if !store.dns_ready(id) || other_live(store.installations[id], lease_id, now_ms) {
        (store, Err(StoreError::Conflict))
    } else if leased(store.installations[id], lease_id) {
        let earlier = lease_of(store.installations[id], lease_id);
        if earlier.txt_value == txt_value && earlier.generation == generation {
            (store, Ok(()))
        } else {
            (store, Err(StoreError::Conflict))
        }
    } else {
        (
            store.with_row(
                id,
                crate::store::model::InstallationView {
                    challenges: store.installations[id].challenges.push(
                        crate::store::model::ChallengeView {
                            lease_id,
                            txt_value,
                            generation,
                            expires_at_ms,
                            ready: false,
                            deleted: false,
                        },
                    ),
                    ..store.installations[id]
                },
            ).queued(id, JobKind::PublishTxt(lease_id), now_ms).noted(
                id,
                Some(lease_id),
                AuditEvent::ChallengeCreated,
            ).advanced(),
            Ok(()),
        )
    }
}

/// Whether an answer can be taken back under an identifier and a generation.
pub open spec fn deletable(
    row: crate::store::model::InstallationView,
    lease_id: Uuid,
    generation: u64,
) -> bool {
    leased(row, lease_id) && lease_of(row, lease_id).generation == generation && !lease_of(
        row,
        lease_id,
    ).deleted
}

/// The answers after one of them was taken back.
pub open spec fn without(
    challenges: Seq<crate::store::model::ChallengeView>,
    lease_id: Uuid,
) -> Seq<crate::store::model::ChallengeView> {
    challenges.map_values(
        |row: crate::store::model::ChallengeView|
            if row.lease_id == lease_id {
                crate::store::model::ChallengeView { deleted: true, ..row }
            } else {
                row
            },
    )
}

/// What a request to take a DNS-01 answer back does and answers. Only that answer is touched.
pub open spec fn delete_outcome(
    store: crate::store::model::StoreView,
    id: Uuid,
    generation: u64,
    lease_id: Uuid,
    now_ms: u64,
) -> (crate::store::model::StoreView, Result<(), StoreError>) {
    if !store.installations.dom().contains(id) {
        (store, Err(StoreError::Conflict))
    } else if !deletable(store.installations[id], lease_id, generation) {
        (store, Ok(()))
    } else {
        (
            store.with_row(
                id,
                crate::store::model::InstallationView {
                    challenges: without(store.installations[id].challenges, lease_id),
                    ..store.installations[id]
                },
            ).queued(id, JobKind::RemoveTxt(lease_id), now_ms).noted(
                id,
                Some(lease_id),
                AuditEvent::ChallengeDeleted,
            ).advanced(),
            Ok(()),
        )
    }
}

/// The answers after one of them was observed in DNS.
pub open spec fn observed(
    challenges: Seq<crate::store::model::ChallengeView>,
    lease_id: Uuid,
) -> Seq<crate::store::model::ChallengeView> {
    challenges.map_values(
        |row: crate::store::model::ChallengeView|
            if row.lease_id == lease_id {
                crate::store::model::ChallengeView { ready: true, ..row }
            } else {
                row
            },
    )
}

/// The store after a live answer was observed in DNS.
pub open spec fn challenge_readied(
    store: crate::store::model::StoreView,
    id: Uuid,
    lease_id: Uuid,
    now_ms: u64,
) -> crate::store::model::StoreView {
    if store.installations.dom().contains(id) && leased(store.installations[id], lease_id)
        && lease_of(store.installations[id], lease_id).live(now_ms) && !lease_of(
        store.installations[id],
        lease_id,
    ).ready {
        store.with_row(
            id,
            crate::store::model::InstallationView {
                challenges: observed(store.installations[id].challenges, lease_id),
                ..store.installations[id]
            },
        ).noted(id, Some(lease_id), AuditEvent::ChallengeDnsReady).advanced()
    } else {
        store
    }
}

/// The answer that a DNS job is about: for a publication a live one; for a cleanup any, but
/// none at all while another answer is live.
pub open spec fn job_lease(
    store: crate::store::model::StoreView,
    id: Uuid,
    lease_id: Uuid,
    cleanup: bool,
    now_ms: u64,
) -> Option<crate::store::model::ChallengeView> {
    if !store.installations.dom().contains(id) || !leased(store.installations[id], lease_id) {
        None
    } else if cleanup && other_live(store.installations[id], lease_id, now_ms) {
        None
    } else if cleanup || lease_of(store.installations[id], lease_id).live(now_ms) {
        Some(lease_of(store.installations[id], lease_id))
    } else {
        None
    }
}

/// An answer that has run out and was not taken back.
pub open spec fn abandoned(
    store: crate::store::model::StoreView,
    id: Uuid,
    m: int,
    now_ms: u64,
) -> bool {
    &&& store.installations.dom().contains(id)
    &&& 0 <= m < store.installations[id].challenges.len()
    &&& !store.installations[id].challenges[m].deleted
    &&& store.installations[id].challenges[m].expires_at_ms <= now_ms
}

/// The store after an abandoned answer was taken back.
pub open spec fn reclaimed(
    store: crate::store::model::StoreView,
    id: Uuid,
    m: int,
    now_ms: u64,
) -> crate::store::model::StoreView {
    let row = store.installations[id];
    store.with_row(
        id,
        crate::store::model::InstallationView {
            challenges: row.challenges.update(
                m,
                crate::store::model::ChallengeView { deleted: true, ..row.challenges[m] },
            ),
            ..row
        },
    ).queued(id, JobKind::RemoveTxt(row.challenges[m].lease_id), now_ms).noted(
        id,
        Some(row.challenges[m].lease_id),
        AuditEvent::ChallengeExpired,
    ).advanced()
}

/// The store after the first `count` answers of an installation have been looked at and the
/// abandoned ones among them taken back, while fewer than `limit` are; and how many are.
pub open spec fn row_swept(
    start: (crate::store::model::StoreView, nat),
    id: Uuid,
    count: nat,
    limit: nat,
    now_ms: u64,
) -> (crate::store::model::StoreView, nat)
    decreases count,
{
    if count == 0 {
        start
    } else {
        let (before, taken) = row_swept(start, id, (count - 1) as nat, limit, now_ms);
        if taken < limit && abandoned(before, id, count - 1, now_ms) {
            (reclaimed(before, id, count - 1, now_ms), taken + 1)
        } else {
            (before, taken)
        }
    }
}

/// The store after the first `count` installations have been swept.
pub open spec fn leases_swept(
    store: crate::store::model::StoreView,
    count: nat,
    limit: nat,
    now_ms: u64,
) -> (crate::store::model::StoreView, nat)
    decreases count,
{
    if count == 0 {
        (store, 0)
    } else {
        let start = leases_swept(store, (count - 1) as nat, limit, now_ms);
        let id = store.order[count - 1];
        row_swept(start, id, start.0.installations[id].challenges.len(), limit, now_ms)
    }
}

/// Where the answer of an identifier stands in the row of an installation.
fn find_lease(row: &Installation, lease_id: Uuid) -> (found: Option<usize>)
    requires
        row@.valid(),
    ensures
        found is Some == leased(row@, lease_id),
        found matches Some(i) ==> i < row.challenges@.len() && row.challenges@[i as int].lease_id
            == lease_id && lease_of(row@, lease_id) == row.challenges@[i as int]@,
{
    let mut i: usize = 0;
    while i < row.challenges.len()
        invariant
            i <= row.challenges@.len(),
            row@.valid(),
            forall|j: int| 0 <= j < i ==> (#[trigger] row@.challenges[j]).lease_id != lease_id,
        decreases row.challenges@.len() - i,
    {
        proof {
            assert(row@.challenges[i as int] == row.challenges@[i as int]@);
        }
        if row.challenges[i].lease_id == lease_id {
            proof {
                lemma_lease_of(row@, i as int);
            }
            return Some(i);
        }
        i += 1;
    }
    None
}

/// Whether another answer than the given one is live in the row of an installation.
fn has_other_live(row: &Installation, lease_id: Uuid, now_ms: u64) -> (found: bool)
    ensures
        found == other_live(row@, lease_id, now_ms),
{
    let mut i: usize = 0;
    while i < row.challenges.len()
        invariant
            i <= row.challenges@.len(),
            forall|j: int|
                0 <= j < i ==> !((#[trigger] row@.challenges[j]).lease_id != lease_id
                    && row@.challenges[j].live(now_ms)),
        decreases row.challenges@.len() - i,
    {
        let entry: &Challenge = &row.challenges[i];
        proof {
            assert(row@.challenges[i as int] == entry@);
        }
        if entry.lease_id != lease_id && !entry.deleted && entry.expires_at_ms > now_ms {
            return true;
        }
        i += 1;
    }
    false
}

impl Store {
    /// Leases the TXT record of an installation to a DNS-01 answer.
    pub fn create_challenge(
        &mut self,
        id: Uuid,
        generation: u64,
        lease: &ChallengeLease,
        now_ms: u64,
    ) -> (outcome: Result<(), StoreError>)
        requires
            old(self).well_formed(),
            old(self).has_room(1),
        ensures
            final(self).well_formed(),
            (final(self)@, outcome) == create_outcome(
                old(self)@,
                id,
                generation,
                lease.operation_id,
                lease.txt_value@,
                lease.expires_at_ms,
                now_ms,
            ),
    {
        if lease.expires_at_ms <= now_ms || lease.expires_at_ms > now_ms.saturating_add(
            CHALLENGE_LIFETIME_MS,
        ) || !txt_is_valid(lease.txt_value.as_str()) {
            return Err(StoreError::InvalidRequest);
        }
        match self.installations.get(id) {
            Some(row) => {
                proof {
                    assert(self@.installations.dom().contains(id));
                    assert(row@ == self@.installations[id]);
                }
                if row.state != AllocationState::DnsReady || has_other_live(
                    row,
                    lease.operation_id,
                    now_ms,
                ) {
                    return Err(StoreError::Conflict);
                }
                match find_lease(row, lease.operation_id) {
                    Some(i) => {
                        let earlier: &Challenge = &row.challenges[i];
                        return if same_text(earlier.txt_value.as_str(), lease.txt_value.as_str())
                            && earlier.generation == generation {
                            Ok(())
                        } else {
                            Err(StoreError::Conflict)
                        };
                    },
                    None => {},
                }
            },
            None => {
                return Err(StoreError::Conflict);
            },
        }
        let ghost target = create_outcome(
            old(self)@,
            id,
            generation,
            lease.operation_id,
            lease.txt_value@,
            lease.expires_at_ms,
            now_ms,
        ).0.installations[id];
        match self.installations.get_mut(id) {
            Some(row) => {
                row.challenges.push(
                    Challenge {
                        lease_id: lease.operation_id,
                        txt_value: lease.txt_value.clone(),
                        generation,
                        expires_at_ms: lease.expires_at_ms,
                        ready: false,
                        deleted: false,
                    },
                );
                proof {
                    assert(row@.challenges =~= target.challenges);
                }
            },
            None => {},
        }
        proof {
            let before = old(self)@.installations[id];
            assert(old(self)@.installations.dom().contains(id));
            assert(before.valid());
            assert forall|i: int, j: int| 0 <= i < j < target.challenges.len() implies (
            #[trigger] target.challenges[i]).lease_id != (
            #[trigger] target.challenges[j]).lease_id by {
                assert(target.challenges[i] == before.challenges[i]);
                if j < before.challenges.len() {
                    assert(target.challenges[j] == before.challenges[j]);
                }
            }
            assert(target.valid());
            assert(self@.installations =~= old(self)@.installations.insert(id, target));
        }
        self.enqueue(id, JobKind::PublishTxt(lease.operation_id), now_ms);
        self.note(id, Some(lease.operation_id), AuditEvent::ChallengeCreated);
        self.advance();
        Ok(())
    }

    /// Marks one answer of an installation as taken back or as observed.
    fn mark_lease(&mut self, id: Uuid, lease_id: Uuid, deleted: bool)
        requires
            old(self).well_formed(),
            old(self)@.installations.dom().contains(id),
            leased(old(self)@.installations[id], lease_id),
        ensures
            final(self).well_formed(),
            final(self)@ == old(self)@.with_row(
                id,
                crate::store::model::InstallationView {
                    challenges: if deleted {
                        without(old(self)@.installations[id].challenges, lease_id)
                    } else {
                        observed(old(self)@.installations[id].challenges, lease_id)
                    },
                    ..old(self)@.installations[id]
                },
            ),
            final(self).next_job == old(self).next_job,
            final(self).revision == old(self).revision,
    {
        let ghost before = old(self)@.installations[id];
        let ghost target = crate::store::model::InstallationView {
            challenges: if deleted {
                without(before.challenges, lease_id)
            } else {
                observed(before.challenges, lease_id)
            },
            ..before
        };
        proof {
            assert(before.valid());
        }
        match self.installations.get_mut(id) {
            Some(row) => {
                match find_lease(row, lease_id) {
                    Some(i) => {
                        if deleted {
                            row.challenges[i].deleted = true;
                        } else {
                            row.challenges[i].ready = true;
                        }
                        proof {
                            assert forall|j: int| 0 <= j < before.challenges.len() implies
                                #[trigger] row@.challenges[j] == target.challenges[j] by {
                                if j < i {
                                    assert(before.challenges[j].lease_id
                                        != before.challenges[i as int].lease_id);
                                }
                                if i < j {
                                    assert(before.challenges[i as int].lease_id
                                        != before.challenges[j].lease_id);
                                }
                            }
                            assert(row@.challenges =~= target.challenges);
                        }
                    },
                    None => {},
                }
            },
            None => {},
        }
        proof {
            assert forall|i: int, j: int| 0 <= i < j < target.challenges.len() implies (
            #[trigger] target.challenges[i]).lease_id != (
            #[trigger] target.challenges[j]).lease_id by {
                assert(target.challenges[i].lease_id == before.challenges[i].lease_id);
                assert(target.challenges[j].lease_id == before.challenges[j].lease_id);
            }
            assert(target.valid());
            assert(self@.installations =~= old(self)@.installations.insert(id, target));
        }
    }

    /// Takes a DNS-01 answer back. Repeating the request changes nothing.
    pub fn delete_challenge(&mut self, id: Uuid, generation: u64, lease_id: Uuid, now_ms: u64) -> (outcome:
        Result<(), StoreError>)
        requires
            old(self).well_formed(),
            old(self).has_room(1),
        ensures
            final(self).well_formed(),
            (final(self)@, outcome) == delete_outcome(
                old(self)@,
                id,
                generation,
                lease_id,
                now_ms,
            ),
    {
        let due: bool = match self.installations.get(id) {
            Some(row) => {
                proof {
                    assert(self@.installations.dom().contains(id));
                    assert(row@ == self@.installations[id]);
                }
                match find_lease(row, lease_id) {
                    Some(i) => row.challenges[i].generation == generation
                        && !row.challenges[i].deleted,
                    None => false,
                }
            },
            None => {
                return Err(StoreError::Conflict);
            },
        };
        if due {
            self.mark_lease(id, lease_id, true);
            self.enqueue(id, JobKind::RemoveTxt(lease_id), now_ms);
            self.note(id, Some(lease_id), AuditEvent::ChallengeDeleted);
            self.advance();
        }
        Ok(())
    }

    /// The answer that a DNS job is about, where the job is still to be done.
    pub fn challenge_for_job(&self, id: Uuid, lease_id: Uuid, cleanup: bool, now_ms: u64) -> (lease:
        Option<ChallengeLease>)
        requires
            self.well_formed(),
        ensures
            lease is Some == job_lease(self@, id, lease_id, cleanup, now_ms) is Some,
            lease matches Some(found) ==> ({
                let answer = job_lease(self@, id, lease_id, cleanup, now_ms)->0;
                &&& found.operation_id == lease_id
                &&& found.txt_value@ == answer.txt_value
                &&& found.expires_at_ms == answer.expires_at_ms
            }),
    {
        match self.installations.get(id) {
            Some(row) => {
                proof {
                    assert(self@.installations.dom().contains(id));
                    assert(row@ == self@.installations[id]);
                }
                let i: usize = match find_lease(row, lease_id) {
                    Some(i) => i,
                    None => {
                        return None;
                    },
                };
                if cleanup && has_other_live(row, lease_id, now_ms) {
                    return None;
                }
                let entry: &Challenge = &row.challenges[i];
                if cleanup || (!entry.deleted && entry.expires_at_ms > now_ms) {
                    Some(
                        ChallengeLease {
                            operation_id: lease_id,
                            txt_value: entry.txt_value.clone(),
                            expires_at_ms: entry.expires_at_ms,
                        },
                    )
                } else {
                    None
                }
            },
            None => None,
        }
    }

    /// Takes note that a live answer was observed in DNS.
    pub fn mark_challenge_ready(&mut self, id: Uuid, lease_id: Uuid, now_ms: u64)
        requires
            old(self).well_formed(),
            old(self).has_room(1),
        ensures
            final(self).well_formed(),
            final(self)@ == challenge_readied(old(self)@, id, lease_id, now_ms),
    {
        let due: bool = match self.installations.get(id) {
            Some(row) => {
                proof {
                    assert(self@.installations.dom().contains(id));
                    assert(row@ == self@.installations[id]);
                }
                match find_lease(row, lease_id) {
                    Some(i) => !row.challenges[i].ready && !row.challenges[i].deleted
                        && row.challenges[i].expires_at_ms > now_ms,
                    None => false,
                }
            },
            None => false,
        };
        if due {
            self.mark_lease(id, lease_id, false);
            self.note(id, Some(lease_id), AuditEvent::ChallengeDnsReady);
            self.advance();
        }
    }

    /// Whether a live answer has been observed in DNS.
    pub fn challenge_ready(&self, id: Uuid, lease_id: Uuid, now_ms: u64) -> (ready: bool)
        requires
            self.well_formed(),
        ensures
            ready == (self@.installations.dom().contains(id) && leased(
                self@.installations[id],
                lease_id,
            ) && lease_of(self@.installations[id], lease_id).ready && lease_of(
                self@.installations[id],
                lease_id,
            ).live(now_ms)),
    {
        match self.installations.get(id) {
            Some(row) => {
                proof {
                    assert(self@.installations.dom().contains(id));
                    assert(row@ == self@.installations[id]);
                }
                match find_lease(row, lease_id) {
                    Some(i) => row.challenges[i].ready && !row.challenges[i].deleted
                        && row.challenges[i].expires_at_ms > now_ms,
                    None => false,
                }
            },
            None => false,
        }
    }

    /// Takes one abandoned answer back.
    fn reclaim(&mut self, id: Uuid, m: usize, now_ms: u64)
        requires
            old(self).well_formed(),
            old(self).has_room(1),
            abandoned(old(self)@, id, m as int, now_ms),
        ensures
            final(self).well_formed(),
            final(self)@ == reclaimed(old(self)@, id, m as int, now_ms),
            final(self).next_job == old(self).next_job + 1,
            final(self).revision == old(self).revision + 1,
    {
        let ghost before = old(self)@.installations[id];
        let ghost target = reclaimed(old(self)@, id, m as int, now_ms).installations[id];
        let mut lease_id: Uuid = Uuid::nil();
        match self.installations.get_mut(id) {
            Some(row) => {
                lease_id = row.challenges[m].lease_id;
                row.challenges[m].deleted = true;
                proof {
                    assert(row@.challenges =~= target.challenges);
                }
            },
            None => {},
        }
        proof {
            assert(old(self)@.installations.dom().contains(id));
            assert(before.valid());
            assert forall|i: int, j: int| 0 <= i < j < target.challenges.len() implies (
            #[trigger] target.challenges[i]).lease_id != (
            #[trigger] target.challenges[j]).lease_id by {
                assert(target.challenges[i].lease_id == before.challenges[i].lease_id);
                assert(target.challenges[j].lease_id == before.challenges[j].lease_id);
            }
            assert(target.valid());
            assert(self@.installations =~= old(self)@.installations.insert(id, target));
        }
        self.enqueue(id, JobKind::RemoveTxt(lease_id), now_ms);
        self.note(id, Some(lease_id), AuditEvent::ChallengeExpired);
        self.advance();
    }

    /// Takes back the answers that have run out, in order and at most `limit` of them.
    pub fn expire_challenge_leases(&mut self, limit: u64, now_ms: u64) -> (taken: u64)
        requires
            old(self).well_formed(),
            old(self).has_room(limit as int),
        ensures
            final(self).well_formed(),
            (final(self)@, taken as nat) == leases_swept(
                old(self)@,
                old(self)@.order.len(),
                limit as nat,
                now_ms,
            ),
    {
        let mut taken: u64 = 0;
        let mut i: usize = 0;
        let total: usize = self.installations.len();
        while i < total
            invariant
                i <= total == old(self)@.order.len(),
                self.well_formed(),
                self@.order == old(self)@.order,
                taken <= limit,
                old(self).has_room(limit as int),
                self.next_job == old(self).next_job + taken,
                self.revision == old(self).revision + taken,
                (self@, taken as nat) == leases_swept(old(self)@, i as nat, limit as nat, now_ms),
            decreases total - i,
        {
            let id: Uuid = self.installations.key_at(i);
            let ghost start = (self@, taken as nat);
            proof {
                assert(self@.installations.dom().contains(id));
            }
            let count: usize = match self.installations.get(id) {
                Some(row) => row.challenges.len(),
                None => 0,
            };
            let mut m: usize = 0;
            while m < count
                invariant
                    m <= count == start.0.installations[id].challenges.len(),
                    self@.installations.dom().contains(id),
                    self@.installations[id].challenges.len() == count,
                    self.well_formed(),
                    self@.order == old(self)@.order,
                    taken <= limit,
                    old(self).has_room(limit as int),
                    self.next_job == old(self).next_job + taken,
                    self.revision == old(self).revision + taken,
                    (self@, taken as nat) == row_swept(start, id, m as nat, limit as nat, now_ms),
                decreases count - m,
            {
                let due: bool = match self.installations.get(id) {
                    Some(row) => !row.challenges[m].deleted && row.challenges[m].expires_at_ms
                        <= now_ms,
                    None => false,
                };
                proof {
                    assert(due == abandoned(self@, id, m as int, now_ms));
                }
                if taken < limit && due {
                    self.reclaim(id, m, now_ms);
                    taken += 1;
                }
                m += 1;
            }
            i += 1;
        }
        taken
    }
}

} // verus!
