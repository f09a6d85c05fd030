//! What is owed and when: DNS-01 answers, the work of the outbox, admission, and what is known of
//! the feeds of certificate transparency.

use crate::address::IpAddress;
use crate::ids::Uuid;
use crate::protocol::AllocationState;
use crate::store::effects::{known, logged, only_row, owes, stands};
use crate::store::model::{
    AlertView, AuditEvent, BootstrapView, ChallengeView, DnsJobScope, InstallationView, JobKind,
    LagView, OutboxJob, StoreError, StoreView, MAX_GENERATION,
};
use vstd::prelude::*;

verus! {

/// Whether a text can be a DNS-01 answer: 43 letters, digits, hyphens and underscores.
pub open spec fn answer_text(text: Seq<char>) -> bool {
    &&& text.len() == 43
    &&& forall|i: int|
        0 <= i < text.len() ==> ('0' <= #[trigger] text[i] <= '9' || 'a' <= text[i] <= 'z' || 'A'
            <= text[i] <= 'Z' || text[i] == '-' || text[i] == '_')
}

/// Whether an installation has an answer under an identifier at a place.
pub open spec fn answer_at(row: InstallationView, i: int, lease_id: Uuid) -> bool {
    0 <= i < row.challenges.len() && row.challenges[i].lease_id == lease_id
}

/// Whether an answer under another identifier is neither taken back nor over.
pub open spec fn another_stands(row: InstallationView, lease_id: Uuid, now_ms: u64) -> bool {
    exists|i: int|
        0 <= i < row.challenges.len() && (#[trigger] row.challenges[i]).lease_id != lease_id
            && !row.challenges[i].deleted && row.challenges[i].expires_at_ms > now_ms
}

proof fn lemma_answers(row: InstallationView, lease_id: Uuid, now_ms: u64)
    requires
        row.valid(),
    ensures
        crate::store::challenges::other_live(row, lease_id, now_ms) == another_stands(
            row,
            lease_id,
            now_ms,
        ),
        crate::store::challenges::leased(row, lease_id) == exists|i: int|
            #[trigger] answer_at(row, i, lease_id),
        forall|i: int| #[trigger]
            answer_at(row, i, lease_id) ==> crate::store::challenges::lease_of(row, lease_id)
                == row.challenges[i],
{
    if crate::store::challenges::other_live(row, lease_id, now_ms) {
        let i = choose|i: int|
            0 <= i < row.challenges.len() && (#[trigger] row.challenges[i]).lease_id != lease_id
                && row.challenges[i].live(now_ms);
        assert(row.challenges[i].lease_id != lease_id);
    }
    if another_stands(row, lease_id, now_ms) {
        let i = choose|i: int|
            0 <= i < row.challenges.len() && (#[trigger] row.challenges[i]).lease_id != lease_id
                && !row.challenges[i].deleted && row.challenges[i].expires_at_ms > now_ms;
        assert(row.challenges[i].live(now_ms));
    }
    if crate::store::challenges::leased(row, lease_id) {
        let k = choose|k: int|
            0 <= k < row.challenges.len() && (#[trigger] row.challenges[k]).lease_id == lease_id;
        assert(answer_at(row, k, lease_id));
    }
    assert forall|i: int| #[trigger] answer_at(row, i, lease_id) implies
        crate::store::challenges::lease_of(row, lease_id) == row.challenges[i] by {
        let k = choose|k: int|
            0 <= k < row.challenges.len() && (#[trigger] row.challenges[k]).lease_id == lease_id;
        assert(0 <= k < row.challenges.len() && row.challenges[k].lease_id == lease_id);
        if k < i {
            assert(row.challenges[k].lease_id != row.challenges[i].lease_id);
        }
        if i < k {
            assert(row.challenges[i].lease_id != row.challenges[k].lease_id);
        }
    }
}

proof fn lemma_answer_text(text: Seq<char>)
    ensures
        crate::store::challenges::valid_txt(text) == answer_text(text),
{
    if crate::store::challenges::valid_txt(text) {
        assert forall|i: int| 0 <= i < text.len() implies ('0' <= #[trigger] text[i] <= '9' || 'a'
            <= text[i] <= 'z' || 'A' <= text[i] <= 'Z' || text[i] == '-' || text[i] == '_') by {
            assert(crate::text::CharClass::UrlSafe.holds(text[i]));
        }
    }
}

/// An answer is leased to a ready installation for at most a quarter of an hour, and only while
/// no other of its answers stands. A new identifier gets an answer that is neither seen nor taken
/// back, and its publication is owed; a known one gets nothing new, and succeeds only for the
/// same value and generation. Nothing but the answers of the installation changes.
pub proof fn law_answer_is_leased(
    store: StoreView,
    id: Uuid,
    generation: u64,
    lease_id: Uuid,
    txt_value: Seq<char>,
    expires_at_ms: u64,
    now_ms: u64,
)
    requires
        store.valid(),
    ensures
        ({
            let (after, answer) = crate::store::challenges::create_outcome(
                store,
                id,
                generation,
                lease_id,
                txt_value,
                expires_at_ms,
                now_ms,
            );
            let row = store.installations[id];
            let asked = now_ms < expires_at_ms && expires_at_ms <= now_ms + 900_000 && answer_text(
                txt_value,
            );
            let free = stands(store, id, AllocationState::DnsReady) && !another_stands(
                row,
                lease_id,
                now_ms,
            );
            let had = exists|i: int| #[trigger] answer_at(row, i, lease_id);
            let same = exists|i: int|
                #[trigger] answer_at(row, i, lease_id) && row.challenges[i].txt_value == txt_value
                    && row.challenges[i].generation == generation;
            &&& answer is Ok <==> asked && free && (!had || same)
            &&& answer is Err || had ==> after == store
            &&& !asked ==> answer == Err::<(), StoreError>(StoreError::InvalidRequest)
            &&& asked && answer is Err ==> answer == Err::<(), StoreError>(StoreError::Conflict)
            &&& answer is Ok && !had ==> {
                let new = after.installations[id];
                let n = row.challenges.len() as int;
                &&& new.challenges.len() == n + 1
                &&& new.challenges.take(n) == row.challenges
                &&& new.challenges[n].lease_id == lease_id
                &&& new.challenges[n].txt_value == txt_value
                &&& new.challenges[n].generation == generation
                &&& new.challenges[n].expires_at_ms == expires_at_ms
                &&& !new.challenges[n].ready && !new.challenges[n].deleted
                &&& new == InstallationView { challenges: new.challenges, ..row }
                &&& only_row(store, after, id)
                &&& after.operations == store.operations
                &&& owes(store, after, id, JobKind::PublishTxt(lease_id), now_ms)
                &&& logged(store, after, id, AuditEvent::ChallengeCreated)
            }
        }),
{
    let row = store.installations[id];
    let after = crate::store::challenges::create_outcome(
        store,
        id,
        generation,
        lease_id,
        txt_value,
        expires_at_ms,
        now_ms,
    ).0;
    lemma_answer_text(txt_value);
    if known(store, id) {
        lemma_answers(row, lease_id, now_ms);
        if exists|i: int| #[trigger] answer_at(row, i, lease_id) {
            let i = choose|i: int| #[trigger] answer_at(row, i, lease_id);
            assert(answer_at(row, i, lease_id));
        }
    }
    if after != store {
        assert(after.outbox.drop_last() =~= store.outbox);
        assert(after.audit.drop_last() =~= store.audit);
        assert(after.installations[id].challenges.take(row.challenges.len() as int)
            =~= row.challenges);
    }
}

/// Taking an answer back marks just the one of the identifier, where it is there under the
/// generation and was not taken back; its removal is owed, and nothing else changes. Without such
/// an answer nothing changes at all. Only an installation that is not known is refused.
pub proof fn law_answer_is_taken_back(
    store: StoreView,
    id: Uuid,
    generation: u64,
    lease_id: Uuid,
    now_ms: u64,
)
    requires
        store.valid(),
    ensures
        ({
            let (after, answer) = crate::store::challenges::delete_outcome(
                store,
                id,
                generation,
                lease_id,
                now_ms,
            );
            let row = store.installations[id];
            let there = known(store, id) && exists|i: int|
                #[trigger] answer_at(row, i, lease_id) && row.challenges[i].generation == generation
                    && !row.challenges[i].deleted;
            &&& answer == if known(store, id) {
                Ok::<(), StoreError>(())
            } else {
                Err::<(), StoreError>(StoreError::Conflict)
            }
            &&& !there ==> after == store
            &&& there ==> {
                let new = after.installations[id];
                &&& new.challenges.len() == row.challenges.len()
                &&& forall|i: int|
                    0 <= i < row.challenges.len() ==> #[trigger] new.challenges[i] == (
                    ChallengeView {
                        deleted: row.challenges[i].deleted || row.challenges[i].lease_id
                            == lease_id,
                        ..row.challenges[i]
                    })
                &&& new == InstallationView { challenges: new.challenges, ..row }
                &&& only_row(store, after, id)
                &&& after.operations == store.operations
                &&& owes(store, after, id, JobKind::RemoveTxt(lease_id), now_ms)
                &&& logged(store, after, id, AuditEvent::ChallengeDeleted)
            }
        }),
{
    let row = store.installations[id];
    let after = crate::store::challenges::delete_outcome(
        store,
        id,
        generation,
        lease_id,
        now_ms,
    ).0;
    if known(store, id) {
        lemma_answers(row, lease_id, now_ms);
        if exists|i: int| #[trigger] answer_at(row, i, lease_id) {
            let i = choose|i: int| #[trigger] answer_at(row, i, lease_id);
            assert(answer_at(row, i, lease_id));
        }
    }
    if after != store {
        assert(after.outbox.drop_last() =~= store.outbox);
        assert(after.audit.drop_last() =~= store.audit);
    }
}

/// An answer that was seen in DNS while it stands is ready from then on, and nothing else
/// changes; one that was taken back, is over, is ready already or is not there changes nothing.
pub proof fn law_seen_answer_is_ready(store: StoreView, id: Uuid, lease_id: Uuid, now_ms: u64)
    requires
        store.valid(),
    ensures
        ({
            let after = crate::store::challenges::challenge_readied(store, id, lease_id, now_ms);
            let row = store.installations[id];
            let due = known(store, id) && exists|i: int|
                #[trigger] answer_at(row, i, lease_id) && !row.challenges[i].deleted
                    && row.challenges[i].expires_at_ms > now_ms && !row.challenges[i].ready;
            &&& !due ==> after == store
            &&& due ==> {
                let new = after.installations[id];
                &&& new.challenges.len() == row.challenges.len()
                &&& forall|i: int|
                    0 <= i < row.challenges.len() ==> #[trigger] new.challenges[i] == (
                    ChallengeView {
                        ready: row.challenges[i].ready || row.challenges[i].lease_id == lease_id,
                        ..row.challenges[i]
                    })
                &&& new == InstallationView { challenges: new.challenges, ..row }
                &&& only_row(store, after, id)
                &&& after.operations == store.operations && after.outbox == store.outbox
                &&& logged(store, after, id, AuditEvent::ChallengeDnsReady)
            }
        }),
{
    let row = store.installations[id];
    let after = crate::store::challenges::challenge_readied(store, id, lease_id, now_ms);
    if known(store, id) {
        lemma_answers(row, lease_id, now_ms);
        if exists|i: int| #[trigger] answer_at(row, i, lease_id) {
            let i = choose|i: int| #[trigger] answer_at(row, i, lease_id);
            assert(answer_at(row, i, lease_id));
        }
    }
    if after != store {
        assert(after.audit.drop_last() =~= store.audit);
    }
}

/// The answer that a job of the outbox is about is the one of its identifier, and is given to a
/// publication while it stands, and to a removal while no other stands, and otherwise not.
pub proof fn law_job_is_about_its_answer(
    store: StoreView,
    id: Uuid,
    lease_id: Uuid,
    cleanup: bool,
    now_ms: u64,
    i: int,
)
    requires
        store.valid(),
        known(store, id),
        answer_at(store.installations[id], i, lease_id),
    ensures
        ({
            let row = store.installations[id];
            let given = if cleanup {
                !another_stands(row, lease_id, now_ms)
            } else {
                !row.challenges[i].deleted && row.challenges[i].expires_at_ms > now_ms
            };
            crate::store::challenges::job_lease(store, id, lease_id, cleanup, now_ms)
                == if given {
                Some(row.challenges[i])
            } else {
                None
            }
        }),
{
    lemma_answers(store.installations[id], lease_id, now_ms);
}

/// A job about an answer that is not there gets none.
pub proof fn law_job_without_an_answer(
    store: StoreView,
    id: Uuid,
    lease_id: Uuid,
    cleanup: bool,
    now_ms: u64,
)
    requires
        store.valid(),
        !known(store, id) || forall|i: int|
            !#[trigger] answer_at(store.installations[id], i, lease_id),
    ensures
        crate::store::challenges::job_lease(store, id, lease_id, cleanup, now_ms) is None,
{
    if known(store, id) {
        lemma_answers(store.installations[id], lease_id, now_ms);
    }
}

/// Whether an answer has run out and was not taken back.
pub open spec fn run_out(row: InstallationView, m: int, now_ms: u64) -> bool {
    0 <= m < row.challenges.len() && !row.challenges[m].deleted && row.challenges[m].expires_at_ms
        <= now_ms
}

/// Whether an installation has lost nothing but answers that had run out.
pub open spec fn answers_reclaimed(
    before: InstallationView,
    after: InstallationView,
    now_ms: u64,
) -> bool {
    &&& after.challenges.len() == before.challenges.len()
    &&& forall|m: int|
        0 <= m < before.challenges.len() ==> #[trigger] after.challenges[m]
            == before.challenges[m] || (run_out(before, m, now_ms) && after.challenges[m] == (
        ChallengeView { deleted: true, ..before.challenges[m] }))
    &&& after == InstallationView { challenges: after.challenges, ..before }
}

/// Whether a sweep of answers left all else as it was, owing the removal of each that it took.
pub open spec fn answers_swept(
    before: StoreView,
    had: nat,
    after: StoreView,
    taken: nat,
    limit: nat,
    now_ms: u64,
) -> bool {
    &&& had <= taken <= limit
    &&& after.installations.dom() == before.installations.dom()
    &&& forall|id: Uuid| #[trigger]
        before.installations.dom().contains(id) ==> answers_reclaimed(
            before.installations[id],
            after.installations[id],
            now_ms,
        )
    &&& after.order == before.order
    &&& after.reservations == before.reservations
    &&& after.operations == before.operations
    &&& after.nonces == before.nonces && after.bootstraps == before.bootstraps
    &&& after.ct == before.ct
    &&& after.outbox.len() == before.outbox.len() + taken - had
    &&& after.outbox.take(before.outbox.len() as int) == before.outbox
    &&& forall|j: int|
        before.outbox.len() <= j < after.outbox.len() ==> (#[trigger] after.outbox[j]).kind
            is RemoveTxt && !after.outbox[j].completed
}

proof fn lemma_sweep_onwards(
    first: StoreView,
    had: nat,
    second: StoreView,
    then: nat,
    third: StoreView,
    taken: nat,
    limit: nat,
    now_ms: u64,
)
    requires
        answers_swept(first, had, second, then, limit, now_ms),
        answers_swept(second, then, third, taken, limit, now_ms),
    ensures
        answers_swept(first, had, third, taken, limit, now_ms),
{
    assert forall|id: Uuid| #[trigger] first.installations.dom().contains(id) implies
        answers_reclaimed(first.installations[id], third.installations[id], now_ms) by {
        let a = first.installations[id];
        let b = second.installations[id];
        let c = third.installations[id];
        assert(answers_reclaimed(a, b, now_ms));
        assert(answers_reclaimed(b, c, now_ms));
        assert forall|m: int| 0 <= m < a.challenges.len() implies #[trigger] c.challenges[m]
            == a.challenges[m] || (run_out(a, m, now_ms) && c.challenges[m] == (ChallengeView {
            deleted: true,
            ..a.challenges[m]
        })) by {
            assert(b.challenges[m] == a.challenges[m] || run_out(a, m, now_ms));
        }
    }
    assert(third.outbox.take(first.outbox.len() as int) =~= first.outbox) by {
        assert forall|j: int| 0 <= j < first.outbox.len() implies third.outbox[j]
            == first.outbox[j] by {
            assert(third.outbox.take(second.outbox.len() as int)[j] == second.outbox[j]);
            assert(second.outbox.take(first.outbox.len() as int)[j] == first.outbox[j]);
        }
    }
    assert forall|j: int| first.outbox.len() <= j < third.outbox.len() implies (
    #[trigger] third.outbox[j]).kind is RemoveTxt && !third.outbox[j].completed by {
        if j < second.outbox.len() {
            assert(third.outbox.take(second.outbox.len() as int)[j] == second.outbox[j]);
        }
    }
}

proof fn lemma_row_swept(
    start: (StoreView, nat),
    id: Uuid,
    count: nat,
    limit: nat,
    now_ms: u64,
)
    requires
        start.1 <= limit,
        known(start.0, id) ==> count <= start.0.installations[id].challenges.len(),
    ensures
        ({
            let (after, taken) = crate::store::challenges::row_swept(
                start,
                id,
                count,
                limit,
                now_ms,
            );
            &&& answers_swept(start.0, start.1, after, taken, limit, now_ms)
            &&& taken < limit && known(after, id) ==> forall|m: int|
                0 <= m < count ==> !#[trigger] run_out(after.installations[id], m, now_ms)
        }),
    decreases count,
{
    if count == 0 {
        assert(start.0.outbox.take(start.0.outbox.len() as int) =~= start.0.outbox);
    } else {
        let less = (count - 1) as nat;
        lemma_row_swept(start, id, less, limit, now_ms);
        let (before, had) = crate::store::challenges::row_swept(start, id, less, limit, now_ms);
        let (after, taken) = crate::store::challenges::row_swept(start, id, count, limit, now_ms);
        assert(known(before, id) == known(start.0, id));
        if known(start.0, id) {
            assert(answers_reclaimed(
                start.0.installations[id],
                before.installations[id],
                now_ms,
            ));
        }
        if had < limit && crate::store::challenges::abandoned(before, id, count - 1, now_ms) {
            let a = before.installations[id];
            let b = after.installations[id];
            assert(run_out(a, count - 1, now_ms));
            assert(answers_reclaimed(a, b, now_ms));
            assert(after.installations.dom() =~= before.installations.dom());
            assert(after.outbox.take(before.outbox.len() as int) =~= before.outbox);
            assert(answers_swept(before, had, after, taken, limit, now_ms));
            lemma_sweep_onwards(start.0, start.1, before, had, after, taken, limit, now_ms);
            assert forall|m: int| 0 <= m < count && taken < limit implies !#[trigger] run_out(
                b,
                m,
                now_ms,
            ) by {
                if m < count - 1 {
                    assert(!run_out(a, m, now_ms));
                    assert(b.challenges[m] == a.challenges[m]);
                }
            }
        } else {
            if known(after, id) && taken < limit {
                assert(!run_out(after.installations[id], count - 1, now_ms));
            }
        }
    }
}

/// A sweep takes back only answers that have run out, owes the removal of each, and leaves every
/// other answer and all else as it is; it takes no more than its limit, and where it takes fewer,
/// no such answer is left with the installations that it looked at.
pub proof fn law_sweep_takes_what_ran_out(store: StoreView, count: nat, limit: nat, now_ms: u64)
    requires
        count <= store.order.len(),
        forall|k: int| 0 <= k < store.order.len() ==> known(store, #[trigger] store.order[k]),
    ensures
        ({
            let (after, taken) = crate::store::challenges::leases_swept(
                store,
                count,
                limit,
                now_ms,
            );
            &&& answers_swept(store, 0, after, taken, limit, now_ms)
            &&& taken < limit ==> forall|k: int, m: int|
                0 <= k < count ==> !#[trigger] run_out(
                    after.installations[#[trigger] store.order[k]],
                    m,
                    now_ms,
                )
        }),
    decreases count,
{
    if count == 0 {
        assert(store.outbox.take(store.outbox.len() as int) =~= store.outbox);
    } else {
        let less = (count - 1) as nat;
        law_sweep_takes_what_ran_out(store, less, limit, now_ms);
        let start = crate::store::challenges::leases_swept(store, less, limit, now_ms);
        let id = store.order[count - 1];
        let size = start.0.installations[id].challenges.len();
        lemma_row_swept(start, id, size, limit, now_ms);
        let (after, taken) = crate::store::challenges::leases_swept(store, count, limit, now_ms);
        lemma_sweep_onwards(store, 0, start.0, start.1, after, taken, limit, now_ms);
        assert(known(store, id));
        assert(answers_reclaimed(start.0.installations[id], after.installations[id], now_ms));
        assert forall|k: int, m: int| 0 <= k < count && taken < limit implies !#[trigger] run_out(
            after.installations[#[trigger] store.order[k]],
            m,
            now_ms,
        ) by {
            let other = store.order[k];
            assert(known(store, other));
            assert(known(start.0, other));
            assert(answers_reclaimed(
                start.0.installations[other],
                after.installations[other],
                now_ms,
            ));
            if k < count - 1 {
                assert(!run_out(start.0.installations[other], m, now_ms));
                if 0 <= m < after.installations[other].challenges.len() {
                    assert(after.installations[other].challenges[m]
                        == start.0.installations[other].challenges[m] || run_out(
                        start.0.installations[other],
                        m,
                        now_ms,
                    ));
                }
            } else if 0 <= m < size {
                assert(!run_out(after.installations[id], m, now_ms));
            }
        }
    }
}

/// How long a job that has been tried so many times has to wait, in seconds.
pub open spec fn waits(attempts: int) -> int {
    if attempts <= 5 {
        60
    } else if attempts == 6 {
        64
    } else if attempts == 7 {
        128
    } else {
        256
    }
}

/// A job waits for a minute after each of its first five attempts, then for 64, 128 and from then
/// on 256 seconds.
pub proof fn law_waiting_doubles(attempt: nat)
    ensures
        crate::store::outbox::retry_delay_seconds(attempt) == waits(attempt as int),
{
    reveal_with_fuel(crate::store::outbox::power_of_two, 9);
    if attempt == 0 {
    } else if attempt == 1 {
    } else if attempt == 2 {
    } else if attempt == 3 {
    } else if attempt == 4 {
    } else if attempt == 5 {
    }
}

/// Whether a job can be given to a worker of a shard: it is neither done nor waiting, its
/// installation is placed there, and the work is of the kind that the worker does.
pub open spec fn workable(
    store: StoreView,
    i: int,
    placement: Seq<char>,
    scope: Option<DnsJobScope>,
    now_ms: u64,
) -> bool {
    &&& 0 <= i < store.outbox.len()
    &&& !store.outbox[i].completed
    &&& store.outbox[i].next_attempt_ms <= now_ms
    &&& known(store, store.outbox[i].installation_id)
    &&& store.installations[store.outbox[i].installation_id].placement == placement
    &&& scope == Some(DnsJobScope::Serving) ==> (store.outbox[i].kind is PublishName
        || store.outbox[i].kind is RemoveRecords)
    &&& scope == Some(DnsJobScope::Challenge) ==> (store.outbox[i].kind is PublishTxt
        || store.outbox[i].kind is RemoveTxt)
}

/// A worker is given the first job that it can be given, wherever there is one, as it stood. The
/// job counts one attempt more and waits; every other job and all else stays.
pub proof fn law_worker_gets_the_first_job(
    before: StoreView,
    after: StoreView,
    placement: Seq<char>,
    scope: Option<DnsJobScope>,
    now_ms: u64,
    job: Option<OutboxJob>,
)
    requires
        crate::store::outbox::is_claim(before, after, placement, scope, now_ms, job),
        now_ms + 256_000 <= u64::MAX,
    ensures
        job is Some <==> exists|i: int| #[trigger] workable(before, i, placement, scope, now_ms),
        job is None ==> after == before,
        job matches Some(found) ==> exists|i: int|
            {
                &&& #[trigger] workable(before, i, placement, scope, now_ms)
                &&& forall|j: int|
                    0 <= j < i ==> !#[trigger] workable(before, j, placement, scope, now_ms)
                &&& found == before.outbox[i]
                &&& after.outbox.len() == before.outbox.len()
                &&& forall|j: int|
                    0 <= j < before.outbox.len() && j != i ==> #[trigger] after.outbox[j]
                        == before.outbox[j]
                &&& after.outbox[i].next_attempt_ms == now_ms + 1000 * waits(found.attempts + 1)
                &&& found.attempts < u32::MAX ==> after.outbox[i].attempts == found.attempts + 1
                &&& found.attempts == u32::MAX ==> after.outbox[i].attempts == u32::MAX
                &&& after.outbox[i] == OutboxJob {
                    attempts: after.outbox[i].attempts,
                    next_attempt_ms: after.outbox[i].next_attempt_ms,
                    ..found
                }
                &&& after.installations == before.installations
                &&& after.operations == before.operations
                &&& after.audit == before.audit && after.ct == before.ct
                &&& after.revision == before.revision + 1
            },
{
    assert forall|i: int| #[trigger] workable(before, i, placement, scope, now_ms)
        == crate::store::outbox::claimable_in(before, i, placement, scope, now_ms) by {
        if 0 <= i < before.outbox.len() {
            match before.outbox[i].kind {
                JobKind::PublishName => {},
                JobKind::RemoveRecords => {},
                JobKind::PublishTxt(_) => {},
                JobKind::RemoveTxt(_) => {},
            }
        }
    }
    match job {
        Some(found) => {
            let i = choose|i: int|
                #[trigger] crate::store::outbox::claimable_in(before, i, placement, scope, now_ms)
                    && found == before.outbox[i] && (forall|j: int|
                    0 <= j < i ==> !#[trigger] crate::store::outbox::claimable_in(
                        before,
                        j,
                        placement,
                        scope,
                        now_ms,
                    )) && after == (StoreView {
                    outbox: before.outbox.update(
                        i,
                        crate::store::outbox::attempted(before.outbox[i], now_ms),
                    ),
                    ..before
                }).advanced();
            law_waiting_doubles((found.attempts + 1) as nat);
            assert(workable(before, i, placement, scope, now_ms));
            assert forall|j: int| 0 <= j < i implies !#[trigger] workable(
                before,
                j,
                placement,
                scope,
                now_ms,
            ) by {
                assert(!crate::store::outbox::claimable_in(before, j, placement, scope, now_ms));
            }
        },
        None => {
            assert forall|i: int| !#[trigger] workable(before, i, placement, scope, now_ms) by {
                assert(!crate::store::outbox::claimable_in(before, i, placement, scope, now_ms));
            }
        },
    }
}

/// A job that is done stays in the outbox, is marked as done, and is not given out again;
/// every other job and all else stays.
pub proof fn law_done_job_stays_done(store: StoreView, id: u64)
    ensures
        ({
            let after = crate::store::outbox::completed(store, id);
            &&& after == StoreView { outbox: after.outbox, ..store }
            &&& after.outbox.len() == store.outbox.len()
            &&& forall|i: int|
                0 <= i < store.outbox.len() ==> #[trigger] after.outbox[i] == (OutboxJob {
                    completed: store.outbox[i].completed || store.outbox[i].id == id,
                    ..store.outbox[i]
                })
        }),
{
}

/// Whether a bootstrap challenge was given out within the last minute.
pub open spec fn of_last_minute(now_ms: u64) -> spec_fn(BootstrapView) -> bool {
    |row: BootstrapView| row.created_at_ms + 60_000 > now_ms
}

/// Whether a bootstrap challenge was given out to a source within the last minute.
pub open spec fn of_source_and_minute(source: IpAddress, now_ms: u64) -> spec_fn(
    BootstrapView,
) -> bool {
    |row: BootstrapView| row.created_at_ms + 60_000 > now_ms && row.source == source
}

proof fn lemma_recent(rows: Seq<BootstrapView>, source: IpAddress, now_ms: u64)
    ensures
        crate::store::admission::recent(rows, None, now_ms) == rows.filter(
            of_last_minute(now_ms),
        ).len(),
        crate::store::admission::recent(rows, Some(source), now_ms) == rows.filter(
            of_source_and_minute(source, now_ms),
        ).len(),
    decreases rows.len(),
{
    reveal(Seq::filter);
    if rows.len() > 0 {
        lemma_recent(rows.drop_last(), source, now_ms);
    }
}

/// A bootstrap challenge is given out exactly where fewer than ten went to the source and fewer
/// than a hundred to all within the last minute, and its nonce is new. It can be used by that
/// source for a minute. Otherwise nothing changes.
pub proof fn law_bootstrap_is_given_out(
    store: StoreView,
    nonce: Seq<char>,
    source: IpAddress,
    now_ms: u64,
)
    requires
        now_ms + 60_000 <= u64::MAX,
    ensures
        ({
            let (after, answer) = crate::store::admission::bootstrap_outcome(
                store,
                nonce,
                source,
                now_ms,
            );
            let room = store.bootstraps.filter(of_source_and_minute(source, now_ms)).len() < 10
                && store.bootstraps.filter(of_last_minute(now_ms)).len() < 100;
            let taken = exists|i: int|
                0 <= i < store.bootstraps.len() && (#[trigger] store.bootstraps[i]).nonce == nonce;
            &&& answer == if !room {
                Ok::<bool, StoreError>(false)
            } else if taken {
                Err::<bool, StoreError>(StoreError::Unavailable)
            } else {
                Ok::<bool, StoreError>(true)
            }
            &&& answer != Ok::<bool, StoreError>(true) ==> after == store
            &&& answer == Ok::<bool, StoreError>(true) ==> {
                let n = store.bootstraps.len() as int;
                &&& after == StoreView { bootstraps: after.bootstraps, ..store }
                &&& after.bootstraps.len() == n + 1
                &&& after.bootstraps.take(n) == store.bootstraps
                &&& after.bootstraps[n].nonce == nonce
                &&& after.bootstraps[n].source == source
                &&& after.bootstraps[n].created_at_ms == now_ms
                &&& after.bootstraps[n].expires_at_ms == now_ms + 60_000
            }
        }),
{
    lemma_recent(store.bootstraps, source, now_ms);
    let after = crate::store::admission::bootstrap_outcome(store, nonce, source, now_ms).0;
    if after != store {
        assert(after.bootstraps.take(store.bootstraps.len() as int) =~= store.bootstraps);
    }
}

/// A bootstrap challenge can be used exactly where it is there, for the source that it was given
/// to and not over. It is then gone, and every other one and all else stays.
pub proof fn law_bootstrap_is_used_up(
    store: StoreView,
    nonce: Seq<char>,
    source: IpAddress,
    now_ms: u64,
    i: int,
)
    requires
        store.valid(),
        0 <= i < store.bootstraps.len(),
        store.bootstraps[i].nonce == nonce,
    ensures
        ({
            let (after, used) = crate::store::admission::bootstrap_used(
                store,
                nonce,
                source,
                now_ms,
            );
            &&& used <==> store.bootstraps[i].source == source
                && store.bootstraps[i].expires_at_ms > now_ms
            &&& !used ==> after == store
            &&& used ==> after == StoreView { bootstraps: store.bootstraps.remove(i), ..store }
        }),
{
    let rows = store.bootstraps;
    assert forall|k: int| 0 <= k < rows.len() && (#[trigger] rows[k]).nonce == nonce implies k == i
        by {
        if k < i {
            assert(rows[k].nonce != rows[i].nonce);
        }
        if i < k {
            assert(rows[i].nonce != rows[k].nonce);
        }
    }
    if store.bootstraps[i].source == source && store.bootstraps[i].expires_at_ms > now_ms {
        assert(crate::store::admission::usable(rows[i], nonce, source, now_ms));
    }
}

/// A bootstrap challenge that was not given out cannot be used.
pub proof fn law_unknown_bootstrap_is_refused(
    store: StoreView,
    nonce: Seq<char>,
    source: IpAddress,
    now_ms: u64,
)
    requires
        forall|i: int|
            0 <= i < store.bootstraps.len() ==> (#[trigger] store.bootstraps[i]).nonce != nonce,
    ensures
        crate::store::admission::bootstrap_used(store, nonce, source, now_ms) == (store, false),
{
}

/// A nonce of 16 to 128 bytes is accepted from an installation that has not used it, and from no
/// other; it is then kept for five minutes at least, and nothing else changes.
pub proof fn law_fresh_nonce_is_accepted(
    store: StoreView,
    id: Uuid,
    nonce: Seq<char>,
    now_ms: u64,
)
    requires
        now_ms + 300_000 <= u64::MAX,
    ensures
        ({
            let (after, first) = crate::store::admission::nonce_outcome(store, id, nonce, now_ms);
            let n = store.nonces.len() as int;
            &&& first <==> 16 <= vstd::utf8::encode_utf8(nonce).len() <= 128 && !exists|i: int|
                0 <= i < n && (#[trigger] store.nonces[i]).installation_id == id
                    && store.nonces[i].nonce == nonce
            &&& !first ==> after == store
            &&& first ==> {
                &&& after == StoreView { nonces: after.nonces, ..store }
                &&& after.nonces.len() == n + 1
                &&& after.nonces.take(n) == store.nonces
                &&& after.nonces[n].installation_id == id
                &&& after.nonces[n].nonce == nonce
                &&& after.nonces[n].expires_at_ms == now_ms + 300_000
            }
        }),
{
    let after = crate::store::admission::nonce_outcome(store, id, nonce, now_ms).0;
    if after != store {
        assert(after.nonces.take(store.nonces.len() as int) =~= store.nonces);
    }
}

/// Whether an alert is one of a feed that was not delivered.
pub open spec fn alert_waits(source: Seq<char>) -> spec_fn((AlertView, bool)) -> bool {
    |row: (AlertView, bool)| row.0.source == source && !row.1
}

/// Whether a lag alert is one of a feed that was not delivered.
pub open spec fn lag_waits(source: Seq<char>) -> spec_fn((LagView, u64, bool)) -> bool {
    |row: (LagView, u64, bool)| row.0.source == source && !row.2
}

/// What is pending of a feed are its alerts that were not delivered, all of them, in order.
pub proof fn law_pending_alerts_wait(rows: Seq<(AlertView, bool)>, source: Seq<char>)
    ensures
        crate::store::alerts::undelivered(rows, source) == rows.filter(
            alert_waits(source),
        ).map_values(|row: (AlertView, bool)| row.0),
    decreases rows.len(),
{
    reveal(Seq::filter);
    let first = |row: (AlertView, bool)| row.0;
    if rows.len() > 0 {
        law_pending_alerts_wait(rows.drop_last(), source);
        let earlier = rows.drop_last().filter(alert_waits(source));
        if rows.last().0.source == source && !rows.last().1 {
            assert(earlier.push(rows.last()).map_values(first) =~= earlier.map_values(first).push(
                rows.last().0,
            ));
        }
    } else {
        assert(rows.filter(alert_waits(source)).map_values(first) =~= Seq::<AlertView>::empty());
    }
}

/// What is pending of a feed are its lag alerts that were not delivered, all of them, in order.
pub proof fn law_pending_lags_wait(rows: Seq<(LagView, u64, bool)>, source: Seq<char>)
    ensures
        crate::store::alerts::undelivered_lags(rows, source) == rows.filter(
            lag_waits(source),
        ).map_values(|row: (LagView, u64, bool)| row.0),
    decreases rows.len(),
{
    reveal(Seq::filter);
    let first = |row: (LagView, u64, bool)| row.0;
    if rows.len() > 0 {
        law_pending_lags_wait(rows.drop_last(), source);
        let earlier = rows.drop_last().filter(lag_waits(source));
        if rows.last().0.source == source && !rows.last().2 {
            assert(earlier.push(rows.last()).map_values(first) =~= earlier.map_values(first).push(
                rows.last().0,
            ));
        }
    } else {
        assert(rows.filter(lag_waits(source)).map_values(first) =~= Seq::<LagView>::empty());
    }
}

/// A limited list is the beginning of the whole one: all of it where it fits, and exactly as much
/// as the limit where it does not.
pub proof fn law_limit_keeps_the_first<A>(rows: Seq<A>, limit: int)
    requires
        limit >= 0,
    ensures
        crate::store::alerts::at_most(rows, limit).len() == if rows.len() <= limit {
            rows.len() as int
        } else {
            limit
        },
        forall|i: int|
            0 <= i < crate::store::alerts::at_most(rows, limit).len()
                ==> #[trigger] crate::store::alerts::at_most(rows, limit)[i] == rows[i],
{
}

/// Delivery marks the alerts of the identifier and changes nothing else.
pub proof fn law_delivery_marks_one(
    alerts: Seq<(AlertView, bool)>,
    lags: Seq<(LagView, u64, bool)>,
    id: u64,
)
    ensures
        crate::store::alerts::delivered(alerts, id).len() == alerts.len(),
        forall|i: int|
            0 <= i < alerts.len() ==> #[trigger] crate::store::alerts::delivered(alerts, id)[i] == (
                alerts[i].0,
                alerts[i].1 || alerts[i].0.id == id,
            ),
        crate::store::alerts::lag_delivered(lags, id).len() == lags.len(),
        forall|i: int|
            0 <= i < lags.len() ==> #[trigger] crate::store::alerts::lag_delivered(lags, id)[i] == (
                lags[i].0,
                lags[i].1,
                lags[i].2 || lags[i].0.id == id,
            ),
{
}

/// A span in seconds is within half a second of the span, and a half counts away from zero.
pub proof fn law_seconds_are_the_nearest(span_ms: int)
    ensures
        -500 <= 1000 * crate::store::alerts::nearest_seconds(span_ms) - span_ms <= 500,
        span_ms >= 0 ==> 1000 * crate::store::alerts::nearest_seconds(span_ms) - span_ms > -500,
        span_ms < 0 ==> 1000 * crate::store::alerts::nearest_seconds(span_ms) - span_ms < 500,
{
}

/// Windows are a quarter of an hour long, and each time is in the one that it is nearest to the
/// start of.
pub proof fn law_windows_are_quarter_hours(now_ms: u64)
    requires
        now_ms + 450_000 <= u64::MAX,
    ensures
        -450_000 < 900_000 * crate::store::alerts::lag_window(now_ms) - now_ms <= 450_000,
{
}

/// A look at a feed adds an alert exactly where the feed has been silent for more than a quarter
/// of an hour and has none in the present window: one about that feed, with the length of the
/// silence, that is not delivered. Nothing else changes.
pub proof fn law_silence_is_noticed(store: StoreView, source: Seq<char>, now_ms: u64)
    requires
        store.ct.next_alert < u64::MAX,
    ensures
        ({
            let after = crate::store::alerts::lag_noticed(store, source, now_ms);
            let window = crate::store::alerts::lag_window(now_ms);
            let observed_at_ms = store.ct.checkpoints[source].observed_at_ms;
            let due = store.ct.checkpoints.dom().contains(source) && observed_at_ms + 900_000
                < now_ms && !exists|i: int|
                0 <= i < store.ct.lags.len() && (#[trigger] store.ct.lags[i]).0.source == source
                    && store.ct.lags[i].1 == window;
            &&& !due ==> after == store
            &&& due ==> {
                let n = store.ct.lags.len() as int;
                &&& after.ct.lags.len() == n + 1
                &&& after.ct.lags.take(n) == store.ct.lags
                &&& after.ct.lags[n].0.source == source
                &&& -500 < 1000 * after.ct.lags[n].0.lag_seconds - (now_ms - observed_at_ms) <= 500
                &&& after.ct.lags[n].0.id == store.ct.next_alert
                &&& after.ct.lags[n].1 == window
                &&& !after.ct.lags[n].2
                &&& after.ct.next_alert == store.ct.next_alert + 1
                &&& after.ct.checkpoints == store.ct.checkpoints
                &&& after.ct.observations == store.ct.observations
                &&& after.ct.alerts == store.ct.alerts
                &&& after == StoreView { ct: after.ct, ..store }
            }
        }),
{
    let after = crate::store::alerts::lag_noticed(store, source, now_ms);
    if after != store {
        assert(after.ct.lags.take(store.ct.lags.len() as int) =~= store.ct.lags);
    }
}

/// Whether a text can name a feed.
pub open spec fn feed_name(text: Seq<char>) -> bool {
    &&& 1 <= text.len() <= 64
    &&& forall|i: int|
        0 <= i < text.len() ==> ('0' <= #[trigger] text[i] <= '9' || 'a' <= text[i] <= 'z' || 'A'
            <= text[i] <= 'Z' || text[i] == '-')
}

/// Whether a text is the fingerprint of a key: 64 hexadecimal digits.
pub open spec fn key_name(text: Seq<char>) -> bool {
    &&& text.len() == 64
    &&& forall|i: int|
        0 <= i < text.len() ==> ('0' <= #[trigger] text[i] <= '9' || 'a' <= text[i] <= 'f' || 'A'
            <= text[i] <= 'F')
}

/// A feed is named by one to 64 letters, digits and hyphens, and a key by 64 hexadecimal digits.
pub proof fn law_feeds_and_keys_are_named(text: Seq<char>)
    ensures
        crate::store::transparency::valid_source(text) == feed_name(text),
        crate::store::transparency::valid_fingerprint(text) == key_name(text),
{
    if crate::store::transparency::valid_source(text) {
        assert forall|i: int| 0 <= i < text.len() implies ('0' <= #[trigger] text[i] <= '9' || 'a'
            <= text[i] <= 'z' || 'A' <= text[i] <= 'Z' || text[i] == '-') by {
            assert(crate::text::CharClass::Label.holds(text[i]));
        }
    }
    if crate::store::transparency::valid_fingerprint(text) {
        assert forall|i: int| 0 <= i < text.len() implies ('0' <= #[trigger] text[i] <= '9' || 'a'
            <= text[i] <= 'f' || 'A' <= text[i] <= 'F') by {
            assert(crate::text::CharClass::Hex.holds(text[i]));
        }
    }
}

/// To follow a feed adds its checkpoint, at the beginning, where it is not followed, and changes
/// nothing where it is; a feed that has answered keeps its place and all else.
pub proof fn law_followed_feed_keeps_its_place(
    store: StoreView,
    source: Seq<char>,
    position: u64,
    now_ms: u64,
)
    ensures
        ({
            let after = crate::store::transparency::with_source(store, source, now_ms);
            &&& store.ct.checkpoints.dom().contains(source) ==> after == store
            &&& !store.ct.checkpoints.dom().contains(source) ==> {
                &&& after.ct.checkpoints.dom() =~= store.ct.checkpoints.dom().insert(source)
                &&& after.ct.checkpoints[source].position == 0
                &&& after.ct.checkpoints[source].observed_at_ms == now_ms
                &&& forall|other: Seq<char>| #[trigger]
                    store.ct.checkpoints.dom().contains(other) ==> after.ct.checkpoints[other]
                        == store.ct.checkpoints[other]
                &&& after.ct.observations == store.ct.observations && after.ct.alerts
                    == store.ct.alerts && after.ct.lags == store.ct.lags
                &&& after == StoreView { ct: after.ct, ..store }
            }
        }),
        ({
            let checkpoint = crate::store::model::Checkpoint { position, observed_at_ms: now_ms };
            let after = crate::store::transparency::with_checkpoint(store, source, checkpoint);
            &&& after.ct.checkpoints[source] == checkpoint
            &&& forall|other: Seq<char>|
                other != source && #[trigger] store.ct.checkpoints.dom().contains(other)
                    ==> after.ct.checkpoints[other] == store.ct.checkpoints[other]
            &&& after.ct.observations == store.ct.observations && after.ct.alerts
                == store.ct.alerts && after.ct.lags == store.ct.lags
            &&& after == StoreView { ct: after.ct, ..store }
        }),
{
}

/// How far a feed has been read: nowhere where it is not followed.
pub open spec fn read_to(store: StoreView, source: Seq<char>) -> int {
    if store.ct.checkpoints.dom().contains(source) {
        store.ct.checkpoints[source].position as int
    } else {
        0
    }
}

/// An observation is taken in only at the position behind the last one; what it says is kept with
/// whether it was expected and whose name it is. One further on is refused, and so is one without
/// a relay hostname, a key, a feed or a position, and nothing changes.
pub proof fn law_observation_is_kept(
    before: StoreView,
    source: Seq<char>,
    position: u64,
    hostname: Seq<char>,
    fingerprint: Seq<char>,
    now_ms: u64,
    after: StoreView,
    outcome: Result<bool, StoreError>,
)
    requires
        crate::store::transparency::is_observation(
            before,
            source,
            position,
            hostname,
            fingerprint,
            now_ms,
            after,
            outcome,
        ),
    ensures
        ({
            let asked = crate::protocol::valid_hostname(hostname) && key_name(fingerprint)
                && feed_name(source) && 1 <= position <= MAX_GENERATION;
            &&& !asked ==> after == before && outcome == Err::<bool, StoreError>(
                StoreError::InvalidRequest,
            )
            &&& asked && position > read_to(before, source) + 1 ==> after == before && outcome
                == Err::<bool, StoreError>(StoreError::Conflict)
            &&& asked && position <= read_to(before, source) ==> after == before && (outcome is Err
                ==> outcome == Err::<bool, StoreError>(StoreError::Conflict))
            &&& asked && position == read_to(before, source) + 1 ==> {
                let n = before.ct.observations.len() as int;
                let row = after.ct.observations[n];
                &&& outcome == Ok::<bool, StoreError>(row.expected)
                &&& row.expected == crate::store::effects::expects(before, hostname, fingerprint)
                &&& after.ct.observations.len() == n + 1
                &&& after.ct.observations.take(n) == before.ct.observations
                &&& row.source == source && row.position == position && row.hostname == hostname
                    && row.fingerprint == fingerprint
                &&& row.installation_id == if before.reservations.dom().contains(hostname) {
                    Some(before.reservations[hostname])
                } else {
                    None
                }
                &&& read_to(after, source) == position
                &&& after.ct.alerts.len() == before.ct.alerts.len() + if row.expected {
                    0int
                } else {
                    1int
                }
                &&& !row.expected ==> after.ct.alerts.last().0.id == before.ct.next_alert
                &&& !row.expected && before.ct.next_alert < u64::MAX ==> after.ct.next_alert
                    == before.ct.next_alert + 1
                &&& row.expected ==> after.ct.next_alert == before.ct.next_alert
                &&& after.installations == before.installations
                &&& after.outbox == before.outbox && after.operations == before.operations
                &&& after.audit.len() == before.audit.len() + if !row.expected
                    && row.installation_id is Some {
                    1int
                } else {
                    0int
                }
                &&& after.revision == before.revision + 1
            }
        }),
{
    law_feeds_and_keys_are_named(source);
    law_feeds_and_keys_are_named(fingerprint);
    crate::store::effects::law_expected_is_in_the_inventory(before, hostname, fingerprint);
    let start = crate::store::transparency::with_source(before, source, now_ms);
    crate::store::effects::law_expected_is_in_the_inventory(start, hostname, fingerprint);
    let n = before.ct.observations.len() as int;
    if after != before {
        assert(after.ct.observations.take(n) =~= before.ct.observations);
    }
}

/// Without a mark only a database that never held anything, at its first revision, is accepted;
/// with one, exactly those that are not behind it, and a mark is written where it moves.
pub proof fn law_witness_accepts_what_is_not_behind(
    prior: Option<u64>,
    revision: u64,
    pristine: bool,
)
    ensures
        ({
            let verdict = crate::store::witness::witness_verdict(prior, revision, pristine);
            &&& verdict is Ok <==> match prior {
                None => revision == 1 && pristine,
                Some(mark) => mark <= revision,
            }
            &&& verdict matches Ok(written) ==> written == if prior == Some(revision) {
                None
            } else {
                Some(revision)
            }
            &&& verdict matches Err(error) ==> if prior is None {
                error is Missing
            } else {
                error is StaleDatabase
            }
        }),
{
}

/// An observation at a position that was read is answered as it was where it is the same, by
/// hostname and key, and refused where it is not, and changes nothing either way.
pub proof fn law_known_observation_is_answered_again(
    before: StoreView,
    source: Seq<char>,
    position: u64,
    hostname: Seq<char>,
    fingerprint: Seq<char>,
    now_ms: u64,
    after: StoreView,
    outcome: Result<bool, StoreError>,
    i: int,
)
    requires
        before.valid(),
        crate::store::transparency::is_observation(
            before,
            source,
            position,
            hostname,
            fingerprint,
            now_ms,
            after,
            outcome,
        ),
        crate::protocol::valid_hostname(hostname),
        key_name(fingerprint),
        feed_name(source),
        1 <= position <= MAX_GENERATION,
        position <= read_to(before, source),
        0 <= i < before.ct.observations.len(),
        before.ct.observations[i].source == source,
        before.ct.observations[i].position == position,
    ensures
        after == before,
        outcome == if before.ct.observations[i].hostname == hostname
            && before.ct.observations[i].fingerprint == fingerprint {
            Ok::<bool, StoreError>(before.ct.observations[i].expected)
        } else {
            Err::<bool, StoreError>(StoreError::Conflict)
        },
{
    law_feeds_and_keys_are_named(source);
    law_feeds_and_keys_are_named(fingerprint);
    let rows = before.ct.observations;
    assert(crate::store::transparency::seen(before.ct, i, source, position));
    match outcome {
        Ok(expected) => {
            let k = choose|k: int|
                #[trigger] crate::store::transparency::seen(before.ct, k, source, position)
                    && rows[k].hostname == hostname && rows[k].fingerprint == fingerprint
                    && rows[k].expected == expected;
            if k < i {
                assert(rows[k].source != rows[i].source || rows[k].position != rows[i].position);
            }
            if i < k {
                assert(rows[i].source != rows[k].source || rows[i].position != rows[k].position);
            }
        },
        Err(_) => {},
    }
}

/// An allocation, a retirement and a relocation are recorded without a receipt of a credential: no
/// generation and no end, at the time of the operation, the first two without a digest of their
/// request.
pub proof fn law_operations_are_recorded(
    store: StoreView,
    id: Uuid,
    operation_id: Uuid,
    placement: Seq<char>,
    digest: Seq<u8>,
    now_ms: u64,
)
    requires
        store.valid(),
        !store.operations.dom().contains(operation_id),
    ensures
        ({
            let after = crate::store::identity::retire_outcome(store, id, operation_id, now_ms).0;
            after != store ==> {
                let kept = after.operations[operation_id];
                &&& kept.generation == 0 && kept.expires_at_ms == 0
                &&& kept.created_at_ms == now_ms
                &&& kept.request_digest.len() == 32
                &&& forall|i: int| 0 <= i < 32 ==> #[trigger] kept.request_digest[i] == 0
            }
        }),
        ({
            let after = crate::store::identity::relocate_outcome(
                store,
                id,
                operation_id,
                placement,
                digest,
                now_ms,
            ).0;
            after != store ==> {
                let kept = after.operations[operation_id];
                &&& kept.generation == 0 && kept.expires_at_ms == 0
                &&& kept.created_at_ms == now_ms
                &&& kept.request_digest == digest
            }
        }),
{
}

/// What is digested of a relocation names the shard: no relocation to another is digested the same.
pub proof fn law_relocation_is_digested_whole(placement: Seq<char>, other: Seq<char>)
    requires
        crate::store::identity::relocate_message(placement)
            == crate::store::identity::relocate_message(other),
    ensures
        placement == other,
{
    let start = "bloom-relay/relocate/v1\0"@;
    vstd::utf8::encode_utf8_decode_utf8(start + placement);
    vstd::utf8::encode_utf8_decode_utf8(start + other);
    assert(placement =~= (start + placement).skip(start.len() as int));
    assert(other =~= (start + other).skip(start.len() as int));
}

/// Every refusal of the store is described in its own words.
pub proof fn law_refusals_are_described()
    ensures
        StoreError::Unavailable.spec_message() == "store unavailable"@,
        StoreError::Conflict.spec_message() == "operation conflicts with prior request"@,
        StoreError::InvalidRequest.spec_message() == "invalid request"@,
        StoreError::Unauthorized.spec_message() == "unauthorized"@,
{
}

/// Every kind of work and every event of the audit log is written under its own name.
pub proof fn law_work_and_events_are_named(lease_id: Uuid)
    ensures
        JobKind::PublishName.spec_name() == "publish_name"@,
        JobKind::RemoveRecords.spec_name() == "remove_records"@,
        JobKind::PublishTxt(lease_id).spec_name() == "publish_txt"@,
        JobKind::RemoveTxt(lease_id).spec_name() == "remove_txt"@,
        JobKind::PublishName.spec_lease() is None && JobKind::RemoveRecords.spec_lease() is None,
        JobKind::PublishTxt(lease_id).spec_lease() == Some(lease_id),
        JobKind::RemoveTxt(lease_id).spec_lease() == Some(lease_id),
        AuditEvent::Allocated.spec_name() == "allocated"@,
        AuditEvent::CredentialRotated.spec_name() == "credential_rotated"@,
        AuditEvent::CredentialRenewed.spec_name() == "credential_renewed"@,
        AuditEvent::AcmeAccountBound.spec_name() == "acme_account_bound"@,
        AuditEvent::DnsReady.spec_name() == "dns_ready"@,
        AuditEvent::ChallengeCreated.spec_name() == "challenge_created"@,
        AuditEvent::ChallengeDeleted.spec_name() == "challenge_deleted"@,
        AuditEvent::ChallengeDnsReady.spec_name() == "challenge_dns_ready"@,
        AuditEvent::ChallengeExpired.spec_name() == "challenge_expired"@,
        AuditEvent::TunnelClaimed.spec_name() == "tunnel_claimed"@,
        AuditEvent::Relocated.spec_name() == "relocated"@,
        AuditEvent::Retired.spec_name() == "retired"@,
        AuditEvent::PendingExpired.spec_name() == "pending_expired"@,
        AuditEvent::CertificateExpected.spec_name() == "certificate_expected"@,
        AuditEvent::UnexpectedCt.spec_name() == "unexpected_ct"@,
{
}

} // verus!
