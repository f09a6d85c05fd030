//! What each transition of the store is for: which rows change and how, and which do not.

use crate::ids::Uuid;
use crate::protocol::{AllocationState, CertificateMetadata, Scope};
use crate::store::model::{
    AuditEvent, CredentialView, InstallationView, JobKind, LeaseView, OperationKind, StoreError,
    StoreView, MAX_GENERATION,
};
use vstd::prelude::*;

verus! {

/// Whether an installation is there.
pub open spec fn known(store: StoreView, id: Uuid) -> bool {
    store.installations.dom().contains(id)
}

/// Whether an installation is there in a state.
pub open spec fn stands(store: StoreView, id: Uuid, state: AllocationState) -> bool {
    store.installations.dom().contains(id) && store.installations[id].state == state
}

/// Whether nothing but the row of one installation, the outbox, the operations, the audit log and
/// the counters may have changed.
pub open spec fn only_row(before: StoreView, after: StoreView, id: Uuid) -> bool {
    &&& after.installations.dom() =~= before.installations.dom()
    &&& forall|other: Uuid|
        other != id && #[trigger] before.installations.dom().contains(other)
            ==> after.installations[other] == before.installations[other]
    &&& after.order == before.order
    &&& after.reservations == before.reservations
    &&& after.nonces == before.nonces
    &&& after.bootstraps == before.bootstraps
    &&& after.ct == before.ct
}

/// Whether exactly one job was added to the outbox: of a kind, for an installation, due at once.
pub open spec fn owes(
    before: StoreView,
    after: StoreView,
    id: Uuid,
    kind: JobKind,
    now_ms: u64,
) -> bool {
    &&& after.outbox.len() == before.outbox.len() + 1
    &&& after.outbox.drop_last() == before.outbox
    &&& after.outbox.last().id == before.next_job
    &&& before.next_job < u64::MAX ==> after.next_job == before.next_job + 1
    &&& after.outbox.last().installation_id == id
    &&& after.outbox.last().kind == kind
    &&& after.outbox.last().next_attempt_ms == now_ms
    &&& after.outbox.last().attempts == 0
    &&& !after.outbox.last().completed
}

/// Whether one line was added to the audit log.
pub open spec fn logged(before: StoreView, after: StoreView, id: Uuid, event: AuditEvent) -> bool {
    &&& after.audit.len() == before.audit.len() + 1
    &&& after.audit.drop_last() == before.audit
    &&& after.audit.last().installation_id == id
    &&& after.audit.last().event == event
    &&& after.revision == before.revision + 1
}

/// Whether a text is the URI of a production account: its start, and digits.
pub open spec fn production_account(uri: Seq<char>) -> bool {
    let start = "https://acme-v02.api.letsencrypt.org/acme/acct/"@;
    &&& start.len() <= uri.len()
    &&& uri.take(start.len() as int) == start
    &&& forall|i: int| start.len() <= i < uri.len() ==> '0' <= #[trigger] uri[i] <= '9'
}

/// Binding an account succeeds exactly for a production account of an installation that is not
/// retired. Whatever was bound before, the account is then the one that was asked for, and a
/// publication of the name is owed; nothing else of the installation changes, and no other does.
pub proof fn law_binding_takes_the_account(store: StoreView, id: Uuid, uri: Seq<char>, now_ms: u64)
    ensures
        ({
            let (after, answer) = crate::store::identity::bind_outcome(store, id, uri, now_ms);
            let row = store.installations[id];
            &&& answer is Ok <==> production_account(uri) && known(store, id) && row.state
                != AllocationState::Retired
            &&& answer is Ok ==> {
                let new = after.installations[id];
                &&& new.acme_account_uri == Some(uri)
                &&& new == InstallationView { acme_account_uri: Some(uri), ..row }
                &&& only_row(store, after, id)
                &&& after.operations == store.operations
                &&& owes(store, after, id, JobKind::PublishName, now_ms)
                &&& logged(store, after, id, AuditEvent::AcmeAccountBound)
            }
            &&& answer matches Err(error) ==> after == store && error == if production_account(uri) {
                StoreError::Conflict
            } else {
                StoreError::InvalidRequest
            }
        }),
{
    let after = crate::store::identity::bind_outcome(store, id, uri, now_ms).0;
    crate::dns::lemma_digits_account(uri);
    assert(crate::store::identity::bindable_account(uri) == production_account(uri));
    if crate::store::identity::bind_outcome(store, id, uri, now_ms).1 is Ok {
        assert(after.outbox.drop_last() =~= store.outbox);
        assert(after.audit.drop_last() =~= store.audit);
    }
}

/// Whether a text can name a shard.
pub open spec fn shard_name(text: Seq<char>) -> bool {
    &&& 1 <= text.len() <= 64
    &&& forall|i: int|
        0 <= i < text.len() ==> ('0' <= #[trigger] text[i] <= '9' || 'a' <= text[i] <= 'z' || 'A'
            <= text[i] <= 'Z' || text[i] == '-')
}

/// A new operation with a well-formed shard gets a new installation wherever the drawn identifier
/// and hostname are free: pending, with the key and the shard that were asked for, without an
/// account, a credential, a lease, an answer or a certificate. The hostname is reserved for it,
/// and its publication is owed. No other installation changes.
pub proof fn law_allocation_makes_an_installation(
    store: StoreView,
    operation_id: Uuid,
    admin_public_key: Seq<u8>,
    placement: Seq<char>,
    fresh: Uuid,
    random: Seq<u8>,
    now_ms: u64,
)
    requires
        !store.operations.dom().contains(operation_id),
        random.len() == 16,
    ensures
        ({
            let (after, answer) = crate::store::identity::allocate_outcome(
                store,
                operation_id,
                admin_public_key,
                placement,
                fresh,
                random,
                now_ms,
            );
            let hostname = crate::encoding::label_text(random) + ".relay.bloom.directory"@;
            let free = !known(store, fresh) && !store.reservations.dom().contains(hostname);
            &&& answer is Ok <==> shard_name(placement) && free
            &&& answer matches Err(error) ==> after == store && error == if shard_name(placement) {
                StoreError::Unavailable
            } else {
                StoreError::InvalidRequest
            }
            &&& answer matches Ok(id) ==> {
                let row = after.installations[fresh];
                &&& id == fresh
                &&& row.hostname == hostname
                &&& row.admin_public_key == admin_public_key
                &&& row.placement == placement
                &&& row.state == AllocationState::PendingDns
                &&& row.generation == 0
                &&& row.acme_account_uri is None
                &&& row.created_at_ms == now_ms
                &&& row.credentials.len() == 0
                &&& row.lease is None
                &&& row.challenges.len() == 0
                &&& row.inventory.len() == 0
                &&& after.installations == store.installations.insert(fresh, row)
                &&& after.reservations == store.reservations.insert(hostname, fresh)
                &&& after.operations.dom() =~= store.operations.dom().insert(operation_id)
                &&& after.operations[operation_id].installation_id == fresh
                &&& after.operations[operation_id].kind == OperationKind::Allocate
                &&& after.nonces == store.nonces && after.bootstraps == store.bootstraps
                &&& after.ct == store.ct
                &&& owes(store, after, fresh, JobKind::PublishName, now_ms)
                &&& logged(store, after, fresh, AuditEvent::Allocated)
            }
        }),
{
    let after = crate::store::identity::allocate_outcome(
        store,
        operation_id,
        admin_public_key,
        placement,
        fresh,
        random,
        now_ms,
    ).0;
    lemma_shard_name(placement);
    assert(after.outbox =~= store.outbox || after.outbox.drop_last() =~= store.outbox);
    assert(after.audit =~= store.audit || after.audit.drop_last() =~= store.audit);
}

proof fn lemma_shard_name(text: Seq<char>)
    ensures
        crate::store::identity::valid_placement(text) == shard_name(text),
{
    if crate::store::identity::valid_placement(text) {
        assert forall|i: int| 0 <= i < text.len() implies ('0' <= #[trigger] text[i] <= '9' || 'a'
            <= text[i] <= 'z' || 'A' <= text[i] <= 'Z' || text[i] == '-') by {
            assert(crate::text::CharClass::Label.holds(text[i]));
        }
    }
}

/// A hostname that was asked for under an operation is given again for the same key and shard,
/// whatever has become of it, and for no other key or shard.
pub proof fn law_allocation_is_answered_again(
    store: StoreView,
    operation_id: Uuid,
    admin_public_key: Seq<u8>,
    placement: Seq<char>,
    fresh: Uuid,
    random: Seq<u8>,
    now_ms: u64,
)
    requires
        store.operations.dom().contains(operation_id),
        shard_name(placement),
    ensures
        ({
            let id = store.operations[operation_id].installation_id;
            let row = store.installations[id];
            crate::store::identity::allocate_outcome(
                store,
                operation_id,
                admin_public_key,
                placement,
                fresh,
                random,
                now_ms,
            ) == (
                store,
                if row.admin_public_key == admin_public_key && row.placement == placement {
                    Ok::<Uuid, StoreError>(id)
                } else {
                    Err::<Uuid, StoreError>(StoreError::Conflict)
                },
            )
        }),
{
    lemma_shard_name(placement);
}

/// A retirement under a new operation takes an installation out of service: it is retired, its
/// lease is gone, its generation has moved on by one, and the removal of its records is owed. Its
/// hostname stays reserved for it. An installation that is retired already or not known is left.
pub proof fn law_retirement_takes_out_of_service(
    store: StoreView,
    id: Uuid,
    operation_id: Uuid,
    now_ms: u64,
)
    requires
        store.valid(),
        !store.operations.dom().contains(operation_id),
    ensures
        ({
            let (after, answer) = crate::store::identity::retire_outcome(
                store,
                id,
                operation_id,
                now_ms,
            );
            let row = store.installations[id];
            let active = known(store, id) && row.state != AllocationState::Retired;
            &&& !active ==> after == store && answer == Ok::<(), StoreError>(())
            &&& active && row.generation < MAX_GENERATION ==> {
                let new = after.installations[id];
                &&& answer == Ok::<(), StoreError>(())
                &&& new.state == AllocationState::Retired
                &&& new.lease is None
                &&& new.generation == row.generation + 1
                &&& new == InstallationView {
                    state: AllocationState::Retired,
                    lease: None,
                    generation: new.generation,
                    ..row
                }
                &&& after.reservations[row.hostname] == id
                &&& only_row(store, after, id)
                &&& after.operations.dom() =~= store.operations.dom().insert(operation_id)
                &&& after.operations[operation_id].installation_id == id
                &&& after.operations[operation_id].kind == OperationKind::Retire
                &&& owes(store, after, id, JobKind::RemoveRecords, now_ms)
                &&& logged(store, after, id, AuditEvent::Retired)
            }
        }),
{
    let after = crate::store::identity::retire_outcome(store, id, operation_id, now_ms).0;
    if after != store {
        assert(after.outbox.drop_last() =~= store.outbox);
        assert(after.audit.drop_last() =~= store.audit);
    }
}

/// A retirement under an operation that is known is answered as that operation was: it succeeds
/// where it retired this installation, and is refused where it was anything else.
pub proof fn law_retirement_is_answered_again(
    store: StoreView,
    id: Uuid,
    operation_id: Uuid,
    now_ms: u64,
)
    requires
        store.operations.dom().contains(operation_id),
    ensures
        crate::store::identity::retire_outcome(store, id, operation_id, now_ms) == (
            store,
            if store.operations[operation_id].installation_id == id
                && store.operations[operation_id].kind == OperationKind::Retire {
                Ok::<(), StoreError>(())
            } else {
                Err::<(), StoreError>(StoreError::Conflict)
            },
        ),
{
}

/// A relocation under a new operation moves an installation that is not retired to the shard that
/// was asked for: its lease is gone, its generation has moved on by one, and the publication of
/// its name is owed. Hostname, account, credentials and all else stay.
pub proof fn law_relocation_moves(
    store: StoreView,
    id: Uuid,
    operation_id: Uuid,
    placement: Seq<char>,
    digest: Seq<u8>,
    now_ms: u64,
)
    requires
        store.valid(),
        !store.operations.dom().contains(operation_id),
    ensures
        ({
            let (after, answer) = crate::store::identity::relocate_outcome(
                store,
                id,
                operation_id,
                placement,
                digest,
                now_ms,
            );
            let row = store.installations[id];
            let active = known(store, id) && row.state != AllocationState::Retired;
            &&& answer is Ok <==> shard_name(placement) && active && row.generation < MAX_GENERATION
            &&& answer is Err ==> after == store
            &&& !shard_name(placement) ==> answer == Err::<(), StoreError>(
                StoreError::InvalidRequest,
            )
            &&& shard_name(placement) && !active ==> answer == Err::<(), StoreError>(
                StoreError::Conflict,
            )
            &&& answer is Ok ==> {
                let new = after.installations[id];
                &&& new.placement == placement
                &&& new.lease is None
                &&& new.generation == row.generation + 1
                &&& new == InstallationView {
                    placement,
                    lease: None,
                    generation: new.generation,
                    ..row
                }
                &&& only_row(store, after, id)
                &&& after.operations.dom() =~= store.operations.dom().insert(operation_id)
                &&& after.operations[operation_id].installation_id == id
                &&& after.operations[operation_id].kind == OperationKind::Relocate
                &&& after.operations[operation_id].request_digest == digest
                &&& owes(store, after, id, JobKind::PublishName, now_ms)
                &&& logged(store, after, id, AuditEvent::Relocated)
            }
        }),
{
    lemma_shard_name(placement);
    assert(known(store, id) ==> store.installations[id].valid());
    let after = crate::store::identity::relocate_outcome(
        store,
        id,
        operation_id,
        placement,
        digest,
        now_ms,
    ).0;
    if after != store {
        assert(after.outbox.drop_last() =~= store.outbox);
        assert(after.audit.drop_last() =~= store.audit);
    }
}

/// A relocation under an operation that is known succeeds without effect where that operation was
/// the same relocation, and is refused where it was anything else.
pub proof fn law_relocation_is_answered_again(
    store: StoreView,
    id: Uuid,
    operation_id: Uuid,
    placement: Seq<char>,
    digest: Seq<u8>,
    now_ms: u64,
)
    requires
        store.operations.dom().contains(operation_id),
        shard_name(placement),
    ensures
        crate::store::identity::relocate_outcome(
            store,
            id,
            operation_id,
            placement,
            digest,
            now_ms,
        ) == (
            store,
            if store.operations[operation_id].installation_id == id
                && store.operations[operation_id].kind == OperationKind::Relocate
                && store.operations[operation_id].request_digest == digest {
                Ok::<(), StoreError>(())
            } else {
                Err::<(), StoreError>(StoreError::Conflict)
            },
        ),
{
    lemma_shard_name(placement);
}

/// Once its records have been observed, a pending installation with an account is ready, and
/// nothing else of it changes; one without an account, one that is ready and one that is retired
/// stay as they are.
pub proof fn law_observed_name_is_ready(store: StoreView, id: Uuid)
    ensures
        ({
            let after = crate::store::identity::readied(store, id);
            let row = store.installations[id];
            &&& stands(store, id, AllocationState::PendingDns) && row.acme_account_uri is Some ==> {
                &&& after.installations[id] == InstallationView {
                    state: AllocationState::DnsReady,
                    ..row
                }
                &&& only_row(store, after, id)
                &&& after.operations == store.operations && after.outbox == store.outbox
                &&& logged(store, after, id, AuditEvent::DnsReady)
            }
            &&& !(stands(store, id, AllocationState::PendingDns) && row.acme_account_uri is Some)
                ==> after == store
        }),
{
    let after = crate::store::identity::readied(store, id);
    if after != store {
        assert(after.audit.drop_last() =~= store.audit);
    }
}

/// Whether an allocation has waited for its records for a day.
pub open spec fn waited_a_day(store: StoreView, id: Uuid, now_ms: u64) -> bool {
    stands(store, id, AllocationState::PendingDns) && store.installations[id].created_at_ms
        + 86_400_000 <= now_ms && store.installations[id].generation < MAX_GENERATION
}

/// Whether an installation was taken out of service.
pub open spec fn taken_out(before: InstallationView, after: InstallationView) -> bool {
    &&& after.state == AllocationState::Retired
    &&& after.lease is None
    &&& after.generation == before.generation + 1
    &&& after == InstallationView {
        state: AllocationState::Retired,
        lease: None,
        generation: after.generation,
        ..before
    }
}

/// A sweep takes out of service only allocations that have waited for a day, owes the removal of
/// the records of each, and leaves every other installation as it is; it takes no more than its
/// limit, and where it takes fewer, no such allocation is left among those that it looked at.
pub proof fn law_sweep_takes_the_overdue(store: StoreView, count: nat, limit: nat, now_ms: u64)
    requires
        count <= store.order.len(),
    ensures
        ({
            let (after, taken) = crate::store::identity::swept(store, count, limit, now_ms);
            &&& taken <= limit
            &&& after.installations.dom() =~= store.installations.dom()
            &&& forall|id: Uuid| #[trigger]
                store.installations.dom().contains(id) ==> after.installations[id]
                    == store.installations[id] || (waited_a_day(store, id, now_ms) && taken_out(
                    store.installations[id],
                    after.installations[id],
                ))
            &&& taken < limit ==> forall|k: int|
                0 <= k < count ==> !waited_a_day(after, #[trigger] store.order[k], now_ms)
            &&& after.order == store.order
            &&& after.reservations == store.reservations
            &&& after.outbox.len() == store.outbox.len() + taken
            &&& forall|j: int|
                store.outbox.len() <= j < after.outbox.len() ==> (#[trigger] after.outbox[j]).kind
                    == JobKind::RemoveRecords && !after.outbox[j].completed && stands(
                    after,
                    after.outbox[j].installation_id,
                    AllocationState::Retired,
                )
        }),
    decreases count,
{
    if count > 0 {
        law_sweep_takes_the_overdue(store, (count - 1) as nat, limit, now_ms);
        let (before, had) = crate::store::identity::swept(store, (count - 1) as nat, limit, now_ms);
        let (after, taken) = crate::store::identity::swept(store, count, limit, now_ms);
        let last = store.order[count - 1];
        assert(crate::store::identity::overdue(before, last, now_ms) == waited_a_day(
            before,
            last,
            now_ms,
        ));
        assert forall|id: Uuid| #[trigger] store.installations.dom().contains(id) implies (
        after.installations[id] == store.installations[id] || (waited_a_day(store, id, now_ms)
            && taken_out(store.installations[id], after.installations[id]))) by {
            assert(before.installations[id] == store.installations[id] || (waited_a_day(
                store,
                id,
                now_ms,
            ) && taken_out(store.installations[id], before.installations[id])));
        }
        if taken < limit {
            assert forall|k: int| 0 <= k < count implies !waited_a_day(
                after,
                #[trigger] store.order[k],
                now_ms,
            ) by {
                if k < count - 1 {
                    assert(!waited_a_day(before, store.order[k], now_ms));
                }
            }
        }
        assert forall|j: int| store.outbox.len() <= j < after.outbox.len() implies (
        #[trigger] after.outbox[j]).kind == JobKind::RemoveRecords && !after.outbox[j].completed
            && stands(after, after.outbox[j].installation_id, AllocationState::Retired) by {
            if j < before.outbox.len() {
                assert(after.outbox[j] == before.outbox[j]);
            }
        }
    }
}

/// Whether a credential of an installation is good for a secret: of the scope, with the digest,
/// neither revoked nor over.
pub open spec fn good(
    row: InstallationView,
    i: int,
    scope: Scope,
    hash: Seq<u8>,
    now_ms: u64,
) -> bool {
    &&& 0 <= i < row.credentials.len()
    &&& row.credentials[i].scope == scope
    &&& row.credentials[i].token_hash == hash
    &&& !row.credentials[i].revoked
    &&& row.credentials[i].expires_at_ms > now_ms
}

/// Whether an installation was given a credential: its generation has moved on by one, the new
/// credential stands last, every earlier one of the scope is revoked, those of other scopes are
/// as they were, and the lease is gone where the scope is that of tunnels and as it was where it
/// is not.
pub open spec fn given_credential(
    before: InstallationView,
    after: InstallationView,
    scope: Scope,
    hash: Seq<u8>,
    expires_at_ms: int,
) -> bool {
    let n = before.credentials.len() as int;
    &&& after.generation == before.generation + 1
    &&& after.credentials.len() == n + 1
    &&& after.credentials[n].scope == scope
    &&& after.credentials[n].generation == after.generation
    &&& after.credentials[n].token_hash == hash
    &&& after.credentials[n].expires_at_ms == expires_at_ms
    &&& !after.credentials[n].revoked
    &&& forall|i: int|
        0 <= i < n ==> #[trigger] after.credentials[i] == (CredentialView {
            revoked: before.credentials[i].revoked || before.credentials[i].scope == scope,
            ..before.credentials[i]
        })
    &&& scope == Scope::Tunnel ==> after.lease is None
    &&& scope != Scope::Tunnel ==> after.lease == before.lease
    &&& after == InstallationView {
        generation: after.generation,
        credentials: after.credentials,
        lease: after.lease,
        ..before
    }
}

/// Issuing under a new operation gives an installation that is not retired a credential for as
/// long as was asked for; the receipt names its generation and its end, and the operation is kept
/// with both. Nothing else changes.
pub proof fn law_issue_gives_a_credential(
    store: StoreView,
    id: Uuid,
    operation_id: Uuid,
    scope: Scope,
    token_hash: Seq<u8>,
    validity_seconds: u32,
    digest: Seq<u8>,
    now_ms: u64,
)
    requires
        store.valid(),
        !store.operations.dom().contains(operation_id),
        now_ms + 1000 * validity_seconds <= u64::MAX,
    ensures
        ({
            let (after, answer) = crate::store::credentials::issue_outcome(
                store,
                id,
                operation_id,
                scope,
                token_hash,
                validity_seconds,
                digest,
                now_ms,
            );
            let row = store.installations[id];
            let active = known(store, id) && row.state != AllocationState::Retired;
            &&& answer is Ok <==> active && row.generation < MAX_GENERATION
            &&& answer is Err ==> after == store
            &&& !active ==> answer == Err::<(u64, u64), StoreError>(StoreError::Conflict)
            &&& answer matches Ok((generation, expires_at_ms)) ==> {
                &&& generation == row.generation + 1
                &&& expires_at_ms == now_ms + 1000 * validity_seconds
                &&& given_credential(
                    row,
                    after.installations[id],
                    scope,
                    token_hash,
                    expires_at_ms as int,
                )
                &&& only_row(store, after, id)
                &&& after.outbox == store.outbox
                &&& after.operations.dom() =~= store.operations.dom().insert(operation_id)
                &&& after.operations[operation_id].installation_id == id
                &&& after.operations[operation_id].kind == OperationKind::Issue(scope)
                &&& after.operations[operation_id].request_digest == digest
                &&& after.operations[operation_id].generation == generation
                &&& after.operations[operation_id].expires_at_ms == expires_at_ms
                &&& logged(store, after, id, AuditEvent::CredentialRotated)
            }
        }),
{
    assert(known(store, id) ==> store.installations[id].valid());
    let after = crate::store::credentials::issue_outcome(
        store,
        id,
        operation_id,
        scope,
        token_hash,
        validity_seconds,
        digest,
        now_ms,
    ).0;
    if after != store {
        assert(after.audit.drop_last() =~= store.audit);
    }
}

/// An issue or a renewal under an operation that is known changes nothing. It is answered with
/// the receipt of that operation where the request was the same, a renewal only within five
/// minutes, and is refused where it was not.
pub proof fn law_credential_is_answered_again(
    store: StoreView,
    id: Uuid,
    operation_id: Uuid,
    scope: Scope,
    token_hash: Seq<u8>,
    validity_seconds: u32,
    generation: u64,
    old_hash: Seq<u8>,
    digest: Seq<u8>,
    now_ms: u64,
)
    requires
        store.operations.dom().contains(operation_id),
    ensures
        ({
            let earlier = store.operations[operation_id];
            let receipt = Ok::<(u64, u64), StoreError>((earlier.generation, earlier.expires_at_ms));
            let refused = Err::<(u64, u64), StoreError>(StoreError::Conflict);
            let same = earlier.installation_id == id && earlier.request_digest == digest;
            &&& crate::store::credentials::issue_outcome(
                store,
                id,
                operation_id,
                scope,
                token_hash,
                validity_seconds,
                digest,
                now_ms,
            ) == (
                store,
                if same && earlier.kind == OperationKind::Issue(scope) {
                    receipt
                } else {
                    refused
                },
            )
            &&& crate::store::credentials::renew_outcome(
                store,
                id,
                operation_id,
                scope,
                generation,
                old_hash,
                token_hash,
                digest,
                now_ms,
            ) == (
                store,
                if same && earlier.kind == OperationKind::Renew(scope) && now_ms
                    < earlier.created_at_ms + 300_000 {
                    receipt
                } else {
                    refused
                },
            )
        }),
{
}

/// Renewing under a new operation succeeds exactly where a ready installation presents the secret
/// of a credential of the scope and the generation that is neither revoked nor over. It gives a
/// credential for a day, and nothing else changes.
pub proof fn law_renewal_gives_a_credential(
    store: StoreView,
    id: Uuid,
    operation_id: Uuid,
    scope: Scope,
    generation: u64,
    old_hash: Seq<u8>,
    new_hash: Seq<u8>,
    digest: Seq<u8>,
    now_ms: u64,
)
    requires
        store.valid(),
        !store.operations.dom().contains(operation_id),
        now_ms + 86_400_000 <= u64::MAX,
    ensures
        ({
            let (after, answer) = crate::store::credentials::renew_outcome(
                store,
                id,
                operation_id,
                scope,
                generation,
                old_hash,
                new_hash,
                digest,
                now_ms,
            );
            let row = store.installations[id];
            let presented = stands(store, id, AllocationState::DnsReady) && exists|i: int|
                #[trigger] good(row, i, scope, old_hash, now_ms) && row.credentials[i].generation
                    == generation;
            &&& answer is Ok <==> presented && row.generation < MAX_GENERATION
            &&& answer is Err ==> after == store
            &&& !presented ==> answer == Err::<(u64, u64), StoreError>(StoreError::Unauthorized)
            &&& answer matches Ok((next, expires_at_ms)) ==> {
                &&& next == row.generation + 1
                &&& expires_at_ms == now_ms + 86_400_000
                &&& given_credential(
                    row,
                    after.installations[id],
                    scope,
                    new_hash,
                    expires_at_ms as int,
                )
                &&& only_row(store, after, id)
                &&& after.outbox == store.outbox
                &&& after.operations.dom() =~= store.operations.dom().insert(operation_id)
                &&& after.operations[operation_id].installation_id == id
                &&& after.operations[operation_id].kind == OperationKind::Renew(scope)
                &&& after.operations[operation_id].request_digest == digest
                &&& after.operations[operation_id].generation == next
                &&& after.operations[operation_id].expires_at_ms == expires_at_ms
                &&& after.operations[operation_id].created_at_ms == now_ms
                &&& logged(store, after, id, AuditEvent::CredentialRenewed)
            }
        }),
{
    let row = store.installations[id];
    assert(known(store, id) ==> row.valid());
    assert forall|i: int|
        (good(row, i, scope, old_hash, now_ms) && row.credentials[i].generation == generation) == (
        #[trigger] crate::store::credentials::presented(row, i, scope, generation, now_ms)
            && row.credentials[i].token_hash == old_hash) by {}
    if crate::store::credentials::renewal_authorized(store, id, scope, generation, old_hash, now_ms) {
        let i = choose|i: int| #[trigger]
            crate::store::credentials::presented(row, i, scope, generation, now_ms)
                && row.credentials[i].token_hash == old_hash;
        assert(good(row, i, scope, old_hash, now_ms));
    }
    if exists|i: int| #[trigger]
        good(row, i, scope, old_hash, now_ms) && row.credentials[i].generation == generation {
        let i = choose|i: int| #[trigger]
            good(row, i, scope, old_hash, now_ms) && row.credentials[i].generation == generation;
        assert(crate::store::credentials::presented(row, i, scope, generation, now_ms));
    }
    let after = crate::store::credentials::renew_outcome(
        store,
        id,
        operation_id,
        scope,
        generation,
        old_hash,
        new_hash,
        digest,
        now_ms,
    ).0;
    if after != store {
        assert(after.audit.drop_last() =~= store.audit);
    }
}

/// A secret authenticates exactly where the installation is ready and has a good credential for
/// it, and as the generation of one.
pub proof fn law_authentication_needs_a_good_credential(
    store: StoreView,
    id: Uuid,
    scope: Scope,
    hash: Seq<u8>,
    now_ms: u64,
    found: Option<u64>,
)
    requires
        crate::store::credentials::is_authentication(store, id, scope, hash, now_ms, found),
    ensures
        found is Some <==> stands(store, id, AllocationState::DnsReady) && exists|i: int|
            #[trigger] good(store.installations[id], i, scope, hash, now_ms),
        found matches Some(generation) ==> (exists|i: int|
            #[trigger] good(store.installations[id], i, scope, hash, now_ms)
                && store.installations[id].credentials[i].generation == generation) && forall|i: int|
            #[trigger] good(store.installations[id], i, scope, hash, now_ms)
                ==> store.installations[id].credentials[i].generation <= generation,
{
    let row = store.installations[id];
    assert forall|i: int| #[trigger] good(row, i, scope, hash, now_ms)
        == crate::store::credentials::authenticates(row, i, scope, hash, now_ms) by {}
    match found {
        Some(generation) => {
            let i = choose|i: int| #[trigger]
                crate::store::credentials::authenticates(row, i, scope, hash, now_ms)
                    && row.credentials[i].generation == generation;
            assert(good(row, i, scope, hash, now_ms));
        },
        None => {
            if stands(store, id, AllocationState::DnsReady) {
                assert forall|i: int| !#[trigger] good(row, i, scope, hash, now_ms) by {
                    assert(!crate::store::credentials::authenticates(row, i, scope, hash, now_ms));
                }
            }
        },
    }
}

/// A claim succeeds exactly for the shard that a ready installation is placed on, for five
/// seconds to a minute. It moves the generation on by one and leaves the gateway with the lease
/// of that generation, until the time that was asked for is over. Nothing else changes.
pub proof fn law_claim_gives_the_lease(
    store: StoreView,
    id: Uuid,
    gateway_id: Seq<char>,
    ttl_seconds: i32,
    now_ms: u64,
)
    requires
        store.valid(),
        now_ms + 60_000 <= u64::MAX,
    ensures
        ({
            let (after, answer) = crate::store::tunnels::claim_outcome(
                store,
                id,
                gateway_id,
                ttl_seconds,
                now_ms,
            );
            let row = store.installations[id];
            let asked = gateway_id.len() > 0 && 5 <= ttl_seconds <= 60;
            let placed = stands(store, id, AllocationState::DnsReady) && row.placement
                == gateway_id;
            &&& answer is Ok <==> asked && placed && row.generation < MAX_GENERATION
            &&& answer is Err ==> after == store
            &&& !asked ==> answer == Err::<u64, StoreError>(StoreError::InvalidRequest)
            &&& asked && !placed ==> answer == Err::<u64, StoreError>(StoreError::Conflict)
            &&& answer matches Ok(generation) ==> {
                let new = after.installations[id];
                &&& generation == row.generation + 1
                &&& new.generation == generation
                &&& new.lease matches Some(lease) && lease.generation == generation
                    && lease.gateway_id == gateway_id && lease.expires_at_ms == now_ms + 1000
                    * ttl_seconds
                &&& new == InstallationView { generation, lease: new.lease, ..row }
                &&& only_row(store, after, id)
                &&& after.operations == store.operations && after.outbox == store.outbox
                &&& logged(store, after, id, AuditEvent::TunnelClaimed)
            }
        }),
{
    assert(known(store, id) ==> store.installations[id].valid());
    let after = crate::store::tunnels::claim_outcome(store, id, gateway_id, ttl_seconds, now_ms).0;
    if after != store {
        assert(after.audit.drop_last() =~= store.audit);
    }
}

/// A lease is current exactly where it is the one of the installation, by gateway and generation,
/// and is not over.
pub proof fn law_current_lease_is_the_recorded_one(
    store: StoreView,
    id: Uuid,
    gateway_id: Seq<char>,
    generation: u64,
    now_ms: u64,
)
    ensures
        crate::store::tunnels::lease_is_current(store, id, gateway_id, generation, now_ms)
            <==> known(store, id) && store.installations[id].lease is Some
            && store.installations[id].lease->0.gateway_id == gateway_id
            && store.installations[id].lease->0.generation == generation && now_ms
            < store.installations[id].lease->0.expires_at_ms,
{
}

/// A heartbeat on a current lease keeps it current for forty-five seconds from then on, for the
/// same gateway and generation, and no longer; a heartbeat on any other changes nothing.
pub proof fn law_heartbeat_keeps_the_lease(
    store: StoreView,
    id: Uuid,
    gateway_id: Seq<char>,
    generation: u64,
    now_ms: u64,
    later_ms: u64,
)
    requires
        now_ms + 45_000 <= u64::MAX,
    ensures
        ({
            let after = crate::store::tunnels::kept_alive(
                store,
                id,
                gateway_id,
                generation,
                now_ms,
            );
            let held = crate::store::tunnels::lease_is_current(
                store,
                id,
                gateway_id,
                generation,
                now_ms,
            );
            &&& held ==> {
                &&& crate::store::tunnels::lease_is_current(
                    after,
                    id,
                    gateway_id,
                    generation,
                    later_ms,
                ) <==> later_ms < now_ms + 45_000
                &&& after.installations[id] == InstallationView {
                    lease: Some(
                        LeaseView {
                            generation,
                            gateway_id,
                            expires_at_ms: (now_ms + 45_000) as u64,
                        },
                    ),
                    ..store.installations[id]
                }
                &&& only_row(store, after, id)
                &&& after.operations == store.operations && after.outbox == store.outbox
                    && after.audit == store.audit
            }
            &&& !held ==> after == store
        }),
{
}

/// Whether a key is expected for a hostname: it is in the inventory of the installation that the
/// hostname is reserved for.
pub open spec fn expects(store: StoreView, hostname: Seq<char>, fingerprint: Seq<char>) -> bool {
    store.reservations.dom().contains(hostname) && exists|i: int|
        0 <= i < store.installations[store.reservations[hostname]].inventory.len() && (
        #[trigger] store.installations[store.reservations[hostname]].inventory[i]).fingerprint
            == fingerprint
}

/// What decides about an observed key is whether it is expected for the hostname.
pub proof fn law_expected_is_in_the_inventory(
    store: StoreView,
    hostname: Seq<char>,
    fingerprint: Seq<char>,
)
    ensures
        crate::store::transparency::is_expected(store, hostname, fingerprint) <==> expects(
            store,
            hostname,
            fingerprint,
        ),
{
}

/// A report of a certificate succeeds exactly for a ready installation, for its own hostname and
/// account, with a key of 64 hexadecimal digits, a lineage of one to 128 bytes and an end after
/// its beginning. One that is malformed is refused as such, and any other as a conflict.
pub proof fn law_report_is_of_the_own_name(
    store: StoreView,
    id: Uuid,
    certificate: CertificateMetadata,
)
    requires
        store.valid(),
    ensures
        crate::store::transparency::report_outcome(store, id, certificate).1 is Ok <==> {
            let key = certificate.key_fingerprint@;
            &&& stands(store, id, AllocationState::DnsReady)
            &&& store.installations[id].hostname == certificate.hostname@
            &&& store.installations[id].acme_account_uri == Some(certificate.acme_account_uri@)
            &&& key.len() == 64
            &&& forall|i: int|
                0 <= i < key.len() ==> ('0' <= #[trigger] key[i] <= '9' || 'a' <= key[i] <= 'f'
                    || 'A' <= key[i] <= 'F')
            &&& 1 <= vstd::utf8::encode_utf8(certificate.lineage@).len() <= 128
            &&& certificate.not_before_ms < certificate.not_after_ms
        },
        crate::store::transparency::report_outcome(store, id, certificate).1 is Err
            ==> crate::store::transparency::report_outcome(store, id, certificate).0 == store,
        crate::store::transparency::report_outcome(store, id, certificate).1 matches Err(error)
            ==> error == if crate::protocol::valid_hostname(certificate.hostname@)
            && crate::store::transparency::valid_fingerprint(certificate.key_fingerprint@) && 1
            <= vstd::utf8::encode_utf8(certificate.lineage@).len() <= 128
            && certificate.not_before_ms < certificate.not_after_ms {
            StoreError::Conflict
        } else {
            StoreError::InvalidRequest
        },
{
    let key = certificate.key_fingerprint@;
    assert(known(store, id) ==> store.installations[id].valid());
    if crate::store::transparency::valid_fingerprint(key) {
        assert forall|i: int| 0 <= i < key.len() implies ('0' <= #[trigger] key[i] <= '9' || 'a'
            <= key[i] <= 'f' || 'A' <= key[i] <= 'F') by {
            assert(crate::text::CharClass::Hex.holds(key[i]));
        }
    }
}

/// A report that succeeds only adds: every key that was expected for a hostname is still
/// expected, the reported key is expected for the reported hostname, and no other key becomes
/// expected for any hostname. Nothing of the installation but its inventory changes.
pub proof fn law_report_only_adds(
    store: StoreView,
    id: Uuid,
    certificate: CertificateMetadata,
    hostname: Seq<char>,
    fingerprint: Seq<char>,
)
    requires
        store.valid(),
        crate::store::transparency::report_outcome(store, id, certificate).1 is Ok,
    ensures
        ({
            let after = crate::store::transparency::report_outcome(store, id, certificate).0;
            &&& expects(after, hostname, fingerprint) <==> expects(store, hostname, fingerprint)
                || (hostname == certificate.hostname@ && fingerprint
                == certificate.key_fingerprint@)
            &&& after.installations[id] == InstallationView {
                inventory: after.installations[id].inventory,
                ..store.installations[id]
            }
            &&& only_row(store, after, id)
            &&& after.operations == store.operations && after.outbox == store.outbox
            &&& logged(store, after, id, AuditEvent::CertificateExpected)
        }),
{
    let after = crate::store::transparency::report_outcome(store, id, certificate).0;
    let row = store.installations[id];
    let new = after.installations[id];
    let key = certificate.key_fingerprint@;
    assert(known(store, id));
    assert(after.audit.drop_last() =~= store.audit);
    assert(store.reservations[row.hostname] == id);
    let old_list = row.inventory;
    let new_list = new.inventory;
    assert(forall|i: int| 0 <= i < old_list.len() ==> new_list[i] == old_list[i]);
    if crate::store::transparency::listed(row, key) {
        assert(new == row);
        let i = choose|i: int|
            0 <= i < row.inventory.len() && (#[trigger] row.inventory[i]).fingerprint == key;
        assert(after.installations[store.reservations[row.hostname]].inventory[i].fingerprint == key);
    } else {
        let last = old_list.len() as int;
        assert(after.installations[store.reservations[row.hostname]].inventory[last].fingerprint
            == key);
    }
    if store.reservations.dom().contains(hostname) {
        let owner = store.reservations[hostname];
        assert(store.installations[owner].hostname == hostname);
        if expects(store, hostname, fingerprint) {
            let i = choose|i: int|
                0 <= i < store.installations[owner].inventory.len() && (
                #[trigger] store.installations[owner].inventory[i]).fingerprint == fingerprint;
            assert(after.installations[after.reservations[hostname]].inventory[i].fingerprint
                == fingerprint);
        }
        if expects(after, hostname, fingerprint) {
            let i = choose|i: int|
                0 <= i < after.installations[owner].inventory.len() && (
                #[trigger] after.installations[owner].inventory[i]).fingerprint == fingerprint;
            if owner == id {
                if i < old_list.len() {
                    assert(store.installations[store.reservations[hostname]].inventory[i].fingerprint
                        == fingerprint);
                }
            } else {
                assert(store.installations[store.reservations[hostname]].inventory[i].fingerprint
                    == fingerprint);
            }
        }
    }
}

/// The next position of a feed is taken in: it is answered with whether the key is expected for
/// the hostname, the checkpoint moves there, and there is one more alert, about just this, where
/// the key is not expected and none where it is. Installations, reservations and the checkpoints
/// of other feeds stay.
pub proof fn law_observation_follows_the_inventory(
    before: StoreView,
    source: Seq<char>,
    position: u64,
    hostname: Seq<char>,
    fingerprint: Seq<char>,
    now_ms: u64,
    after: StoreView,
    outcome: Result<bool, StoreError>,
)
    requires
        crate::store::transparency::is_observation(
            before,
            source,
            position,
            hostname,
            fingerprint,
            now_ms,
            after,
            outcome,
        ),
        crate::protocol::valid_hostname(hostname),
        crate::store::transparency::valid_fingerprint(fingerprint),
        crate::store::transparency::valid_source(source),
        before.ct.checkpoints.dom().contains(source),
        position == before.ct.checkpoints[source].position + 1,
        position <= MAX_GENERATION,
    ensures
        outcome == Ok::<bool, StoreError>(expects(before, hostname, fingerprint)),
        after.ct.checkpoints.dom() =~= before.ct.checkpoints.dom(),
        after.ct.checkpoints[source].position == position,
        after.ct.checkpoints[source].observed_at_ms == now_ms,
        forall|other: Seq<char>|
            other != source && #[trigger] before.ct.checkpoints.dom().contains(other)
                ==> after.ct.checkpoints[other] == before.ct.checkpoints[other],
        expects(before, hostname, fingerprint) ==> after.ct.alerts == before.ct.alerts,
        !expects(before, hostname, fingerprint) ==> {
            &&& after.ct.alerts.len() == before.ct.alerts.len() + 1
            &&& after.ct.alerts.drop_last() == before.ct.alerts
            &&& after.ct.alerts.last().0.source == source
            &&& after.ct.alerts.last().0.position == position
            &&& after.ct.alerts.last().0.hostname == hostname
            &&& after.ct.alerts.last().0.fingerprint == fingerprint
            &&& !after.ct.alerts.last().1
        },
        after.installations == before.installations,
        after.reservations == before.reservations,
        after.operations == before.operations,
        after.outbox == before.outbox,
        after.ct.lags == before.ct.lags,
        after.revision == before.revision + 1,
{
    law_expected_is_in_the_inventory(before, hostname, fingerprint);
    assert(crate::store::transparency::with_source(before, source, now_ms) == before);
    if !expects(before, hostname, fingerprint) {
        assert(after.ct.alerts.drop_last() =~= before.ct.alerts);
    }
}

} // verus!
