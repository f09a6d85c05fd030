//! What holds of the store whatever is asked of it.

use crate::ids::Uuid;
use crate::protocol::{AllocationState, CertificateMetadata, Scope};
use crate::store::model::{OperationKind, StoreError, StoreView, MAX_GENERATION};
use vstd::prelude::*;

verus! {

/// What every transition keeps: an installation never disappears, never changes its hostname,
/// its admin key or the time it was made, never goes back in generation and never comes back
/// from retirement; a reservation is never given up or passed on; an operation is never
/// forgotten or changed; the audit log only grows; and the revision never falls.
pub open spec fn evolves(before: StoreView, after: StoreView) -> bool {
    &&& forall|id: Uuid| #[trigger]
        before.installations.dom().contains(id) ==> after.installations.dom().contains(id)
            && after.installations[id].hostname == before.installations[id].hostname
            && after.installations[id].admin_public_key
            == before.installations[id].admin_public_key && after.installations[id].created_at_ms
            == before.installations[id].created_at_ms && after.installations[id].generation
            >= before.installations[id].generation && (before.installations[id].state
            == AllocationState::Retired ==> after.installations[id].state
            == AllocationState::Retired)
    &&& forall|name: Seq<char>| #[trigger]
        before.reservations.dom().contains(name) ==> after.reservations.dom().contains(name)
            && after.reservations[name] == before.reservations[name]
    &&& forall|id: Uuid| #[trigger]
        before.operations.dom().contains(id) ==> after.operations.dom().contains(id)
            && after.operations[id] == before.operations[id]
    &&& before.audit.len() <= after.audit.len()
    &&& forall|i: int|
        0 <= i < before.audit.len() ==> #[trigger] after.audit[i] == before.audit[i]
    &&& before.revision <= after.revision
}

/// A transition that changed anything moved the revision on, so that a database from before it
/// is recognised by the witness.
pub open spec fn fenced(before: StoreView, after: StoreView) -> bool {
    before == after || before.revision < after.revision
}

/// A transition that changed anything left a line in the audit log.
pub open spec fn audited(before: StoreView, after: StoreView) -> bool {
    before == after || before.audit.len() < after.audit.len()
}

/// Nothing but one installation has changed.
pub open spec fn only_touches(before: StoreView, after: StoreView, id: Uuid) -> bool {
    &&& forall|other: Uuid|
        other != id && #[trigger] before.installations.dom().contains(other)
            ==> after.installations.dom().contains(other) && after.installations[other]
            == before.installations[other]
    &&& forall|other: Uuid|
        other != id && #[trigger] after.installations.dom().contains(other)
            ==> before.installations.dom().contains(other)
}

/// What every transition keeps carries over from one transition to the next.
pub proof fn law_evolution_is_transitive(first: StoreView, second: StoreView, third: StoreView)
    requires
        evolves(first, second),
        evolves(second, third),
    ensures
        evolves(first, third),
{
    assert forall|i: int| 0 <= i < first.audit.len() implies #[trigger] third.audit[i]
        == first.audit[i] by {
        assert(second.audit[i] == first.audit[i]);
    }
}

/// Allocation keeps what every transition keeps, is fenced and audited, and touches no
/// installation but a new one.
pub proof fn law_allocation_evolves(
    store: StoreView,
    operation_id: Uuid,
    admin_public_key: Seq<u8>,
    placement: Seq<char>,
    fresh: Uuid,
    random: Seq<u8>,
    now_ms: u64,
)
    requires
        store.valid(),
    ensures
        ({
            let (after, answer) = crate::store::identity::allocate_outcome(
                store,
                operation_id,
                admin_public_key,
                placement,
                fresh,
                random,
                now_ms,
            );
            &&& evolves(store, after)
            &&& fenced(store, after) && audited(store, after)
            &&& only_touches(store, after, fresh)
            &&& answer is Err ==> after == store
        }),
{
}

/// A hostname that was ever given out is never given out again: an allocation that would draw
/// it is refused.
pub proof fn law_hostname_is_never_recycled(
    store: StoreView,
    operation_id: Uuid,
    admin_public_key: Seq<u8>,
    placement: Seq<char>,
    fresh: Uuid,
    random: Seq<u8>,
    now_ms: u64,
)
    requires
        store.valid(),
        store.reservations.dom().contains(crate::store::identity::hostname_for(random)),
        !store.operations.dom().contains(operation_id),
        crate::store::identity::valid_placement(placement),
    ensures
        crate::store::identity::allocate_outcome(
            store,
            operation_id,
            admin_public_key,
            placement,
            fresh,
            random,
            now_ms,
        ) == (store, Err::<Uuid, StoreError>(StoreError::Unavailable)),
{
}

/// Asking for a hostname again under the same operation gives the same installation and changes
/// nothing, whatever was drawn for the repetition.
pub proof fn law_allocation_is_idempotent(
    store: StoreView,
    operation_id: Uuid,
    admin_public_key: Seq<u8>,
    placement: Seq<char>,
    fresh: Uuid,
    random: Seq<u8>,
    now_ms: u64,
    fresh_again: Uuid,
    random_again: Seq<u8>,
    later_ms: u64,
)
    requires
        store.valid(),
        crate::store::identity::allocate_outcome(
            store,
            operation_id,
            admin_public_key,
            placement,
            fresh,
            random,
            now_ms,
        ).1 is Ok,
    ensures
        ({
            let first = crate::store::identity::allocate_outcome(
                store,
                operation_id,
                admin_public_key,
                placement,
                fresh,
                random,
                now_ms,
            );
            crate::store::identity::allocate_outcome(
                first.0,
                operation_id,
                admin_public_key,
                placement,
                fresh_again,
                random_again,
                later_ms,
            ) == first
        }),
{
}

/// Issuing a credential keeps what every transition keeps, is fenced and audited, and touches
/// one installation, whose generation moves on.
pub proof fn law_issue_evolves(
    store: StoreView,
    id: Uuid,
    operation_id: Uuid,
    scope: Scope,
    token_hash: Seq<u8>,
    validity_seconds: u32,
    digest: Seq<u8>,
    now_ms: u64,
)
    requires
        store.valid(),
    ensures
        ({
            let (after, answer) = crate::store::credentials::issue_outcome(
                store,
                id,
                operation_id,
                scope,
                token_hash,
                validity_seconds,
                digest,
                now_ms,
            );
            &&& evolves(store, after)
            &&& fenced(store, after) && audited(store, after)
            &&& only_touches(store, after, id)
            &&& answer is Err ==> after == store
            &&& after != store ==> (answer matches Ok((generation, _)) && generation
                > store.installations[id].generation)
        }),
{
    assert(store.installations.dom().contains(id) ==> store.installations[id].valid());
}

/// Issuing a credential again under the same operation gives the same receipt and changes
/// nothing.
pub proof fn law_issue_is_idempotent(
    store: StoreView,
    id: Uuid,
    operation_id: Uuid,
    scope: Scope,
    token_hash: Seq<u8>,
    validity_seconds: u32,
    digest: Seq<u8>,
    now_ms: u64,
    later_ms: u64,
)
    requires
        crate::store::credentials::issue_outcome(
            store,
            id,
            operation_id,
            scope,
            token_hash,
            validity_seconds,
            digest,
            now_ms,
        ).1 is Ok,
    ensures
        ({
            let first = crate::store::credentials::issue_outcome(
                store,
                id,
                operation_id,
                scope,
                token_hash,
                validity_seconds,
                digest,
                now_ms,
            );
            crate::store::credentials::issue_outcome(
                first.0,
                id,
                operation_id,
                scope,
                token_hash,
                validity_seconds,
                digest,
                later_ms,
            ) == first
        }),
{
}

/// Renewing a credential keeps what every transition keeps, is fenced and audited, and touches
/// one installation; the generation of the new credential is above that of the old one.
pub proof fn law_renewal_evolves(
    store: StoreView,
    id: Uuid,
    operation_id: Uuid,
    scope: Scope,
    generation: u64,
    old_hash: Seq<u8>,
    new_hash: Seq<u8>,
    digest: Seq<u8>,
    now_ms: u64,
)
    requires
        store.valid(),
    ensures
        ({
            let (after, answer) = crate::store::credentials::renew_outcome(
                store,
                id,
                operation_id,
                scope,
                generation,
                old_hash,
                new_hash,
                digest,
                now_ms,
            );
            &&& evolves(store, after)
            &&& fenced(store, after) && audited(store, after)
            &&& only_touches(store, after, id)
            &&& answer is Err ==> after == store
            &&& after != store ==> (answer matches Ok((next, _)) && next > generation)
        }),
{
    if store.installations.dom().contains(id) {
        assert(store.installations[id].valid());
        if crate::store::credentials::renewal_authorized(
            store,
            id,
            scope,
            generation,
            old_hash,
            now_ms,
        ) {
            let i = choose|i: int| #[trigger]
                crate::store::credentials::presented(
                    store.installations[id],
                    i,
                    scope,
                    generation,
                    now_ms,
                ) && store.installations[id].credentials[i].token_hash == old_hash;
            assert(store.installations[id].credentials[i].generation
                <= store.installations[id].generation);
        }
    }
}

/// Renewing a credential again under the same operation within five minutes gives the same
/// receipt and changes nothing.
pub proof fn law_renewal_is_idempotent(
    store: StoreView,
    id: Uuid,
    operation_id: Uuid,
    scope: Scope,
    generation: u64,
    old_hash: Seq<u8>,
    new_hash: Seq<u8>,
    digest: Seq<u8>,
    now_ms: u64,
    later_ms: u64,
)
    requires
        !store.operations.dom().contains(operation_id),
        crate::store::credentials::renew_outcome(
            store,
            id,
            operation_id,
            scope,
            generation,
            old_hash,
            new_hash,
            digest,
            now_ms,
        ).1 is Ok,
        later_ms < now_ms + crate::store::credentials::RENEWAL_RETRY_MS,
    ensures
        ({
            let first = crate::store::credentials::renew_outcome(
                store,
                id,
                operation_id,
                scope,
                generation,
                old_hash,
                new_hash,
                digest,
                now_ms,
            );
            crate::store::credentials::renew_outcome(
                first.0,
                id,
                operation_id,
                scope,
                generation,
                old_hash,
                new_hash,
                digest,
                later_ms,
            ) == first
        }),
{
}

/// After a rotation the new secret is the only one of its scope that authenticates: a secret
/// with another digest does not, at any time.
pub proof fn law_rotation_revokes_old_secrets(
    row: crate::store::model::InstallationView,
    scope: Scope,
    new_hash: Seq<u8>,
    expires_at_ms: u64,
    other_hash: Seq<u8>,
    i: int,
    now_ms: u64,
)
    requires
        other_hash != new_hash,
    ensures
        !crate::store::credentials::authenticates(
            crate::store::credentials::rotated(row, scope, new_hash, expires_at_ms),
            i,
            scope,
            other_hash,
            now_ms,
        ),
{
}

/// The new secret authenticates under the new generation until it expires, once the records of
/// the installation are published.
pub proof fn law_new_secret_authenticates(
    store: StoreView,
    id: Uuid,
    scope: Scope,
    new_hash: Seq<u8>,
    expires_at_ms: u64,
    now_ms: u64,
)
    requires
        store.valid(),
        store.dns_ready(id),
        store.installations[id].generation < MAX_GENERATION,
        now_ms < expires_at_ms,
    ensures
        ({
            let row = crate::store::credentials::rotated(
                store.installations[id],
                scope,
                new_hash,
                expires_at_ms,
            );
            crate::store::credentials::is_authentication(
                store.with_row(id, row),
                id,
                scope,
                new_hash,
                now_ms,
                Some(row.generation),
            )
        }),
{
    let before = store.installations[id];
    let row = crate::store::credentials::rotated(before, scope, new_hash, expires_at_ms);
    let after = store.with_row(id, row);
    let last = before.credentials.len() as int;
    assert(before.valid());
    assert(crate::store::credentials::authenticates(
        after.installations[id],
        last,
        scope,
        new_hash,
        now_ms,
    ));
}

/// At most one credential of a scope is good at a time.
pub proof fn law_one_live_credential_per_scope(
    row: crate::store::model::InstallationView,
    scope: Scope,
    i: int,
    j: int,
    first_hash: Seq<u8>,
    second_hash: Seq<u8>,
    now_ms: u64,
)
    requires
        row.valid(),
        crate::store::credentials::authenticates(row, i, scope, first_hash, now_ms),
        crate::store::credentials::authenticates(row, j, scope, second_hash, now_ms),
    ensures
        i == j,
{
    if i < j {
        assert(row.credentials[i].scope == row.credentials[j].scope);
    }
    if j < i {
        assert(row.credentials[j].scope == row.credentials[i].scope);
    }
}

/// A tunnel credential that is issued or renewed ends the lease of the installation.
pub proof fn law_tunnel_rotation_fences_lease(
    store: StoreView,
    id: Uuid,
    new_hash: Seq<u8>,
    expires_at_ms: u64,
    gateway_id: Seq<char>,
    generation: u64,
    now_ms: u64,
)
    requires
        store.installations.dom().contains(id),
    ensures
        !crate::store::tunnels::lease_is_current(
            store.with_row(
                id,
                crate::store::credentials::rotated(
                    store.installations[id],
                    Scope::Tunnel,
                    new_hash,
                    expires_at_ms,
                ),
            ),
            id,
            gateway_id,
            generation,
            now_ms,
        ),
{
}

/// Claiming a lease keeps what every transition keeps, is fenced and audited, touches one
/// installation, and ends every earlier lease: under another generation nothing is current, at
/// any time.
pub proof fn law_claim_fences_earlier_leases(
    store: StoreView,
    id: Uuid,
    gateway_id: Seq<char>,
    ttl_seconds: i32,
    now_ms: u64,
    other_gateway: Seq<char>,
    other_generation: u64,
    later_ms: u64,
)
    requires
        store.valid(),
    ensures
        ({
            let (after, answer) = crate::store::tunnels::claim_outcome(
                store,
                id,
                gateway_id,
                ttl_seconds,
                now_ms,
            );
            &&& evolves(store, after)
            &&& fenced(store, after) && audited(store, after)
            &&& only_touches(store, after, id)
            &&& answer is Err ==> after == store
            &&& answer matches Ok(generation) ==> generation > store.installations[id].generation
                && (other_generation != generation || other_gateway != gateway_id
                ==> !crate::store::tunnels::lease_is_current(
                after,
                id,
                other_gateway,
                other_generation,
                later_ms,
            ))
        }),
{
    assert(store.installations.dom().contains(id) ==> store.installations[id].valid());
}

/// At most one generation of an installation is current. Once its records are published, the
/// gateway of its shard can claim its lease, and claim it again under a higher generation: from
/// then on the earlier lease, and every other, is not current at any time, and the new one is
/// until it expires.
pub proof fn law_second_claim_is_the_current_one(
    store: StoreView,
    id: Uuid,
    gateway_id: Seq<char>,
    first_ttl: i32,
    first_ms: u64,
    second_ttl: i32,
    second_ms: u64,
    later_ms: u64,
)
    requires
        store.valid(),
        store.dns_ready(id),
        store.installations[id].placement == gateway_id,
        gateway_id.len() > 0,
        5 <= first_ttl <= 60,
        5 <= second_ttl <= 60,
        store.installations[id].generation + 2 <= MAX_GENERATION,
        second_ms + 60_000 <= u64::MAX,
    ensures
        ({
            let (once, first) = crate::store::tunnels::claim_outcome(
                store,
                id,
                gateway_id,
                first_ttl,
                first_ms,
            );
            let (twice, second) = crate::store::tunnels::claim_outcome(
                once,
                id,
                gateway_id,
                second_ttl,
                second_ms,
            );
            &&& first matches Ok(earlier) && second matches Ok(current) && current > earlier
                && !crate::store::tunnels::lease_is_current(
                twice,
                id,
                gateway_id,
                earlier,
                later_ms,
            ) && (later_ms < second_ms + 1000 * second_ttl
                ==> crate::store::tunnels::lease_is_current(
                twice,
                id,
                gateway_id,
                current,
                later_ms,
            )) && forall|other_gateway: Seq<char>, generation: u64|
                #[trigger] crate::store::tunnels::lease_is_current(
                    twice,
                    id,
                    other_gateway,
                    generation,
                    later_ms,
                ) ==> other_gateway == gateway_id && generation == current
        }),
{
}

/// A renewal replaces a secret. A tunnel credential was issued under a secret, and a lease was
/// claimed; renewed with that secret before it expires, the credential gets a higher generation.
/// From then on the old secret authenticates nothing, the new one authenticates the new
/// generation until it expires, and the lease is not current. The same renewal within five
/// minutes is answered with the same receipt. Two secrets count as different here where their
/// digests are.
pub proof fn law_renewal_replaces_the_secret(
    store: StoreView,
    id: Uuid,
    gateway_id: Seq<char>,
    issue_operation: Uuid,
    renew_operation: Uuid,
    old_secret: Seq<char>,
    new_secret: Seq<char>,
    issued_ms: u64,
    claimed_ms: u64,
    renewed_ms: u64,
    later_ms: u64,
    retried_ms: u64,
)
    requires
        store.valid(),
        store.dns_ready(id),
        store.installations[id].placement == gateway_id,
        gateway_id.len() > 0,
        !store.operations.dom().contains(issue_operation),
        !store.operations.dom().contains(renew_operation),
        issue_operation != renew_operation,
        crate::store::credentials::secret_digest(old_secret)
            != crate::store::credentials::secret_digest(new_secret),
        renewed_ms < issued_ms + 86_400_000,
        retried_ms < renewed_ms + crate::store::credentials::RENEWAL_RETRY_MS,
        store.installations[id].generation + 3 <= MAX_GENERATION,
        issued_ms + 86_400_000 <= u64::MAX,
        renewed_ms + crate::store::credentials::RENEWED_VALIDITY_MS <= u64::MAX,
    ensures
        ({
            let old_hash = crate::store::credentials::secret_digest(old_secret);
            let new_hash = crate::store::credentials::secret_digest(new_secret);
            let (held, issued) = crate::store::credentials::issue_outcome(
                store,
                id,
                issue_operation,
                Scope::Tunnel,
                old_hash,
                86_400,
                crate::encoding::sha256(
                    crate::store::credentials::issue_message(Scope::Tunnel, 86_400, old_hash),
                ),
                issued_ms,
            );
            let (leased, claimed) = crate::store::tunnels::claim_outcome(
                held,
                id,
                gateway_id,
                45,
                claimed_ms,
            );
            let generation = issued->Ok_0.0;
            let digest = crate::encoding::sha256(
                crate::store::credentials::renew_message(
                    Scope::Tunnel,
                    generation,
                    old_hash,
                    new_hash,
                ),
            );
            let (after, renewed) = crate::store::credentials::renew_outcome(
                leased,
                id,
                renew_operation,
                Scope::Tunnel,
                generation,
                old_hash,
                new_hash,
                digest,
                renewed_ms,
            );
            let (next, expires_ms) = renewed->Ok_0;
            &&& issued is Ok && claimed is Ok && renewed is Ok
            &&& next > generation
            &&& crate::store::credentials::is_authentication(
                after,
                id,
                Scope::Tunnel,
                old_hash,
                later_ms,
                None,
            )
            &&& later_ms < expires_ms ==> crate::store::credentials::is_authentication(
                after,
                id,
                Scope::Tunnel,
                new_hash,
                later_ms,
                Some(next),
            )
            &&& !crate::store::tunnels::lease_is_current(
                after,
                id,
                gateway_id,
                claimed->Ok_0,
                later_ms,
            )
            &&& crate::store::credentials::renew_outcome(
                after,
                id,
                renew_operation,
                Scope::Tunnel,
                generation,
                old_hash,
                new_hash,
                digest,
                retried_ms,
            ) == (after, renewed)
        }),
{
    let old_hash = crate::store::credentials::secret_digest(old_secret);
    let new_hash = crate::store::credentials::secret_digest(new_secret);
    let issue_digest = crate::encoding::sha256(
        crate::store::credentials::issue_message(Scope::Tunnel, 86_400, old_hash),
    );
    let (held, issued) = crate::store::credentials::issue_outcome(
        store,
        id,
        issue_operation,
        Scope::Tunnel,
        old_hash,
        86_400,
        issue_digest,
        issued_ms,
    );
    let (leased, claimed) = crate::store::tunnels::claim_outcome(
        held,
        id,
        gateway_id,
        45,
        claimed_ms,
    );
    let generation = issued->Ok_0.0;
    let row = leased.installations[id];
    let at = store.installations[id].credentials.len() as int;
    assert(store.installations[id].valid());
    assert(crate::store::credentials::presented(row, at, Scope::Tunnel, generation, renewed_ms));
    assert(row.credentials[at].token_hash == old_hash);
    let expires_ms = (renewed_ms + crate::store::credentials::RENEWED_VALIDITY_MS) as u64;
    let renewed_row = crate::store::credentials::rotated(
        row,
        Scope::Tunnel,
        new_hash,
        expires_ms,
    );
    assert forall|i: int| !#[trigger]
        crate::store::credentials::authenticates(
            renewed_row,
            i,
            Scope::Tunnel,
            old_hash,
            later_ms,
        ) by {
        law_rotation_revokes_old_secrets(
            row,
            Scope::Tunnel,
            new_hash,
            expires_ms,
            old_hash,
            i,
            later_ms,
        );
    }
    if later_ms < expires_ms {
        assert(crate::store::credentials::authenticates(
            renewed_row,
            at + 1,
            Scope::Tunnel,
            new_hash,
            later_ms,
        ));
    }
}

/// A heartbeat keeps what every transition keeps and never changes which lease it is about.
pub proof fn law_heartbeat_evolves(
    store: StoreView,
    id: Uuid,
    gateway_id: Seq<char>,
    generation: u64,
    now_ms: u64,
)
    ensures
        ({
            let after = crate::store::tunnels::kept_alive(
                store,
                id,
                gateway_id,
                generation,
                now_ms,
            );
            &&& evolves(store, after)
            &&& only_touches(store, after, id)
            &&& store.installations.dom().contains(id) ==> after.installations[id].generation
                == store.installations[id].generation
        }),
{
}

/// Retirement keeps what every transition keeps, is fenced and audited, touches one
/// installation and, where it succeeds on an installation, leaves it retired.
pub proof fn law_retirement_evolves(
    store: StoreView,
    id: Uuid,
    operation_id: Uuid,
    now_ms: u64,
)
    requires
        store.valid(),
    ensures
        ({
            let (after, answer) = crate::store::identity::retire_outcome(
                store,
                id,
                operation_id,
                now_ms,
            );
            &&& evolves(store, after)
            &&& fenced(store, after) && audited(store, after)
            &&& only_touches(store, after, id)
            &&& answer is Err ==> after == store
            &&& answer is Ok && store.installations.dom().contains(id)
                ==> after.installations[id].state == AllocationState::Retired
        }),
{
    assert(store.installations.dom().contains(id) ==> store.installations[id].valid());
}

/// A retired installation has no lease, answers no bearer and cannot claim a lease; no request
/// for a credential, a renewal, an account or another place changes anything about it.
pub proof fn law_retired_has_no_authority(
    store: StoreView,
    id: Uuid,
    operation_id: Uuid,
    gateway_id: Seq<char>,
    ttl_seconds: i32,
    scope: Scope,
    hash: Seq<u8>,
    new_hash: Seq<u8>,
    validity_seconds: u32,
    digest: Seq<u8>,
    generation: u64,
    account: Seq<char>,
    placement: Seq<char>,
    now_ms: u64,
)
    requires
        store.valid(),
        store.installations.dom().contains(id),
        store.installations[id].state == AllocationState::Retired,
    ensures
        !crate::store::tunnels::lease_is_current(store, id, gateway_id, generation, now_ms),
        crate::store::credentials::is_authentication(store, id, scope, hash, now_ms, None),
        crate::store::tunnels::claim_outcome(store, id, gateway_id, ttl_seconds, now_ms).1 is Err,
        crate::store::identity::bind_outcome(store, id, account, now_ms).1 is Err,
        crate::store::credentials::issue_outcome(
            store,
            id,
            operation_id,
            scope,
            new_hash,
            validity_seconds,
            digest,
            now_ms,
        ).0 == store,
        crate::store::credentials::renew_outcome(
            store,
            id,
            operation_id,
            scope,
            generation,
            hash,
            new_hash,
            digest,
            now_ms,
        ).0 == store,
        crate::store::identity::relocate_outcome(
            store,
            id,
            operation_id,
            placement,
            digest,
            now_ms,
        ).0 == store,
        !store.active(id),
        !store.dns_ready(id),
{
    assert(store.installations[id].valid());
}

/// Moving an installation keeps what every transition keeps, is fenced and audited, touches one
/// installation, and ends every lease of it.
pub proof fn law_relocation_evolves(
    store: StoreView,
    id: Uuid,
    operation_id: Uuid,
    placement: Seq<char>,
    digest: Seq<u8>,
    now_ms: u64,
    gateway_id: Seq<char>,
    generation: u64,
    later_ms: u64,
)
    requires
        store.valid(),
    ensures
        ({
            let (after, answer) = crate::store::identity::relocate_outcome(
                store,
                id,
                operation_id,
                placement,
                digest,
                now_ms,
            );
            &&& evolves(store, after)
            &&& fenced(store, after) && audited(store, after)
            &&& only_touches(store, after, id)
            &&& answer is Err ==> after == store
            &&& after != store ==> after.installations[id].placement == placement
                && !crate::store::tunnels::lease_is_current(
                after,
                id,
                gateway_id,
                generation,
                later_ms,
            )
        }),
{
    assert(store.installations.dom().contains(id) ==> store.installations[id].valid());
}

/// Only the gateway that an installation is placed on can claim its lease.
pub proof fn law_claim_needs_placement(
    store: StoreView,
    id: Uuid,
    gateway_id: Seq<char>,
    ttl_seconds: i32,
    now_ms: u64,
)
    requires
        crate::store::tunnels::claim_outcome(store, id, gateway_id, ttl_seconds, now_ms).1 is Ok,
    ensures
        store.installations[id].placement == gateway_id,
        store.dns_ready(id),
{
}

/// Binding an account, publication, and the sweeps keep what every transition keeps, and are
/// fenced and audited; a sweep takes no more than it was told to.
pub proof fn law_reconciliation_evolves(
    store: StoreView,
    id: Uuid,
    account: Seq<char>,
    count: nat,
    limit: nat,
    now_ms: u64,
)
    requires
        store.valid(),
    ensures
        ({
            let bound = crate::store::identity::bind_outcome(store, id, account, now_ms).0;
            let ready = crate::store::identity::readied(store, id);
            let (swept, given_up) = crate::store::identity::swept(store, count, limit, now_ms);
            let (cleared, taken) = crate::store::challenges::leases_swept(
                store,
                count,
                limit,
                now_ms,
            );
            &&& evolves(store, bound) && fenced(store, bound) && audited(store, bound)
            &&& evolves(store, ready) && fenced(store, ready) && audited(store, ready)
            &&& evolves(store, swept) && fenced(store, swept) && audited(store, swept)
            &&& evolves(store, cleared) && fenced(store, cleared) && audited(store, cleared)
            &&& given_up <= limit
            &&& taken <= limit
        }),
{
    lemma_swept_evolves(store, count, limit, now_ms);
    lemma_leases_swept_evolves(store, count, limit, now_ms);
}

/// The sweep of overdue allocations keeps what every transition keeps.
proof fn lemma_swept_evolves(store: StoreView, count: nat, limit: nat, now_ms: u64)
    ensures
        ({
            let (after, given_up) = crate::store::identity::swept(store, count, limit, now_ms);
            &&& evolves(store, after) && fenced(store, after) && audited(store, after)
            &&& given_up <= limit
        }),
    decreases count,
{
    if count > 0 {
        lemma_swept_evolves(store, (count - 1) as nat, limit, now_ms);
        let before = crate::store::identity::swept(store, (count - 1) as nat, limit, now_ms).0;
        let after = crate::store::identity::swept(store, count, limit, now_ms).0;
        assert(evolves(before, after));
        law_evolution_is_transitive(store, before, after);
    }
}

/// The sweep of the answers of one installation keeps what every transition keeps.
proof fn lemma_row_swept_evolves(
    start: (StoreView, nat),
    id: Uuid,
    count: nat,
    limit: nat,
    now_ms: u64,
)
    requires
        start.1 <= limit,
    ensures
        ({
            let (after, taken) = crate::store::challenges::row_swept(
                start,
                id,
                count,
                limit,
                now_ms,
            );
            &&& evolves(start.0, after) && fenced(start.0, after) && audited(start.0, after)
            &&& taken <= limit
        }),
    decreases count,
{
    if count > 0 {
        lemma_row_swept_evolves(start, id, (count - 1) as nat, limit, now_ms);
        let before = crate::store::challenges::row_swept(
            start,
            id,
            (count - 1) as nat,
            limit,
            now_ms,
        ).0;
        let after = crate::store::challenges::row_swept(start, id, count, limit, now_ms).0;
        assert(evolves(before, after));
        law_evolution_is_transitive(start.0, before, after);
    }
}

/// The sweep of abandoned answers keeps what every transition keeps.
proof fn lemma_leases_swept_evolves(store: StoreView, count: nat, limit: nat, now_ms: u64)
    ensures
        ({
            let (after, taken) = crate::store::challenges::leases_swept(
                store,
                count,
                limit,
                now_ms,
            );
            &&& evolves(store, after) && fenced(store, after) && audited(store, after)
            &&& taken <= limit
        }),
    decreases count,
{
    if count > 0 {
        lemma_leases_swept_evolves(store, (count - 1) as nat, limit, now_ms);
        let start = crate::store::challenges::leases_swept(
            store,
            (count - 1) as nat,
            limit,
            now_ms,
        );
        let id = store.order[count - 1];
        let size = start.0.installations[id].challenges.len();
        lemma_row_swept_evolves(start, id, size, limit, now_ms);
        let after = crate::store::challenges::leases_swept(store, count, limit, now_ms).0;
        law_evolution_is_transitive(store, start.0, after);
    }
}

/// A sweep that was not cut short leaves no overdue allocation among those it has looked at.
proof fn lemma_swept_clears(store: StoreView, count: nat, limit: nat, now_ms: u64)
    requires
        crate::store::identity::swept(store, count, limit, now_ms).1 < limit,
    ensures
        ({
            let after = crate::store::identity::swept(store, count, limit, now_ms).0;
            &&& after.order == store.order
            &&& forall|j: int|
                0 <= j < count ==> !crate::store::identity::overdue(
                    after,
                    #[trigger] store.order[j],
                    now_ms,
                )
        }),
    decreases count,
{
    if count > 0 {
        lemma_swept_clears(store, (count - 1) as nat, limit, now_ms);
    }
}

/// Where nothing is overdue, a sweep does nothing.
proof fn lemma_nothing_to_sweep(store: StoreView, count: nat, limit: nat, now_ms: u64)
    requires
        forall|j: int|
            0 <= j < count ==> !crate::store::identity::overdue(
                store,
                #[trigger] store.order[j],
                now_ms,
            ),
    ensures
        crate::store::identity::swept(store, count, limit, now_ms) == (store, 0nat),
    decreases count,
{
    if count > 0 {
        lemma_nothing_to_sweep(store, (count - 1) as nat, limit, now_ms);
        assert(!crate::store::identity::overdue(store, store.order[count - 1], now_ms));
    }
}

/// A sweep of overdue allocations that was not cut short finds nothing more to do when it is
/// repeated.
pub proof fn law_allocation_sweep_is_idempotent(
    store: StoreView,
    limit: nat,
    again: nat,
    now_ms: u64,
)
    requires
        crate::store::identity::swept(store, store.order.len(), limit, now_ms).1 < limit,
    ensures
        ({
            let after = crate::store::identity::swept(store, store.order.len(), limit, now_ms).0;
            crate::store::identity::swept(after, after.order.len(), again, now_ms) == (after, 0nat)
        }),
{
    let after = crate::store::identity::swept(store, store.order.len(), limit, now_ms).0;
    lemma_swept_clears(store, store.order.len(), limit, now_ms);
    lemma_nothing_to_sweep(after, after.order.len(), again, now_ms);
}

/// A sweep of the answers of one installation that was not cut short leaves none that is
/// abandoned among those it has looked at, and leaves other installations as they are.
proof fn lemma_row_swept_clears(
    start: (StoreView, nat),
    id: Uuid,
    count: nat,
    limit: nat,
    now_ms: u64,
)
    requires
        crate::store::challenges::row_swept(start, id, count, limit, now_ms).1 < limit,
    ensures
        ({
            let (after, taken) = crate::store::challenges::row_swept(
                start,
                id,
                count,
                limit,
                now_ms,
            );
            &&& start.1 <= taken
            &&& after.order == start.0.order
            &&& after.installations[id].challenges.len()
                == start.0.installations[id].challenges.len()
            &&& forall|m: int|
                0 <= m < count ==> !#[trigger] crate::store::challenges::abandoned(
                    after,
                    id,
                    m,
                    now_ms,
                )
            &&& forall|other: Uuid, m: int|
                other != id ==> #[trigger] crate::store::challenges::abandoned(
                    after,
                    other,
                    m,
                    now_ms,
                ) == crate::store::challenges::abandoned(start.0, other, m, now_ms)
        }),
    decreases count,
{
    if count > 0 {
        lemma_row_swept_clears(start, id, (count - 1) as nat, limit, now_ms);
        let before = crate::store::challenges::row_swept(
            start,
            id,
            (count - 1) as nat,
            limit,
            now_ms,
        ).0;
        let after = crate::store::challenges::row_swept(start, id, count, limit, now_ms).0;
        assert forall|m: int| 0 <= m < count implies !#[trigger] crate::store::challenges::abandoned(
            after,
            id,
            m,
            now_ms,
        ) by {
            if m < count - 1 {
                assert(!crate::store::challenges::abandoned(before, id, m, now_ms));
            }
        }
        assert forall|other: Uuid, m: int|
            other != id implies #[trigger] crate::store::challenges::abandoned(
            after,
            other,
            m,
            now_ms,
        ) == crate::store::challenges::abandoned(start.0, other, m, now_ms) by {
            assert(crate::store::challenges::abandoned(before, other, m, now_ms)
                == crate::store::challenges::abandoned(start.0, other, m, now_ms));
        }
    }
}

/// A sweep of answers that was not cut short leaves none that is abandoned in the installations
/// it has looked at.
proof fn lemma_leases_swept_clears(store: StoreView, count: nat, limit: nat, now_ms: u64)
    requires
        crate::store::challenges::leases_swept(store, count, limit, now_ms).1 < limit,
    ensures
        ({
            let after = crate::store::challenges::leases_swept(store, count, limit, now_ms).0;
            &&& after.order == store.order
            &&& forall|j: int, m: int|
                0 <= j < count ==> !#[trigger] crate::store::challenges::abandoned(
                    after,
                    store.order[j],
                    m,
                    now_ms,
                )
        }),
    decreases count,
{
    if count > 0 {
        let start = crate::store::challenges::leases_swept(
            store,
            (count - 1) as nat,
            limit,
            now_ms,
        );
        let id = store.order[count - 1];
        let size = start.0.installations[id].challenges.len();
        lemma_row_swept_clears(start, id, size, limit, now_ms);
        lemma_leases_swept_clears(store, (count - 1) as nat, limit, now_ms);
        let after = crate::store::challenges::leases_swept(store, count, limit, now_ms).0;
        assert forall|j: int, m: int| 0 <= j < count implies !#[trigger]
            crate::store::challenges::abandoned(after, store.order[j], m, now_ms) by {
            if store.order[j] == id {
                if 0 <= m < size {
                    assert(!crate::store::challenges::abandoned(after, id, m, now_ms));
                }
            } else {
                assert(!crate::store::challenges::abandoned(
                    start.0,
                    store.order[j],
                    m,
                    now_ms,
                ));
            }
        }
    }
}

/// Where no answer of an installation is abandoned, a sweep of them does nothing.
proof fn lemma_nothing_to_sweep_in_row(
    start: (StoreView, nat),
    id: Uuid,
    count: nat,
    limit: nat,
    now_ms: u64,
)
    requires
        forall|m: int| !#[trigger] crate::store::challenges::abandoned(start.0, id, m, now_ms),
    ensures
        crate::store::challenges::row_swept(start, id, count, limit, now_ms) == start,
    decreases count,
{
    if count > 0 {
        lemma_nothing_to_sweep_in_row(start, id, (count - 1) as nat, limit, now_ms);
        assert(!crate::store::challenges::abandoned(start.0, id, count - 1, now_ms));
    }
}

/// Where no answer is abandoned, a sweep does nothing.
proof fn lemma_no_lease_to_sweep(store: StoreView, count: nat, limit: nat, now_ms: u64)
    requires
        forall|j: int, m: int|
            0 <= j < count ==> !#[trigger] crate::store::challenges::abandoned(
                store,
                store.order[j],
                m,
                now_ms,
            ),
    ensures
        crate::store::challenges::leases_swept(store, count, limit, now_ms) == (store, 0nat),
    decreases count,
{
    if count > 0 {
        lemma_no_lease_to_sweep(store, (count - 1) as nat, limit, now_ms);
        let id = store.order[count - 1];
        let size = store.installations[id].challenges.len();
        assert forall|m: int| !#[trigger] crate::store::challenges::abandoned(
            store,
            id,
            m,
            now_ms,
        ) by {
            assert(!crate::store::challenges::abandoned(store, store.order[count - 1], m, now_ms));
        }
        lemma_nothing_to_sweep_in_row((store, 0nat), id, size, limit, now_ms);
    }
}

/// A sweep of abandoned answers that was not cut short finds nothing more to do when it is
/// repeated.
pub proof fn law_lease_sweep_is_idempotent(
    store: StoreView,
    limit: nat,
    again: nat,
    now_ms: u64,
)
    requires
        crate::store::challenges::leases_swept(store, store.order.len(), limit, now_ms).1 < limit,
    ensures
        ({
            let after = crate::store::challenges::leases_swept(
                store,
                store.order.len(),
                limit,
                now_ms,
            ).0;
            crate::store::challenges::leases_swept(after, after.order.len(), again, now_ms) == (
                after,
                0nat,
            )
        }),
{
    let after = crate::store::challenges::leases_swept(store, store.order.len(), limit, now_ms).0;
    lemma_leases_swept_clears(store, store.order.len(), limit, now_ms);
    lemma_no_lease_to_sweep(after, after.order.len(), again, now_ms);
}

/// Publishing and taking back DNS-01 answers keeps what every transition keeps, is fenced and
/// audited, and touches one installation.
pub proof fn law_challenges_evolve(
    store: StoreView,
    id: Uuid,
    generation: u64,
    lease_id: Uuid,
    txt_value: Seq<char>,
    expires_at_ms: u64,
    now_ms: u64,
)
    ensures
        ({
            let created = crate::store::challenges::create_outcome(
                store,
                id,
                generation,
                lease_id,
                txt_value,
                expires_at_ms,
                now_ms,
            ).0;
            let deleted = crate::store::challenges::delete_outcome(
                store,
                id,
                generation,
                lease_id,
                now_ms,
            ).0;
            let ready = crate::store::challenges::challenge_readied(store, id, lease_id, now_ms);
            &&& evolves(store, created) && only_touches(store, created, id)
            &&& fenced(store, created) && audited(store, created)
            &&& evolves(store, deleted) && only_touches(store, deleted, id)
            &&& fenced(store, deleted) && audited(store, deleted)
            &&& evolves(store, ready) && only_touches(store, ready, id)
            &&& fenced(store, ready) && audited(store, ready)
        }),
{
}

/// Taking one DNS-01 answer back leaves every other answer of the installation as it is.
pub proof fn law_deletion_touches_one_answer(
    challenges: Seq<crate::store::model::ChallengeView>,
    lease_id: Uuid,
    i: int,
)
    requires
        0 <= i < challenges.len(),
        challenges[i].lease_id != lease_id,
    ensures
        crate::store::challenges::without(challenges, lease_id)[i] == challenges[i],
{
}

/// A delayed cleanup finds nothing to do while a newer answer is live.
pub proof fn law_delayed_cleanup_spares_newer_answer(
    store: StoreView,
    id: Uuid,
    old_lease: Uuid,
    new_lease: Uuid,
    now_ms: u64,
)
    requires
        store.valid(),
        store.installations.dom().contains(id),
        old_lease != new_lease,
        crate::store::challenges::leased(store.installations[id], new_lease),
        crate::store::challenges::lease_of(store.installations[id], new_lease).live(now_ms),
    ensures
        crate::store::challenges::job_lease(store, id, old_lease, true, now_ms) is None,
{
    let row = store.installations[id];
    let i = choose|i: int|
        0 <= i < row.challenges.len() && (#[trigger] row.challenges[i]).lease_id == new_lease;
    assert(row.challenges[i].lease_id != old_lease && row.challenges[i].live(now_ms));
    assert(crate::store::challenges::other_live(row, old_lease, now_ms));
}

/// Observing a feed and reporting a certificate keep what every transition keeps and are fenced;
/// a report is audited, and an observation changes no installation.
pub proof fn law_transparency_evolves(
    store: StoreView,
    id: Uuid,
    certificate: CertificateMetadata,
    source: Seq<char>,
    position: u64,
    hostname: Seq<char>,
    fingerprint: Seq<char>,
    now_ms: u64,
    after: StoreView,
    outcome: Result<bool, StoreError>,
)
    requires
        crate::store::transparency::is_observation(
            store,
            source,
            position,
            hostname,
            fingerprint,
            now_ms,
            after,
            outcome,
        ),
    ensures
        evolves(store, after),
        fenced(store, after),
        after.installations == store.installations,
        ({
            let reported = crate::store::transparency::report_outcome(store, id, certificate).0;
            &&& evolves(store, reported)
            &&& fenced(store, reported) && audited(store, reported)
        }),
{
}

} // verus!
