//! Scoped bearer credentials: issue, renewal and authentication.

use crate::encoding::sha256_digest;
use crate::ids::Uuid;
use crate::protocol::{AllocationState, Scope};
use crate::store::model::{
    same_32, AuditEvent, Credential, Installation, Operation, OperationKind, Store, StoreError,
    MAX_GENERATION,
};
use crate::text::same_text;
use vstd::prelude::*;

verus! {

/// How long a renewed credential is valid, in milliseconds.
pub const RENEWED_VALIDITY_MS: u64 = 86_400_000;

/// How long a renewal may be retried, in milliseconds.
pub const RENEWAL_RETRY_MS: u64 = 300_000;

/// The scope that a bearer credential can have, by its name.
pub open spec fn bearer_scope(name: Seq<char>) -> Option<Scope> {
    if name == "tunnel"@ {
        Some(Scope::Tunnel)
    } else if name == "dns_challenge"@ {
        Some(Scope::DnsChallenge)
    } else {
        None
    }
}

/// Reads the name of a scope that a bearer credential can have.
pub fn read_bearer_scope(name: &str) -> (scope: Option<Scope>)
    ensures
        scope == bearer_scope(name@),
{
    if same_text(name, "tunnel") {
        Some(Scope::Tunnel)
    } else if same_text(name, "dns_challenge") {
        Some(Scope::DnsChallenge)
    } else {
        None
    }
}

/// The last `count` bytes of a number, the most significant first.
pub open spec fn be_bytes(value: nat, count: nat) -> Seq<u8>
    decreases count,
{
    if count == 0 {
        Seq::empty()
    } else {
        be_bytes(value / 256, (count - 1) as nat).push((value % 256) as u8)
    }
}

/// Writes the last `count` bytes of a number, the most significant first.
fn be_bytes_of(value: u64, count: usize) -> (bytes: Vec<u8>)
    ensures
        bytes@ == be_bytes(value as nat, count as nat),
    decreases count,
{
    if count == 0 {
        Vec::new()
    } else {
        let mut bytes: Vec<u8> = be_bytes_of(value / 256, count - 1);
        bytes.push((value % 256) as u8);
        bytes
    }
}

/// Appends bytes to a message.
fn extend(message: &mut Vec<u8>, bytes: &[u8])
    ensures
        final(message)@ == old(message)@ + bytes@,
{
    message.extend_from_slice(bytes);
    proof {
        assert(message@ =~= old(message)@ + bytes@);
    }
}

/// What is digested of a request to issue a credential.
pub open spec fn issue_message(scope: Scope, validity_seconds: nat, token_hash: Seq<u8>) -> Seq<u8> {
    vstd::utf8::encode_utf8("bloom-relay/issue-bearer/v1\0"@) + vstd::utf8::encode_utf8(
        scope.spec_name(),
    ) + be_bytes(validity_seconds, 4) + token_hash
}

/// What is digested of a request to renew a credential.
pub open spec fn renew_message(
    scope: Scope,
    generation: u64,
    old_hash: Seq<u8>,
    new_hash: Seq<u8>,
) -> Seq<u8> {
    vstd::utf8::encode_utf8("bloom-relay/renew-bearer/v1\0"@) + vstd::utf8::encode_utf8(
        scope.spec_name(),
    ) + be_bytes(generation as nat, 8) + old_hash + new_hash
}

/// The credentials after all of a scope have been revoked.
pub open spec fn revoke(
    credentials: Seq<crate::store::model::CredentialView>,
    scope: Scope,
) -> Seq<crate::store::model::CredentialView> {
    credentials.map_values(
        |row: crate::store::model::CredentialView|
            if row.scope == scope {
                crate::store::model::CredentialView { revoked: true, ..row }
            } else {
                row
            },
    )
}

/// An installation that has been given a new credential: the generation has moved on, the
/// earlier credentials of the scope are revoked, and a new tunnel credential ends the lease.
pub open spec fn rotated(
    row: crate::store::model::InstallationView,
    scope: Scope,
    token_hash: Seq<u8>,
    expires_at_ms: u64,
) -> crate::store::model::InstallationView {
    let generation = (row.generation + 1) as u64;
    crate::store::model::InstallationView {
        generation,
        credentials: revoke(row.credentials, scope).push(
            crate::store::model::CredentialView {
                scope,
                generation,
                token_hash,
                expires_at_ms,
                revoked: false,
            },
        ),
        lease: if scope == Scope::Tunnel {
            None
        } else {
            row.lease
        },
        ..row
    }
}

/// A credential rotation keeps an installation valid.
pub proof fn law_rotation_keeps_installation_valid(
    row: crate::store::model::InstallationView,
    scope: Scope,
    token_hash: Seq<u8>,
    expires_at_ms: u64,
)
    requires
        row.valid(),
        row.generation < MAX_GENERATION,
    ensures
        rotated(row, scope, token_hash, expires_at_ms).valid(),
{
    let after = rotated(row, scope, token_hash, expires_at_ms);
    let last = row.credentials.len() as int;
    assert forall|i: int, j: int| 0 <= i < j < after.credentials.len() implies (
    #[trigger] after.credentials[i]).generation < (#[trigger] after.credentials[j]).generation by {
        assert(after.credentials[i].generation == row.credentials[i].generation);
        if j < last {
            assert(after.credentials[j].generation == row.credentials[j].generation);
        }
    }
    assert forall|i: int| 0 <= i < after.credentials.len() implies (
    #[trigger] after.credentials[i]).generation <= after.generation by {
        if i < last {
            assert(after.credentials[i].generation == row.credentials[i].generation);
        }
    }
    assert forall|i: int, j: int|
        0 <= i < j < after.credentials.len() && (#[trigger] after.credentials[i]).scope == (
        #[trigger] after.credentials[j]).scope implies after.credentials[i].revoked
        || after.credentials[j].revoked by {
        assert(after.credentials[i].scope == row.credentials[i].scope);
        if j < last {
            assert(after.credentials[j].scope == row.credentials[j].scope);
        }
    }
}

/// What a request to issue a credential does and answers. `digest` identifies the request for
/// retries.
pub open spec fn issue_outcome(
    store: crate::store::model::StoreView,
    id: Uuid,
    operation_id: Uuid,
    scope: Scope,
    token_hash: Seq<u8>,
    validity_seconds: u32,
    digest: Seq<u8>,
    now_ms: u64,
) -> (crate::store::model::StoreView, Result<(u64, u64), StoreError>) {
    if store.operations.dom().contains(operation_id) {
        let earlier = store.operations[operation_id];
        if earlier.installation_id == id && earlier.kind == OperationKind::Issue(scope)
            && earlier.request_digest == digest {
            (store, Ok((earlier.generation, earlier.expires_at_ms)))
        } else {
            (store, Err(StoreError::Conflict))
        }
    } else if !store.active(id) {
        (store, Err(StoreError::Conflict))
    } else if store.installations[id].generation == MAX_GENERATION {
        (store, Err(StoreError::Unavailable))
    } else {
        let expires = (now_ms + 1000 * validity_seconds) as u64;
        let row = rotated(store.installations[id], scope, token_hash, expires);
        (
            store.with_row(id, row).with_operation(
                operation_id,
                crate::store::model::OperationView {
                    installation_id: id,
                    kind: OperationKind::Issue(scope),
                    request_digest: digest,
                    generation: row.generation,
                    expires_at_ms: expires,
                    created_at_ms: now_ms,
                },
            ).noted(id, None, AuditEvent::CredentialRotated).advanced(),
            Ok((row.generation, expires)),
        )
    }
}

/// The credential that a renewal presents: of the scope and generation, neither revoked nor
/// expired.
pub open spec fn presented(
    row: crate::store::model::InstallationView,
    i: int,
    scope: Scope,
    generation: u64,
    now_ms: u64,
) -> bool {
    &&& 0 <= i < row.credentials.len()
    &&& row.credentials[i].scope == scope
    &&& row.credentials[i].generation == generation
    &&& !row.credentials[i].revoked
    &&& row.credentials[i].expires_at_ms > now_ms
}

/// Whether a renewal presents the secret of a current credential.
pub open spec fn renewal_authorized(
    store: crate::store::model::StoreView,
    id: Uuid,
    scope: Scope,
    generation: u64,
    old_hash: Seq<u8>,
    now_ms: u64,
) -> bool {
    &&& store.dns_ready(id)
    &&& exists|i: int|
        #[trigger] presented(store.installations[id], i, scope, generation, now_ms)
            && store.installations[id].credentials[i].token_hash == old_hash
}

/// What a request to renew a credential does and answers. `digest` identifies the request for
/// retries, which are answered for five minutes.
pub open spec fn renew_outcome(
    store: crate::store::model::StoreView,
    id: Uuid,
    operation_id: Uuid,
    scope: Scope,
    generation: u64,
    old_hash: Seq<u8>,
    new_hash: Seq<u8>,
    digest: Seq<u8>,
    now_ms: u64,
) -> (crate::store::model::StoreView, Result<(u64, u64), StoreError>) {
    if store.operations.dom().contains(operation_id) {
        let earlier = store.operations[operation_id];
        if earlier.installation_id == id && earlier.kind == OperationKind::Renew(scope)
            && earlier.request_digest == digest && earlier.created_at_ms + RENEWAL_RETRY_MS
            > now_ms {
            (store, Ok((earlier.generation, earlier.expires_at_ms)))
        } else {
            (store, Err(StoreError::Conflict))
        }
    } else if !renewal_authorized(store, id, scope, generation, old_hash, now_ms) {
        (store, Err(StoreError::Unauthorized))
    } else if store.installations[id].generation == MAX_GENERATION {
        (store, Err(StoreError::Unavailable))
    } else {
        let expires = (now_ms + RENEWED_VALIDITY_MS) as u64;
        let row = rotated(store.installations[id], scope, new_hash, expires);
        (
            store.with_row(id, row).with_operation(
                operation_id,
                crate::store::model::OperationView {
                    installation_id: id,
                    kind: OperationKind::Renew(scope),
                    request_digest: digest,
                    generation: row.generation,
                    expires_at_ms: expires,
                    created_at_ms: now_ms,
                },
            ).noted(id, Some(operation_id), AuditEvent::CredentialRenewed).advanced(),
            Ok((row.generation, expires)),
        )
    }
}

/// Whether a credential of an installation authenticates a secret.
pub open spec fn authenticates(
    row: crate::store::model::InstallationView,
    i: int,
    scope: Scope,
    hash: Seq<u8>,
    now_ms: u64,
) -> bool {
    &&& 0 <= i < row.credentials.len()
    &&& row.credentials[i].scope == scope
    &&& row.credentials[i].token_hash == hash
    &&& !row.credentials[i].revoked
    &&& row.credentials[i].expires_at_ms > now_ms
}

/// The generation of the newest credential that authenticates a secret, where there is one.
pub open spec fn is_authentication(
    store: crate::store::model::StoreView,
    id: Uuid,
    scope: Scope,
    hash: Seq<u8>,
    now_ms: u64,
    found: Option<u64>,
) -> bool {
    match found {
        Some(generation) => {
            &&& store.dns_ready(id)
            &&& exists|i: int|
                #[trigger] authenticates(store.installations[id], i, scope, hash, now_ms)
                    && store.installations[id].credentials[i].generation == generation
            &&& forall|i: int|
                #[trigger] authenticates(store.installations[id], i, scope, hash, now_ms)
                    ==> store.installations[id].credentials[i].generation <= generation
        },
        None => !store.dns_ready(id) || forall|i: int|
            !#[trigger] authenticates(store.installations[id], i, scope, hash, now_ms),
    }
}

/// The generation that a secret authenticates for a scope.
pub open spec fn authenticated(
    store: crate::store::model::StoreView,
    id: Uuid,
    scope: Scope,
    hash: Seq<u8>,
    now_ms: u64,
) -> Option<u64> {
    choose|found: Option<u64>| is_authentication(store, id, scope, hash, now_ms, found)
}

/// At most one answer authenticates a secret.
pub proof fn law_authentication_is_unambiguous(
    store: crate::store::model::StoreView,
    id: Uuid,
    scope: Scope,
    hash: Seq<u8>,
    now_ms: u64,
    found: Option<u64>,
)
    requires
        is_authentication(store, id, scope, hash, now_ms, found),
    ensures
        authenticated(store, id, scope, hash, now_ms) == found,
{
}

/// What is kept of a secret.
pub open spec fn secret_digest(secret: Seq<char>) -> Seq<u8> {
    crate::encoding::sha256(vstd::utf8::encode_utf8(secret))
}

/// Whether a secret is long enough and not too long to be looked up.
pub open spec fn plausible_secret(secret: Seq<char>) -> bool {
    43 <= vstd::utf8::encode_utf8(secret).len() <= 128
}

/// Whether a secret is long enough and not too long to be looked up.
fn secret_is_plausible(secret: &str) -> (plausible: bool)
    ensures
        plausible == plausible_secret(secret@),
{
    let size: usize = secret.as_bytes().len();
    43 <= size && size <= 128
}

/// Revokes the credentials of a scope and adds a new one, in the row of an installation.
fn rotate(row: &mut Installation, scope: Scope, token_hash: &[u8; 32], expires_at_ms: u64)
    requires
        old(row).generation < MAX_GENERATION,
    ensures
        final(row)@ == rotated(old(row)@, scope, token_hash@, expires_at_ms),
{
    let mut i: usize = 0;
    while i < row.credentials.len()
        invariant
            i <= row.credentials@.len() == old(row).credentials@.len(),
            *row == (Installation { credentials: row.credentials, ..*old(row) }),
            forall|j: int|
                i <= j < row.credentials@.len() ==> row.credentials@[j] == old(row).credentials@[j],
            forall|j: int|
                0 <= j < i ==> (#[trigger] row.credentials@[j])@ == revoke(
                    old(row)@.credentials,
                    scope,
                )[j],
        decreases row.credentials@.len() - i,
    {
        let mut entry: Credential = row.credentials[i];
        if entry.scope == scope {
            entry.revoked = true;
            row.credentials[i] = entry;
        }
        proof {
            assert(old(row)@.credentials[i as int] == old(row).credentials@[i as int]@);
        }
        i += 1;
    }
    row.generation = row.generation + 1;
    row.credentials.push(
        Credential {
            scope,
            generation: row.generation,
            token_hash: *token_hash,
            expires_at_ms,
            revoked: false,
        },
    );
    match scope {
        Scope::Tunnel => {
            row.lease = None;
        },
        _ => {},
    }
    proof {
        assert(row@.credentials =~= rotated(
            old(row)@,
            scope,
            token_hash@,
            expires_at_ms,
        ).credentials);
    }
}

impl Store {
    /// The operation that was carried out under an identifier.
    pub(crate) fn operation(&self, operation_id: Uuid) -> (found: Option<Operation>)
        requires
            self.operations.well_formed(),
        ensures
            found is Some == self@.operations.dom().contains(operation_id),
            found matches Some(operation) ==> operation@ == self@.operations[operation_id],
    {
        match self.operations.get(operation_id) {
            Some(operation) => Some(*operation),
            None => None,
        }
    }

    /// Rotates the credentials of a scope, records the operation and goes on to the next
    /// revision.
    fn rotate_and_record(
        &mut self,
        id: Uuid,
        operation_id: Uuid,
        kind: OperationKind,
        scope: Scope,
        token_hash: &[u8; 32],
        expires_at_ms: u64,
        digest: &[u8; 32],
        now_ms: u64,
        noted: Option<Uuid>,
        event: AuditEvent,
    ) -> (generation: u64)
        requires
            old(self).well_formed(),
            old(self).has_room(1),
            !old(self)@.operations.dom().contains(operation_id),
            old(self)@.installations.dom().contains(id),
            old(self)@.installations[id].generation < MAX_GENERATION,
            kind != OperationKind::Retire,
        ensures
            final(self).well_formed(),
            ({
                let row = rotated(
                    old(self)@.installations[id],
                    scope,
                    token_hash@,
                    expires_at_ms,
                );
                &&& generation == row.generation
                &&& final(self)@ == old(self)@.with_row(id, row).with_operation(
                    operation_id,
                    crate::store::model::OperationView {
                        installation_id: id,
                        kind,
                        request_digest: digest@,
                        generation: row.generation,
                        expires_at_ms,
                        created_at_ms: now_ms,
                    },
                ).noted(id, noted, event).advanced()
            }),
    {
        let ghost row_view = rotated(old(self)@.installations[id], scope, token_hash@, expires_at_ms);
        proof {
            law_rotation_keeps_installation_valid(
                old(self)@.installations[id],
                scope,
                token_hash@,
                expires_at_ms,
            );
        }
        let generation: u64 = match self.installations.get_mut(id) {
            Some(row) => {
                rotate(row, scope, token_hash, expires_at_ms);
                row.generation
            },
            None => 0,
        };
        proof {
            assert(self@.installations =~= old(self)@.installations.insert(id, row_view));
        }
        self.record(
            operation_id,
            Operation {
                installation_id: id,
                kind,
                request_digest: *digest,
                generation,
                expires_at_ms,
                created_at_ms: now_ms,
            },
        );
        self.note(id, noted, event);
        self.advance();
        generation
    }

    /// Issues a credential under a request digest.
    pub fn issue_bearer_digested(
        &mut self,
        id: Uuid,
        operation_id: Uuid,
        scope: Scope,
        token_hash: &[u8; 32],
        validity_seconds: u32,
        digest: &[u8; 32],
        now_ms: u64,
    ) -> (outcome: Result<(u64, u64), StoreError>)
        requires
            old(self).well_formed(),
            old(self).has_room(1),
            now_ms + 1000 * validity_seconds <= u64::MAX,
        ensures
            final(self).well_formed(),
            (final(self)@, outcome) == issue_outcome(
                old(self)@,
                id,
                operation_id,
                scope,
                token_hash@,
                validity_seconds,
                digest@,
                now_ms,
            ),
    {
        if let Some(earlier) = self.operation(operation_id) {
            let same_kind: bool = match earlier.kind {
                OperationKind::Issue(issued) => issued == scope,
                _ => false,
            };
            if earlier.installation_id != id || !same_kind || !same_32(
                &earlier.request_digest,
                digest,
            ) {
                return Err(StoreError::Conflict);
            }
            return Ok((earlier.generation, earlier.expires_at_ms));
        }
        match self.installations.get(id) {
            Some(row) => {
                if row.state == AllocationState::Retired {
                    return Err(StoreError::Conflict);
                }
                if row.generation >= MAX_GENERATION {
                    return Err(StoreError::Unavailable);
                }
            },
            None => {
                return Err(StoreError::Conflict);
            },
        }
        let expires: u64 = now_ms + 1000 * validity_seconds as u64;
        let generation: u64 = self.rotate_and_record(
            id,
            operation_id,
            OperationKind::Issue(scope),
            scope,
            token_hash,
            expires,
            digest,
            now_ms,
            None,
            AuditEvent::CredentialRotated,
        );
        Ok((generation, expires))
    }

    /// Issues a scoped bearer credential, of which only the digest is known here. The same
    /// operation with the same request gets the same answer again.
    pub fn issue_bearer(
        &mut self,
        id: Uuid,
        operation_id: Uuid,
        scope: &str,
        token_hash: &[u8; 32],
        validity_seconds: i32,
        now_ms: u64,
    ) -> (outcome: Result<(u64, u64), StoreError>)
        requires
            old(self).well_formed(),
            old(self).has_room(1),
            now_ms + 86_400_000 <= u64::MAX,
        ensures
            final(self).well_formed(),
            match bearer_scope(scope@) {
                Some(found) if 60 <= validity_seconds <= 86_400 => {
                    (final(self)@, outcome) == issue_outcome(
                        old(self)@,
                        id,
                        operation_id,
                        found,
                        token_hash@,
                        validity_seconds as u32,
                        crate::encoding::sha256(
                            issue_message(found, validity_seconds as nat, token_hash@),
                        ),
                        now_ms,
                    )
                },
                _ => {
                    &&& outcome == Err::<(u64, u64), StoreError>(StoreError::InvalidRequest)
                    &&& final(self)@ == old(self)@
                },
            },
    {
        let found: Scope = match read_bearer_scope(scope) {
            Some(found) => found,
            None => {
                return Err(StoreError::InvalidRequest);
            },
        };
        if validity_seconds < 60 || validity_seconds > 86_400 {
            return Err(StoreError::InvalidRequest);
        }
        let mut message: Vec<u8> = Vec::new();
        extend(&mut message, "bloom-relay/issue-bearer/v1\0".as_bytes());
        extend(&mut message, found.name().as_bytes());
        extend(&mut message, be_bytes_of(validity_seconds as u64, 4).as_slice());
        extend(&mut message, token_hash.as_slice());
        proof {
            assert(message@ =~= issue_message(found, validity_seconds as nat, token_hash@));
        }
        let digest: [u8; 32] = sha256_digest(message.as_slice());
        self.issue_bearer_digested(
            id,
            operation_id,
            found,
            token_hash,
            validity_seconds as u32,
            &digest,
            now_ms,
        )
    }

    /// Where the presented credential of an installation stands.
    fn find_presented(&self, id: Uuid, scope: Scope, generation: u64, old_hash: &[u8; 32], now_ms: u64) -> (authorized: bool)
        requires
            self.well_formed(),
        ensures
            authorized == renewal_authorized(self@, id, scope, generation, old_hash@, now_ms),
    {
        let row: &Installation = match self.installations.get(id) {
            Some(row) => row,
            None => {
                return false;
            },
        };
        let ghost view = self@.installations[id];
        proof {
            assert(view == row@);
        }
        if row.state != AllocationState::DnsReady {
            return false;
        }
        let mut i: usize = 0;
        while i < row.credentials.len()
            invariant
                i <= row.credentials@.len(),
                view == row@,
                view == self@.installations[id],
                self@.dns_ready(id),
                forall|j: int|
                    0 <= j < i && #[trigger] presented(view, j, scope, generation, now_ms)
                        ==> view.credentials[j].token_hash != old_hash@,
            decreases row.credentials@.len() - i,
        {
            let entry: Credential = row.credentials[i];
            proof {
                assert(view.credentials[i as int] == entry@);
            }
            if entry.scope == scope && entry.generation == generation && !entry.revoked
                && entry.expires_at_ms > now_ms && same_32(&entry.token_hash, old_hash) {
                proof {
                    assert(presented(view, i as int, scope, generation, now_ms));
                }
                return true;
            }
            i += 1;
        }
        false
    }

    /// Renews a credential under a request digest.
    pub fn renew_bearer_digested(
        &mut self,
        id: Uuid,
        operation_id: Uuid,
        scope: Scope,
        generation: u64,
        old_hash: &[u8; 32],
        new_hash: &[u8; 32],
        digest: &[u8; 32],
        now_ms: u64,
    ) -> (outcome: Result<(u64, u64), StoreError>)
        requires
            old(self).well_formed(),
            old(self).has_room(1),
            now_ms + RENEWED_VALIDITY_MS <= u64::MAX,
        ensures
            final(self).well_formed(),
            (final(self)@, outcome) == renew_outcome(
                old(self)@,
                id,
                operation_id,
                scope,
                generation,
                old_hash@,
                new_hash@,
                digest@,
                now_ms,
            ),
    {
        if let Some(earlier) = self.operation(operation_id) {
            let same_kind: bool = match earlier.kind {
                OperationKind::Renew(renewed) => renewed == scope,
                _ => false,
            };
            let fresh: bool = now_ms < earlier.created_at_ms || now_ms - earlier.created_at_ms
                < RENEWAL_RETRY_MS;
            if earlier.installation_id != id || !same_kind || !same_32(
                &earlier.request_digest,
                digest,
            ) || !fresh {
                return Err(StoreError::Conflict);
            }
            return Ok((earlier.generation, earlier.expires_at_ms));
        }
        if !self.find_presented(id, scope, generation, old_hash, now_ms) {
            return Err(StoreError::Unauthorized);
        }
        match self.installations.get(id) {
            Some(row) => {
                if row.generation >= MAX_GENERATION {
                    return Err(StoreError::Unavailable);
                }
            },
            None => {},
        }
        let expires: u64 = now_ms + RENEWED_VALIDITY_MS;
        let next: u64 = self.rotate_and_record(
            id,
            operation_id,
            OperationKind::Renew(scope),
            scope,
            new_hash,
            expires,
            digest,
            now_ms,
            Some(operation_id),
            AuditEvent::CredentialRenewed,
        );
        Ok((next, expires))
    }

    /// Replaces a scoped bearer credential by a new one, for whoever presents the secret of the
    /// current one. The same operation with the same request gets the same answer again for
    /// five minutes.
    pub fn renew_bearer(
        &mut self,
        id: Uuid,
        operation_id: Uuid,
        scope: &str,
        generation: u64,
        current_token: &str,
        new_token_hash: &[u8; 32],
        now_ms: u64,
    ) -> (outcome: Result<(u64, u64), StoreError>)
        requires
            old(self).well_formed(),
            old(self).has_room(1),
            now_ms + RENEWED_VALIDITY_MS <= u64::MAX,
        ensures
            final(self).well_formed(),
            match bearer_scope(scope@) {
                Some(found) if plausible_secret(current_token@) => {
                    let old_hash = secret_digest(current_token@);
                    (final(self)@, outcome) == renew_outcome(
                        old(self)@,
                        id,
                        operation_id,
                        found,
                        generation,
                        old_hash,
                        new_token_hash@,
                        crate::encoding::sha256(
                            renew_message(found, generation, old_hash, new_token_hash@),
                        ),
                        now_ms,
                    )
                },
                _ => {
                    &&& outcome == Err::<(u64, u64), StoreError>(StoreError::InvalidRequest)
                    &&& final(self)@ == old(self)@
                },
            },
    {
        let found: Scope = match read_bearer_scope(scope) {
            Some(found) => found,
            None => {
                return Err(StoreError::InvalidRequest);
            },
        };
        if !secret_is_plausible(current_token) {
            return Err(StoreError::InvalidRequest);
        }
        let old_hash: [u8; 32] = sha256_digest(current_token.as_bytes());
        let mut message: Vec<u8> = Vec::new();
        extend(&mut message, "bloom-relay/renew-bearer/v1\0".as_bytes());
        extend(&mut message, found.name().as_bytes());
        extend(&mut message, be_bytes_of(generation, 8).as_slice());
        extend(&mut message, old_hash.as_slice());
        extend(&mut message, new_token_hash.as_slice());
        proof {
            assert(message@ =~= renew_message(found, generation, old_hash@, new_token_hash@));
        }
        let digest: [u8; 32] = sha256_digest(message.as_slice());
        self.renew_bearer_digested(
            id,
            operation_id,
            found,
            generation,
            &old_hash,
            new_token_hash,
            &digest,
            now_ms,
        )
    }

    /// Looks up the generation of the credential that a digest authenticates.
    pub fn authenticate_digest(&self, id: Uuid, scope: Scope, hash: &[u8; 32], now_ms: u64) -> (found:
        Option<u64>)
        requires
            self.well_formed(),
        ensures
            is_authentication(self@, id, scope, hash@, now_ms, found),
    {
        let row: &Installation = match self.installations.get(id) {
            Some(row) => row,
            None => {
                return None;
            },
        };
        let ghost view = self@.installations[id];
        proof {
            assert(view == row@);
            assert(self@.installations.dom().contains(id));
            assert(view.valid());
        }
        if row.state != AllocationState::DnsReady {
            return None;
        }
        let mut found: Option<u64> = None;
        let mut i: usize = 0;
        while i < row.credentials.len()
            invariant
                i <= row.credentials@.len(),
                view == row@,
                view.valid(),
                match found {
                    Some(generation) => (exists|j: int|
                        #[trigger] authenticates(view, j, scope, hash@, now_ms) && j < i
                            && view.credentials[j].generation == generation) && (forall|j: int|
                        j < i && #[trigger] authenticates(view, j, scope, hash@, now_ms)
                            ==> view.credentials[j].generation <= generation),
                    None => forall|j: int|
                        j < i ==> !#[trigger] authenticates(view, j, scope, hash@, now_ms),
                },
            decreases row.credentials@.len() - i,
        {
            let entry: Credential = row.credentials[i];
            proof {
                assert(view.credentials[i as int] == entry@);
            }
            if entry.scope == scope && !entry.revoked && entry.expires_at_ms > now_ms && same_32(
                &entry.token_hash,
                hash,
            ) {
                proof {
                    assert(authenticates(view, i as int, scope, hash@, now_ms));
                }
                found = Some(entry.generation);
            }
            i += 1;
        }
        found
    }

    /// Looks up the generation of the credential that a secret authenticates for a scope.
    pub fn authenticate_bearer(&self, id: Uuid, scope: &str, bearer: &str, now_ms: u64) -> (found:
        Option<u64>)
        requires
            self.well_formed(),
        ensures
            match bearer_scope(scope@) {
                Some(wanted) if plausible_secret(bearer@) => is_authentication(
                    self@,
                    id,
                    wanted,
                    secret_digest(bearer@),
                    now_ms,
                    found,
                ),
                _ => found is None,
            },
    {
        if !secret_is_plausible(bearer) {
            return None;
        }
        match read_bearer_scope(scope) {
            Some(wanted) => {
                let digest: [u8; 32] = sha256_digest(bearer.as_bytes());
                self.authenticate_digest(id, wanted, &digest, now_ms)
            },
            None => None,
        }
    }
}

/// A bearer credential is of tunnels or of DNS-01 answers, under just these names, and its secret
/// has 43 to 128 bytes.
pub proof fn law_bearer_scopes_are_named(name: Seq<char>, secret: Seq<char>)
    ensures
        bearer_scope(name) == Some(Scope::Tunnel) <==> name == "tunnel"@,
        bearer_scope(name) == Some(Scope::DnsChallenge) <==> name == "dns_challenge"@,
        bearer_scope(name) is None <==> name != "tunnel"@ && name != "dns_challenge"@,
        plausible_secret(secret) <==> 43 <= vstd::utf8::encode_utf8(secret).len() <= 128,
        secret_digest(secret) == crate::encoding::sha256(vstd::utf8::encode_utf8(secret)),
{
    reveal_strlit("tunnel");
    reveal_strlit("dns_challenge");
    assert("tunnel"@.len() == 6);
    assert("dns_challenge"@.len() == 13);
}

proof fn lemma_be_bytes(value: nat, other: nat, count: nat)
    ensures
        be_bytes(value, count).len() == count,
        be_bytes(value, count) == be_bytes(other, count) && value < vstd::arithmetic::power::pow(
            256,
            count,
        ) && other < vstd::arithmetic::power::pow(256, count) ==> value == other,
    decreases count,
{
    reveal(vstd::arithmetic::power::pow);
    if count > 0 {
        let less = (count - 1) as nat;
        lemma_be_bytes(value / 256, other / 256, less);
        let a = be_bytes(value / 256, less);
        let b = be_bytes(other / 256, less);
        let x = (value % 256) as u8;
        let y = (other % 256) as u8;
        assert(a.push(x).drop_last() =~= a);
        assert(b.push(y).drop_last() =~= b);
        let p = vstd::arithmetic::power::pow(256, less);
        if be_bytes(value, count) == be_bytes(other, count) && value
            < vstd::arithmetic::power::pow(256, count) && other < vstd::arithmetic::power::pow(
            256,
            count,
        ) {
            assert(a == b);
            assert(a.push(x).last() == b.push(y).last());
            assert(vstd::arithmetic::power::pow(256, count) == 256 * p);
            assert(value / 256 < p && other / 256 < p);
        }
    }
}

/// What is digested of a request says everything that it asks for: two requests of which the same
/// is digested ask for the same.
pub proof fn law_requests_are_digested_whole(
    scope: Scope,
    other_scope: Scope,
    validity: nat,
    other_validity: nat,
    generation: u64,
    other_generation: u64,
    old_hash: Seq<u8>,
    other_old_hash: Seq<u8>,
    hash: Seq<u8>,
    other_hash: Seq<u8>,
)
    requires
        !(scope is SurfaceAdmin) && !(other_scope is SurfaceAdmin),
        validity <= u32::MAX && other_validity <= u32::MAX,
        old_hash.len() == 32 && other_old_hash.len() == 32,
        hash.len() == 32 && other_hash.len() == 32,
    ensures
        issue_message(scope, validity, hash) == issue_message(other_scope, other_validity, other_hash)
            ==> scope == other_scope && validity == other_validity && hash == other_hash,
        renew_message(scope, generation, old_hash, hash) == renew_message(
            other_scope,
            other_generation,
            other_old_hash,
            other_hash,
        ) ==> scope == other_scope && generation == other_generation && old_hash == other_old_hash
            && hash == other_hash,
{
    reveal_strlit("tunnel");
    reveal_strlit("dns_challenge");
    let names = "tunnel"@;
    let longer = "dns_challenge"@;
    assert(vstd::utf8::is_ascii_chars(names));
    assert(vstd::utf8::is_ascii_chars(longer));
    vstd::utf8::is_ascii_chars_encode_utf8(names);
    vstd::utf8::is_ascii_chars_encode_utf8(longer);
    let one = vstd::utf8::encode_utf8(scope.spec_name());
    let other = vstd::utf8::encode_utf8(other_scope.spec_name());
    assert(one.len() == if scope is Tunnel {
        6int
    } else {
        13int
    });
    assert(other.len() == if other_scope is Tunnel {
        6int
    } else {
        13int
    });
    lemma_be_bytes(validity, other_validity, 4);
    lemma_be_bytes(other_validity, validity, 4);
    lemma_be_bytes(generation as nat, other_generation as nat, 8);
    lemma_be_bytes(other_generation as nat, generation as nat, 8);
    assert(vstd::arithmetic::power::pow(256, 4) == 0x1_0000_0000) by {
        reveal_with_fuel(vstd::arithmetic::power::pow, 5);
    }
    assert(vstd::arithmetic::power::pow(256, 8) == 0x1_0000_0000_0000_0000) by {
        reveal_with_fuel(vstd::arithmetic::power::pow, 9);
    }
    let issue = vstd::utf8::encode_utf8("bloom-relay/issue-bearer/v1\0"@);
    let renew = vstd::utf8::encode_utf8("bloom-relay/renew-bearer/v1\0"@);
    let a = issue_message(scope, validity, hash);
    let b = issue_message(other_scope, other_validity, other_hash);
    if a == b {
        assert(a.len() == issue.len() + one.len() + 36);
        assert(b.len() == issue.len() + other.len() + 36);
        assert(scope == other_scope);
        let n = (issue.len() + one.len()) as int;
        assert(be_bytes(validity, 4) =~= a.subrange(n, n + 4));
        assert(be_bytes(other_validity, 4) =~= b.subrange(n, n + 4));
        assert(hash =~= a.skip(n + 4));
        assert(other_hash =~= b.skip(n + 4));
    }
    let c = renew_message(scope, generation, old_hash, hash);
    let d = renew_message(other_scope, other_generation, other_old_hash, other_hash);
    if c == d {
        assert(c.len() == renew.len() + one.len() + 72);
        assert(d.len() == renew.len() + other.len() + 72);
        assert(scope == other_scope);
        let n = (renew.len() + one.len()) as int;
        assert(be_bytes(generation as nat, 8) =~= c.subrange(n, n + 8));
        assert(be_bytes(other_generation as nat, 8) =~= d.subrange(n, n + 8));
        assert(old_hash =~= c.subrange(n + 8, n + 40));
        assert(other_old_hash =~= d.subrange(n + 8, n + 40));
        assert(hash =~= c.skip(n + 40));
        assert(other_hash =~= d.skip(n + 40));
    }
}

} // verus!
