//! The control service: what each request is answered with and what it changes.
//!
//! Every handler works on the rows that were read for the request. What it changes stands, also
//! where the answer is a refusal: a nonce that was used stays used.

use crate::canonical::{canonical_json, JsonDocument};
use crate::encoding::hex_decode;
use crate::ids::Uuid;
use crate::protocol::{
    array_32, AcmeAccountRequest, Allocation, AuthClaims, CredentialIssueReceipt,
    CredentialIssueRequest, ErrorCode, InstallationStatusRequest, RetireRequest, Scope,
    SignedRequest, VerifyingKey, WIRE_VERSION,
};
use crate::store::model::{Store, StoreError};
use crate::text::after_prefix;
use vstd::prelude::*;

verus! {

/// How long a renewal request may promise to be answered, in milliseconds.
pub const RENEWAL_WINDOW_MS: u64 = 60_000;

/// A refusal: the status, the code, and whether the request may be repeated.
#[derive(Clone, Copy, Debug, PartialEq, Eq, Structural)]
pub struct ApiError {
    pub status: u16,
    pub code: ErrorCode,
    pub retryable: bool,
}

/// The caller is not who the request needs.
pub open spec fn unauthorized_error() -> ApiError {
    ApiError { status: 401, code: ErrorCode::Unauthorized, retryable: false }
}

/// Something that the request needs is not there at the moment.
pub open spec fn unavailable_error() -> ApiError {
    ApiError { status: 503, code: ErrorCode::DependencyUnavailable, retryable: true }
}

/// The request is malformed.
pub open spec fn invalid_error() -> ApiError {
    ApiError { status: 400, code: ErrorCode::InvalidRequest, retryable: false }
}

/// The request contradicts the state or an earlier request.
pub open spec fn conflict_error() -> ApiError {
    ApiError { status: 409, code: ErrorCode::Conflict, retryable: false }
}

/// The nonce is used up or has expired.
pub open spec fn replayed_error() -> ApiError {
    ApiError { status: 410, code: ErrorCode::ExpiredOrReplayed, retryable: false }
}

/// Too many requests.
pub open spec fn quota_error() -> ApiError {
    ApiError { status: 429, code: ErrorCode::QuotaExceeded, retryable: true }
}

/// The caller is not who the request needs.
pub fn unauthorized() -> (error: ApiError)
    ensures
        error == unauthorized_error(),
{
    ApiError { status: 401, code: ErrorCode::Unauthorized, retryable: false }
}

/// Something that the request needs is not there at the moment.
pub fn unavailable() -> (error: ApiError)
    ensures
        error == unavailable_error(),
{
    ApiError { status: 503, code: ErrorCode::DependencyUnavailable, retryable: true }
}

/// The request is malformed.
pub fn invalid() -> (error: ApiError)
    ensures
        error == invalid_error(),
{
    ApiError { status: 400, code: ErrorCode::InvalidRequest, retryable: false }
}

/// The request contradicts the state or an earlier request.
pub fn conflict() -> (error: ApiError)
    ensures
        error == conflict_error(),
{
    ApiError { status: 409, code: ErrorCode::Conflict, retryable: false }
}

/// The nonce is used up or has expired.
pub fn replayed() -> (error: ApiError)
    ensures
        error == replayed_error(),
{
    ApiError { status: 410, code: ErrorCode::ExpiredOrReplayed, retryable: false }
}

/// Too many requests.
pub fn quota_exceeded() -> (error: ApiError)
    ensures
        error == quota_error(),
{
    ApiError { status: 429, code: ErrorCode::QuotaExceeded, retryable: true }
}

/// How long a caller who was throttled is asked to wait, in seconds: as long as a bootstrap
/// challenge counts against its source.
pub const THROTTLED_RETRY_SECONDS: u64 = 60;

/// How long a caller is asked to wait for something that is not there at the moment, in seconds.
pub const UNAVAILABLE_RETRY_SECONDS: u64 = 5;

/// How long the caller is asked to wait before the request is repeated, in seconds; nothing
/// where the request may not be repeated.
pub fn retry_after(error: ApiError) -> (seconds: Option<u64>)
    ensures
        seconds is Some == error.retryable,
        error.retryable ==> seconds == Some(
            if error.code == ErrorCode::QuotaExceeded {
                THROTTLED_RETRY_SECONDS
            } else {
                UNAVAILABLE_RETRY_SECONDS
            },
        ),
{
    if !error.retryable {
        return None;
    }
    if error.code == ErrorCode::QuotaExceeded {
        Some(THROTTLED_RETRY_SECONDS)
    } else {
        Some(UNAVAILABLE_RETRY_SECONDS)
    }
}

/// What a store error is answered with where the request may be at fault.
pub open spec fn store_refusal(error: StoreError) -> ApiError {
    match error {
        StoreError::InvalidRequest => invalid_error(),
        StoreError::Conflict => conflict_error(),
        _ => unavailable_error(),
    }
}

/// What a store error is answered with where only a conflict is told apart.
pub open spec fn conflict_refusal(error: StoreError) -> ApiError {
    match error {
        StoreError::Conflict => conflict_error(),
        _ => unavailable_error(),
    }
}

/// What a store error is answered with on renewal.
pub open spec fn renewal_refusal(error: StoreError) -> ApiError {
    match error {
        StoreError::Conflict => conflict_error(),
        StoreError::Unauthorized => unauthorized_error(),
        _ => unavailable_error(),
    }
}

/// Answers a store error where the request may be at fault.
pub fn refuse(error: StoreError) -> (refusal: ApiError)
    ensures
        refusal == store_refusal(error),
{
    match error {
        StoreError::InvalidRequest => invalid(),
        StoreError::Conflict => conflict(),
        _ => unavailable(),
    }
}

/// Answers a store error where only a conflict is told apart.
pub fn refuse_conflict(error: StoreError) -> (refusal: ApiError)
    ensures
        refusal == conflict_refusal(error),
{
    match error {
        StoreError::Conflict => conflict(),
        _ => unavailable(),
    }
}

/// The bearer secret that an authorization header carries.
pub open spec fn bearer_of(header: Option<Seq<char>>) -> Option<Seq<char>> {
    match header {
        Some(text) => if crate::text::starts_with(text, "Bearer "@) {
            Some(text.skip("Bearer "@.len() as int))
        } else {
            None
        },
        None => None,
    }
}

/// What an optional header holds.
pub open spec fn header_text(header: Option<&str>) -> Option<Seq<char>> {
    match header {
        Some(text) => Some(text@),
        None => None,
    }
}

/// Takes the bearer secret out of an authorization header.
pub fn read_bearer(header: Option<&str>) -> (bearer: Option<String>)
    ensures
        bearer is Some == bearer_of(header_text(header)) is Some,
        bearer matches Some(found) ==> bearer_of(header_text(header)) == Some(found@),
{
    match header {
        Some(text) => after_prefix(text, "Bearer "),
        None => None,
    }
}

/// The verdict on an administrative request before its nonce is looked at. `key` is the admin
/// key of the installation that the claims name.
pub open spec fn admin_verdict(
    key: Option<Seq<u8>>,
    claims: AuthClaims,
    document: crate::canonical::DocumentView,
    signature: Seq<char>,
    audience: Seq<char>,
    now_ms: u64,
) -> Result<(), ApiError> {
    match key {
        None => Err(unauthorized_error()),
        Some(bytes) => if !crate::encoding::ed25519_point(bytes) {
            Err(unavailable_error())
        } else {
            match claims.spec_verify(
                crate::canonical::jcs(document),
                signature,
                bytes,
                Scope::SurfaceAdmin,
                audience,
                now_ms,
            ) {
                Ok(_) => Ok(()),
                Err(_) => Err(unauthorized_error()),
            }
        },
    }
}

/// What the authorization of an administrative request does and answers: the signature counts
/// once, since its nonce is used up.
pub open spec fn authorize_outcome(
    store: crate::store::model::StoreView,
    key: Option<Seq<u8>>,
    claims: AuthClaims,
    document: crate::canonical::DocumentView,
    signature: Seq<char>,
    audience: Seq<char>,
    now_ms: u64,
) -> (crate::store::model::StoreView, Result<(), ApiError>) {
    match admin_verdict(key, claims, document, signature, audience, now_ms) {
        Err(error) => (store, Err(error)),
        Ok(_) => {
            let (after, first) = crate::store::admission::nonce_outcome(
                store,
                claims.installation_id,
                claims.nonce@,
                now_ms,
            );
            if first {
                (after, Ok(()))
            } else {
                (after, Err(replayed_error()))
            }
        },
    }
}

/// The admin key of an installation that is not retired.
pub open spec fn active_key(store: crate::store::model::StoreView, id: Uuid) -> Option<Seq<u8>> {
    if store.active(id) {
        Some(store.installations[id].admin_public_key)
    } else {
        None
    }
}

/// The admin key of an installation, retired or not.
pub open spec fn recorded_key(store: crate::store::model::StoreView, id: Uuid) -> Option<Seq<u8>> {
    if store.installations.dom().contains(id) {
        Some(store.installations[id].admin_public_key)
    } else {
        None
    }
}

/// The bytes of an optional key.
pub open spec fn key_bytes(key: Option<[u8; 32]>) -> Option<Seq<u8>> {
    match key {
        Some(bytes) => Some(bytes@),
        None => None,
    }
}

/// Authorizes an administrative request under a key.
fn authorize(
    store: &mut Store,
    key: Option<[u8; 32]>,
    claims: &AuthClaims,
    document: &JsonDocument,
    signature: &str,
    audience: &str,
    now_ms: u64,
) -> (outcome: Result<(), ApiError>)
    requires
        old(store).well_formed(),
        now_ms + crate::store::admission::NONCE_LIFETIME_MS <= u64::MAX,
    ensures
        final(store).well_formed(),
        final(store).next_job == old(store).next_job,
        final(store).revision == old(store).revision,
        (final(store)@, outcome) == authorize_outcome(
            old(store)@,
            key_bytes(key),
            *claims,
            document@,
            signature@,
            audience@,
            now_ms,
        ),
{
    let bytes: [u8; 32] = match key {
        Some(bytes) => bytes,
        None => {
            return Err(unauthorized());
        },
    };
    let point: VerifyingKey = match VerifyingKey::from_bytes(&bytes) {
        Some(point) => point,
        None => {
            return Err(unavailable());
        },
    };
    let body: Vec<u8> = canonical_json(document);
    if claims.verify(
        body.as_slice(),
        signature,
        &point,
        Scope::SurfaceAdmin,
        audience,
        now_ms,
    ).is_err() {
        return Err(unauthorized());
    }
    if !store.consume_nonce(claims.installation_id, claims.nonce.as_str(), now_ms) {
        return Err(replayed());
    }
    Ok(())
}

/// Authorizes a request about an installation, retired or not.
pub fn authorize_admin(
    store: &mut Store,
    claims: &AuthClaims,
    document: &JsonDocument,
    signature: &str,
    audience: &str,
    now_ms: u64,
) -> (outcome: Result<(), ApiError>)
    requires
        old(store).well_formed(),
        now_ms + crate::store::admission::NONCE_LIFETIME_MS <= u64::MAX,
    ensures
        final(store).well_formed(),
        final(store).next_job == old(store).next_job,
        final(store).revision == old(store).revision,
        (final(store)@, outcome) == authorize_outcome(
            old(store)@,
            recorded_key(old(store)@, claims.installation_id),
            *claims,
            document@,
            signature@,
            audience@,
            now_ms,
        ),
{
    let key: Option<[u8; 32]> = store.recorded_admin_key(claims.installation_id);
    authorize(store, key, claims, document, signature, audience, now_ms)
}

/// Answers how far an allocation has come; also for a retired installation.
pub fn installation_status(
    store: &mut Store,
    request: &SignedRequest<InstallationStatusRequest>,
    audience: &str,
    now_ms: u64,
) -> (outcome: Result<Allocation, ApiError>)
    requires
        old(store).well_formed(),
        now_ms + crate::store::admission::NONCE_LIFETIME_MS <= u64::MAX,
    ensures
        final(store).well_formed(),
        if request.body.installation_id != request.claims.installation_id {
            &&& outcome == Err::<Allocation, ApiError>(unauthorized_error())
            &&& final(store)@ == old(store)@
        } else {
            let (after, answer) = authorize_outcome(
                old(store)@,
                recorded_key(old(store)@, request.claims.installation_id),
                request.claims,
                request.body.spec_document(),
                request.signature@,
                audience@,
                now_ms,
            );
            &&& final(store)@ == after
            &&& match answer {
                Err(error) => outcome == Err::<Allocation, ApiError>(error),
                Ok(_) => outcome matches Ok(allocation) && crate::store::identity::describes(
                    allocation,
                    request.body.installation_id,
                    old(store)@.installations[request.body.installation_id],
                ),
            }
        },
{
    if request.body.installation_id != request.claims.installation_id {
        return Err(unauthorized());
    }
    let document: JsonDocument = request.body.document();
    match authorize_admin(
        store,
        &request.claims,
        &document,
        request.signature.as_str(),
        audience,
        now_ms,
    ) {
        Err(error) => {
            return Err(error);
        },
        Ok(()) => {},
    }
    match store.allocation_status(request.body.installation_id) {
        Some(allocation) => Ok(allocation),
        None => Err(unauthorized()),
    }
}

/// What a signed request to give an installation up does and answers.
pub open spec fn retire_request_outcome(
    store: crate::store::model::StoreView,
    request: SignedRequest<RetireRequest>,
    audience: Seq<char>,
    now_ms: u64,
) -> (crate::store::model::StoreView, Result<u16, ApiError>) {
    if request.body.installation_id != request.claims.installation_id {
        (store, Err(unauthorized_error()))
    } else {
        let (admitted, answer) = authorize_outcome(
            store,
            recorded_key(store, request.claims.installation_id),
            request.claims,
            request.body.spec_document(),
            request.signature@,
            audience,
            now_ms,
        );
        match answer {
            Err(error) => (admitted, Err(error)),
            Ok(_) => {
                let (after, done) = crate::store::identity::retire_outcome(
                    admitted,
                    request.body.installation_id,
                    request.claims.operation_id,
                    now_ms,
                );
                (
                    after,
                    match done {
                        Ok(_) => Ok(202),
                        Err(error) => Err(conflict_refusal(error)),
                    },
                )
            },
        }
    }
}

/// Gives an installation up for its admin; a retry of the same operation is acknowledged.
pub fn retire_installation(
    store: &mut Store,
    request: &SignedRequest<RetireRequest>,
    audience: &str,
    now_ms: u64,
) -> (outcome: Result<u16, ApiError>)
    requires
        old(store).well_formed(),
        old(store).has_room(1),
        now_ms + crate::store::admission::NONCE_LIFETIME_MS <= u64::MAX,
    ensures
        final(store).well_formed(),
        (final(store)@, outcome) == retire_request_outcome(
            old(store)@,
            *request,
            audience@,
            now_ms,
        ),
{
    if request.body.installation_id != request.claims.installation_id {
        return Err(unauthorized());
    }
    let document: JsonDocument = request.body.document();
    match authorize_admin(
        store,
        &request.claims,
        &document,
        request.signature.as_str(),
        audience,
        now_ms,
    ) {
        Err(error) => {
            return Err(error);
        },
        Ok(()) => {},
    }
    match store.retire(request.body.installation_id, request.claims.operation_id, now_ms) {
        Ok(()) => Ok(202),
        Err(error) => Err(refuse_conflict(error)),
    }
}

/// What a signed request to bind an ACME account does and answers.
pub open spec fn account_request_outcome(
    store: crate::store::model::StoreView,
    request: SignedRequest<AcmeAccountRequest>,
    audience: Seq<char>,
    now_ms: u64,
) -> (crate::store::model::StoreView, Result<u16, ApiError>) {
    let id = request.claims.installation_id;
    let (admitted, answer) = authorize_outcome(
        store,
        active_key(store, id),
        request.claims,
        request.body.spec_document(),
        request.signature@,
        audience,
        now_ms,
    );
    match answer {
        Err(error) => (admitted, Err(error)),
        Ok(_) => {
            let (after, done) = crate::store::identity::bind_outcome(
                admitted,
                id,
                request.body.account_uri@,
                now_ms,
            );
            (
                after,
                match done {
                    Ok(_) => Ok(202),
                    Err(error) => Err(store_refusal(error)),
                },
            )
        },
    }
}

/// Binds an ACME account to an installation for its admin.
pub fn register_acme_account(
    store: &mut Store,
    request: &SignedRequest<AcmeAccountRequest>,
    audience: &str,
    now_ms: u64,
) -> (outcome: Result<u16, ApiError>)
    requires
        old(store).well_formed(),
        old(store).has_room(1),
        now_ms + crate::store::admission::NONCE_LIFETIME_MS <= u64::MAX,
    ensures
        final(store).well_formed(),
        (final(store)@, outcome) == account_request_outcome(
            old(store)@,
            *request,
            audience@,
            now_ms,
        ),
{
    let id: Uuid = request.claims.installation_id;
    let key: Option<[u8; 32]> = store.admin_public_key(id);
    let document: JsonDocument = request.body.document();
    match authorize(
        store,
        key,
        &request.claims,
        &document,
        request.signature.as_str(),
        audience,
        now_ms,
    ) {
        Err(error) => {
            return Err(error);
        },
        Ok(()) => {},
    }
    match store.register_acme_account(id, request.body.account_uri.as_str(), now_ms) {
        Ok(()) => Ok(202),
        Err(error) => Err(refuse(error)),
    }
}

/// The 32 bytes that a hexadecimal digest spells.
pub open spec fn digest_of(text: Seq<char>) -> Option<Seq<u8>> {
    match crate::encoding::hex_bytes(text) {
        Some(bytes) => if bytes.len() == 32 {
            Some(bytes)
        } else {
            None
        },
        None => None,
    }
}

/// Reads a hexadecimal digest of 32 bytes.
pub fn read_digest(text: &str) -> (digest: Option<[u8; 32]>)
    ensures
        digest is Some == digest_of(text@) is Some,
        digest matches Some(found) ==> digest_of(text@) == Some(found@),
{
    match hex_decode(text) {
        Some(bytes) => {
            if bytes.len() != 32 {
                return None;
            }
            Some(array_32(&bytes))
        },
        None => None,
    }
}

/// A number of seconds as the database takes it; what it cannot hold is out of range anyway.
pub open spec fn validity_of(seconds: u32) -> int {
    if seconds <= i32::MAX {
        seconds as int
    } else {
        -1
    }
}

/// What a signed request for a credential does and answers.
pub open spec fn credential_request_outcome(
    store: crate::store::model::StoreView,
    request: SignedRequest<CredentialIssueRequest>,
    audience: Seq<char>,
    now_ms: u64,
) -> (crate::store::model::StoreView, Result<CredentialIssueReceipt, ApiError>) {
    let id = request.claims.installation_id;
    let scope = request.body.scope;
    if scope == Scope::SurfaceAdmin {
        (store, Err(invalid_error()))
    } else {
        let (admitted, answer) = authorize_outcome(
            store,
            active_key(store, id),
            request.claims,
            request.body.spec_document(),
            request.signature@,
            audience,
            now_ms,
        );
        match answer {
            Err(error) => (admitted, Err(error)),
            Ok(_) => match digest_of(request.body.token_sha256@) {
                None => (admitted, Err(invalid_error())),
                Some(hash) => {
                    let validity = validity_of(request.body.validity_seconds);
                    if !(60 <= validity <= 86_400) {
                        (admitted, Err(unavailable_error()))
                    } else {
                        let (after, issued) = crate::store::credentials::issue_outcome(
                            admitted,
                            id,
                            request.claims.operation_id,
                            scope,
                            hash,
                            validity as u32,
                            crate::encoding::sha256(
                                crate::store::credentials::issue_message(
                                    scope,
                                    validity as nat,
                                    hash,
                                ),
                            ),
                            now_ms,
                        );
                        (
                            after,
                            match issued {
                                Ok((generation, expires_at_ms)) => Ok(
                                    CredentialIssueReceipt {
                                        version: WIRE_VERSION,
                                        scope,
                                        generation,
                                        operation_id: request.claims.operation_id,
                                        expires_at_ms,
                                    },
                                ),
                                Err(_) => Err(unavailable_error()),
                            },
                        )
                    }
                },
            },
        }
    }
}

/// Issues a scoped bearer credential for the admin of an installation.
pub fn issue_credential(
    store: &mut Store,
    request: &SignedRequest<CredentialIssueRequest>,
    audience: &str,
    now_ms: u64,
) -> (outcome: Result<CredentialIssueReceipt, ApiError>)
    requires
        old(store).well_formed(),
        old(store).has_room(1),
        now_ms + 86_400_000 <= u64::MAX,
    ensures
        final(store).well_formed(),
        (final(store)@, outcome) == credential_request_outcome(
            old(store)@,
            *request,
            audience@,
            now_ms,
        ),
{
    let id: Uuid = request.claims.installation_id;
    let scope: Scope = request.body.scope;
    match scope {
        Scope::Tunnel | Scope::DnsChallenge => {},
        Scope::SurfaceAdmin => {
            return Err(invalid());
        },
    }
    let key: Option<[u8; 32]> = store.admin_public_key(id);
    let document: JsonDocument = request.body.document();
    match authorize(
        store,
        key,
        &request.claims,
        &document,
        request.signature.as_str(),
        audience,
        now_ms,
    ) {
        Err(error) => {
            return Err(error);
        },
        Ok(()) => {},
    }
    let hash: [u8; 32] = match read_digest(request.body.token_sha256.as_str()) {
        Some(hash) => hash,
        None => {
            return Err(invalid());
        },
    };
    let validity: i32 = if request.body.validity_seconds <= 2_147_483_647 {
        request.body.validity_seconds as i32
    } else {
        -1
    };
    proof {
        assert("tunnel"@ != "dns_challenge"@) by {
            reveal_strlit("tunnel");
            reveal_strlit("dns_challenge");
            assert("tunnel"@[0] == 't' && "dns_challenge"@[0] == 'd');
        }
    }
    match store.issue_bearer(
        id,
        request.claims.operation_id,
        scope.name(),
        &hash,
        validity,
        now_ms,
    ) {
        Ok((generation, expires_at_ms)) => Ok(
            CredentialIssueReceipt {
                version: WIRE_VERSION,
                scope,
                generation,
                operation_id: request.claims.operation_id,
                expires_at_ms,
            },
        ),
        Err(_) => Err(unavailable()),
    }
}

/// A caller who cannot sign for an installation is answered as if there were none, so that the
/// answer does not tell which installations there are.
pub proof fn law_installations_are_not_revealed(
    store: crate::store::model::StoreView,
    key: Seq<u8>,
    claims: AuthClaims,
    document: crate::canonical::DocumentView,
    signature: Seq<char>,
    audience: Seq<char>,
    now_ms: u64,
)
    requires
        crate::encoding::ed25519_point(key),
        claims.spec_verify(
            crate::canonical::jcs(document),
            signature,
            key,
            Scope::SurfaceAdmin,
            audience,
            now_ms,
        ) is Err,
    ensures
        authorize_outcome(store, Some(key), claims, document, signature, audience, now_ms)
            == authorize_outcome(store, None, claims, document, signature, audience, now_ms),
        authorize_outcome(store, None, claims, document, signature, audience, now_ms) == (
            store,
            Err::<(), ApiError>(unauthorized_error()),
        ),
{
}

/// A signed request is carried out at most once: sent again, it is refused, under any key and
/// at any later time.
pub proof fn law_replayed_request_is_refused(
    store: crate::store::model::StoreView,
    key: Option<Seq<u8>>,
    later_key: Option<Seq<u8>>,
    claims: AuthClaims,
    document: crate::canonical::DocumentView,
    signature: Seq<char>,
    audience: Seq<char>,
    now_ms: u64,
    later_ms: u64,
)
    requires
        authorize_outcome(store, key, claims, document, signature, audience, now_ms).1 is Ok,
    ensures
        authorize_outcome(
            authorize_outcome(store, key, claims, document, signature, audience, now_ms).0,
            later_key,
            claims,
            document,
            signature,
            audience,
            later_ms,
        ).1 is Err,
{
    crate::store::admission::law_nonce_is_single_use(
        store,
        claims.installation_id,
        claims.nonce@,
        now_ms,
        later_ms,
    );
}

/// A retirement may be asked for again under the same operation, with a new nonce and
/// signature: it is acknowledged again.
pub proof fn law_retirement_may_be_repeated(
    store: crate::store::model::StoreView,
    first: SignedRequest<RetireRequest>,
    second: SignedRequest<RetireRequest>,
    audience: Seq<char>,
    now_ms: u64,
    later_ms: u64,
)
    requires
        retire_request_outcome(store, first, audience, now_ms).1 is Ok,
        second.body.installation_id == first.body.installation_id,
        second.claims.installation_id == first.claims.installation_id,
        second.claims.operation_id == first.claims.operation_id,
        second.claims.nonce@ != first.claims.nonce@,
        16 <= vstd::utf8::encode_utf8(second.claims.nonce@).len() <= 128,
        !crate::store::admission::nonce_used(
            store.nonces,
            second.claims.installation_id,
            second.claims.nonce@,
        ),
        admin_verdict(
            recorded_key(store, second.claims.installation_id),
            second.claims,
            second.body.spec_document(),
            second.signature@,
            audience,
            later_ms,
        ) is Ok,
    ensures
        retire_request_outcome(
            retire_request_outcome(store, first, audience, now_ms).0,
            second,
            audience,
            later_ms,
        ).1 == Ok::<u16, ApiError>(202),
{
    let id = first.claims.installation_id;
    let after = retire_request_outcome(store, first, audience, now_ms).0;
    assert(recorded_key(after, id) == recorded_key(store, id));
    assert(!crate::store::admission::nonce_used(after.nonces, id, second.claims.nonce@));
}

/// The client accepts the receipt of a credential that was issued: it answers the operation and
/// the scope, and its expiry is believable to a clock that is at most the tolerated offset
/// behind and not past the expiry.
pub proof fn law_issued_receipt_is_accepted(
    store: crate::store::model::StoreView,
    request: SignedRequest<CredentialIssueRequest>,
    audience: Seq<char>,
    receipt: CredentialIssueReceipt,
    now_ms: u64,
    client_ms: u64,
)
    requires
        store.valid(),
        !store.operations.dom().contains(request.claims.operation_id),
        now_ms + 86_400_000 <= u64::MAX,
        credential_request_outcome(store, request, audience, now_ms).1 == Ok::<
            CredentialIssueReceipt,
            ApiError,
        >(receipt),
        now_ms <= client_ms + crate::protocol::TRUSTED_RESPONSE_CLOCK_SKEW_MS,
        client_ms < now_ms + 1000 * request.body.validity_seconds,
    ensures
        receipt.version == WIRE_VERSION,
        receipt.scope == request.body.scope,
        receipt.operation_id == request.claims.operation_id,
        receipt.generation != 0,
        client_ms < receipt.expires_at_ms <= client_ms + crate::credential::CREDENTIAL_LIFETIME_MS
            + crate::protocol::TRUSTED_RESPONSE_CLOCK_SKEW_MS,
{
    assert(store.installations.dom().contains(request.claims.installation_id));
}

/// Refusals are told apart by status and code, and only those that may pass are worth a retry.
pub proof fn law_refusals_are_told_apart()
    ensures
        unauthorized_error().status == 401 && unauthorized_error().code is Unauthorized,
        invalid_error().status == 400 && invalid_error().code is InvalidRequest,
        conflict_error().status == 409 && conflict_error().code is Conflict,
        replayed_error().status == 410 && replayed_error().code is ExpiredOrReplayed,
        quota_error().status == 429 && quota_error().code is QuotaExceeded,
        unavailable_error().status == 503 && unavailable_error().code is DependencyUnavailable,
        quota_error().retryable && unavailable_error().retryable,
        !unauthorized_error().retryable && !invalid_error().retryable && !conflict_error().retryable
            && !replayed_error().retryable,
{
}

/// A refusal of the store is passed on as what it is where the caller is at fault, and as a
/// failure of the relay where it is not.
pub proof fn law_refusals_are_passed_on(error: StoreError)
    ensures
        store_refusal(error).status == match error {
            StoreError::InvalidRequest => 400u16,
            StoreError::Conflict => 409u16,
            _ => 503u16,
        },
        conflict_refusal(error).status == if error is Conflict {
            409u16
        } else {
            503u16
        },
        renewal_refusal(error).status == match error {
            StoreError::Conflict => 409u16,
            StoreError::Unauthorized => 401u16,
            _ => 503u16,
        },
        store_refusal(error).retryable == (store_refusal(error).status == 503),
        conflict_refusal(error).retryable == (conflict_refusal(error).status == 503),
        renewal_refusal(error).retryable == (renewal_refusal(error).status == 503),
{
}

/// A bearer is what stands behind the word and its space, and there is none in any other header.
pub proof fn law_bearer_stands_behind_its_word(secret: Seq<char>, text: Seq<char>)
    ensures
        bearer_of(None) is None,
        bearer_of(Some("Bearer "@ + secret)) == Some(secret),
        bearer_of(Some(text)) matches Some(found) ==> text == "Bearer "@ + found,
{
    let word = "Bearer "@;
    assert((word + secret).subrange(0, word.len() as int) =~= word);
    assert((word + secret).skip(word.len() as int) =~= secret);
    if crate::text::starts_with(text, word) {
        assert(text =~= word + text.skip(word.len() as int)) by {
            assert(text.subrange(0, word.len() as int) == word);
            assert forall|i: int| 0 <= i < word.len() implies text[i] == word[i] by {
                assert(text.subrange(0, word.len() as int)[i] == text[i]);
            }
        }
    }
}

/// Whether a nonce of 16 to 128 bytes was not used by an installation.
pub open spec fn unused(
    store: crate::store::model::StoreView,
    id: Uuid,
    nonce: Seq<char>,
) -> bool {
    16 <= vstd::utf8::encode_utf8(nonce).len() <= 128 && forall|i: int|
        0 <= i < store.nonces.len() ==> (#[trigger] store.nonces[i]).installation_id != id
            || store.nonces[i].nonce != nonce
}

/// Whether a request comes from the holder of a key: the key can be one, and accepts the request
/// for the administration of the installation, for this audience and time.
pub open spec fn comes_from(
    key: Seq<u8>,
    claims: AuthClaims,
    document: crate::canonical::DocumentView,
    signature: Seq<char>,
    audience: Seq<char>,
    now_ms: u64,
) -> bool {
    crate::encoding::ed25519_point(key) && claims.spec_verify(
        crate::canonical::jcs(document),
        signature,
        key,
        Scope::SurfaceAdmin,
        audience,
        now_ms,
    ) is Ok
}

/// A request is let in exactly where there is a key that it comes from and its nonce was not used.
/// The nonce is then used, and nothing else changes; a request that is refused changes nothing. A
/// request that comes from the key and was sent before is refused as one.
pub proof fn law_admin_is_let_in(
    store: crate::store::model::StoreView,
    key: Option<Seq<u8>>,
    claims: AuthClaims,
    document: crate::canonical::DocumentView,
    signature: Seq<char>,
    audience: Seq<char>,
    now_ms: u64,
)
    requires
        now_ms + 300_000 <= u64::MAX,
    ensures
        ({
            let (after, answer) = authorize_outcome(
                store,
                key,
                claims,
                document,
                signature,
                audience,
                now_ms,
            );
            let own = key is Some && comes_from(
                key->0,
                claims,
                document,
                signature,
                audience,
                now_ms,
            );
            let fresh = unused(store, claims.installation_id, claims.nonce@);
            &&& answer is Ok <==> own && fresh
            &&& answer is Err ==> after == store
            &&& answer is Ok ==> {
                &&& after == crate::store::model::StoreView { nonces: after.nonces, ..store }
                &&& !unused(after, claims.installation_id, claims.nonce@)
                &&& after.nonces.len() == store.nonces.len() + 1
                &&& after.nonces.drop_last() == store.nonces
            }
            &&& own && !fresh ==> answer->Err_0.status == 410
            &&& !own ==> answer->Err_0.status == if key is Some
                && !crate::encoding::ed25519_point(key->0) {
                503u16
            } else {
                401u16
            }
        }),
{
    crate::store::duties::law_fresh_nonce_is_accepted(
        store,
        claims.installation_id,
        claims.nonce@,
        now_ms,
    );
    let after = crate::store::admission::nonce_outcome(
        store,
        claims.installation_id,
        claims.nonce@,
        now_ms,
    ).0;
    let n = store.nonces.len() as int;
    if after != store {
        assert(after.nonces[n].installation_id == claims.installation_id);
        assert(after.nonces.drop_last() =~= after.nonces.take(n));
    }
}

/// The key that a request of an installation has to come from, where the installation is there.
pub open spec fn key_on_record(store: crate::store::model::StoreView, id: Uuid) -> Option<Seq<u8>> {
    if crate::store::effects::known(store, id) {
        Some(store.installations[id].admin_public_key)
    } else {
        None
    }
}

/// The key that a request of an installation has to come from, where the installation is there and
/// not retired.
pub open spec fn key_in_service(store: crate::store::model::StoreView, id: Uuid) -> Option<
    Seq<u8>,
> {
    if crate::store::effects::known(store, id) && !(store.installations[id].state is Retired) {
        Some(store.installations[id].admin_public_key)
    } else {
        None
    }
}

/// A request to retire is carried out only for the installation that it comes from, and takes it
/// out of service; any other changes nothing but for a used nonce.
pub proof fn law_retirement_is_requested_by_the_holder(
    store: crate::store::model::StoreView,
    request: SignedRequest<RetireRequest>,
    audience: Seq<char>,
    now_ms: u64,
)
    requires
        store.valid(),
        now_ms + 300_000 <= u64::MAX,
    ensures
        ({
            let id = request.claims.installation_id;
            let (after, answer) = retire_request_outcome(store, request, audience, now_ms);
            let own = request.body.installation_id == id && key_on_record(store, id) is Some
                && comes_from(
                key_on_record(store, id)->0,
                request.claims,
                request.body.spec_document(),
                request.signature@,
                audience,
                now_ms,
            );
            let row = store.installations[id];
            let new = !store.operations.dom().contains(request.claims.operation_id);
            &&& answer is Ok ==> own && unused(store, id, request.claims.nonce@) && answer->Ok_0
                == 202
            &&& !own ==> answer is Err && after == store
            &&& own && !unused(store, id, request.claims.nonce@) ==> answer is Err && after == store
            &&& request.body.installation_id != id ==> answer->Err_0.status == 401
            &&& own && unused(store, id, request.claims.nonce@) && new && !(row.state is Retired)
                && row.generation < crate::store::model::MAX_GENERATION ==> {
                &&& answer is Ok
                &&& crate::store::effects::taken_out(row, after.installations[id])
                &&& after.outbox.len() == store.outbox.len() + 1
                &&& after.outbox.last().kind is RemoveRecords
                &&& after.outbox.last().installation_id == id
            }
        }),
{
    let id = request.claims.installation_id;
    law_admin_is_let_in(
        store,
        recorded_key(store, id),
        request.claims,
        request.body.spec_document(),
        request.signature@,
        audience,
        now_ms,
    );
    let (admitted, answer) = authorize_outcome(
        store,
        recorded_key(store, id),
        request.claims,
        request.body.spec_document(),
        request.signature@,
        audience,
        now_ms,
    );
    assert(recorded_key(store, id) == key_on_record(store, id));
    assert(admitted.valid());
    if answer is Ok && !store.operations.dom().contains(request.claims.operation_id) {
        crate::store::effects::law_retirement_takes_out_of_service(
            admitted,
            id,
            request.claims.operation_id,
            now_ms,
        );
    }
}

/// A request to bind an account is carried out only where it comes from the installation and the
/// installation is in service, and only for a production account. The account is then the one
/// that the request names, and its publication is owed; any other request changes nothing but for
/// a used nonce.
pub proof fn law_account_is_bound_by_the_holder(
    store: crate::store::model::StoreView,
    request: SignedRequest<AcmeAccountRequest>,
    audience: Seq<char>,
    now_ms: u64,
)
    requires
        now_ms + 300_000 <= u64::MAX,
    ensures
        ({
            let id = request.claims.installation_id;
            let uri = request.body.account_uri@;
            let (after, answer) = account_request_outcome(store, request, audience, now_ms);
            let own = key_in_service(store, id) is Some && comes_from(
                key_in_service(store, id)->0,
                request.claims,
                request.body.spec_document(),
                request.signature@,
                audience,
                now_ms,
            );
            let fresh = unused(store, id, request.claims.nonce@);
            &&& answer is Ok <==> own && fresh && crate::store::effects::production_account(uri)
            &&& !own || !fresh ==> after == store
            &&& answer is Err ==> after.installations == store.installations && after.outbox
                == store.outbox
            &&& own && fresh && answer is Err ==> answer->Err_0.status == 400
            &&& answer is Ok ==> {
                &&& answer->Ok_0 == 202
                &&& after.installations[id] == crate::store::model::InstallationView {
                    acme_account_uri: Some(uri),
                    ..store.installations[id]
                }
                &&& after.outbox.len() == store.outbox.len() + 1
                &&& after.outbox.last().kind is PublishName
                &&& after.outbox.last().installation_id == id
            }
        }),
{
    let id = request.claims.installation_id;
    law_admin_is_let_in(
        store,
        active_key(store, id),
        request.claims,
        request.body.spec_document(),
        request.signature@,
        audience,
        now_ms,
    );
    let (admitted, answer) = authorize_outcome(
        store,
        active_key(store, id),
        request.claims,
        request.body.spec_document(),
        request.signature@,
        audience,
        now_ms,
    );
    assert(active_key(store, id) == key_in_service(store, id));
    if answer is Ok {
        crate::store::effects::law_binding_takes_the_account(
            admitted,
            id,
            request.body.account_uri@,
            now_ms,
        );
    }
}

/// A request for a credential is carried out only where it comes from the installation and the
/// installation is in service. The credential then has the scope, the digest and the end that
/// were asked for, and the receipt names its generation and end; any other request changes
/// nothing but for a used nonce.
pub proof fn law_credential_is_issued_to_the_holder(
    store: crate::store::model::StoreView,
    request: SignedRequest<CredentialIssueRequest>,
    audience: Seq<char>,
    now_ms: u64,
)
    requires
        store.valid(),
        now_ms + 86_400_000 <= u64::MAX,
        !store.operations.dom().contains(request.claims.operation_id),
    ensures
        ({
            let id = request.claims.installation_id;
            let row = store.installations[id];
            let hash = crate::encoding::hex_bytes(request.body.token_sha256@);
            let (after, answer) = credential_request_outcome(store, request, audience, now_ms);
            let own = key_in_service(store, id) is Some && comes_from(
                key_in_service(store, id)->0,
                request.claims,
                request.body.spec_document(),
                request.signature@,
                audience,
                now_ms,
            );
            let fresh = unused(store, id, request.claims.nonce@);
            let asked = hash is Some && hash->0.len() == 32 && 60 <= request.body.validity_seconds
                <= 86_400;
            &&& answer is Ok <==> own && fresh && asked && !(request.body.scope is SurfaceAdmin)
                && row.generation < crate::store::model::MAX_GENERATION
            &&& answer is Err ==> after.installations == store.installations && after.operations
                == store.operations
            &&& request.body.scope is SurfaceAdmin ==> answer->Err_0.status == 400 && after == store
            &&& answer matches Ok(receipt) ==> {
                &&& receipt.version == 1
                &&& receipt.scope == request.body.scope
                &&& receipt.operation_id == request.claims.operation_id
                &&& receipt.generation == row.generation + 1
                &&& receipt.expires_at_ms == now_ms + 1000 * request.body.validity_seconds
                &&& crate::store::effects::given_credential(
                    row,
                    after.installations[id],
                    request.body.scope,
                    hash->0,
                    receipt.expires_at_ms as int,
                )
            }
        }),
{
    let id = request.claims.installation_id;
    law_admin_is_let_in(
        store,
        active_key(store, id),
        request.claims,
        request.body.spec_document(),
        request.signature@,
        audience,
        now_ms,
    );
    let (admitted, answer) = authorize_outcome(
        store,
        active_key(store, id),
        request.claims,
        request.body.spec_document(),
        request.signature@,
        audience,
        now_ms,
    );
    assert(active_key(store, id) == key_in_service(store, id));
    assert(admitted.valid());
    if answer is Ok && digest_of(request.body.token_sha256@) is Some && 60
        <= request.body.validity_seconds <= 86_400 {
        let hash = digest_of(request.body.token_sha256@)->0;
        crate::store::effects::law_issue_gives_a_credential(
            admitted,
            id,
            request.claims.operation_id,
            request.body.scope,
            hash,
            request.body.validity_seconds,
            crate::encoding::sha256(
                crate::store::credentials::issue_message(
                    request.body.scope,
                    request.body.validity_seconds as nat,
                    hash,
                ),
            ),
            now_ms,
        );
    }
}

} // verus!
