//! The requests of the control service that a bearer credential authenticates.

use crate::control_api::{
    conflict, invalid, read_bearer, read_digest, refuse, replayed, unauthorized, unavailable,
    ApiError, RENEWAL_WINDOW_MS,
};
use crate::ids::Uuid;
use crate::protocol::{
    CertificateMetadata, CredentialIssueReceipt, CredentialRenewRequest, DnsChallengeDeleteRequest,
    DnsChallengeRequest, Scope, WIRE_VERSION,
};
use crate::store::model::{Store, StoreError};
use vstd::prelude::*;

verus! {

/// The generation of the DNS credential that an authorization header carries.
pub open spec fn dns_caller(
    store: crate::store::model::StoreView,
    header: Option<Seq<char>>,
    id: Uuid,
    now_ms: u64,
) -> Option<u64> {
    match crate::control_api::bearer_of(header) {
        Some(secret) if crate::store::credentials::plausible_secret(
            secret,
        ) => crate::store::credentials::authenticated(
            store,
            id,
            Scope::DnsChallenge,
            crate::encoding::sha256(vstd::utf8::encode_utf8(secret)),
            now_ms,
        ),
        _ => None,
    }
}

/// Whether the header carries a DNS credential, of the given generation where one is given.
pub open spec fn dns_verdict(
    store: crate::store::model::StoreView,
    header: Option<Seq<char>>,
    id: Uuid,
    generation: Option<u64>,
    now_ms: u64,
) -> Result<u64, ApiError> {
    match dns_caller(store, header, id, now_ms) {
        Some(observed) if (generation matches Some(wanted) ==> wanted == observed) => Ok(observed),
        _ => Err(crate::control_api::unauthorized_error()),
    }
}

/// Authenticates a request about the DNS-01 answers of an installation.
pub fn authenticate_dns(
    store: &Store,
    header: Option<&str>,
    id: Uuid,
    generation: Option<u64>,
    now_ms: u64,
) -> (outcome: Result<u64, ApiError>)
    requires
        store.well_formed(),
    ensures
        outcome == dns_verdict(
            store@,
            crate::control_api::header_text(header),
            id,
            generation,
            now_ms,
        ),
{
    let bearer: String = match read_bearer(header) {
        Some(bearer) => bearer,
        None => {
            return Err(unauthorized());
        },
    };
    let found: Option<u64> = store.authenticate_bearer(
        id,
        "dns_challenge",
        bearer.as_str(),
        now_ms,
    );
    proof {
        assert("tunnel"@ != "dns_challenge"@) by {
            reveal_strlit("tunnel");
            reveal_strlit("dns_challenge");
            assert("tunnel"@[0] == 't' && "dns_challenge"@[0] == 'd');
        }
        if crate::store::credentials::plausible_secret(bearer@) {
            crate::store::credentials::law_authentication_is_unambiguous(
                store@,
                id,
                Scope::DnsChallenge,
                crate::encoding::sha256(vstd::utf8::encode_utf8(bearer@)),
                now_ms,
                found,
            );
        }
    }
    let observed: u64 = match found {
        Some(observed) => observed,
        None => {
            return Err(unauthorized());
        },
    };
    match generation {
        Some(wanted) => {
            if wanted != observed {
                return Err(unauthorized());
            }
        },
        None => {},
    }
    Ok(observed)
}

/// A caller without a credential of an installation is answered as if there were no such
/// installation, so that the answer does not tell which installations there are.
pub proof fn law_installations_are_not_revealed(
    store: crate::store::model::StoreView,
    without: crate::store::model::StoreView,
    header: Option<Seq<char>>,
    id: Uuid,
    generation: Option<u64>,
    now_ms: u64,
)
    requires
        dns_caller(store, header, id, now_ms) is None,
        !without.installations.dom().contains(id),
    ensures
        dns_verdict(store, header, id, generation, now_ms) == dns_verdict(
            without,
            header,
            id,
            generation,
            now_ms,
        ),
        dns_verdict(without, header, id, generation, now_ms) == Err::<u64, ApiError>(
            crate::control_api::unauthorized_error(),
        ),
{
    match crate::control_api::bearer_of(header) {
        Some(secret) => {
            crate::store::credentials::law_authentication_is_unambiguous(
                without,
                id,
                Scope::DnsChallenge,
                crate::encoding::sha256(vstd::utf8::encode_utf8(secret)),
                now_ms,
                None,
            );
        },
        None => {},
    }
}

/// Whether a request has the wire version and a nonce of a fitting length.
pub open spec fn well_framed(version: u16, nonce: Seq<char>) -> bool {
    version == WIRE_VERSION && 16 <= vstd::utf8::encode_utf8(nonce).len() <= 128
}

/// Whether a request has the wire version and a nonce of a fitting length.
fn is_well_framed(version: u16, nonce: &str) -> (valid: bool)
    ensures
        valid == well_framed(version, nonce@),
{
    let size: usize = nonce.as_bytes().len();
    version == WIRE_VERSION && size >= 16 && size <= 128
}

/// What the admission of a request with a DNS credential does and answers.
pub open spec fn dns_admission(
    store: crate::store::model::StoreView,
    header: Option<Seq<char>>,
    version: u16,
    id: Uuid,
    generation: u64,
    nonce: Seq<char>,
    now_ms: u64,
) -> (crate::store::model::StoreView, Result<(), ApiError>) {
    if !well_framed(version, nonce) {
        (store, Err(crate::control_api::invalid_error()))
    } else {
        match dns_verdict(store, header, id, Some(generation), now_ms) {
            Err(error) => (store, Err(error)),
            Ok(_) => {
                let (after, first) = crate::store::admission::nonce_outcome(
                    store,
                    id,
                    nonce,
                    now_ms,
                );
                if first {
                    (after, Ok(()))
                } else {
                    (after, Err(crate::control_api::replayed_error()))
                }
            },
        }
    }
}

/// Admits a request with a DNS credential: well framed, authenticated, and not a replay.
fn enter(
    store: &mut Store,
    header: Option<&str>,
    version: u16,
    id: Uuid,
    generation: u64,
    nonce: &str,
    now_ms: u64,
) -> (outcome: Result<(), ApiError>)
    requires
        old(store).well_formed(),
        now_ms + crate::store::admission::NONCE_LIFETIME_MS <= u64::MAX,
    ensures
        final(store).well_formed(),
        final(store).next_job == old(store).next_job,
        final(store).revision == old(store).revision,
        (final(store)@, outcome) == dns_admission(
            old(store)@,
            crate::control_api::header_text(header),
            version,
            id,
            generation,
            nonce@,
            now_ms,
        ),
{
    if !is_well_framed(version, nonce) {
        return Err(invalid());
    }
    match authenticate_dns(store, header, id, Some(generation), now_ms) {
        Err(error) => {
            return Err(error);
        },
        Ok(_) => {},
    }
    if !store.consume_nonce(id, nonce, now_ms) {
        return Err(replayed());
    }
    Ok(())
}

/// What a request to publish a DNS-01 answer does and answers.
pub open spec fn create_request_outcome(
    store: crate::store::model::StoreView,
    header: Option<Seq<char>>,
    request: DnsChallengeRequest,
    now_ms: u64,
) -> (crate::store::model::StoreView, Result<u16, ApiError>) {
    let (admitted, answer) = dns_admission(
        store,
        header,
        request.version,
        request.installation_id,
        request.generation,
        request.nonce@,
        now_ms,
    );
    match answer {
        Err(error) => (admitted, Err(error)),
        Ok(_) => {
            let (after, done) = crate::store::challenges::create_outcome(
                admitted,
                request.installation_id,
                request.generation,
                request.lease.operation_id,
                request.lease.txt_value@,
                request.lease.expires_at_ms,
                now_ms,
            );
            (
                after,
                match done {
                    Ok(_) => Ok(202),
                    Err(error) => Err(crate::control_api::store_refusal(error)),
                },
            )
        },
    }
}

/// Takes a DNS-01 answer that is to be published.
pub fn create_dns_challenge(
    store: &mut Store,
    header: Option<&str>,
    request: &DnsChallengeRequest,
    now_ms: u64,
) -> (outcome: Result<u16, ApiError>)
    requires
        old(store).well_formed(),
        old(store).has_room(1),
        now_ms + crate::store::admission::NONCE_LIFETIME_MS <= u64::MAX,
    ensures
        final(store).well_formed(),
        (final(store)@, outcome) == create_request_outcome(
            old(store)@,
            crate::control_api::header_text(header),
            *request,
            now_ms,
        ),
{
    match enter(
        store,
        header,
        request.version,
        request.installation_id,
        request.generation,
        request.nonce.as_str(),
        now_ms,
    ) {
        Err(error) => {
            return Err(error);
        },
        Ok(()) => {},
    }
    match store.create_challenge(
        request.installation_id,
        request.generation,
        &request.lease,
        now_ms,
    ) {
        Ok(()) => Ok(202),
        Err(error) => Err(refuse(error)),
    }
}

/// What a request to take a DNS-01 answer back does and answers.
pub open spec fn delete_request_outcome(
    store: crate::store::model::StoreView,
    header: Option<Seq<char>>,
    request: DnsChallengeDeleteRequest,
    now_ms: u64,
) -> (crate::store::model::StoreView, Result<u16, ApiError>) {
    let (admitted, answer) = dns_admission(
        store,
        header,
        request.version,
        request.installation_id,
        request.generation,
        request.nonce@,
        now_ms,
    );
    match answer {
        Err(error) => (admitted, Err(error)),
        Ok(_) => {
            let (after, done) = crate::store::challenges::delete_outcome(
                admitted,
                request.installation_id,
                request.generation,
                request.lease_id,
                now_ms,
            );
            (
                after,
                match done {
                    Ok(_) => Ok(202),
                    Err(_) => Err(crate::control_api::unavailable_error()),
                },
            )
        },
    }
}

/// Takes a DNS-01 answer back.
pub fn delete_dns_challenge(
    store: &mut Store,
    header: Option<&str>,
    request: &DnsChallengeDeleteRequest,
    now_ms: u64,
) -> (outcome: Result<u16, ApiError>)
    requires
        old(store).well_formed(),
        old(store).has_room(1),
        now_ms + crate::store::admission::NONCE_LIFETIME_MS <= u64::MAX,
    ensures
        final(store).well_formed(),
        (final(store)@, outcome) == delete_request_outcome(
            old(store)@,
            crate::control_api::header_text(header),
            *request,
            now_ms,
        ),
{
    match enter(
        store,
        header,
        request.version,
        request.installation_id,
        request.generation,
        request.nonce.as_str(),
        now_ms,
    ) {
        Err(error) => {
            return Err(error);
        },
        Ok(()) => {},
    }
    match store.delete_challenge(
        request.installation_id,
        request.generation,
        request.lease_id,
        now_ms,
    ) {
        Ok(()) => Ok(202),
        Err(_) => Err(unavailable()),
    }
}

/// Whether a DNS-01 answer is published and still live.
pub open spec fn published(
    store: crate::store::model::StoreView,
    id: Uuid,
    lease_id: Uuid,
    now_ms: u64,
) -> bool {
    &&& store.installations.dom().contains(id)
    &&& crate::store::challenges::leased(store.installations[id], lease_id)
    &&& crate::store::challenges::lease_of(store.installations[id], lease_id).ready
    &&& crate::store::challenges::lease_of(store.installations[id], lease_id).live(now_ms)
}

/// Tells whether a DNS-01 answer is published: no content where it is, accepted where not yet.
pub fn dns_challenge_ready(
    store: &Store,
    header: Option<&str>,
    id: Uuid,
    lease_id: Uuid,
    now_ms: u64,
) -> (outcome: Result<u16, ApiError>)
    requires
        store.well_formed(),
    ensures
        match dns_verdict(store@, crate::control_api::header_text(header), id, None, now_ms) {
            Err(error) => outcome == Err::<u16, ApiError>(error),
            Ok(_) => outcome == Ok::<u16, ApiError>(
                if published(store@, id, lease_id, now_ms) {
                    204
                } else {
                    202
                },
            ),
        },
{
    match authenticate_dns(store, header, id, None, now_ms) {
        Err(error) => {
            return Err(error);
        },
        Ok(_) => {},
    }
    Ok(
        if store.challenge_ready(id, lease_id, now_ms) {
            204
        } else {
            202
        },
    )
}

/// The installation that a header names.
pub open spec fn named_installation(header: Option<Seq<char>>) -> Option<Uuid> {
    match header {
        Some(text) => crate::ids::parse_outcome(crate::ids::parsed_uuid(text)),
        None => None,
    }
}

/// What the report of a certificate does and answers.
pub open spec fn report_request_outcome(
    store: crate::store::model::StoreView,
    installation: Option<Uuid>,
    header: Option<Seq<char>>,
    certificate: CertificateMetadata,
    now_ms: u64,
) -> (crate::store::model::StoreView, Result<u16, ApiError>) {
    match installation {
        None => (store, Err(crate::control_api::invalid_error())),
        Some(id) => match dns_verdict(store, header, id, None, now_ms) {
            Err(error) => (store, Err(error)),
            Ok(_) => {
                let (after, done) = crate::store::transparency::report_outcome(
                    store,
                    id,
                    certificate,
                );
                (
                    after,
                    match done {
                        Ok(_) => Ok(202),
                        Err(error) => Err(crate::control_api::store_refusal(error)),
                    },
                )
            },
        },
    }
}

/// Takes the report of a certificate for a known installation header.
pub fn record_certificate_for(
    store: &mut Store,
    installation: Option<Uuid>,
    header: Option<&str>,
    certificate: &CertificateMetadata,
    now_ms: u64,
) -> (outcome: Result<u16, ApiError>)
    requires
        old(store).well_formed(),
        old(store).has_room(1),
    ensures
        final(store).well_formed(),
        (final(store)@, outcome) == report_request_outcome(
            old(store)@,
            installation,
            crate::control_api::header_text(header),
            *certificate,
            now_ms,
        ),
{
    let id: Uuid = match installation {
        Some(id) => id,
        None => {
            return Err(invalid());
        },
    };
    match authenticate_dns(store, header, id, None, now_ms) {
        Err(error) => {
            return Err(error);
        },
        Ok(_) => {},
    }
    match store.record_expected_certificate(id, certificate) {
        Ok(()) => Ok(202),
        Err(error) => Err(refuse(error)),
    }
}

/// Takes the report of a certificate; a header names the installation.
pub fn record_certificate(
    store: &mut Store,
    installation: Option<&str>,
    header: Option<&str>,
    certificate: &CertificateMetadata,
    now_ms: u64,
) -> (outcome: Result<u16, ApiError>)
    requires
        old(store).well_formed(),
        old(store).has_room(1),
    ensures
        final(store).well_formed(),
        (final(store)@, outcome) == report_request_outcome(
            old(store)@,
            named_installation(crate::control_api::header_text(installation)),
            crate::control_api::header_text(header),
            *certificate,
            now_ms,
        ),
{
    let named: Option<Uuid> = match installation {
        Some(text) => Uuid::parse_str(text),
        None => None,
    };
    record_certificate_for(store, named, header, certificate, now_ms)
}

/// Whether a renewal request is well-formed and within its window.
pub open spec fn valid_renewal(request: CredentialRenewRequest, now_ms: u64) -> bool {
    &&& well_framed(request.version, request.nonce@)
    &&& request.scope != Scope::SurfaceAdmin
    &&& now_ms < request.expires_at_ms <= now_ms + RENEWAL_WINDOW_MS
}

/// What a renewal request does and answers.
pub open spec fn renew_request_outcome(
    store: crate::store::model::StoreView,
    header: Option<Seq<char>>,
    request: CredentialRenewRequest,
    now_ms: u64,
) -> (crate::store::model::StoreView, Result<CredentialIssueReceipt, ApiError>) {
    if !valid_renewal(request, now_ms) {
        (store, Err(crate::control_api::invalid_error()))
    } else {
        match crate::control_api::bearer_of(header) {
            None => (store, Err(crate::control_api::unauthorized_error())),
            Some(secret) => match crate::control_api::digest_of(request.new_token_sha256@) {
                None => (store, Err(crate::control_api::invalid_error())),
                Some(new_hash) => if !crate::store::credentials::plausible_secret(secret) {
                    (store, Err(crate::control_api::unavailable_error()))
                } else {
                    let old_hash = crate::encoding::sha256(vstd::utf8::encode_utf8(secret));
                    let (after, renewed) = crate::store::credentials::renew_outcome(
                        store,
                        request.installation_id,
                        request.operation_id,
                        request.scope,
                        request.generation,
                        old_hash,
                        new_hash,
                        crate::encoding::sha256(
                            crate::store::credentials::renew_message(
                                request.scope,
                                request.generation,
                                old_hash,
                                new_hash,
                            ),
                        ),
                        now_ms,
                    );
                    (
                        after,
                        match renewed {
                            Ok((generation, expires_at_ms)) => Ok(
                                CredentialIssueReceipt {
                                    version: WIRE_VERSION,
                                    scope: request.scope,
                                    generation,
                                    operation_id: request.operation_id,
                                    expires_at_ms,
                                },
                            ),
                            Err(error) => Err(crate::control_api::renewal_refusal(error)),
                        },
                    )
                },
            },
        }
    }
}

/// Renews a scoped bearer credential for whoever presents the current secret.
pub fn renew_credential(
    store: &mut Store,
    header: Option<&str>,
    request: &CredentialRenewRequest,
    now_ms: u64,
) -> (outcome: Result<CredentialIssueReceipt, ApiError>)
    requires
        old(store).well_formed(),
        old(store).has_room(1),
        now_ms + crate::store::credentials::RENEWED_VALIDITY_MS <= u64::MAX,
    ensures
        final(store).well_formed(),
        (final(store)@, outcome) == renew_request_outcome(
            old(store)@,
            crate::control_api::header_text(header),
            *request,
            now_ms,
        ),
{
    match request.scope {
        Scope::Tunnel | Scope::DnsChallenge => {},
        Scope::SurfaceAdmin => {
            return Err(invalid());
        },
    }
    if !is_well_framed(request.version, request.nonce.as_str()) || request.expires_at_ms <= now_ms
        || request.expires_at_ms > now_ms.saturating_add(RENEWAL_WINDOW_MS) {
        return Err(invalid());
    }
    let bearer: String = match read_bearer(header) {
        Some(bearer) => bearer,
        None => {
            return Err(unauthorized());
        },
    };
    let hash: [u8; 32] = match read_digest(request.new_token_sha256.as_str()) {
        Some(hash) => hash,
        None => {
            return Err(invalid());
        },
    };
    proof {
        assert("tunnel"@ != "dns_challenge"@) by {
            reveal_strlit("tunnel");
            reveal_strlit("dns_challenge");
            assert("tunnel"@[0] == 't' && "dns_challenge"@[0] == 'd');
        }
    }
    match store.renew_bearer(
        request.installation_id,
        request.operation_id,
        request.scope.name(),
        request.generation,
        bearer.as_str(),
        &hash,
        now_ms,
    ) {
        Ok((generation, expires_at_ms)) => Ok(
            CredentialIssueReceipt {
                version: WIRE_VERSION,
                scope: request.scope,
                generation,
                operation_id: request.operation_id,
                expires_at_ms,
            },
        ),
        Err(StoreError::Conflict) => Err(conflict()),
        Err(StoreError::Unauthorized) => Err(unauthorized()),
        Err(_) => Err(unavailable()),
    }
}

/// The client accepts the receipt of a renewal that was carried out: it answers the operation
/// and the scope, its generation is above the one that was presented, and its expiry is
/// believable to a clock that is at most the tolerated offset behind and not past the expiry.
pub proof fn law_renewal_receipt_is_accepted(
    store: crate::store::model::StoreView,
    header: Option<Seq<char>>,
    request: CredentialRenewRequest,
    receipt: CredentialIssueReceipt,
    now_ms: u64,
    client_ms: u64,
)
    requires
        store.valid(),
        !store.operations.dom().contains(request.operation_id),
        now_ms + crate::store::credentials::RENEWED_VALIDITY_MS <= u64::MAX,
        renew_request_outcome(store, header, request, now_ms).1 == Ok::<
            CredentialIssueReceipt,
            ApiError,
        >(receipt),
        now_ms <= client_ms + crate::protocol::TRUSTED_RESPONSE_CLOCK_SKEW_MS,
        client_ms < now_ms + crate::store::credentials::RENEWED_VALIDITY_MS,
    ensures
        receipt.version == WIRE_VERSION,
        receipt.scope == request.scope,
        receipt.operation_id == request.operation_id,
        receipt.generation > request.generation,
        client_ms < receipt.expires_at_ms <= client_ms + crate::credential::CREDENTIAL_LIFETIME_MS
            + crate::protocol::TRUSTED_RESPONSE_CLOCK_SKEW_MS,
{
    let id = request.installation_id;
    assert(store.installations.dom().contains(id));
    let row = store.installations[id];
    let secret = crate::control_api::bearer_of(header)->0;
    let old_hash = crate::encoding::sha256(vstd::utf8::encode_utf8(secret));
    let i = choose|i: int|
        #[trigger] crate::store::credentials::presented(
            row,
            i,
            request.scope,
            request.generation,
            now_ms,
        ) && row.credentials[i].token_hash == old_hash;
    assert(row.credentials[i].generation <= row.generation);
}

/// The caller of a DNS request is whoever the secret behind the word of its header authenticates
/// for DNS-01 answers; a secret under 43 or over 128 bytes, and a header without one, is nobody.
pub proof fn law_caller_holds_the_secret(
    store: crate::store::model::StoreView,
    header: Option<Seq<char>>,
    secret: Seq<char>,
    id: Uuid,
    now_ms: u64,
    found: Option<u64>,
)
    requires
        crate::store::credentials::is_authentication(
            store,
            id,
            Scope::DnsChallenge,
            crate::encoding::sha256(vstd::utf8::encode_utf8(secret)),
            now_ms,
            found,
        ),
    ensures
        dns_caller(store, Some("Bearer "@ + secret), id, now_ms) == if 43
            <= vstd::utf8::encode_utf8(secret).len() <= 128 {
            found
        } else {
            None
        },
        (forall|other: Seq<char>| header != Some(#[trigger] ("Bearer "@ + other))) ==> dns_caller(
            store,
            header,
            id,
            now_ms,
        ) is None,
{
    crate::control_api::law_bearer_stands_behind_its_word(secret, secret);
    crate::store::credentials::law_authentication_is_unambiguous(
        store,
        id,
        Scope::DnsChallenge,
        crate::encoding::sha256(vstd::utf8::encode_utf8(secret)),
        now_ms,
        found,
    );
    if header is Some {
        crate::control_api::law_bearer_stands_behind_its_word(secret, header->0);
        if crate::control_api::bearer_of(header) is Some {
            let other = crate::control_api::bearer_of(header)->0;
            assert(header == Some("Bearer "@ + other));
        }
    }
}

/// A DNS request is let in exactly where somebody calls, under the generation that it names where
/// it names one; all others are refused in the same words.
pub proof fn law_caller_names_the_generation(
    store: crate::store::model::StoreView,
    header: Option<Seq<char>>,
    id: Uuid,
    generation: Option<u64>,
    now_ms: u64,
)
    ensures
        ({
            let caller = dns_caller(store, header, id, now_ms);
            let answer = dns_verdict(store, header, id, generation, now_ms);
            &&& answer is Ok <==> caller is Some && (generation is None || generation == caller)
            &&& answer is Ok ==> Some(answer->Ok_0) == caller
            &&& answer matches Err(error) ==> error.status == 401 && error.code is Unauthorized
                && !error.retryable
        }),
{
}

/// Whether a DNS request is let in: it is of this version, its caller holds the generation that
/// it names, and its nonce was not used.
pub open spec fn let_in(
    store: crate::store::model::StoreView,
    header: Option<Seq<char>>,
    version: u16,
    id: Uuid,
    generation: u64,
    nonce: Seq<char>,
    now_ms: u64,
) -> bool {
    version == 1 && dns_caller(store, header, id, now_ms) == Some(generation)
        && crate::control_api::unused(store, id, nonce)
}

/// A DNS request that is let in uses its nonce and changes nothing else, and one that is not
/// changes nothing. What is not of this version, or has a nonce under 16 or over 128 bytes, is
/// refused as malformed; a caller that is nobody as such; a used nonce as used.
pub proof fn law_dns_request_is_let_in(
    store: crate::store::model::StoreView,
    header: Option<Seq<char>>,
    version: u16,
    id: Uuid,
    generation: u64,
    nonce: Seq<char>,
    now_ms: u64,
)
    requires
        now_ms + 300_000 <= u64::MAX,
    ensures
        ({
            let (after, answer) = dns_admission(
                store,
                header,
                version,
                id,
                generation,
                nonce,
                now_ms,
            );
            let framed = version == 1 && 16 <= vstd::utf8::encode_utf8(nonce).len() <= 128;
            &&& answer is Ok <==> let_in(store, header, version, id, generation, nonce, now_ms)
            &&& answer is Err ==> after == store
            &&& answer is Ok ==> {
                &&& after == crate::store::model::StoreView { nonces: after.nonces, ..store }
                &&& !crate::control_api::unused(after, id, nonce)
            }
            &&& answer matches Err(error) ==> error.status == if !framed {
                400u16
            } else if dns_caller(store, header, id, now_ms) != Some(generation) {
                401u16
            } else {
                410u16
            }
        }),
{
    crate::store::duties::law_fresh_nonce_is_accepted(store, id, nonce, now_ms);
    let after = crate::store::admission::nonce_outcome(store, id, nonce, now_ms).0;
    if after != store {
        assert(after.nonces[store.nonces.len() as int].installation_id == id);
    }
}

/// A request for a DNS-01 answer that is let in has the effect of leasing it, and is answered as
/// that is; one that is not let in has none.
pub proof fn law_answer_is_requested_by_the_caller(
    store: crate::store::model::StoreView,
    header: Option<Seq<char>>,
    request: DnsChallengeRequest,
    now_ms: u64,
)
    requires
        store.valid(),
        now_ms + 300_000 <= u64::MAX,
    ensures
        ({
            let id = request.installation_id;
            let row = store.installations[id];
            let lease_id = request.lease.operation_id;
            let value = request.lease.txt_value@;
            let (after, answer) = create_request_outcome(store, header, request, now_ms);
            let inside = let_in(
                store,
                header,
                request.version,
                id,
                request.generation,
                request.nonce@,
                now_ms,
            );
            let asked = now_ms < request.lease.expires_at_ms && request.lease.expires_at_ms
                <= now_ms + 900_000 && crate::store::duties::answer_text(value);
            let free = crate::store::effects::stands(
                store,
                id,
                crate::protocol::AllocationState::DnsReady,
            ) && !crate::store::duties::another_stands(row, lease_id, now_ms);
            let had = exists|i: int| #[trigger] crate::store::duties::answer_at(row, i, lease_id);
            &&& !inside ==> answer is Err && after == store
            &&& answer is Err ==> after.installations == store.installations && after.outbox
                == store.outbox
            &&& inside && !asked ==> answer->Err_0.status == 400
            &&& inside && asked && !free ==> answer->Err_0.status == 409
            &&& inside && asked && free && !had ==> {
                let new = after.installations[id];
                let n = row.challenges.len() as int;
                &&& answer is Ok && answer->Ok_0 == 202
                &&& new.challenges.len() == n + 1
                &&& new.challenges.take(n) == row.challenges
                &&& new.challenges[n].lease_id == lease_id
                &&& new.challenges[n].txt_value == value
                &&& new.challenges[n].generation == request.generation
                &&& new.challenges[n].expires_at_ms == request.lease.expires_at_ms
                &&& after.outbox.len() == store.outbox.len() + 1
                &&& after.outbox.last().kind == crate::store::model::JobKind::PublishTxt(lease_id)
                &&& after.outbox.last().installation_id == id
            }
        }),
{
    law_dns_request_is_let_in(
        store,
        header,
        request.version,
        request.installation_id,
        request.generation,
        request.nonce@,
        now_ms,
    );
    let (admitted, answer) = dns_admission(
        store,
        header,
        request.version,
        request.installation_id,
        request.generation,
        request.nonce@,
        now_ms,
    );
    assert(admitted.valid());
    if answer is Ok {
        crate::store::duties::law_answer_is_leased(
            admitted,
            request.installation_id,
            request.generation,
            request.lease.operation_id,
            request.lease.txt_value@,
            request.lease.expires_at_ms,
            now_ms,
        );
    }
}

/// A request to take a DNS-01 answer back that is let in takes back the one that it names, where
/// it is there under the generation, and no other; one that is not let in has no effect.
pub proof fn law_answer_is_taken_back_by_the_caller(
    store: crate::store::model::StoreView,
    header: Option<Seq<char>>,
    request: DnsChallengeDeleteRequest,
    now_ms: u64,
)
    requires
        store.valid(),
        now_ms + 300_000 <= u64::MAX,
        crate::store::effects::known(store, request.installation_id),
    ensures
        ({
            let id = request.installation_id;
            let row = store.installations[id];
            let (after, answer) = delete_request_outcome(store, header, request, now_ms);
            let inside = let_in(
                store,
                header,
                request.version,
                id,
                request.generation,
                request.nonce@,
                now_ms,
            );
            let there = exists|i: int|
                #[trigger] crate::store::duties::answer_at(row, i, request.lease_id)
                    && row.challenges[i].generation == request.generation
                    && !row.challenges[i].deleted;
            &&& answer is Ok <==> inside
            &&& answer is Ok ==> answer->Ok_0 == 202
            &&& !inside ==> after == store
            &&& inside && !there ==> after.installations == store.installations && after.outbox
                == store.outbox
            &&& inside && there ==> {
                let new = after.installations[id];
                &&& new.challenges.len() == row.challenges.len()
                &&& forall|i: int|
                    0 <= i < row.challenges.len() ==> #[trigger] new.challenges[i] == (
                    crate::store::model::ChallengeView {
                        deleted: row.challenges[i].deleted || row.challenges[i].lease_id
                            == request.lease_id,
                        ..row.challenges[i]
                    })
                &&& after.outbox.len() == store.outbox.len() + 1
                &&& after.outbox.last().kind == crate::store::model::JobKind::RemoveTxt(
                    request.lease_id,
                )
                &&& after.outbox.last().installation_id == id
            }
        }),
{
    law_dns_request_is_let_in(
        store,
        header,
        request.version,
        request.installation_id,
        request.generation,
        request.nonce@,
        now_ms,
    );
    let (admitted, answer) = dns_admission(
        store,
        header,
        request.version,
        request.installation_id,
        request.generation,
        request.nonce@,
        now_ms,
    );
    assert(admitted.valid());
    if answer is Ok {
        crate::store::duties::law_answer_is_taken_back(
            admitted,
            request.installation_id,
            request.generation,
            request.lease_id,
            now_ms,
        );
    }
}

/// An answer is reported as published exactly where it is there, was seen, was not taken back and
/// is not over.
pub proof fn law_published_answer_was_seen(
    store: crate::store::model::StoreView,
    id: Uuid,
    lease_id: Uuid,
    now_ms: u64,
)
    requires
        store.valid(),
    ensures
        published(store, id, lease_id, now_ms) <==> crate::store::effects::known(store, id)
            && exists|i: int|
            #[trigger] crate::store::duties::answer_at(store.installations[id], i, lease_id)
                && store.installations[id].challenges[i].ready
                && !store.installations[id].challenges[i].deleted
                && store.installations[id].challenges[i].expires_at_ms > now_ms,
{
    if crate::store::effects::known(store, id) {
        let row = store.installations[id];
        if crate::store::challenges::leased(row, lease_id) {
            let i = choose|i: int|
                0 <= i < row.challenges.len() && (#[trigger] row.challenges[i]).lease_id
                    == lease_id;
            assert(crate::store::duties::answer_at(row, i, lease_id));
            crate::store::duties::law_job_is_about_its_answer(store, id, lease_id, false, now_ms, i);
        }
        assert forall|i: int|
            #[trigger] crate::store::duties::answer_at(
                row,
                i,
                lease_id,
            ) implies crate::store::challenges::leased(row, lease_id)
            && crate::store::challenges::lease_of(row, lease_id) == row.challenges[i] by {
            let k = choose|k: int|
                0 <= k < row.challenges.len() && (#[trigger] row.challenges[k]).lease_id
                    == lease_id;
            assert(row.challenges[i].lease_id == lease_id);
            assert(0 <= k < row.challenges.len() && row.challenges[k].lease_id == lease_id);
            if k < i {
                assert(row.challenges[k].lease_id != row.challenges[i].lease_id);
            }
            if i < k {
                assert(row.challenges[i].lease_id != row.challenges[k].lease_id);
            }
        }
    }
}

/// A report of a certificate is taken only from a caller of the installation that it names, and is
/// answered as the store does; any other has no effect.
pub proof fn law_certificate_is_reported_by_the_caller(
    store: crate::store::model::StoreView,
    installation: Option<Uuid>,
    header: Option<Seq<char>>,
    certificate: CertificateMetadata,
    now_ms: u64,
)
    ensures
        ({
            let (after, answer) = report_request_outcome(
                store,
                installation,
                header,
                certificate,
                now_ms,
            );
            let inside = installation is Some && dns_caller(
                store,
                header,
                installation->0,
                now_ms,
            ) is Some;
            let (told, done) = crate::store::transparency::report_outcome(
                store,
                installation->0,
                certificate,
            );
            &&& installation is None ==> answer->Err_0.status == 400
            &&& installation is Some && !inside ==> answer->Err_0.status == 401
            &&& !inside ==> answer is Err && after == store
            &&& inside ==> after == told && (answer is Ok <==> done is Ok)
            &&& answer is Ok ==> answer->Ok_0 == 202
            &&& inside && answer is Err ==> answer->Err_0.status == match done->Err_0 {
                StoreError::InvalidRequest => 400u16,
                StoreError::Conflict => 409u16,
                _ => 503u16,
            }
        }),
{
}

/// A request for the replacement of a credential is carried out exactly where it is of this
/// version, ends within the next minute, asks for a credential of tunnels or DNS-01 answers with a
/// digest of 32 bytes, and comes with the secret of a good credential of the scope and generation
/// that it names. The receipt names the new credential, which replaces the old one for a day.
pub proof fn law_credential_is_renewed_by_its_holder(
    store: crate::store::model::StoreView,
    secret: Seq<char>,
    request: CredentialRenewRequest,
    now_ms: u64,
)
    requires
        store.valid(),
        now_ms + 86_400_000 <= u64::MAX,
        !store.operations.dom().contains(request.operation_id),
    ensures
        ({
            let id = request.installation_id;
            let row = store.installations[id];
            let old_hash = crate::encoding::sha256(vstd::utf8::encode_utf8(secret));
            let new_hash = crate::encoding::hex_bytes(request.new_token_sha256@);
            let (after, answer) = renew_request_outcome(
                store,
                Some("Bearer "@ + secret),
                request,
                now_ms,
            );
            let asked = request.version == 1 && 16 <= vstd::utf8::encode_utf8(request.nonce@).len()
                <= 128 && !(request.scope is SurfaceAdmin) && now_ms < request.expires_at_ms
                && request.expires_at_ms <= now_ms + 60_000 && new_hash is Some
                && new_hash->0.len() == 32;
            let plausible = 43 <= vstd::utf8::encode_utf8(secret).len() <= 128;
            let held = crate::store::effects::stands(
                store,
                id,
                crate::protocol::AllocationState::DnsReady,
            ) && exists|i: int|
                #[trigger] crate::store::effects::good(row, i, request.scope, old_hash, now_ms)
                    && row.credentials[i].generation == request.generation;
            &&& answer is Ok <==> asked && plausible && held && row.generation
                < crate::store::model::MAX_GENERATION
            &&& answer is Err ==> after == store
            &&& !asked ==> answer->Err_0.status == 400
            &&& asked && plausible && !held ==> answer->Err_0.status == 401
            &&& answer matches Ok(receipt) ==> {
                &&& receipt.version == 1
                &&& receipt.scope == request.scope
                &&& receipt.operation_id == request.operation_id
                &&& receipt.generation == row.generation + 1
                &&& receipt.expires_at_ms == now_ms + 86_400_000
                &&& crate::store::effects::given_credential(
                    row,
                    after.installations[id],
                    request.scope,
                    new_hash->0,
                    receipt.expires_at_ms as int,
                )
            }
        }),
{
    crate::control_api::law_bearer_stands_behind_its_word(secret, secret);
    let old_hash = crate::encoding::sha256(vstd::utf8::encode_utf8(secret));
    if crate::control_api::digest_of(request.new_token_sha256@) is Some {
        let new_hash = crate::control_api::digest_of(request.new_token_sha256@)->0;
        crate::store::effects::law_renewal_gives_a_credential(
            store,
            request.installation_id,
            request.operation_id,
            request.scope,
            request.generation,
            old_hash,
            new_hash,
            crate::encoding::sha256(
                crate::store::credentials::renew_message(
                    request.scope,
                    request.generation,
                    old_hash,
                    new_hash,
                ),
            ),
            now_ms,
        );
    }
}

/// Without a bearer no credential is replaced.
pub proof fn law_renewal_needs_a_bearer(
    store: crate::store::model::StoreView,
    header: Option<Seq<char>>,
    request: CredentialRenewRequest,
    now_ms: u64,
)
    requires
        forall|secret: Seq<char>| header != Some(#[trigger] ("Bearer "@ + secret)),
    ensures
        renew_request_outcome(store, header, request, now_ms).0 == store,
        renew_request_outcome(store, header, request, now_ms).1 is Err,
{
    if crate::control_api::bearer_of(header) is Some {
        crate::control_api::law_bearer_stands_behind_its_word(header->0, header->0);
        let secret = crate::control_api::bearer_of(header)->0;
        assert(header == Some("Bearer "@ + secret));
    }
}

} // verus!
