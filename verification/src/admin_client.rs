//! Pinned HTTPS bootstrap for privileged Signer administration.
//!
//! The caller owns the protected admin key: each request is built here, handed to the caller's
//! signing function, and sent by the program around it. No response is accepted without proof.

use crate::canonical::{canonical_json, JsonDocument};
use crate::credential::{trusted_response_expiry, CREDENTIAL_LIFETIME_MS};
use crate::encoding::{base64url_encode, random_bytes, sha256_hex};
use crate::ids::Uuid;
use crate::protocol::{
    validate_hostname, AcmeAccountRequest, AllocateRequest, Allocation, AllocationReceipt,
    AuthClaims, BootstrapChallenge, CredentialIssueReceipt, CredentialIssueRequest,
    InstallationStatusRequest, RetireRequest, Scope, SignedRequest, WIRE_VERSION,
};
use crate::secret::SecretToken;
use vstd::prelude::*;

verus! {

/// How long an admin request may be answered, in milliseconds.
pub const ADMIN_DEADLINE_MS: u64 = 30_000;

/// How long a bootstrap challenge may promise to last, in milliseconds.
pub const BOOTSTRAP_LIFETIME_MS: u64 = 60_000;

/// How long an issued credential is asked to be valid, in seconds.
pub const ISSUED_VALIDITY_SECONDS: u32 = 86_400;

/// The longest response that is read.
pub const MAX_RESPONSE: usize = 16 * 1024;

/// What the relay control service is trusted by.
#[derive(Debug, PartialEq, Eq)]
pub struct EnrollmentConfig {
    /// Pinned PEM trust anchor for the relay control service.
    pub control_ca_pem: Vec<u8>,
}

/// Why an administrative call failed.
#[derive(Clone, Copy, Debug, PartialEq, Eq, Structural)]
pub enum EnrollmentError {
    InvalidTrust,
    Unavailable,
    Rejected,
    InvalidReceipt,
    IncompatibleProtocol,
}

impl EnrollmentError {
    /// The description of an error.
    pub open spec fn spec_message(self) -> Seq<char> {
        match self {
            EnrollmentError::InvalidTrust => "invalid relay trust configuration"@,
            EnrollmentError::Unavailable => "relay control unavailable"@,
            EnrollmentError::Rejected => "relay request rejected"@,
            EnrollmentError::InvalidReceipt => "relay response failed identity verification"@,
            EnrollmentError::IncompatibleProtocol => "incompatible relay protocol"@,
        }
    }

    /// Describes an error in words.
    pub fn message(self) -> (words: &'static str)
        ensures
            words@ == self.spec_message(),
    {
        match self {
            EnrollmentError::InvalidTrust => "invalid relay trust configuration",
            EnrollmentError::Unavailable => "relay control unavailable",
            EnrollmentError::Rejected => "relay request rejected",
            EnrollmentError::InvalidReceipt => "relay response failed identity verification",
            EnrollmentError::IncompatibleProtocol => "incompatible relay protocol",
        }
    }
}

/// Whether claims are those of an administrative request: by the admin key, for the control
/// service, for one operation and for one body.
pub open spec fn admin_claims(
    claims: AuthClaims,
    installation_id: Uuid,
    operation_id: Uuid,
    nonce: Seq<char>,
    expires_at_ms: u64,
    body: Seq<u8>,
) -> bool {
    &&& claims.version == WIRE_VERSION
    &&& claims.installation_id == installation_id
    &&& claims.scope == Scope::SurfaceAdmin
    &&& claims.generation == 0
    &&& claims.audience@ == "relay-control.bloom.directory"@
    &&& claims.operation_id == operation_id
    &&& claims.nonce@ == nonce
    &&& claims.expires_at_ms == expires_at_ms
    &&& claims.body_sha256@ == crate::encoding::hex_text(crate::encoding::sha256(body))
}

/// The signing function has given a signature of a message.
pub open spec fn gave<F: Fn(&[u8]) -> Result<[u8; 64], EnrollmentError>>(
    sign: F,
    message: Seq<u8>,
    answer: Result<[u8; 64], EnrollmentError>,
) -> bool {
    exists|bytes: &[u8]| bytes@ == message && #[trigger] call_ensures(sign, (bytes,), answer)
}

/// Claims were not signed: the signing function has refused what it was given.
pub open spec fn not_signed<F: Fn(&[u8]) -> Result<[u8; 64], EnrollmentError>>(
    claims: AuthClaims,
    sign: F,
    error: EnrollmentError,
) -> bool {
    &&& claims.spec_signing_bytes() is Ok
    &&& gave(sign, claims.spec_signing_bytes()->Ok_0, Err(error))
}

/// A signature in base64 that the signing function has given for claims.
pub open spec fn is_signature_of<F: Fn(&[u8]) -> Result<[u8; 64], EnrollmentError>>(
    claims: AuthClaims,
    sign: F,
    signature: Seq<char>,
) -> bool {
    &&& claims.spec_signing_bytes() is Ok
    &&& exists|answer: [u8; 64]|
        #[trigger] gave(sign, claims.spec_signing_bytes()->Ok_0, Ok(answer)) && signature
            == crate::encoding::base64url(answer@)
}

/// The claims of an administrative request were not signed.
pub open spec fn is_refused_call<F: Fn(&[u8]) -> Result<[u8; 64], EnrollmentError>>(
    body: Seq<u8>,
    installation_id: Uuid,
    operation_id: Uuid,
    nonce: Seq<char>,
    expires_at_ms: u64,
    sign: F,
    error: EnrollmentError,
) -> bool {
    exists|claims: AuthClaims|
        #[trigger] admin_claims(
            claims,
            installation_id,
            operation_id,
            nonce,
            expires_at_ms,
            body,
        ) && not_signed(claims, sign, error)
}

/// What building an administrative request comes to: the claims and their signature in base64,
/// or the refusal of the signing function.
pub open spec fn is_signed_call<F: Fn(&[u8]) -> Result<[u8; 64], EnrollmentError>>(
    document: crate::canonical::DocumentView,
    installation_id: Uuid,
    operation_id: Uuid,
    nonce: Seq<char>,
    expires_at_ms: u64,
    sign: F,
    outcome: Result<(AuthClaims, String), EnrollmentError>,
) -> bool {
    let body = crate::canonical::jcs(document);
    match outcome {
        Ok(call) => admin_claims(
            call.0,
            installation_id,
            operation_id,
            nonce,
            expires_at_ms,
            body,
        ) && is_signature_of(call.0, sign, call.1@),
        Err(error) => is_refused_call(
            body,
            installation_id,
            operation_id,
            nonce,
            expires_at_ms,
            sign,
            error,
        ),
    }
}

/// Builds and signs the claims of an administrative request.
pub fn signed_admin_call<F: Fn(&[u8]) -> Result<[u8; 64], EnrollmentError>>(
    document: &JsonDocument,
    installation_id: Uuid,
    operation_id: Uuid,
    nonce: String,
    expires_at_ms: u64,
    sign: F,
) -> (outcome: Result<(AuthClaims, String), EnrollmentError>)
    requires
        forall|message: &[u8]| call_requires(sign, (message,)),
    ensures
        is_signed_call(
            document@,
            installation_id,
            operation_id,
            nonce@,
            expires_at_ms,
            sign,
            outcome,
        ),
{
    let ghost nonce_text = nonce@;
    let body: Vec<u8> = canonical_json(document);
    let claims = AuthClaims {
        version: WIRE_VERSION,
        installation_id,
        scope: Scope::SurfaceAdmin,
        generation: 0,
        audience: "relay-control.bloom.directory".to_owned(),
        operation_id,
        nonce,
        expires_at_ms,
        body_sha256: sha256_hex(body.as_slice()),
    };
    proof {
        assert(admin_claims(
            claims,
            installation_id,
            operation_id,
            nonce_text,
            expires_at_ms,
            body@,
        ));
    }
    let message: Vec<u8> = match claims.signing_bytes() {
        Ok(message) => message,
        Err(_) => {
            return Err(EnrollmentError::Rejected);
        },
    };
    let answer: Result<[u8; 64], EnrollmentError> = sign(message.as_slice());
    proof {
        assert(gave(sign, message@, answer));
    }
    match answer {
        Ok(signature) => {
            let text: String = base64url_encode(signature.as_slice());
            proof {
                assert(gave(sign, claims.spec_signing_bytes()->Ok_0, Ok(signature)));
                assert(is_signature_of(claims, sign, text@));
            }
            Ok((claims, text))
        },
        Err(error) => {
            proof {
                assert(not_signed(claims, sign, error));
            }
            Err(error)
        },
    }
}

/// What is wrong with a bootstrap challenge.
pub open spec fn challenge_fault(challenge: BootstrapChallenge, now_ms: u64) -> Option<
    EnrollmentError,
> {
    if challenge.version != WIRE_VERSION {
        Some(EnrollmentError::IncompatibleProtocol)
    } else if challenge.expires_at_ms <= now_ms || challenge.expires_at_ms > now_ms
        + BOOTSTRAP_LIFETIME_MS + crate::protocol::TRUSTED_RESPONSE_CLOCK_SKEW_MS
        || vstd::utf8::encode_utf8(challenge.nonce@).len() != 43 {
        Some(EnrollmentError::Rejected)
    } else {
        None
    }
}

/// Accepts a bootstrap challenge that is in this version, still runs, promises no more than a
/// minute and the tolerated clock offset, and carries a nonce of the right length.
pub fn check_challenge(challenge: &BootstrapChallenge, now_ms: u64) -> (fault: Option<
    EnrollmentError,
>)
    ensures
        fault == challenge_fault(*challenge, now_ms),
{
    if challenge.version != WIRE_VERSION {
        return Some(EnrollmentError::IncompatibleProtocol);
    }
    if !trusted_response_expiry(challenge.expires_at_ms, now_ms, BOOTSTRAP_LIFETIME_MS)
        || challenge.nonce.as_str().as_bytes().len() != 43 {
        return Some(EnrollmentError::Rejected);
    }
    None
}

/// The deadline of an enrollment: half a minute, but never beyond the challenge.
pub open spec fn enrollment_deadline(challenge: BootstrapChallenge, now_ms: u64) -> u64 {
    if now_ms + ADMIN_DEADLINE_MS < challenge.expires_at_ms {
        (now_ms + ADMIN_DEADLINE_MS) as u64
    } else {
        challenge.expires_at_ms
    }
}

/// Whether a request asks for a hostname for an admin key under a challenge.
pub open spec fn asks_for_hostname(
    body: AllocateRequest,
    challenge: BootstrapChallenge,
    admin_public_key: Seq<u8>,
    operation_id: Uuid,
) -> bool {
    &&& body.admin_public_key@ == crate::encoding::base64url(admin_public_key)
    &&& body.bootstrap_nonce@ == challenge.nonce@
    &&& body.operation_id == operation_id
}

/// Builds the request that answers a bootstrap challenge with an admin key.
pub fn enroll<F: Fn(&[u8]) -> Result<[u8; 64], EnrollmentError>>(
    challenge: BootstrapChallenge,
    admin_public_key: &[u8; 32],
    operation_id: Uuid,
    now_ms: u64,
    sign: F,
) -> (outcome: Result<SignedRequest<AllocateRequest>, EnrollmentError>)
    requires
        forall|message: &[u8]| call_requires(sign, (message,)),
    ensures
        match challenge_fault(challenge, now_ms) {
            Some(fault) => outcome == Err::<SignedRequest<AllocateRequest>, EnrollmentError>(fault),
            None => exists|body: AllocateRequest|
                #[trigger] asks_for_hostname(body, challenge, admin_public_key@, operation_id)
                    && is_signed_call(
                    body.spec_document(),
                    Uuid { bits: 0 },
                    operation_id,
                    challenge.nonce@,
                    enrollment_deadline(challenge, now_ms),
                    sign,
                    call_of(outcome),
                ) && (outcome matches Ok(request) ==> request.body == body),
        },
{
    if let Some(fault) = check_challenge(&challenge, now_ms) {
        return Err(fault);
    }
    let body = AllocateRequest {
        admin_public_key: base64url_encode(admin_public_key.as_slice()),
        bootstrap_nonce: challenge.nonce.clone(),
        operation_id,
    };
    let soon: u64 = now_ms.saturating_add(ADMIN_DEADLINE_MS);
    let deadline: u64 = if soon < challenge.expires_at_ms {
        soon
    } else {
        challenge.expires_at_ms
    };
    proof {
        assert(asks_for_hostname(body, challenge, admin_public_key@, operation_id));
    }
    let document: JsonDocument = body.document();
    match signed_admin_call(
        &document,
        Uuid::nil(),
        operation_id,
        challenge.nonce,
        deadline,
        sign,
    ) {
        Ok((claims, signature)) => Ok(SignedRequest { claims, body, signature }),
        Err(error) => Err(error),
    }
}

/// The claims and the signature of a request that was built.
pub open spec fn call_of<T>(outcome: Result<SignedRequest<T>, EnrollmentError>) -> Result<
    (AuthClaims, String),
    EnrollmentError,
> {
    match outcome {
        Ok(request) => Ok((request.claims, request.signature)),
        Err(error) => Err(error),
    }
}

/// Accepts a receipt of the relay only where it proves the operation and the admin key.
pub fn check_allocation(
    receipt: AllocationReceipt,
    relay_receipt_public_key: &[u8; 32],
    operation_id: Uuid,
    admin_public_key: &[u8; 32],
    now_ms: u64,
) -> (outcome: Result<AllocationReceipt, EnrollmentError>)
    ensures
        outcome == if crate::encoding::ed25519_point(relay_receipt_public_key@)
            && receipt.spec_verify(
            relay_receipt_public_key@,
            operation_id,
            admin_public_key@,
            now_ms,
        ) is Ok {
            Ok(receipt)
        } else {
            Err(EnrollmentError::InvalidReceipt)
        },
{
    match receipt.verify_bytes(relay_receipt_public_key, operation_id, admin_public_key, now_ms) {
        Ok(()) => Ok(receipt),
        Err(_) => Err(EnrollmentError::InvalidReceipt),
    }
}

/// Builds the request for a scoped bearer credential; only the digest of the secret is in it.
pub fn issue_credential<F: Fn(&[u8]) -> Result<[u8; 64], EnrollmentError>>(
    installation_id: Uuid,
    scope: Scope,
    token: &SecretToken,
    operation_id: Uuid,
    nonce: String,
    now_ms: u64,
    sign: F,
) -> (outcome: Result<SignedRequest<CredentialIssueRequest>, EnrollmentError>)
    requires
        forall|message: &[u8]| call_requires(sign, (message,)),
        now_ms + ADMIN_DEADLINE_MS <= u64::MAX,
    ensures
        if scope == Scope::SurfaceAdmin {
            outcome == Err::<SignedRequest<CredentialIssueRequest>, EnrollmentError>(
                EnrollmentError::Rejected,
            )
        } else {
            exists|body: CredentialIssueRequest|
                #[trigger] asks_for_credential(body, scope, token@) && is_signed_call(
                    body.spec_document(),
                    installation_id,
                    operation_id,
                    nonce@,
                    (now_ms + ADMIN_DEADLINE_MS) as u64,
                    sign,
                    call_of(outcome),
                ) && (outcome matches Ok(request) ==> request.body == body)
        },
{
    match scope {
        Scope::Tunnel | Scope::DnsChallenge => {},
        Scope::SurfaceAdmin => {
            return Err(EnrollmentError::Rejected);
        },
    }
    let body = CredentialIssueRequest {
        scope,
        token_sha256: sha256_hex(token.expose().as_bytes()),
        validity_seconds: ISSUED_VALIDITY_SECONDS,
    };
    proof {
        assert(asks_for_credential(body, scope, token@));
    }
    let document: JsonDocument = body.document();
    match signed_admin_call(
        &document,
        installation_id,
        operation_id,
        nonce,
        now_ms + ADMIN_DEADLINE_MS,
        sign,
    ) {
        Ok((claims, signature)) => Ok(SignedRequest { claims, body, signature }),
        Err(error) => Err(error),
    }
}

/// Whether a request asks for a day's credential for a secret.
pub open spec fn asks_for_credential(
    body: CredentialIssueRequest,
    scope: Scope,
    secret: Seq<char>,
) -> bool {
    &&& body.scope == scope
    &&& body.token_sha256@ == crate::encoding::hex_text(
        crate::encoding::sha256(vstd::utf8::encode_utf8(secret)),
    )
    &&& body.validity_seconds == ISSUED_VALIDITY_SECONDS
}

/// Accepts the receipt of a credential only where it answers the same operation and scope and
/// promises a believable expiry.
pub fn check_credential(
    receipt: CredentialIssueReceipt,
    scope: Scope,
    operation_id: Uuid,
    now_ms: u64,
) -> (outcome: Result<CredentialIssueReceipt, EnrollmentError>)
    ensures
        outcome == if receipt.version == WIRE_VERSION && receipt.scope == scope
            && receipt.operation_id == operation_id && receipt.generation != 0 && now_ms
            < receipt.expires_at_ms <= now_ms + CREDENTIAL_LIFETIME_MS
            + crate::protocol::TRUSTED_RESPONSE_CLOCK_SKEW_MS {
            Ok(receipt)
        } else {
            Err(EnrollmentError::InvalidReceipt)
        },
{
    if receipt.version != WIRE_VERSION || receipt.scope != scope || receipt.operation_id
        != operation_id || receipt.generation == 0 || !trusted_response_expiry(
        receipt.expires_at_ms,
        now_ms,
        CREDENTIAL_LIFETIME_MS,
    ) {
        return Err(EnrollmentError::InvalidReceipt);
    }
    Ok(receipt)
}

/// Builds the request that binds the ACME account of Broker to an installation, before
/// restrictive CAA records are published.
pub fn register_acme_account<F: Fn(&[u8]) -> Result<[u8; 64], EnrollmentError>>(
    installation_id: Uuid,
    account_uri: String,
    operation_id: Uuid,
    nonce: String,
    now_ms: u64,
    sign: F,
) -> (outcome: Result<SignedRequest<AcmeAccountRequest>, EnrollmentError>)
    requires
        forall|message: &[u8]| call_requires(sign, (message,)),
        now_ms + ADMIN_DEADLINE_MS <= u64::MAX,
    ensures
        is_signed_call(
            (AcmeAccountRequest { account_uri }).spec_document(),
            installation_id,
            operation_id,
            nonce@,
            (now_ms + ADMIN_DEADLINE_MS) as u64,
            sign,
            call_of(outcome),
        ),
        outcome matches Ok(request) ==> request.body == (AcmeAccountRequest { account_uri }),
{
    let body = AcmeAccountRequest { account_uri };
    let document: JsonDocument = body.document();
    match signed_admin_call(
        &document,
        installation_id,
        operation_id,
        nonce,
        now_ms + ADMIN_DEADLINE_MS,
        sign,
    ) {
        Ok((claims, signature)) => Ok(SignedRequest { claims, body, signature }),
        Err(error) => Err(error),
    }
}

/// Builds the request for the status of an installation.
pub fn installation_status<F: Fn(&[u8]) -> Result<[u8; 64], EnrollmentError>>(
    installation_id: Uuid,
    operation_id: Uuid,
    nonce: String,
    now_ms: u64,
    sign: F,
) -> (outcome: Result<SignedRequest<InstallationStatusRequest>, EnrollmentError>)
    requires
        forall|message: &[u8]| call_requires(sign, (message,)),
        now_ms + ADMIN_DEADLINE_MS <= u64::MAX,
    ensures
        is_signed_call(
            (InstallationStatusRequest { installation_id }).spec_document(),
            installation_id,
            operation_id,
            nonce@,
            (now_ms + ADMIN_DEADLINE_MS) as u64,
            sign,
            call_of(outcome),
        ),
        outcome matches Ok(request) ==> request.body == (InstallationStatusRequest {
            installation_id,
        }),
{
    let body = InstallationStatusRequest { installation_id };
    let document: JsonDocument = body.document();
    match signed_admin_call(
        &document,
        installation_id,
        operation_id,
        nonce,
        now_ms + ADMIN_DEADLINE_MS,
        sign,
    ) {
        Ok((claims, signature)) => Ok(SignedRequest { claims, body, signature }),
        Err(error) => Err(error),
    }
}

/// Accepts a status only where it is in this version, about the installation that was asked
/// for, and names a relay hostname.
pub fn check_status(allocation: Allocation, installation_id: Uuid) -> (outcome: Result<
    Allocation,
    EnrollmentError,
>)
    ensures
        outcome == if allocation.version == WIRE_VERSION && allocation.installation_id
            == installation_id && crate::protocol::valid_hostname(allocation.hostname@) {
            Ok(allocation)
        } else {
            Err(EnrollmentError::InvalidReceipt)
        },
{
    if allocation.version != WIRE_VERSION || allocation.installation_id != installation_id
        || validate_hostname(allocation.hostname.as_str()).is_err() {
        return Err(EnrollmentError::InvalidReceipt);
    }
    Ok(allocation)
}

/// Builds the request that gives an installation up.
pub fn retire_installation<F: Fn(&[u8]) -> Result<[u8; 64], EnrollmentError>>(
    installation_id: Uuid,
    operation_id: Uuid,
    nonce: String,
    now_ms: u64,
    sign: F,
) -> (outcome: Result<SignedRequest<RetireRequest>, EnrollmentError>)
    requires
        forall|message: &[u8]| call_requires(sign, (message,)),
        now_ms + ADMIN_DEADLINE_MS <= u64::MAX,
    ensures
        is_signed_call(
            (RetireRequest { installation_id }).spec_document(),
            installation_id,
            operation_id,
            nonce@,
            (now_ms + ADMIN_DEADLINE_MS) as u64,
            sign,
            call_of(outcome),
        ),
        outcome matches Ok(request) ==> request.body == (RetireRequest { installation_id }),
{
    let body = RetireRequest { installation_id };
    let document: JsonDocument = body.document();
    match signed_admin_call(
        &document,
        installation_id,
        operation_id,
        nonce,
        now_ms + ADMIN_DEADLINE_MS,
        sign,
    ) {
        Ok((claims, signature)) => Ok(SignedRequest { claims, body, signature }),
        Err(error) => Err(error),
    }
}

/// What the status of a request that is only acknowledged means.
pub fn check_accepted(status: u16) -> (outcome: Result<(), EnrollmentError>)
    ensures
        outcome == if status == 202 {
            Ok::<(), EnrollmentError>(())
        } else {
            Err(EnrollmentError::Rejected)
        },
{
    if status != 202 {
        return Err(EnrollmentError::Rejected);
    }
    Ok(())
}

/// Whether a response is short enough to be read.
pub fn response_fits(size: usize) -> (fits: bool)
    ensures
        fits == (size <= MAX_RESPONSE),
{
    size <= MAX_RESPONSE
}

/// The nonce for 32 bytes.
pub fn nonce_of(bytes: &Vec<u8>) -> (nonce: String)
    ensures
        nonce@ == crate::encoding::base64url(bytes@),
{
    base64url_encode(bytes.as_slice())
}

/// A random nonce of 43 characters.
pub fn fresh_nonce() -> (nonce: String)
    ensures
        nonce@.len() == 43,
        exists|bytes: Seq<u8>|
            bytes.len() == 32 && nonce@ == #[trigger] crate::encoding::base64url(bytes),
{
    let bytes: Vec<u8> = random_bytes(32);
    nonce_of(&bytes)
}

/// The control service accepts what the client has built: where the key accepts the signature
/// of the claims and the deadline is not over, the verdict on the body is success.
pub proof fn law_admin_request_is_accepted(
    claims: AuthClaims,
    installation_id: Uuid,
    operation_id: Uuid,
    nonce: Seq<char>,
    expires_at_ms: u64,
    body: Seq<u8>,
    key: Seq<u8>,
    signature: Seq<u8>,
    now_ms: u64,
)
    requires
        admin_claims(claims, installation_id, operation_id, nonce, expires_at_ms, body),
        crate::encoding::ed25519_accepts(key, claims.spec_signing_bytes()->Ok_0, signature),
        signature.len() == 64,
        body.len() <= crate::protocol::MAX_CONTROL_BODY,
        now_ms < expires_at_ms <= now_ms + crate::protocol::MAX_CLAIM_LIFETIME_MS,
    ensures
        claims.spec_verify(
            body,
            crate::encoding::base64url(signature),
            key,
            Scope::SurfaceAdmin,
            "relay-control.bloom.directory"@,
            now_ms,
        ) == Ok::<(), crate::protocol::ProtocolError>(()),
{
    crate::encoding::law_base64url_round_trip(signature);
}

/// A request of an administrator carries this version, no generation, the scope of administration,
/// the audience of the control service, what it was made for, and the digest of its body.
pub proof fn law_admin_claims_say_what_they_are_for(
    claims: AuthClaims,
    installation_id: Uuid,
    operation_id: Uuid,
    nonce: Seq<char>,
    expires_at_ms: u64,
    body: Seq<u8>,
)
    requires
        admin_claims(claims, installation_id, operation_id, nonce, expires_at_ms, body),
    ensures
        claims.version == 1,
        claims.installation_id == installation_id,
        claims.scope is SurfaceAdmin,
        claims.generation == 0,
        claims.audience@ == "relay-control.bloom.directory"@,
        claims.operation_id == operation_id,
        claims.nonce@ == nonce,
        claims.expires_at_ms == expires_at_ms,
        claims.body_sha256@ == crate::encoding::hex_text(crate::encoding::sha256(body)),
{
}

/// A bootstrap challenge is accepted exactly where it is of this version, is not over, promises no
/// more than 65 seconds, and has a nonce of 43 bytes; one of another version is incompatible, and
/// any other is refused.
pub proof fn law_challenge_is_accepted(challenge: BootstrapChallenge, now_ms: u64)
    ensures
        ({
            let fault = challenge_fault(challenge, now_ms);
            &&& fault is None <==> challenge.version == 1 && now_ms < challenge.expires_at_ms
                && challenge.expires_at_ms <= now_ms + 65_000 && vstd::utf8::encode_utf8(
                challenge.nonce@,
            ).len() == 43
            &&& challenge.version != 1 ==> fault == Some(EnrollmentError::IncompatibleProtocol)
            &&& challenge.version == 1 && fault is Some ==> fault == Some(EnrollmentError::Rejected)
        }),
{
}

/// An enrolment ends in half a minute, or with its challenge where that ends sooner.
pub proof fn law_enrolment_ends_with_its_challenge(challenge: BootstrapChallenge, now_ms: u64)
    ensures
        ({
            let deadline = enrollment_deadline(challenge, now_ms);
            &&& deadline <= challenge.expires_at_ms
            &&& deadline <= now_ms + 30_000
            &&& deadline == challenge.expires_at_ms || deadline == now_ms + 30_000
        }),
{
}

/// What is asked for is what was wanted: a hostname for the key, under the nonce of the challenge;
/// or a credential of a scope for a day, by the digest of its secret.
pub proof fn law_requests_ask_for_what_is_wanted(
    hostname: AllocateRequest,
    challenge: BootstrapChallenge,
    admin_public_key: Seq<u8>,
    operation_id: Uuid,
    credential: CredentialIssueRequest,
    scope: Scope,
    secret: Seq<char>,
)
    ensures
        asks_for_hostname(hostname, challenge, admin_public_key, operation_id) <==> {
            &&& hostname.admin_public_key@ == crate::encoding::base64url(admin_public_key)
            &&& hostname.bootstrap_nonce@ == challenge.nonce@
            &&& hostname.operation_id == operation_id
        },
        asks_for_credential(credential, scope, secret) <==> {
            &&& credential.scope == scope
            &&& credential.token_sha256@ == crate::encoding::hex_text(
                crate::encoding::sha256(vstd::utf8::encode_utf8(secret)),
            )
            &&& credential.validity_seconds == 86_400
        },
{
}

/// A request of an administrator is signed over its own claims: whatever the signer gave for the
/// bytes that are signed for them is its signature in base64, and a signer that refuses is passed
/// on.
pub proof fn law_signature_is_the_signers<F: Fn(&[u8]) -> Result<[u8; 64], EnrollmentError>>(
    document: crate::canonical::DocumentView,
    installation_id: Uuid,
    operation_id: Uuid,
    nonce: Seq<char>,
    expires_at_ms: u64,
    sign: F,
    outcome: Result<(AuthClaims, String), EnrollmentError>,
)
    requires
        is_signed_call(
            document,
            installation_id,
            operation_id,
            nonce,
            expires_at_ms,
            sign,
            outcome,
        ),
    ensures
        outcome matches Ok(call) ==> {
            let message = vstd::utf8::encode_utf8("bloom-relay/control/v1\0"@)
                + crate::canonical::jcs(call.0.spec_document());
            &&& admin_claims(
                call.0,
                installation_id,
                operation_id,
                nonce,
                expires_at_ms,
                crate::canonical::jcs(document),
            )
            &&& exists|bytes: &[u8], answer: [u8; 64]|
                bytes@ == message && call.1@ == crate::encoding::base64url(answer@)
                    && #[trigger] call_ensures(sign, (bytes,), Ok(answer))
        },
        outcome matches Err(error) ==> exists|bytes: &[u8], claims: AuthClaims|
            {
                &&& #[trigger] admin_claims(
                    claims,
                    installation_id,
                    operation_id,
                    nonce,
                    expires_at_ms,
                    crate::canonical::jcs(document),
                )
                &&& bytes@ == vstd::utf8::encode_utf8("bloom-relay/control/v1\0"@)
                    + crate::canonical::jcs(claims.spec_document())
                &&& #[trigger] call_ensures(sign, (bytes,), Err(error))
            },
{
    let body = crate::canonical::jcs(document);
    match outcome {
        Ok(call) => {
            let message = call.0.spec_signing_bytes()->Ok_0;
            let answer = choose|answer: [u8; 64]|
                #[trigger] gave(sign, message, Ok(answer)) && call.1@ == crate::encoding::base64url(
                    answer@,
                );
            let bytes = choose|bytes: &[u8]|
                bytes@ == message && #[trigger] call_ensures(sign, (bytes,), Ok(answer));
            assert(call_ensures(sign, (bytes,), Ok(answer)));
        },
        Err(error) => {
            let claims = choose|claims: AuthClaims|
                #[trigger] admin_claims(
                    claims,
                    installation_id,
                    operation_id,
                    nonce,
                    expires_at_ms,
                    body,
                ) && not_signed(claims, sign, error);
            let message = claims.spec_signing_bytes()->Ok_0;
            assert(gave(sign, message, Err(error)));
            let bytes = choose|bytes: &[u8]|
                bytes@ == message && #[trigger] call_ensures(sign, (bytes,), Err(error));
            assert(call_ensures(sign, (bytes,), Err(error)));
        },
    }
}

/// Every error is described in its own words.
pub proof fn law_errors_are_described()
    ensures
        EnrollmentError::InvalidTrust.spec_message() == "invalid relay trust configuration"@,
        EnrollmentError::Unavailable.spec_message() == "relay control unavailable"@,
        EnrollmentError::Rejected.spec_message() == "relay request rejected"@,
        EnrollmentError::InvalidReceipt.spec_message()
            == "relay response failed identity verification"@,
        EnrollmentError::IncompatibleProtocol.spec_message() == "incompatible relay protocol"@,
{
}

} // verus!
