//! Versioned, scope-bound relay wire messages. No wallet or ceremony authority lives here.

use crate::canonical::{
    canonical_json, number_field, text_field, JsonDocument, JsonField, JsonScalar,
};
use crate::encoding::{
    base64url_encode, base64url_read, ed25519_key_valid, ed25519_sign, ed25519_verify, sha256_hex,
};
use crate::ids::Uuid;
use crate::text::{chars_of, has_prefix, has_suffix, range_in, same_text, CharClass};
use vstd::prelude::*;

verus! {

pub const WIRE_VERSION: u16 = 1;

pub const MAX_CONTROL_BODY: usize = 16 * 1024;

pub const MAX_CLIENT_HELLO: usize = 64 * 1024;

pub const CLIENT_HELLO_TIMEOUT_SECS: u64 = 5;

pub const TICKET_TIMEOUT_SECS: u64 = 10;

pub const MAX_INSTALLATION_STREAMS: usize = 128;

pub const MAX_GATEWAY_STREAMS: usize = 10_000;

pub const BUFFER_PER_DIRECTION: usize = 64 * 1024;

pub const BUFFER_BUDGET: usize = 256 * 1024 * 1024;

pub const STREAM_IDLE_SECS: u64 = 120;

pub const STREAM_LIFETIME_SECS: u64 = 1800;

pub const HEARTBEAT_SECS: u64 = 15;

pub const DEAD_PEER_SECS: u64 = 45;

/// Maximum tolerated positive server clock offset when a client validates a timestamp in an
/// authenticated, trusted response. Expiration remains strict.
pub const TRUSTED_RESPONSE_CLOCK_SKEW_MS: u64 = 5_000;

/// Keeps the account-bound CAA value within its 255-octet DNS field limit.
pub const MAX_ACME_ACCOUNT_URI_LEN: usize = 200;

/// How far ahead the deadline of a signed request may lie.
pub const MAX_CLAIM_LIFETIME_MS: u64 = 60_000;

/// How old an allocation receipt may be.
pub const MAX_RECEIPT_AGE_MS: u64 = 300_000;

/// What a relay message is refused for.
#[derive(Clone, Copy, Debug, PartialEq, Eq, Structural)]
pub enum ProtocolError {
    IncompatibleVersion,
    InvalidEncoding,
    Unauthorized,
    Expired,
    TooLarge,
    InvalidSignature,
    InvalidHostname,
    InvalidAcmeEnvironment,
    InvalidAcmeAccountUri,
}

impl ProtocolError {
    /// The description of an error.
    pub open spec fn spec_message(self) -> Seq<char> {
        match self {
            ProtocolError::IncompatibleVersion => "incompatible relay protocol version"@,
            ProtocolError::InvalidEncoding => "invalid encoding"@,
            ProtocolError::Unauthorized => "unauthorized"@,
            ProtocolError::Expired => "expired or invalid deadline"@,
            ProtocolError::TooLarge => "control message too large"@,
            ProtocolError::InvalidSignature => "invalid signature"@,
            ProtocolError::InvalidHostname => "invalid hostname"@,
            ProtocolError::InvalidAcmeEnvironment => "invalid ACME environment"@,
            ProtocolError::InvalidAcmeAccountUri => "invalid ACME account URI"@,
        }
    }

    /// Describes an error in words.
    pub fn message(self) -> (words: &'static str)
        ensures
            words@ == self.spec_message(),
    {
        match self {
            ProtocolError::IncompatibleVersion => "incompatible relay protocol version",
            ProtocolError::InvalidEncoding => "invalid encoding",
            ProtocolError::Unauthorized => "unauthorized",
            ProtocolError::Expired => "expired or invalid deadline",
            ProtocolError::TooLarge => "control message too large",
            ProtocolError::InvalidSignature => "invalid signature",
            ProtocolError::InvalidHostname => "invalid hostname",
            ProtocolError::InvalidAcmeEnvironment => "invalid ACME environment",
            ProtocolError::InvalidAcmeAccountUri => "invalid ACME account URI",
        }
    }
}

/// The ACME directory that an account belongs to.
#[derive(Clone, Copy, Debug, PartialEq, Eq, Structural)]
pub enum AcmeEnvironment {
    Production,
    Staging,
}

impl Default for AcmeEnvironment {
    fn default() -> (environment: Self)
        ensures
            environment == AcmeEnvironment::Production,
    {
        AcmeEnvironment::Production
    }
}

/// An account URI of an environment: its prefix, then a decimal account number, at most 200
/// characters in all.
pub open spec fn valid_account_uri(environment: AcmeEnvironment, uri: Seq<char>) -> bool {
    let prefix = environment.spec_prefix();
    &&& uri.len() <= MAX_ACME_ACCOUNT_URI_LEN
    &&& crate::text::starts_with(uri, prefix)
    &&& uri.len() > prefix.len()
    &&& crate::text::all_in(uri.skip(prefix.len() as int), CharClass::Digit)
}

impl AcmeEnvironment {
    /// The prefix that every account URI of the environment begins with.
    pub open spec fn spec_prefix(self) -> Seq<char> {
        match self {
            AcmeEnvironment::Production => "https://acme-v02.api.letsencrypt.org/acme/acct/"@,
            AcmeEnvironment::Staging => "https://acme-staging-v02.api.letsencrypt.org/acme/acct/"@,
        }
    }

    /// The prefix that every account URI of the environment begins with.
    pub fn account_uri_prefix(self) -> (prefix: &'static str)
        ensures
            prefix@ == self.spec_prefix(),
    {
        match self {
            AcmeEnvironment::Production => "https://acme-v02.api.letsencrypt.org/acme/acct/",
            AcmeEnvironment::Staging => "https://acme-staging-v02.api.letsencrypt.org/acme/acct/",
        }
    }

    /// Accepts exactly the account URIs of the environment.
    pub fn validate_account_uri(self, account_uri: &str) -> (outcome: Result<(), ProtocolError>)
        ensures
            outcome == if valid_account_uri(self, account_uri@) {
                Ok::<(), ProtocolError>(())
            } else {
                Err(ProtocolError::InvalidAcmeAccountUri)
            },
    {
        let uri: Vec<char> = chars_of(account_uri);
        let prefix: Vec<char> = chars_of(self.account_uri_prefix());
        if uri.len() > MAX_ACME_ACCOUNT_URI_LEN || !has_prefix(&uri, &prefix) || uri.len()
            == prefix.len() {
            return Err(ProtocolError::InvalidAcmeAccountUri);
        }
        proof {
            assert(uri@.skip(prefix@.len() as int) =~= uri@.subrange(
                prefix@.len() as int,
                uri@.len() as int,
            ));
        }
        if !range_in(&uri, prefix.len(), uri.len(), CharClass::Digit) {
            return Err(ProtocolError::InvalidAcmeAccountUri);
        }
        Ok(())
    }

    /// Reads the name of an environment.
    pub fn parse(value: &str) -> (outcome: Result<Self, ProtocolError>)
        ensures
            outcome == if value@ == "production"@ {
                Ok(AcmeEnvironment::Production)
            } else if value@ == "staging"@ {
                Ok(AcmeEnvironment::Staging)
            } else {
                Err(ProtocolError::InvalidAcmeEnvironment)
            },
    {
        if same_text(value, "production") {
            Ok(AcmeEnvironment::Production)
        } else if same_text(value, "staging") {
            Ok(AcmeEnvironment::Staging)
        } else {
            Err(ProtocolError::InvalidAcmeEnvironment)
        }
    }
}

impl std::str::FromStr for AcmeEnvironment {
    type Err = ProtocolError;

    /// As [`AcmeEnvironment::parse`].
    fn from_str(value: &str) -> (outcome: Result<Self, ProtocolError>)
        ensures
            outcome == if value@ == "production"@ {
                Ok(AcmeEnvironment::Production)
            } else if value@ == "staging"@ {
                Ok(AcmeEnvironment::Staging)
            } else {
                Err(ProtocolError::InvalidAcmeEnvironment)
            },
    {
        AcmeEnvironment::parse(value)
    }
}

/// Finds the environment that an account URI belongs to.
pub fn validate_acme_account_uri(account_uri: &str) -> (outcome: Result<
    AcmeEnvironment,
    ProtocolError,
>)
    ensures
        outcome == if valid_account_uri(AcmeEnvironment::Production, account_uri@) {
            Ok(AcmeEnvironment::Production)
        } else if valid_account_uri(AcmeEnvironment::Staging, account_uri@) {
            Ok(AcmeEnvironment::Staging)
        } else {
            Err(ProtocolError::InvalidAcmeAccountUri)
        },
{
    if AcmeEnvironment::Production.validate_account_uri(account_uri).is_ok() {
        return Ok(AcmeEnvironment::Production);
    }
    if AcmeEnvironment::Staging.validate_account_uri(account_uri).is_ok() {
        return Ok(AcmeEnvironment::Staging);
    }
    Err(ProtocolError::InvalidAcmeAccountUri)
}

/// No account URI belongs to both environments.
pub proof fn law_environments_are_disjoint(uri: Seq<char>)
    ensures
        !(valid_account_uri(AcmeEnvironment::Production, uri) && valid_account_uri(
            AcmeEnvironment::Staging,
            uri,
        )),
{
    reveal_strlit("https://acme-v02.api.letsencrypt.org/acme/acct/");
    reveal_strlit("https://acme-staging-v02.api.letsencrypt.org/acme/acct/");
    let production = AcmeEnvironment::Production.spec_prefix();
    let staging = AcmeEnvironment::Staging.spec_prefix();
    if crate::text::starts_with(uri, production) && crate::text::starts_with(uri, staging) {
        assert(uri.subrange(0, production.len() as int)[13] == 'v');
        assert(uri.subrange(0, staging.len() as int)[13] == 's');
    }
}

/// A relay hostname: 26 lower-case letters and digits, then the relay zone.
pub open spec fn valid_hostname(hostname: Seq<char>) -> bool {
    &&& hostname.len() == 26 + ".relay.bloom.directory"@.len()
    &&& hostname.skip(26) == ".relay.bloom.directory"@
    &&& crate::text::all_in(hostname.take(26), CharClass::LowerAlphanumeric)
}

/// Accepts exactly the relay hostnames.
pub fn validate_hostname(hostname: &str) -> (outcome: Result<(), ProtocolError>)
    ensures
        outcome == if valid_hostname(hostname@) {
            Ok::<(), ProtocolError>(())
        } else {
            Err(ProtocolError::InvalidHostname)
        },
{
    let host: Vec<char> = chars_of(hostname);
    let zone: Vec<char> = chars_of(".relay.bloom.directory");
    if !has_suffix(&host, &zone) || host.len() - zone.len() != 26 {
        proof {
            if valid_hostname(hostname@) {
                assert(host@.subrange(host@.len() - zone@.len(), host@.len() as int) =~= host@.skip(
                    26,
                ));
            }
        }
        return Err(ProtocolError::InvalidHostname);
    }
    proof {
        assert(host@.subrange(host@.len() - zone@.len(), host@.len() as int) =~= host@.skip(26));
        assert(host@.subrange(0, 26) =~= host@.take(26));
    }
    if !range_in(&host, 0, 26, CharClass::LowerAlphanumeric) {
        return Err(ProtocolError::InvalidHostname);
    }
    Ok(())
}

/// What a credential or a signed request may be used for.
#[derive(Clone, Copy, Debug, PartialEq, Eq, Structural)]
pub enum Scope {
    SurfaceAdmin,
    Tunnel,
    DnsChallenge,
}

impl Scope {
    /// The name of a scope on the wire.
    pub open spec fn spec_name(self) -> Seq<char> {
        match self {
            Scope::SurfaceAdmin => "surface_admin"@,
            Scope::Tunnel => "tunnel"@,
            Scope::DnsChallenge => "dns_challenge"@,
        }
    }

    /// The name of a scope on the wire.
    pub fn name(self) -> (name: &'static str)
        ensures
            name@ == self.spec_name(),
    {
        match self {
            Scope::SurfaceAdmin => "surface_admin",
            Scope::Tunnel => "tunnel",
            Scope::DnsChallenge => "dns_challenge",
        }
    }
}

/// How far an allocation has come.
#[derive(Clone, Copy, Debug, PartialEq, Eq, Structural)]
pub enum AllocationState {
    PendingDns,
    DnsReady,
    Retired,
}

impl AllocationState {
    /// The name of a state on the wire.
    pub open spec fn spec_name(self) -> Seq<char> {
        match self {
            AllocationState::PendingDns => "pending_dns"@,
            AllocationState::DnsReady => "dns_ready"@,
            AllocationState::Retired => "retired"@,
        }
    }

    /// The name of a state on the wire.
    pub fn name(self) -> (name: &'static str)
        ensures
            name@ == self.spec_name(),
    {
        match self {
            AllocationState::PendingDns => "pending_dns",
            AllocationState::DnsReady => "dns_ready",
            AllocationState::Retired => "retired",
        }
    }
}

/// An Ed25519 public key that is known to be a point of the curve.
#[derive(Clone, Copy, Debug)]
pub struct VerifyingKey {
    bytes: [u8; 32],
}

impl View for VerifyingKey {
    type V = Seq<u8>;

    closed spec fn view(&self) -> Seq<u8> {
        self.bytes@
    }
}

impl VerifyingKey {
    #[verifier::type_invariant]
    spec fn on_curve(self) -> bool {
        crate::encoding::ed25519_point(self.bytes@)
    }

    /// Takes 32 bytes for a key where they encode a point of the curve.
    pub fn from_bytes(bytes: &[u8; 32]) -> (key: Option<VerifyingKey>)
        ensures
            key is Some == crate::encoding::ed25519_point(bytes@),
            key matches Some(found) ==> found@ == bytes@,
    {
        if ed25519_key_valid(bytes) {
            Some(VerifyingKey { bytes: *bytes })
        } else {
            None
        }
    }

    /// Whether the key accepts a signature of a message.
    fn accepts(&self, message: &[u8], signature: &[u8; 64]) -> (accepted: bool)
        ensures
            accepted == crate::encoding::ed25519_accepts(self@, message@, signature@),
    {
        proof {
            use_type_invariant(self);
        }
        ed25519_verify(&self.bytes, message, signature)
    }
}

/// The signature that a base64 text stands for: 64 bytes, or nothing.
pub open spec fn signature_bytes(text: Seq<char>) -> Option<Seq<u8>> {
    match crate::encoding::base64url_bytes(text) {
        Some(bytes) => if bytes.len() == 64 {
            Some(bytes)
        } else {
            None
        },
        None => None,
    }
}

/// Reads a signature of 64 bytes out of its base64 text.
pub fn read_signature(text: &str) -> (signature: Option<[u8; 64]>)
    ensures
        signature is Some == signature_bytes(text@) is Some,
        signature matches Some(found) ==> signature_bytes(text@) == Some(found@),
{
    match base64url_read(text) {
        Some(bytes) => {
            if bytes.len() != 64 {
                return None;
            }
            Some(array_64(&bytes))
        },
        None => None,
    }
}

/// Copies 64 bytes into an array.
fn array_64(bytes: &Vec<u8>) -> (array: [u8; 64])
    requires
        bytes@.len() == 64,
    ensures
        array@ == bytes@,
{
    let mut array: [u8; 64] = [0u8; 64];
    let mut i: usize = 0;
    while i < 64
        invariant
            i <= 64,
            bytes@.len() == 64,
            forall|j: int| 0 <= j < i ==> array@[j] == bytes@[j],
        decreases 64 - i,
    {
        array[i] = bytes[i];
        i += 1;
    }
    proof {
        assert(array@ =~= bytes@);
    }
    array
}

/// Copies 32 bytes into an array.
pub fn array_32(bytes: &Vec<u8>) -> (array: [u8; 32])
    requires
        bytes@.len() == 32,
    ensures
        array@ == bytes@,
{
    let mut array: [u8; 32] = [0u8; 32];
    let mut i: usize = 0;
    while i < 32
        invariant
            i <= 32,
            bytes@.len() == 32,
            forall|j: int| 0 <= j < i ==> array@[j] == bytes@[j],
        decreases 32 - i,
    {
        array[i] = bytes[i];
        i += 1;
    }
    proof {
        assert(array@ =~= bytes@);
    }
    array
}

/// The bytes that are signed: a version is required, then the canonical bytes follow the name
/// of the domain that they are signed for.
pub open spec fn framed(version: u16, domain: Seq<char>, canonical: Seq<u8>) -> Result<
    Seq<u8>,
    ProtocolError,
> {
    if version != WIRE_VERSION {
        Err(ProtocolError::IncompatibleVersion)
    } else {
        Ok(vstd::utf8::encode_utf8(domain) + canonical)
    }
}

/// Puts canonical bytes behind the name of the domain that they are signed for.
pub fn frame(version: u16, domain: &str, canonical: Vec<u8>) -> (outcome: Result<
    Vec<u8>,
    ProtocolError,
>)
    ensures
        byte_result(outcome) == framed(version, domain@, canonical@),
{
    if version != WIRE_VERSION {
        return Err(ProtocolError::IncompatibleVersion);
    }
    let mut framed: Vec<u8> = vstd::slice::slice_to_vec(domain.as_bytes());
    let mut rest: Vec<u8> = canonical;
    framed.append(&mut rest);
    Ok(framed)
}

/// The bytes inside the success of a result.
pub open spec fn byte_result(outcome: Result<Vec<u8>, ProtocolError>) -> Result<
    Seq<u8>,
    ProtocolError,
> {
    match outcome {
        Ok(bytes) => Ok(bytes@),
        Err(error) => Err(error),
    }
}

/// Who a signed request is from, what it is for and until when it holds.
#[derive(Debug, PartialEq, Eq)]
pub struct AuthClaims {
    pub version: u16,
    pub installation_id: Uuid,
    pub scope: Scope,
    pub generation: u64,
    pub audience: String,
    pub operation_id: Uuid,
    pub nonce: String,
    pub expires_at_ms: u64,
    pub body_sha256: String,
}

/// A request body with the claims that its signature covers.
#[derive(Debug, PartialEq, Eq)]
pub struct SignedRequest<T> {
    pub claims: AuthClaims,
    pub body: T,
    pub signature: String,
}

impl AuthClaims {
    /// The JSON object that the claims are signed as.
    pub open spec fn spec_document(self) -> crate::canonical::DocumentView {
        crate::canonical::DocumentView::Object(
            seq![
                ("version"@, crate::canonical::ScalarView::Number(self.version as u64)),
                (
                    "installation_id"@,
                    crate::canonical::ScalarView::Text(self.installation_id.spec_text()),
                ),
                ("scope"@, crate::canonical::ScalarView::Text(self.scope.spec_name())),
                ("generation"@, crate::canonical::ScalarView::Number(self.generation)),
                ("audience"@, crate::canonical::ScalarView::Text(self.audience@)),
                (
                    "operation_id"@,
                    crate::canonical::ScalarView::Text(self.operation_id.spec_text()),
                ),
                ("nonce"@, crate::canonical::ScalarView::Text(self.nonce@)),
                ("expires_at_ms"@, crate::canonical::ScalarView::Number(self.expires_at_ms)),
                ("body_sha256"@, crate::canonical::ScalarView::Text(self.body_sha256@)),
            ],
        )
    }

    /// The bytes that the signature covers.
    pub open spec fn spec_signing_bytes(self) -> Result<Seq<u8>, ProtocolError> {
        framed(
            self.version,
            "bloom-relay/control/v1\0"@,
            crate::canonical::jcs(self.spec_document()),
        )
    }

    /// RFC 8785 JSON canonicalization, separated from other Bloom signatures.
    pub fn signing_bytes(&self) -> (outcome: Result<Vec<u8>, ProtocolError>)
        ensures
            byte_result(outcome) == self.spec_signing_bytes(),
    {
        let mut fields: Vec<JsonField> = Vec::new();
        fields.push(number_field("version", self.version as u64));
        fields.push(text_field("installation_id", self.installation_id.to_text().as_str()));
        fields.push(text_field("scope", self.scope.name()));
        fields.push(number_field("generation", self.generation));
        fields.push(text_field("audience", self.audience.as_str()));
        fields.push(text_field("operation_id", self.operation_id.to_text().as_str()));
        fields.push(text_field("nonce", self.nonce.as_str()));
        fields.push(number_field("expires_at_ms", self.expires_at_ms));
        fields.push(text_field("body_sha256", self.body_sha256.as_str()));
        let document: JsonDocument = JsonDocument::Object(fields);
        proof {
            assert(document@->Object_0 =~= self.spec_document()->Object_0);
        }
        frame(self.version, "bloom-relay/control/v1\0", canonical_json(&document))
    }

    /// What the claims say before any signature is looked at, for a body of a given size and
    /// digest.
    pub open spec fn spec_precheck(
        self,
        body_len: int,
        body_digest: Seq<char>,
        required_scope: Scope,
        audience: Seq<char>,
        now_ms: u64,
    ) -> Result<(), ProtocolError> {
        if self.scope != required_scope || self.audience@ != audience {
            Err(ProtocolError::Unauthorized)
        } else if self.expires_at_ms <= now_ms || self.expires_at_ms > now_ms
            + MAX_CLAIM_LIFETIME_MS {
            Err(ProtocolError::Expired)
        } else if body_len > MAX_CONTROL_BODY {
            Err(ProtocolError::TooLarge)
        } else if body_digest != self.body_sha256@ {
            Err(ProtocolError::InvalidSignature)
        } else {
            Ok(())
        }
    }

    /// Checks scope, audience, deadline, size and digest of a body.
    pub fn precheck(
        &self,
        body_len: usize,
        body_digest: &str,
        required_scope: Scope,
        audience: &str,
        now_ms: u64,
    ) -> (outcome: Result<(), ProtocolError>)
        ensures
            outcome == self.spec_precheck(
                body_len as int,
                body_digest@,
                required_scope,
                audience@,
                now_ms,
            ),
    {
        if self.scope != required_scope || !same_text(self.audience.as_str(), audience) {
            return Err(ProtocolError::Unauthorized);
        }
        if self.expires_at_ms <= now_ms || self.expires_at_ms > now_ms.saturating_add(
            MAX_CLAIM_LIFETIME_MS,
        ) {
            return Err(ProtocolError::Expired);
        }
        if body_len > MAX_CONTROL_BODY {
            return Err(ProtocolError::TooLarge);
        }
        if !same_text(body_digest, self.body_sha256.as_str()) {
            return Err(ProtocolError::InvalidSignature);
        }
        Ok(())
    }

    /// The verdict on a signed body.
    pub open spec fn spec_verify(
        self,
        body: Seq<u8>,
        signature: Seq<char>,
        key: Seq<u8>,
        required_scope: Scope,
        audience: Seq<char>,
        now_ms: u64,
    ) -> Result<(), ProtocolError> {
        match self.spec_precheck(
            body.len() as int,
            crate::encoding::hex_text(crate::encoding::sha256(body)),
            required_scope,
            audience,
            now_ms,
        ) {
            Err(error) => Err(error),
            Ok(_) => signature_verdict(key, self.spec_signing_bytes(), signature),
        }
    }

    /// Accepts a body only for the scope, the audience and the time that the claims name, and
    /// only under a signature of the key over the claims.
    pub fn verify(
        &self,
        body: &[u8],
        signature: &str,
        key: &VerifyingKey,
        required_scope: Scope,
        audience: &str,
        now_ms: u64,
    ) -> (outcome: Result<(), ProtocolError>)
        ensures
            outcome == self.spec_verify(
                body@,
                signature@,
                key@,
                required_scope,
                audience@,
                now_ms,
            ),
    {
        let digest: String = sha256_hex(body);
        match self.precheck(body.len(), digest.as_str(), required_scope, audience, now_ms) {
            Err(error) => Err(error),
            Ok(()) => check_signature(key, self.signing_bytes(), signature),
        }
    }
}

/// The verdict on a signature: the text must hold 64 bytes, the version must be one whose
/// messages can be signed, and the key must accept.
pub open spec fn signature_verdict(
    key: Seq<u8>,
    message: Result<Seq<u8>, ProtocolError>,
    signature: Seq<char>,
) -> Result<(), ProtocolError> {
    match signature_bytes(signature) {
        None => Err(ProtocolError::InvalidSignature),
        Some(bytes) => match message {
            Err(error) => Err(error),
            Ok(signed) => if crate::encoding::ed25519_accepts(key, signed, bytes) {
                Ok(())
            } else {
                Err(ProtocolError::InvalidSignature)
            },
        },
    }
}

/// Checks a base64 signature of a message under a key.
pub fn check_signature(
    key: &VerifyingKey,
    message: Result<Vec<u8>, ProtocolError>,
    signature: &str,
) -> (outcome: Result<(), ProtocolError>)
    ensures
        outcome == signature_verdict(key@, byte_result(message), signature@),
{
    match read_signature(signature) {
        None => Err(ProtocolError::InvalidSignature),
        Some(bytes) => match message {
            Err(error) => Err(error),
            Ok(signed) => {
                if key.accepts(signed.as_slice(), &bytes) {
                    Ok(())
                } else {
                    Err(ProtocolError::InvalidSignature)
                }
            },
        },
    }
}

/// The answer to a bootstrap request.
#[derive(Debug, PartialEq, Eq)]
pub struct BootstrapChallenge {
    pub version: u16,
    pub nonce: String,
    pub expires_at_ms: u64,
}

/// Asks for a hostname.
#[derive(Debug, PartialEq, Eq)]
pub struct AllocateRequest {
    pub admin_public_key: String,
    pub bootstrap_nonce: String,
    pub operation_id: Uuid,
}

/// An installation and the hostname that it was given.
#[derive(Debug, PartialEq, Eq)]
pub struct Allocation {
    pub version: u16,
    pub installation_id: Uuid,
    pub hostname: String,
    pub placement: String,
    pub state: AllocationState,
}

/// An allocation under the signature of the relay.
#[derive(Debug, PartialEq, Eq)]
pub struct AllocationReceipt {
    pub allocation: Allocation,
    pub operation_id: Uuid,
    /// Lowercase SHA-256 of the 32-byte installation admin public key.
    pub admin_key_sha256: String,
    pub issued_at_ms: u64,
    /// Ed25519 over the domain-separated RFC 8785 canonical body.
    pub signature: String,
}

impl AllocationReceipt {
    /// The JSON array that the receipt is signed as.
    pub open spec fn spec_document(self) -> crate::canonical::DocumentView {
        crate::canonical::DocumentView::Tuple(
            seq![
                ("version"@, crate::canonical::ScalarView::Number(self.allocation.version as u64)),
                (
                    "installation_id"@,
                    crate::canonical::ScalarView::Text(self.allocation.installation_id.spec_text()),
                ),
                ("hostname"@, crate::canonical::ScalarView::Text(self.allocation.hostname@)),
                ("placement"@, crate::canonical::ScalarView::Text(self.allocation.placement@)),
                ("state"@, crate::canonical::ScalarView::Text(self.allocation.state.spec_name())),
            ],
            seq![
                crate::canonical::ScalarView::Text(self.operation_id.spec_text()),
                crate::canonical::ScalarView::Text(self.admin_key_sha256@),
                crate::canonical::ScalarView::Number(self.issued_at_ms),
            ],
        )
    }

    /// The bytes that the relay signs.
    pub open spec fn spec_signed_bytes(self) -> Result<Seq<u8>, ProtocolError> {
        framed(
            self.allocation.version,
            "bloom-relay/allocation-receipt/v1\0"@,
            crate::canonical::jcs(self.spec_document()),
        )
    }

    /// The bytes that the relay signs.
    pub fn signed_bytes(&self) -> (outcome: Result<Vec<u8>, ProtocolError>)
        ensures
            byte_result(outcome) == self.spec_signed_bytes(),
    {
        let mut head: Vec<JsonField> = Vec::new();
        head.push(number_field("version", self.allocation.version as u64));
        head.push(
            text_field("installation_id", self.allocation.installation_id.to_text().as_str()),
        );
        head.push(text_field("hostname", self.allocation.hostname.as_str()));
        head.push(text_field("placement", self.allocation.placement.as_str()));
        head.push(text_field("state", self.allocation.state.name()));
        let mut tail: Vec<JsonScalar> = Vec::new();
        tail.push(JsonScalar::Text(self.operation_id.to_text()));
        tail.push(JsonScalar::Text(self.admin_key_sha256.clone()));
        tail.push(JsonScalar::Number(self.issued_at_ms));
        let document: JsonDocument = JsonDocument::Tuple(head, tail);
        proof {
            assert(document@->Tuple_0 =~= self.spec_document()->Tuple_0);
            assert(document@->Tuple_1 =~= self.spec_document()->Tuple_1);
        }
        frame(
            self.allocation.version,
            "bloom-relay/allocation-receipt/v1\0",
            canonical_json(&document),
        )
    }

    /// What the receipt says before its signature is looked at.
    pub open spec fn spec_precheck(
        self,
        operation_id: Uuid,
        admin_key_digest: Seq<char>,
        now_ms: u64,
    ) -> Result<(), ProtocolError> {
        if !valid_hostname(self.allocation.hostname@) {
            Err(ProtocolError::InvalidHostname)
        } else if self.operation_id != operation_id || self.admin_key_sha256@ != admin_key_digest
            || self.issued_at_ms > now_ms + TRUSTED_RESPONSE_CLOCK_SKEW_MS || now_ms
            - self.issued_at_ms > MAX_RECEIPT_AGE_MS {
            Err(ProtocolError::Unauthorized)
        } else {
            Ok(())
        }
    }

    /// Checks the hostname, the operation, the admin key and the age of a receipt.
    pub fn precheck(&self, operation_id: Uuid, admin_key_digest: &str, now_ms: u64) -> (outcome:
        Result<(), ProtocolError>)
        ensures
            outcome == self.spec_precheck(operation_id, admin_key_digest@, now_ms),
    {
        match validate_hostname(self.allocation.hostname.as_str()) {
            Err(error) => {
                return Err(error);
            },
            Ok(()) => {},
        }
        if self.operation_id != operation_id || !same_text(
            self.admin_key_sha256.as_str(),
            admin_key_digest,
        ) || self.issued_at_ms > now_ms.saturating_add(TRUSTED_RESPONSE_CLOCK_SKEW_MS)
            || now_ms.saturating_sub(self.issued_at_ms) > MAX_RECEIPT_AGE_MS {
            return Err(ProtocolError::Unauthorized);
        }
        Ok(())
    }

    /// The verdict on a receipt.
    pub open spec fn spec_verify(
        self,
        relay_key: Seq<u8>,
        operation_id: Uuid,
        admin_public_key: Seq<u8>,
        now_ms: u64,
    ) -> Result<(), ProtocolError> {
        match self.spec_precheck(
            operation_id,
            crate::encoding::hex_text(crate::encoding::sha256(admin_public_key)),
            now_ms,
        ) {
            Err(error) => Err(error),
            Ok(_) => signature_verdict(relay_key, self.spec_signed_bytes(), self.signature@),
        }
    }

    /// Accepts a receipt only for the operation and the admin key that it was asked for, only
    /// while it is fresh, and only under a signature of the relay.
    pub fn verify(
        &self,
        relay_key: &VerifyingKey,
        operation_id: Uuid,
        admin_public_key: &[u8; 32],
        now_ms: u64,
    ) -> (outcome: Result<(), ProtocolError>)
        ensures
            outcome == self.spec_verify(relay_key@, operation_id, admin_public_key@, now_ms),
    {
        let digest: String = sha256_hex(admin_public_key.as_slice());
        match self.precheck(operation_id, digest.as_str(), now_ms) {
            Err(error) => Err(error),
            Ok(()) => check_signature(relay_key, self.signed_bytes(), self.signature.as_str()),
        }
    }

    /// As [`AllocationReceipt::verify`], from the bytes of the relay key; bytes that are no key
    /// accept no signature.
    pub fn verify_bytes(
        &self,
        relay_public_key: &[u8; 32],
        operation_id: Uuid,
        admin_public_key: &[u8; 32],
        now_ms: u64,
    ) -> (outcome: Result<(), ProtocolError>)
        ensures
            outcome == if crate::encoding::ed25519_point(relay_public_key@) {
                self.spec_verify(relay_public_key@, operation_id, admin_public_key@, now_ms)
            } else {
                Err(ProtocolError::InvalidSignature)
            },
    {
        match VerifyingKey::from_bytes(relay_public_key) {
            Some(key) => self.verify(&key, operation_id, admin_public_key, now_ms),
            None => Err(ProtocolError::InvalidSignature),
        }
    }

    /// Everything of a receipt but its signature.
    pub open spec fn same_content(self, other: AllocationReceipt) -> bool {
        &&& self.allocation == other.allocation
        &&& self.operation_id == other.operation_id
        &&& self.admin_key_sha256@ == other.admin_key_sha256@
        &&& self.issued_at_ms == other.issued_at_ms
    }

    /// Puts the signature of the relay on a receipt. A receipt that was signed is accepted by
    /// everyone who holds the public key of the seed, asked for the operation and the admin key
    /// that it names, and reads it within the window of its issue time.
    pub fn sign(self, seed: &[u8; 32]) -> (outcome: Result<AllocationReceipt, ProtocolError>)
        ensures
            match self.spec_signed_bytes() {
                Err(error) => outcome == Err::<AllocationReceipt, ProtocolError>(error),
                Ok(bytes) => outcome matches Ok(signed) && signed.same_content(self)
                    && signed.signature@ == crate::encoding::base64url(
                    crate::encoding::ed25519_signature(seed@, bytes),
                ),
            },
            outcome matches Ok(signed) ==> forall|operation_id: Uuid, admin: Seq<u8>, now_ms: u64|
                #[trigger] signed.spec_verify(
                    crate::encoding::ed25519_public(seed@),
                    operation_id,
                    admin,
                    now_ms,
                ) == signed.spec_precheck(
                    operation_id,
                    crate::encoding::hex_text(crate::encoding::sha256(admin)),
                    now_ms,
                ),
    {
        let bytes: Vec<u8> = match self.signed_bytes() {
            Err(error) => {
                return Err(error);
            },
            Ok(bytes) => bytes,
        };
        let signature: [u8; 64] = ed25519_sign(seed, bytes.as_slice());
        let text: String = base64url_encode(signature.as_slice());
        let signed = AllocationReceipt {
            allocation: self.allocation,
            operation_id: self.operation_id,
            admin_key_sha256: self.admin_key_sha256,
            issued_at_ms: self.issued_at_ms,
            signature: text,
        };
        proof {
            crate::encoding::law_base64url_round_trip(signature@);
            assert(signed.spec_document() == self.spec_document());
            assert(signature_bytes(signed.signature@) == Some(signature@));
        }
        Ok(signed)
    }
}

/// What is signed for a request is never what is signed for a receipt, whatever the two say: a
/// signature of one kind cannot be passed off as one of the other.
pub proof fn law_signatures_are_separated(claims: AuthClaims, receipt: AllocationReceipt)
    requires
        claims.spec_signing_bytes() is Ok,
        receipt.spec_signed_bytes() is Ok,
    ensures
        claims.spec_signing_bytes()->Ok_0 != receipt.spec_signed_bytes()->Ok_0,
{
    let control = "bloom-relay/control/v1\0"@;
    let allocation = "bloom-relay/allocation-receipt/v1\0"@;
    reveal_strlit("bloom-relay/control/v1\0");
    reveal_strlit("bloom-relay/allocation-receipt/v1\0");
    assert(vstd::utf8::is_ascii_chars(control));
    assert(vstd::utf8::is_ascii_chars(allocation));
    vstd::utf8::is_ascii_chars_encode_utf8(control);
    vstd::utf8::is_ascii_chars_encode_utf8(allocation);
    assert(control[12] == 'c' && allocation[12] == 'a');
    assert(vstd::utf8::encode_utf8(control)[12] == 'c' as u8);
    assert(vstd::utf8::encode_utf8(allocation)[12] == 'a' as u8);
    assert(claims.spec_signing_bytes()->Ok_0[12] == 'c' as u8);
    assert(receipt.spec_signed_bytes()->Ok_0[12] == 'a' as u8);
}

/// A DNS-01 answer that is to be published until it expires.
#[derive(Debug, PartialEq, Eq)]
pub struct ChallengeLease {
    pub operation_id: Uuid,
    pub txt_value: String,
    pub expires_at_ms: u64,
}

/// Asks for a scoped bearer credential.
#[derive(Debug, PartialEq, Eq)]
pub struct CredentialIssueRequest {
    pub scope: Scope,
    /// Client-generated 256-bit bearer secret; only its SHA-256 is sent.
    pub token_sha256: String,
    pub validity_seconds: u32,
}

/// Confirms a scoped bearer credential.
#[derive(Clone, Copy, Debug, PartialEq, Eq, Structural)]
pub struct CredentialIssueReceipt {
    pub version: u16,
    pub scope: Scope,
    pub generation: u64,
    pub operation_id: Uuid,
    pub expires_at_ms: u64,
}

/// Asks for the replacement of a scoped bearer credential.
#[derive(Debug, PartialEq, Eq)]
pub struct CredentialRenewRequest {
    pub version: u16,
    pub installation_id: Uuid,
    pub scope: Scope,
    pub generation: u64,
    pub operation_id: Uuid,
    pub nonce: String,
    pub expires_at_ms: u64,
    pub new_token_sha256: String,
}

/// Binds an ACME account to an installation.
#[derive(Debug, PartialEq, Eq)]
pub struct AcmeAccountRequest {
    pub account_uri: String,
}

/// Asks how far an allocation has come.
#[derive(Clone, Copy, Debug, PartialEq, Eq, Structural)]
pub struct InstallationStatusRequest {
    pub installation_id: Uuid,
}

/// Gives an installation up.
#[derive(Clone, Copy, Debug, PartialEq, Eq, Structural)]
pub struct RetireRequest {
    pub installation_id: Uuid,
}

/// Asks for the publication of a DNS-01 answer.
#[derive(Debug, PartialEq, Eq)]
pub struct DnsChallengeRequest {
    pub version: u16,
    pub installation_id: Uuid,
    pub lease: ChallengeLease,
    pub nonce: String,
    pub generation: u64,
}

/// Asks for the removal of a DNS-01 answer.
#[derive(Debug, PartialEq, Eq)]
pub struct DnsChallengeDeleteRequest {
    pub version: u16,
    pub installation_id: Uuid,
    pub lease_id: Uuid,
    pub nonce: String,
    pub generation: u64,
}

/// The public facts of a certificate.
#[derive(Debug, PartialEq, Eq)]
pub struct CertificateMetadata {
    pub hostname: String,
    pub acme_account_uri: String,
    pub key_fingerprint: String,
    pub lineage: String,
    pub not_before_ms: u64,
    pub not_after_ms: u64,
}

/// A message of the gateway on a tunnel.
#[derive(Debug, PartialEq, Eq)]
pub enum TunnelEvent {
    Open {
        version: u16,
        ticket: String,
        connection_id: Uuid,
        hostname: String,
        generation: u64,
        expires_at_ms: u64,
    },
    Heartbeat { version: u16, generation: u64 },
}

/// What a refused request is answered with.
#[derive(Clone, Copy, Debug, PartialEq, Eq, Structural)]
pub struct ErrorEnvelope {
    pub code: ErrorCode,
    pub request_id: Uuid,
    pub retryable: bool,
}

/// Why a request was refused.
#[derive(Clone, Copy, Debug, PartialEq, Eq, Structural)]
pub enum ErrorCode {
    InvalidRequest,
    Unauthorized,
    Conflict,
    ExpiredOrReplayed,
    QuotaExceeded,
    DependencyUnavailable,
    Internal,
    IncompatibleVersion,
}

impl AllocateRequest {
    /// The JSON object that the request is signed as.
    pub open spec fn spec_document(self) -> crate::canonical::DocumentView {
        crate::canonical::DocumentView::Object(
            seq![
                ("admin_public_key"@, crate::canonical::ScalarView::Text(self.admin_public_key@)),
                ("bootstrap_nonce"@, crate::canonical::ScalarView::Text(self.bootstrap_nonce@)),
                ("operation_id"@, crate::canonical::ScalarView::Text(self.operation_id.spec_text())),
            ],
        )
    }

    /// The JSON object that the request is signed as.
    pub fn document(&self) -> (document: JsonDocument)
        ensures
            document@ == self.spec_document(),
    {
        let mut fields: Vec<JsonField> = Vec::new();
        fields.push(text_field("admin_public_key", self.admin_public_key.as_str()));
        fields.push(text_field("bootstrap_nonce", self.bootstrap_nonce.as_str()));
        fields.push(text_field("operation_id", self.operation_id.to_text().as_str()));
        let document: JsonDocument = JsonDocument::Object(fields);
        proof {
            assert(document@->Object_0 =~= self.spec_document()->Object_0);
        }
        document
    }
}

impl CredentialIssueRequest {
    /// The JSON object that the request is signed as.
    pub open spec fn spec_document(self) -> crate::canonical::DocumentView {
        crate::canonical::DocumentView::Object(
            seq![
                ("scope"@, crate::canonical::ScalarView::Text(self.scope.spec_name())),
                ("token_sha256"@, crate::canonical::ScalarView::Text(self.token_sha256@)),
                ("validity_seconds"@, crate::canonical::ScalarView::Number(self.validity_seconds as u64)),
            ],
        )
    }

    /// The JSON object that the request is signed as.
    pub fn document(&self) -> (document: JsonDocument)
        ensures
            document@ == self.spec_document(),
    {
        let mut fields: Vec<JsonField> = Vec::new();
        fields.push(text_field("scope", self.scope.name()));
        fields.push(text_field("token_sha256", self.token_sha256.as_str()));
        fields.push(number_field("validity_seconds", self.validity_seconds as u64));
        let document: JsonDocument = JsonDocument::Object(fields);
        proof {
            assert(document@->Object_0 =~= self.spec_document()->Object_0);
        }
        document
    }
}

impl AcmeAccountRequest {
    /// The JSON object that the request is signed as.
    pub open spec fn spec_document(self) -> crate::canonical::DocumentView {
        crate::canonical::DocumentView::Object(
            seq![
                ("account_uri"@, crate::canonical::ScalarView::Text(self.account_uri@)),
            ],
        )
    }

    /// The JSON object that the request is signed as.
    pub fn document(&self) -> (document: JsonDocument)
        ensures
            document@ == self.spec_document(),
    {
        let mut fields: Vec<JsonField> = Vec::new();
        fields.push(text_field("account_uri", self.account_uri.as_str()));
        let document: JsonDocument = JsonDocument::Object(fields);
        proof {
            assert(document@->Object_0 =~= self.spec_document()->Object_0);
        }
        document
    }
}

impl InstallationStatusRequest {
    /// The JSON object that the request is signed as.
    pub open spec fn spec_document(self) -> crate::canonical::DocumentView {
        crate::canonical::DocumentView::Object(
            seq![
                ("installation_id"@, crate::canonical::ScalarView::Text(self.installation_id.spec_text())),
            ],
        )
    }

    /// The JSON object that the request is signed as.
    pub fn document(&self) -> (document: JsonDocument)
        ensures
            document@ == self.spec_document(),
    {
        let mut fields: Vec<JsonField> = Vec::new();
        fields.push(text_field("installation_id", self.installation_id.to_text().as_str()));
        let document: JsonDocument = JsonDocument::Object(fields);
        proof {
            assert(document@->Object_0 =~= self.spec_document()->Object_0);
        }
        document
    }
}

impl RetireRequest {
    /// The JSON object that the request is signed as.
    pub open spec fn spec_document(self) -> crate::canonical::DocumentView {
        crate::canonical::DocumentView::Object(
            seq![
                ("installation_id"@, crate::canonical::ScalarView::Text(self.installation_id.spec_text())),
            ],
        )
    }

    /// The JSON object that the request is signed as.
    pub fn document(&self) -> (document: JsonDocument)
        ensures
            document@ == self.spec_document(),
    {
        let mut fields: Vec<JsonField> = Vec::new();
        fields.push(text_field("installation_id", self.installation_id.to_text().as_str()));
        let document: JsonDocument = JsonDocument::Object(fields);
        proof {
            assert(document@->Object_0 =~= self.spec_document()->Object_0);
        }
        document
    }
}

/// A relay hostname is 26 digits and lower-case letters before the relay zone, and nothing else.
pub proof fn law_hostname_form(text: Seq<char>)
    ensures
        valid_hostname(text) <==> {
            let zone = ".relay.bloom.directory"@;
            &&& text.len() == 48
            &&& forall|i: int|
                0 <= i < 26 ==> ('0' <= #[trigger] text[i] <= '9' || 'a' <= text[i] <= 'z')
            &&& forall|i: int| 0 <= i < 22 ==> text[26 + i] == #[trigger] zone[i]
        },
{
    let zone = ".relay.bloom.directory"@;
    reveal_strlit(".relay.bloom.directory");
    assert(zone.len() == 22);
    if valid_hostname(text) {
        assert forall|i: int| 0 <= i < 26 implies ('0' <= #[trigger] text[i] <= '9' || 'a'
            <= text[i] <= 'z') by {
            assert(CharClass::LowerAlphanumeric.holds(text.take(26)[i]));
        }
        assert forall|i: int| 0 <= i < 22 implies text[26 + i] == #[trigger] zone[i] by {
            assert(text.skip(26)[i] == text[26 + i]);
        }
    }
    if text.len() == 48 && (forall|i: int|
        0 <= i < 26 ==> ('0' <= #[trigger] text[i] <= '9' || 'a' <= text[i] <= 'z')) && (forall|
        i: int,
    |
        0 <= i < 22 ==> text[26 + i] == #[trigger] zone[i]) {
        assert(text.skip(26) =~= zone);
        assert(crate::text::all_in(text.take(26), CharClass::LowerAlphanumeric));
    }
}

/// An account URI is the beginning of its environment and at least one digit after it, and no
/// longer than 200 characters.
pub proof fn law_account_uri_form(environment: AcmeEnvironment, uri: Seq<char>)
    ensures
        valid_account_uri(environment, uri) <==> {
            let start = match environment {
                AcmeEnvironment::Production => "https://acme-v02.api.letsencrypt.org/acme/acct/"@,
                AcmeEnvironment::Staging =>
                    "https://acme-staging-v02.api.letsencrypt.org/acme/acct/"@,
            };
            &&& start.len() < uri.len() <= 200
            &&& uri.take(start.len() as int) == start
            &&& forall|i: int| start.len() <= i < uri.len() ==> '0' <= #[trigger] uri[i] <= '9'
        },
{
    let start = environment.spec_prefix();
    let n = start.len() as int;
    if n <= uri.len() {
        assert(uri.take(n) =~= uri.subrange(0, n));
        if crate::text::all_in(uri.skip(n), CharClass::Digit) {
            assert forall|i: int| n <= i < uri.len() implies '0' <= #[trigger] uri[i] <= '9' by {
                assert(CharClass::Digit.holds(uri.skip(n)[i - n]));
            }
        }
        if forall|i: int| n <= i < uri.len() ==> '0' <= #[trigger] uri[i] <= '9' {
            assert forall|i: int| 0 <= i < uri.skip(n).len() implies CharClass::Digit.holds(
                #[trigger] uri.skip(n)[i],
            ) by {
                assert(uri[n + i] == uri.skip(n)[i]);
            }
        }
    }
}

/// Whether a key accepts a text as the signature of a message: 64 bytes in base64 that it accepts.
pub open spec fn signs(key: Seq<u8>, message: Seq<u8>, signature: Seq<char>) -> bool {
    crate::encoding::base64url_bytes(signature) matches Some(bytes) && bytes.len() == 64
        && crate::encoding::ed25519_accepts(key, message, bytes)
}

/// A signed request is accepted exactly where its claims name the scope and the audience that are
/// asked for, end within the next minute, are of this version and carry the digest of a body of at
/// most 16 KiB, and where the key accepts the signature over these claims for requests.
pub proof fn law_request_is_accepted_as_claimed(
    claims: AuthClaims,
    body: Seq<u8>,
    signature: Seq<char>,
    key: Seq<u8>,
    required_scope: Scope,
    audience: Seq<char>,
    now_ms: u64,
)
    ensures
        claims.spec_verify(body, signature, key, required_scope, audience, now_ms) is Ok <==> {
            &&& claims.version == 1
            &&& claims.scope == required_scope
            &&& claims.audience@ == audience
            &&& now_ms < claims.expires_at_ms && claims.expires_at_ms <= now_ms + 60_000
            &&& body.len() <= 16_384
            &&& claims.body_sha256@ == crate::encoding::hex_text(crate::encoding::sha256(body))
            &&& signs(
                key,
                vstd::utf8::encode_utf8("bloom-relay/control/v1\0"@) + crate::canonical::jcs(
                    claims.spec_document(),
                ),
                signature,
            )
        },
{
}

/// A receipt is accepted exactly where it names a relay hostname and the operation and the admin
/// key that it was asked for, is no older than five minutes and no more than five seconds ahead,
/// is of this version, and where the key of the relay accepts its signature for receipts.
pub proof fn law_receipt_is_accepted_as_stated(
    receipt: AllocationReceipt,
    relay_key: Seq<u8>,
    operation_id: Uuid,
    admin_public_key: Seq<u8>,
    now_ms: u64,
)
    ensures
        receipt.spec_verify(relay_key, operation_id, admin_public_key, now_ms) is Ok <==> {
            &&& receipt.allocation.version == 1
            &&& valid_hostname(receipt.allocation.hostname@)
            &&& receipt.operation_id == operation_id
            &&& receipt.admin_key_sha256@ == crate::encoding::hex_text(
                crate::encoding::sha256(admin_public_key),
            )
            &&& receipt.issued_at_ms <= now_ms + 5_000
            &&& now_ms <= receipt.issued_at_ms + 300_000
            &&& signs(
                relay_key,
                vstd::utf8::encode_utf8("bloom-relay/allocation-receipt/v1\0"@)
                    + crate::canonical::jcs(receipt.spec_document()),
                receipt.signature@,
            )
        },
{
}

/// The names of scopes and of states tell them apart.
pub proof fn law_names_tell_apart(
    scope: Scope,
    other_scope: Scope,
    state: AllocationState,
    other_state: AllocationState,
)
    ensures
        scope.spec_name() == other_scope.spec_name() ==> scope == other_scope,
        state.spec_name() == other_state.spec_name() ==> state == other_state,
        scope.spec_name() == "tunnel"@ <==> scope is Tunnel,
        scope.spec_name() == "dns_challenge"@ <==> scope is DnsChallenge,
        scope.spec_name() == "surface_admin"@ <==> scope is SurfaceAdmin,
        state.spec_name() == "pending_dns"@ <==> state is PendingDns,
        state.spec_name() == "dns_ready"@ <==> state is DnsReady,
        state.spec_name() == "retired"@ <==> state is Retired,
{
    reveal_strlit("surface_admin");
    reveal_strlit("tunnel");
    reveal_strlit("dns_challenge");
    reveal_strlit("pending_dns");
    reveal_strlit("dns_ready");
    reveal_strlit("retired");
    assert("surface_admin"@.len() == 13 && "surface_admin"@[0] == 's');
    assert("dns_challenge"@.len() == 13 && "dns_challenge"@[0] == 'd');
    assert("tunnel"@.len() == 6);
    assert("pending_dns"@.len() == 11);
    assert("dns_ready"@.len() == 9);
    assert("retired"@.len() == 7);
}

/// What is signed for a request says everything that it claims: two requests that are signed as
/// the same document make the same claims.
pub proof fn law_claims_are_signed_whole(one: AuthClaims, other: AuthClaims)
    requires
        one.spec_document() == other.spec_document(),
    ensures
        one.version == other.version,
        one.installation_id.spec_text() == other.installation_id.spec_text(),
        one.scope == other.scope,
        one.generation == other.generation,
        one.audience@ == other.audience@,
        one.operation_id.spec_text() == other.operation_id.spec_text(),
        one.nonce@ == other.nonce@,
        one.expires_at_ms == other.expires_at_ms,
        one.body_sha256@ == other.body_sha256@,
{
    let a = one.spec_document()->Object_0;
    let b = other.spec_document()->Object_0;
    assert(a[0].1 == b[0].1 && a[1].1 == b[1].1 && a[2].1 == b[2].1);
    assert(a[3].1 == b[3].1 && a[4].1 == b[4].1 && a[5].1 == b[5].1);
    assert(a[6].1 == b[6].1 && a[7].1 == b[7].1 && a[8].1 == b[8].1);
    law_names_tell_apart(
        one.scope,
        other.scope,
        AllocationState::Retired,
        AllocationState::Retired,
    );
}

/// What is signed for a receipt says everything that it states: two receipts that are signed as
/// the same document state the same.
pub proof fn law_receipts_are_signed_whole(one: AllocationReceipt, other: AllocationReceipt)
    requires
        one.spec_document() == other.spec_document(),
    ensures
        one.allocation.version == other.allocation.version,
        one.allocation.installation_id.spec_text() == other.allocation.installation_id.spec_text(),
        one.allocation.hostname@ == other.allocation.hostname@,
        one.allocation.placement@ == other.allocation.placement@,
        one.allocation.state == other.allocation.state,
        one.operation_id.spec_text() == other.operation_id.spec_text(),
        one.admin_key_sha256@ == other.admin_key_sha256@,
        one.issued_at_ms == other.issued_at_ms,
{
    let a = one.spec_document()->Tuple_0;
    let b = other.spec_document()->Tuple_0;
    assert(a[0].1 == b[0].1 && a[1].1 == b[1].1 && a[2].1 == b[2].1);
    assert(a[3].1 == b[3].1 && a[4].1 == b[4].1);
    let c = one.spec_document()->Tuple_1;
    let d = other.spec_document()->Tuple_1;
    assert(c[0] == d[0] && c[1] == d[1] && c[2] == d[2]);
    law_names_tell_apart(
        Scope::Tunnel,
        Scope::Tunnel,
        one.allocation.state,
        other.allocation.state,
    );
}

/// What is digested for a request says everything that its body asks for.
pub proof fn law_bodies_are_signed_whole(
    allocate: AllocateRequest,
    other_allocate: AllocateRequest,
    issue: CredentialIssueRequest,
    other_issue: CredentialIssueRequest,
    account: AcmeAccountRequest,
    other_account: AcmeAccountRequest,
    status: InstallationStatusRequest,
    other_status: InstallationStatusRequest,
    retire: RetireRequest,
    other_retire: RetireRequest,
)
    ensures
        allocate.spec_document() == other_allocate.spec_document() ==> allocate.admin_public_key@
            == other_allocate.admin_public_key@ && allocate.bootstrap_nonce@
            == other_allocate.bootstrap_nonce@ && allocate.operation_id.spec_text()
            == other_allocate.operation_id.spec_text(),
        issue.spec_document() == other_issue.spec_document() ==> issue.scope == other_issue.scope
            && issue.token_sha256@ == other_issue.token_sha256@ && issue.validity_seconds
            == other_issue.validity_seconds,
        account.spec_document() == other_account.spec_document() ==> account.account_uri@
            == other_account.account_uri@,
        status.spec_document() == other_status.spec_document()
            ==> status.installation_id.spec_text() == other_status.installation_id.spec_text(),
        retire.spec_document() == other_retire.spec_document()
            ==> retire.installation_id.spec_text() == other_retire.installation_id.spec_text(),
{
    let a = allocate.spec_document()->Object_0;
    let b = other_allocate.spec_document()->Object_0;
    if allocate.spec_document() == other_allocate.spec_document() {
        assert(a[0].1 == b[0].1 && a[1].1 == b[1].1 && a[2].1 == b[2].1);
    }
    let c = issue.spec_document()->Object_0;
    let d = other_issue.spec_document()->Object_0;
    if issue.spec_document() == other_issue.spec_document() {
        assert(c[0].1 == d[0].1 && c[1].1 == d[1].1 && c[2].1 == d[2].1);
        law_names_tell_apart(
            issue.scope,
            other_issue.scope,
            AllocationState::Retired,
            AllocationState::Retired,
        );
    }
    let e = account.spec_document()->Object_0;
    let f = other_account.spec_document()->Object_0;
    if account.spec_document() == other_account.spec_document() {
        assert(e[0].1 == f[0].1);
    }
    let g = status.spec_document()->Object_0;
    let h = other_status.spec_document()->Object_0;
    if status.spec_document() == other_status.spec_document() {
        assert(g[0].1 == h[0].1);
    }
    let k = retire.spec_document()->Object_0;
    let l = other_retire.spec_document()->Object_0;
    if retire.spec_document() == other_retire.spec_document() {
        assert(k[0].1 == l[0].1);
    }
}

/// The bounds that the relay, its gateways and its clients agree on.
pub proof fn law_bounds_are_agreed()
    ensures
        WIRE_VERSION == 1,
        MAX_CONTROL_BODY == 16_384,
        MAX_CLIENT_HELLO == 65_536,
        CLIENT_HELLO_TIMEOUT_SECS == 5,
        TICKET_TIMEOUT_SECS == 10,
        MAX_INSTALLATION_STREAMS == 128,
        MAX_GATEWAY_STREAMS == 10_000,
        BUFFER_PER_DIRECTION == 65_536,
        BUFFER_BUDGET == 268_435_456,
        STREAM_IDLE_SECS == 120,
        STREAM_LIFETIME_SECS == 1_800,
        HEARTBEAT_SECS == 15,
        DEAD_PEER_SECS == 3 * HEARTBEAT_SECS,
        TRUSTED_RESPONSE_CLOCK_SKEW_MS == 5_000,
        crate::gateway::TICKET_LIFETIME_MS == 1_000 * TICKET_TIMEOUT_SECS,
        crate::gateway::TICKET_LIFETIME_NS == 1_000_000_000 * TICKET_TIMEOUT_SECS,
        crate::gateway::LEASE_SECONDS == DEAD_PEER_SECS,
        crate::gateway::RELAY_CHUNK == 16_384,
        crate::credential::CREDENTIAL_LIFETIME_MS == 86_400_000,
        crate::credential::MAX_CREDENTIAL_FILE == 256,
        crate::admin_client::ADMIN_DEADLINE_MS == 30_000,
        crate::admin_client::ISSUED_VALIDITY_SECONDS == 86_400,
        crate::admin_client::MAX_RESPONSE == MAX_CONTROL_BODY,
        crate::control_api::THROTTLED_RETRY_SECONDS == 60,
        crate::control_api::UNAVAILABLE_RETRY_SECONDS == 5,
        crate::client_hello::READ_SIZE == 4_096,
        crate::ct_worker::MAX_BATCH == 100,
        crate::ct_worker::DELIVERY_LIMIT == 100,
        crate::smoke::MAX_CONTROL_CA == 65_536,
        crate::smoke::MAX_PUBLIC_FILE == 4_096,
        crate::smoke::NOTED_EVERY == 15,
        crate::dns::TTL_SECONDS == 300,
        crate::dns::MAX_TXT_BYTES == 255,
        crate::route53::TXT_TTL_SECONDS == 30,
{
}

/// The fields under which a request and a receipt are signed.
pub proof fn law_signed_fields_are_named(claims: AuthClaims, receipt: AllocationReceipt)
    ensures
        claims.spec_document()->Object_0.map_values(
            |field: (Seq<char>, crate::canonical::ScalarView)| field.0,
        ) == seq![
            "version"@,
            "installation_id"@,
            "scope"@,
            "generation"@,
            "audience"@,
            "operation_id"@,
            "nonce"@,
            "expires_at_ms"@,
            "body_sha256"@,
        ],
        receipt.spec_document()->Tuple_0.map_values(
            |field: (Seq<char>, crate::canonical::ScalarView)| field.0,
        ) == seq!["version"@, "installation_id"@, "hostname"@, "placement"@, "state"@],
        receipt.spec_document()->Tuple_1.len() == 3,
{
}

/// Every error is described in its own words.
pub proof fn law_errors_are_described()
    ensures
        ProtocolError::IncompatibleVersion.spec_message() == "incompatible relay protocol version"@,
        ProtocolError::InvalidEncoding.spec_message() == "invalid encoding"@,
        ProtocolError::Unauthorized.spec_message() == "unauthorized"@,
        ProtocolError::Expired.spec_message() == "expired or invalid deadline"@,
        ProtocolError::TooLarge.spec_message() == "control message too large"@,
        ProtocolError::InvalidSignature.spec_message() == "invalid signature"@,
        ProtocolError::InvalidHostname.spec_message() == "invalid hostname"@,
        ProtocolError::InvalidAcmeEnvironment.spec_message() == "invalid ACME environment"@,
        ProtocolError::InvalidAcmeAccountUri.spec_message() == "invalid ACME account URI"@,
{
}

} // verus!
