//! Broker-owned tunnel client. It can only attach to the fixed ceremony listener.

use crate::address::{IpAddress, SocketAddress};
use crate::credential::{
    credential_file_is_private, credential_of, token_is_valid, trusted_response_expiry,
    CREDENTIAL_LIFETIME_MS,
};
use crate::encoding::sha256_hex;
use crate::ids::Uuid;
use crate::numbers::to_decimal;
use crate::protocol::{
    validate_hostname, CertificateMetadata, ChallengeLease, CredentialIssueReceipt,
    CredentialRenewRequest, DnsChallengeDeleteRequest, DnsChallengeRequest, Scope, TunnelEvent,
    MAX_INSTALLATION_STREAMS, WIRE_VERSION,
};
use crate::text::{joined, same_text};
use vstd::prelude::*;

verus! {

/// How long a renewal request may be answered, in milliseconds.
pub const RENEWAL_DEADLINE_MS: u64 = 30_000;

/// The ceremony listener: port 18735 of the IPv4 loopback address.
pub open spec fn spec_ceremony_upstream() -> SocketAddress {
    SocketAddress { ip: IpAddress::V4(0x7f00_0001), port: 18735 }
}

/// The only destination that a browser stream can be attached to.
pub fn ceremony_upstream() -> (upstream: SocketAddress)
    ensures
        upstream == spec_ceremony_upstream(),
{
    SocketAddress { ip: IpAddress::V4(0x7f00_0001), port: 18735 }
}

/// Why a client call failed.
#[derive(Clone, Copy, Debug, PartialEq, Eq, Structural)]
pub enum ClientError {
    InvalidConfiguration,
    IncompatibleProtocol { offered: u16, supported: u16 },
    Transport,
    TunnelRetired,
    Rejected,
}

impl ClientError {
    /// The description of an error.
    pub open spec fn spec_message(self) -> Seq<char> {
        match self {
            ClientError::InvalidConfiguration => "invalid relay configuration"@,
            ClientError::IncompatibleProtocol { offered, supported } => {
                "incompatible relay protocol: offered "@ + crate::numbers::decimal_text(
                    offered as nat,
                ) + ", supported "@ + crate::numbers::decimal_text(supported as nat)
            },
            ClientError::Transport => "relay transport unavailable"@,
            ClientError::TunnelRetired => "relay control tunnel is draining and must reconnect"@,
            ClientError::Rejected => "relay rejected tunnel"@,
        }
    }

    /// Describes an error in words.
    pub fn message(self) -> (words: String)
        ensures
            words@ == self.spec_message(),
    {
        match self {
            ClientError::InvalidConfiguration => "invalid relay configuration".to_owned(),
            ClientError::IncompatibleProtocol { offered, supported } => {
                let mut words: String = "incompatible relay protocol: offered ".to_owned();
                words.append(to_decimal(offered as u64).as_str());
                words.append(", supported ");
                words.append(to_decimal(supported as u64).as_str());
                words
            },
            ClientError::Transport => "relay transport unavailable".to_owned(),
            ClientError::TunnelRetired => {
                "relay control tunnel is draining and must reconnect".to_owned()
            },
            ClientError::Rejected => "relay rejected tunnel".to_owned(),
        }
    }
}

/// Accepts exactly the texts that have the form of a bearer secret.
pub fn validate_token(token: &str) -> (outcome: Result<(), ClientError>)
    ensures
        outcome == if crate::credential::valid_token(token@) {
            Ok::<(), ClientError>(())
        } else {
            Err(ClientError::InvalidConfiguration)
        },
{
    if token_is_valid(token) {
        Ok(())
    } else {
        Err(ClientError::InvalidConfiguration)
    }
}

/// Accepts a credential file that only its owner has access to.
pub fn check_credential_file(is_file: bool, size: u64, mode: u32) -> (outcome: Result<
    (),
    ClientError,
>)
    ensures
        outcome == if is_file && size <= 256 && mode & 0o077u32 == 0 {
            Ok::<(), ClientError>(())
        } else {
            Err(ClientError::InvalidConfiguration)
        },
{
    if credential_file_is_private(is_file, size, mode) {
        Ok(())
    } else {
        Err(ClientError::InvalidConfiguration)
    }
}

/// Takes the bearer secret out of a credential file.
pub fn read_credential(content: &str) -> (outcome: Result<String, ClientError>)
    ensures
        match outcome {
            Ok(token) => {
                &&& token@ == crate::credential::without_line_ends(content@)
                &&& crate::credential::valid_token(token@)
            },
            Err(error) => {
                &&& error == ClientError::InvalidConfiguration
                &&& !crate::credential::valid_token(
                    crate::credential::without_line_ends(content@),
                )
            },
        },
{
    match credential_of(content) {
        Some(token) => Ok(token),
        None => Err(ClientError::InvalidConfiguration),
    }
}

/// Whether the scope is one that a scoped bearer can have.
pub open spec fn renewable(scope: Scope) -> bool {
    scope is Tunnel || scope is DnsChallenge
}

/// Whether a renewal is well-formed.
pub open spec fn valid_renewal(
    installation_id: Uuid,
    scope: Scope,
    generation: u64,
    new_token: Seq<char>,
    operation_id: Uuid,
) -> bool {
    &&& renewable(scope)
    &&& generation != 0
    &&& installation_id.bits != 0
    &&& operation_id.bits != 0
    &&& crate::credential::valid_token(new_token)
}

/// Whether a request asks for just this renewal, under a nonce.
pub open spec fn is_renewal_request(
    request: CredentialRenewRequest,
    installation_id: Uuid,
    scope: Scope,
    generation: u64,
    new_token: Seq<char>,
    operation_id: Uuid,
    nonce: Uuid,
    now_ms: u64,
) -> bool {
    &&& request.version == WIRE_VERSION
    &&& request.installation_id == installation_id
    &&& request.scope == scope
    &&& request.generation == generation
    &&& request.operation_id == operation_id
    &&& request.nonce@ == nonce.spec_text()
    &&& request.expires_at_ms == if now_ms + RENEWAL_DEADLINE_MS <= u64::MAX {
        now_ms + RENEWAL_DEADLINE_MS
    } else {
        u64::MAX as int
    }
    &&& request.new_token_sha256@ == crate::encoding::hex_text(
        crate::encoding::sha256(vstd::utf8::encode_utf8(new_token)),
    )
}

/// The control service takes a renewal request for well-formed until its deadline, and reads
/// the digest of the new secret out of it.
pub proof fn law_renewal_request_is_well_formed(
    request: CredentialRenewRequest,
    installation_id: Uuid,
    scope: Scope,
    generation: u64,
    new_token: Seq<char>,
    operation_id: Uuid,
    nonce: Uuid,
    now_ms: u64,
    later_ms: u64,
)
    requires
        valid_renewal(installation_id, scope, generation, new_token, operation_id),
        is_renewal_request(
            request,
            installation_id,
            scope,
            generation,
            new_token,
            operation_id,
            nonce,
            now_ms,
        ),
        now_ms <= later_ms < now_ms + RENEWAL_DEADLINE_MS <= u64::MAX,
    ensures
        crate::control_bearer::valid_renewal(request, later_ms),
        crate::encoding::hex_bytes(request.new_token_sha256@) == Some(
            crate::encoding::sha256(vstd::utf8::encode_utf8(new_token)),
        ),
{
    let text = nonce.spec_text();
    assert(vstd::utf8::is_ascii_chars(text));
    vstd::utf8::is_ascii_chars_encode_utf8(text);
    crate::encoding::law_hex_round_trip(
        crate::encoding::sha256(vstd::utf8::encode_utf8(new_token)),
    );
}

/// Asks for the replacement of a scoped bearer by a new one, of which only the digest is sent.
/// The caller persists the new token and the operation before the request is sent, and on an
/// ambiguous transport failure asks again with the same values.
pub fn renewal_request(
    installation_id: Uuid,
    scope: Scope,
    generation: u64,
    new_token: &str,
    operation_id: Uuid,
    nonce: Uuid,
    now_ms: u64,
) -> (outcome: Result<CredentialRenewRequest, ClientError>)
    ensures
        match outcome {
            Ok(request) => {
                &&& valid_renewal(installation_id, scope, generation, new_token@, operation_id)
                &&& is_renewal_request(
                    request,
                    installation_id,
                    scope,
                    generation,
                    new_token@,
                    operation_id,
                    nonce,
                    now_ms,
                )
            },
            Err(error) => {
                &&& error == ClientError::InvalidConfiguration
                &&& !valid_renewal(installation_id, scope, generation, new_token@, operation_id)
            },
        },
{
    let scoped: bool = match scope {
        Scope::Tunnel | Scope::DnsChallenge => true,
        Scope::SurfaceAdmin => false,
    };
    if !scoped || generation == 0 || installation_id.bits == 0 || operation_id.bits == 0 {
        return Err(ClientError::InvalidConfiguration);
    }
    if !token_is_valid(new_token) {
        return Err(ClientError::InvalidConfiguration);
    }
    Ok(
        CredentialRenewRequest {
            version: WIRE_VERSION,
            installation_id,
            scope,
            generation,
            operation_id,
            nonce: nonce.to_text(),
            expires_at_ms: now_ms.saturating_add(RENEWAL_DEADLINE_MS),
            new_token_sha256: sha256_hex(new_token.as_bytes()),
        },
    )
}

/// Asks for the replacement of a scoped bearer, under a random nonce.
pub fn fresh_renewal_request(
    installation_id: Uuid,
    scope: Scope,
    generation: u64,
    new_token: &str,
    operation_id: Uuid,
    now_ms: u64,
) -> (outcome: Result<CredentialRenewRequest, ClientError>)
    ensures
        outcome is Ok == valid_renewal(
            installation_id,
            scope,
            generation,
            new_token@,
            operation_id,
        ),
        outcome matches Ok(request) ==> exists|nonce: Uuid|
            crate::ids::is_version_4(nonce.bits) && #[trigger] is_renewal_request(
                request,
                installation_id,
                scope,
                generation,
                new_token@,
                operation_id,
                nonce,
                now_ms,
            ),
        outcome matches Err(error) ==> error == ClientError::InvalidConfiguration,
{
    renewal_request(
        installation_id,
        scope,
        generation,
        new_token,
        operation_id,
        Uuid::new_v4(),
        now_ms,
    )
}

/// Accepts the receipt of a renewal only where it answers the same operation and scope, moves
/// the generation forward and promises a believable expiry.
pub fn check_renewal(
    receipt: CredentialIssueReceipt,
    scope: Scope,
    generation: u64,
    operation_id: Uuid,
    now_ms: u64,
) -> (outcome: Result<CredentialIssueReceipt, ClientError>)
    ensures
        outcome == if receipt.version == WIRE_VERSION && receipt.scope == scope
            && receipt.operation_id == operation_id && receipt.generation > generation && now_ms
            < receipt.expires_at_ms <= now_ms + CREDENTIAL_LIFETIME_MS
            + crate::protocol::TRUSTED_RESPONSE_CLOCK_SKEW_MS {
            Ok(receipt)
        } else {
            Err(ClientError::Rejected)
        },
{
    if receipt.version != WIRE_VERSION || receipt.scope != scope || receipt.operation_id
        != operation_id || receipt.generation <= generation || !trusted_response_expiry(
        receipt.expires_at_ms,
        now_ms,
        CREDENTIAL_LIFETIME_MS,
    ) {
        return Err(ClientError::Rejected);
    }
    Ok(receipt)
}

/// A call of the control service: its path, its body where it has one, and the status that
/// means success.
#[derive(Debug, PartialEq, Eq)]
pub struct ControlCall<T> {
    pub path: String,
    pub body: Option<T>,
    pub expected: u16,
}

/// What the status of a control call means.
pub fn call_verdict(status: u16, expected: u16) -> (outcome: Result<(), ClientError>)
    ensures
        outcome == if status == expected {
            Ok::<(), ClientError>(())
        } else {
            Err(ClientError::Rejected)
        },
{
    if status == expected {
        Ok(())
    } else {
        Err(ClientError::Rejected)
    }
}

/// DNS-01 authority is scoped to the allocated installation at the control service. Broker has
/// no way to choose a DNS owner name or to change arbitrary records.
#[derive(Debug, PartialEq, Eq)]
pub struct DnsChallengeClient {
    pub installation_id: Uuid,
    pub generation: u64,
    pub credential_path: String,
    pub control_ca_pem: Vec<u8>,
}

impl DnsChallengeClient {
    /// A client for one installation.
    pub fn new(
        control_ca_pem: Vec<u8>,
        installation_id: Uuid,
        generation: u64,
        credential_path: String,
    ) -> (outcome: Result<Self, ClientError>)
        ensures
            match outcome {
                Ok(client) => {
                    &&& control_ca_pem@.len() > 0 && installation_id.bits != 0 && generation != 0
                        && credential_path@.len() > 0
                    &&& client == (DnsChallengeClient {
                        installation_id,
                        generation,
                        credential_path,
                        control_ca_pem,
                    })
                },
                Err(error) => {
                    &&& error == ClientError::InvalidConfiguration
                    &&& control_ca_pem@.len() == 0 || installation_id.bits == 0 || generation == 0
                        || credential_path@.len() == 0
                },
            },
    {
        if control_ca_pem.len() == 0 || installation_id.bits == 0 || generation == 0
            || credential_path.as_str().is_empty() {
            return Err(ClientError::InvalidConfiguration);
        }
        Ok(DnsChallengeClient { installation_id, generation, credential_path, control_ca_pem })
    }

    /// Asks for the publication of a DNS-01 answer.
    pub fn create(&self, lease: ChallengeLease, nonce: Uuid) -> (call: ControlCall<
        DnsChallengeRequest,
    >)
        ensures
            call.path@ == "/v1/dns/challenge"@,
            call.expected == 202,
            call.body matches Some(request) && request.version == WIRE_VERSION
                && request.installation_id == self.installation_id && request.generation
                == self.generation && request.nonce@ == nonce.spec_text() && request.lease == lease,
    {
        ControlCall {
            path: "/v1/dns/challenge".to_owned(),
            body: Some(
                DnsChallengeRequest {
                    version: WIRE_VERSION,
                    installation_id: self.installation_id,
                    lease,
                    nonce: nonce.to_text(),
                    generation: self.generation,
                },
            ),
            expected: 202,
        }
    }

    /// Where the readiness of a DNS-01 answer is asked for.
    pub fn ready_path(&self, lease_id: Uuid) -> (path: String)
        ensures
            path@ == "/v1/dns/challenge/"@ + self.installation_id.spec_text() + "/"@
                + lease_id.spec_text(),
    {
        let mut path: String = "/v1/dns/challenge/".to_owned();
        path.append(self.installation_id.to_text().as_str());
        path.append("/");
        path.append(lease_id.to_text().as_str());
        path
    }

    /// What the status of a readiness call means.
    pub fn ready(status: u16) -> (outcome: Result<bool, ClientError>)
        ensures
            outcome == if status == 204 {
                Ok(true)
            } else if status == 202 {
                Ok(false)
            } else {
                Err(ClientError::Rejected)
            },
    {
        if status == 204 {
            Ok(true)
        } else if status == 202 {
            Ok(false)
        } else {
            Err(ClientError::Rejected)
        }
    }

    /// Asks for the removal of a DNS-01 answer.
    pub fn delete(&self, lease_id: Uuid, nonce: Uuid) -> (call: ControlCall<
        DnsChallengeDeleteRequest,
    >)
        ensures
            call.path@ == "/v1/dns/challenge/delete"@,
            call.expected == 202,
            call.body matches Some(request) && request.version == WIRE_VERSION
                && request.installation_id == self.installation_id && request.generation
                == self.generation && request.nonce@ == nonce.spec_text() && request.lease_id
                == lease_id,
    {
        ControlCall {
            path: "/v1/dns/challenge/delete".to_owned(),
            body: Some(
                DnsChallengeDeleteRequest {
                    version: WIRE_VERSION,
                    installation_id: self.installation_id,
                    lease_id,
                    nonce: nonce.to_text(),
                    generation: self.generation,
                },
            ),
            expected: 202,
        }
    }

    /// Reports the public facts of a certificate.
    pub fn report_certificate(&self, certificate: CertificateMetadata) -> (call: ControlCall<
        CertificateMetadata,
    >)
        ensures
            call.path@ == "/v1/certificates"@,
            call.expected == 202,
            call.body == Some(certificate),
    {
        ControlCall { path: "/v1/certificates".to_owned(), body: Some(certificate), expected: 202 }
    }
}

/// Where a tunnel is made to, and for whom.
#[derive(Debug, PartialEq, Eq)]
pub struct TunnelConfig {
    pub gateway: SocketAddress,
    pub control_server_name: String,
    pub hostname: String,
    pub installation_id: Uuid,
    pub credential_path: String,
}

/// A header of a request.
#[derive(Debug, PartialEq, Eq)]
pub struct Header {
    pub name: &'static str,
    pub value: String,
}

/// The names and values of headers, in order.
pub open spec fn header_texts(headers: Seq<Header>) -> Seq<(Seq<char>, Seq<char>)> {
    headers.map_values(|header: Header| (header.name@, header.value@))
}

/// A browser stream that the gateway has announced and the client is to open.
#[derive(Debug, PartialEq, Eq)]
pub struct StreamOrder {
    pub ticket: String,
    pub generation: u64,
    pub upstream: SocketAddress,
}

/// What the loop around a tunnel was woken by.
#[derive(Clone, Copy, Debug, PartialEq, Eq)]
pub enum TunnelWake {
    /// The caller asked for the end.
    Shutdown,
    /// A task of the tunnel has ended.
    Task(TunnelTaskCompletion),
    /// A task was lost, or there is none left.
    TaskLost,
    /// The event stream delivered bytes that hold whole events.
    Frame,
    /// The event stream was silent for too long, ended, failed, or held no events.
    StreamBroken,
}

/// How a task of a tunnel has ended.
#[derive(Clone, Copy, Debug, PartialEq, Eq)]
pub enum TunnelTaskCompletion {
    Connection(Result<(), ClientError>),
    Stream(Result<(), ClientError>),
}

impl TunnelTaskCompletion {
    /// The error that ends the whole tunnel. The HTTP/2 driver owns the shared transport, so
    /// any end of it does. A draining transport retires the tunnel. Every other failure of a
    /// stream affects only the browser connection that owns it.
    pub open spec fn spec_fatal(self) -> Option<ClientError> {
        match self {
            TunnelTaskCompletion::Connection(Ok(_)) => Some(ClientError::Transport),
            TunnelTaskCompletion::Connection(Err(error)) => Some(error),
            TunnelTaskCompletion::Stream(Err(ClientError::TunnelRetired)) => Some(
                ClientError::TunnelRetired,
            ),
            TunnelTaskCompletion::Stream(_) => None,
        }
    }

    /// The error that ends the whole tunnel, where there is one.
    pub fn into_fatal_error(self) -> (fatal: Option<ClientError>)
        ensures
            fatal == self.spec_fatal(),
    {
        match self {
            TunnelTaskCompletion::Connection(Ok(())) => Some(ClientError::Transport),
            TunnelTaskCompletion::Connection(Err(error)) => Some(error),
            TunnelTaskCompletion::Stream(Err(ClientError::TunnelRetired)) => Some(
                ClientError::TunnelRetired,
            ),
            TunnelTaskCompletion::Stream(_) => None,
        }
    }
}

/// What the loop around a tunnel ends with when it was woken, where it does not go on.
pub open spec fn wake_end(wake: TunnelWake) -> Option<Result<(), ClientError>> {
    match wake {
        TunnelWake::Shutdown => Some(Ok(())),
        TunnelWake::Task(completion) => match completion.spec_fatal() {
            Some(error) => Some(Err(error)),
            None => None,
        },
        TunnelWake::TaskLost => Some(Err(ClientError::Transport)),
        TunnelWake::Frame => None,
        TunnelWake::StreamBroken => Some(Err(ClientError::Transport)),
    }
}

/// Whether the loop around a tunnel goes on, or what it ends with.
pub fn tunnel_verdict(wake: TunnelWake) -> (end: Option<Result<(), ClientError>>)
    ensures
        end == wake_end(wake),
{
    match wake {
        TunnelWake::Shutdown => Some(Ok(())),
        TunnelWake::Task(completion) => match completion.into_fatal_error() {
            Some(error) => Some(Err(error)),
            None => None,
        },
        TunnelWake::TaskLost => Some(Err(ClientError::Transport)),
        TunnelWake::Frame => None,
        TunnelWake::StreamBroken => Some(Err(ClientError::Transport)),
    }
}

/// What a failure of a stream means: a connection that is going away retires the tunnel.
pub fn map_h2_stream_error(is_go_away: bool) -> (error: ClientError)
    ensures
        error == if is_go_away {
            ClientError::TunnelRetired
        } else {
            ClientError::Transport
        },
{
    if is_go_away {
        ClientError::TunnelRetired
    } else {
        ClientError::Transport
    }
}

/// What the status of a tunnel or a stream request means.
pub fn response_verdict(status: u16) -> (outcome: Result<(), ClientError>)
    ensures
        outcome == if 200 <= status < 300 {
            Ok::<(), ClientError>(())
        } else {
            Err(ClientError::Rejected)
        },
{
    if 200 <= status && status < 300 {
        Ok(())
    } else {
        Err(ClientError::Rejected)
    }
}

/// What an event of the gateway leads to for the client of a hostname.
pub open spec fn event_outcome(host: Seq<char>, event: TunnelEvent, now_ms: u64) -> Result<
    Option<StreamOrder>,
    ClientError,
> {
    match event {
        TunnelEvent::Heartbeat { .. } => Ok(None),
        TunnelEvent::Open { version, ticket, hostname, generation, expires_at_ms, .. } => {
            if version != WIRE_VERSION {
                Err(
                    ClientError::IncompatibleProtocol { offered: version, supported: WIRE_VERSION },
                )
            } else if hostname@ != host || expires_at_ms <= now_ms {
                Ok(None)
            } else {
                Ok(Some(StreamOrder { ticket, generation, upstream: spec_ceremony_upstream() }))
            }
        },
    }
}

/// What the gateway announces, the client of the hostname takes up within ten seconds: under
/// the same ticket and generation, and towards nothing but the ceremony listener.
pub proof fn law_announced_stream_is_taken_up(
    event: TunnelEvent,
    ticket: Seq<char>,
    connection_id: Uuid,
    host: Seq<char>,
    route: crate::gateway::TunnelRoute,
    now_ms: u64,
    later_ms: u64,
)
    requires
        crate::gateway::announces(event, ticket, connection_id, host, route, now_ms),
        later_ms < now_ms + crate::gateway::TICKET_LIFETIME_MS,
    ensures
        event_outcome(host, event, later_ms) matches Ok(Some(order)) && order.ticket@ == ticket
            && order.generation == route.generation && order.upstream == spec_ceremony_upstream(),
{
}

/// No event of the gateway leads anywhere but to the ceremony listener.
pub proof fn law_destination_is_fixed(host: Seq<char>, event: TunnelEvent, now_ms: u64)
    ensures
        event_outcome(host, event, now_ms) matches Ok(Some(order)) ==> order.upstream
            == spec_ceremony_upstream(),
{
}

/// A tunnel client that is bound to the ceremony listener.
pub struct TunnelClient {
    config: TunnelConfig,
    upstream: SocketAddress,
}

impl TunnelClient {
    #[verifier::type_invariant]
    spec fn well_formed(self) -> bool {
        &&& self.upstream == spec_ceremony_upstream()
        &&& crate::protocol::valid_hostname(self.config.hostname@)
    }

    /// Where the tunnel is made to, and for whom.
    pub closed spec fn config(self) -> TunnelConfig {
        self.config
    }

    /// A client for one hostname, where the destination is the ceremony listener.
    pub fn new(config: TunnelConfig, upstream: SocketAddress) -> (outcome: Result<Self, ClientError>)
        ensures
            ({
                let valid = crate::protocol::valid_hostname(config.hostname@) && upstream
                    == spec_ceremony_upstream() && config.credential_path@.len() > 0
                    && config.control_server_name@.len() > 0;
                match outcome {
                    Ok(client) => valid && client.config() == config,
                    Err(error) => !valid && error == ClientError::InvalidConfiguration,
                }
            }),
    {
        if validate_hostname(config.hostname.as_str()).is_err() {
            return Err(ClientError::InvalidConfiguration);
        }
        if upstream != ceremony_upstream() || config.credential_path.as_str().is_empty()
            || config.control_server_name.as_str().is_empty() {
            return Err(ClientError::InvalidConfiguration);
        }
        Ok(TunnelClient { config, upstream })
    }

    /// The address that the tunnel is opened at.
    pub fn tunnel_uri(&self) -> (uri: String)
        ensures
            uri@ == "https://"@ + self.config().control_server_name@ + "/v1/tunnel"@,
    {
        let mut uri: String = "https://".to_owned();
        uri.append(self.config.control_server_name.as_str());
        uri.append("/v1/tunnel");
        uri
    }

    /// The headers that the tunnel is opened with.
    pub fn tunnel_headers(&self, credential: &str) -> (headers: Vec<Header>)
        ensures
            header_texts(headers@) == seq![
                ("x-bloom-version"@, crate::numbers::decimal_text(WIRE_VERSION as nat)),
                ("x-bloom-installation"@, self.config().installation_id.spec_text()),
                ("x-bloom-hostname"@, self.config().hostname@),
                ("authorization"@, "Bearer "@ + credential@),
            ],
    {
        let mut headers: Vec<Header> = Vec::new();
        headers.push(Header { name: "x-bloom-version", value: to_decimal(WIRE_VERSION as u64) });
        headers.push(
            Header { name: "x-bloom-installation", value: self.config.installation_id.to_text() },
        );
        headers.push(
            Header { name: "x-bloom-hostname", value: self.config.hostname.as_str().to_owned() },
        );
        headers.push(Header { name: "authorization", value: joined("Bearer ", credential) });
        proof {
            assert(header_texts(headers@) =~= seq![
                ("x-bloom-version"@, crate::numbers::decimal_text(WIRE_VERSION as nat)),
                ("x-bloom-installation"@, self.config().installation_id.spec_text()),
                ("x-bloom-hostname"@, self.config().hostname@),
                ("authorization"@, "Bearer "@ + credential@),
            ]);
        }
        headers
    }

    /// Decides about an event of the gateway. Only an announcement in this version, for exactly
    /// this hostname and before its expiry leads to a stream, and the stream leads nowhere but
    /// to the ceremony listener.
    pub fn on_event(&self, event: TunnelEvent, now_ms: u64) -> (outcome: Result<
        Option<StreamOrder>,
        ClientError,
    >)
        ensures
            outcome == event_outcome(self.config().hostname@, event, now_ms),
    {
        proof {
            use_type_invariant(self);
        }
        match event {
            TunnelEvent::Heartbeat { .. } => Ok(None),
            TunnelEvent::Open { version, ticket, hostname, generation, expires_at_ms, .. } => {
                if version != WIRE_VERSION {
                    return Err(
                        ClientError::IncompatibleProtocol {
                            offered: version,
                            supported: WIRE_VERSION,
                        },
                    );
                }
                if !same_text(hostname.as_str(), self.config.hostname.as_str()) || expires_at_ms
                    <= now_ms {
                    return Ok(None);
                }
                Ok(Some(StreamOrder { ticket, generation, upstream: self.upstream }))
            },
        }
    }

    /// The address that a stream is opened at.
    pub fn stream_uri(&self) -> (uri: String)
        ensures
            uri@ == "https://"@ + self.config().hostname@,
    {
        joined("https://", self.config.hostname.as_str())
    }

    /// The headers that a stream is opened with.
    pub fn stream_headers(&self, order: &StreamOrder, credential: &str) -> (headers: Vec<Header>)
        ensures
            header_texts(headers@) == seq![
                ("x-bloom-version"@, crate::numbers::decimal_text(WIRE_VERSION as nat)),
                ("x-bloom-installation"@, self.config().installation_id.spec_text()),
                ("x-bloom-hostname"@, self.config().hostname@),
                ("x-bloom-generation"@, crate::numbers::decimal_text(order.generation as nat)),
                ("authorization"@, "Bearer "@ + credential@),
                ("x-bloom-ticket"@, order.ticket@),
            ],
    {
        let mut headers: Vec<Header> = Vec::new();
        headers.push(Header { name: "x-bloom-version", value: to_decimal(WIRE_VERSION as u64) });
        headers.push(
            Header { name: "x-bloom-installation", value: self.config.installation_id.to_text() },
        );
        headers.push(
            Header { name: "x-bloom-hostname", value: self.config.hostname.as_str().to_owned() },
        );
        headers.push(Header { name: "x-bloom-generation", value: to_decimal(order.generation) });
        headers.push(Header { name: "authorization", value: joined("Bearer ", credential) });
        headers.push(Header { name: "x-bloom-ticket", value: order.ticket.as_str().to_owned() });
        proof {
            assert(header_texts(headers@) =~= seq![
                ("x-bloom-version"@, crate::numbers::decimal_text(WIRE_VERSION as nat)),
                ("x-bloom-installation"@, self.config().installation_id.spec_text()),
                ("x-bloom-hostname"@, self.config().hostname@),
                ("x-bloom-generation"@, crate::numbers::decimal_text(order.generation as nat)),
                ("authorization"@, "Bearer "@ + credential@),
                ("x-bloom-ticket"@, order.ticket@),
            ]);
        }
        headers
    }
}

/// How far a tunnel has come.
#[derive(Clone, Copy, Debug, PartialEq, Eq, Structural)]
pub enum TunnelPhase {
    /// The gateway has not answered yet.
    Opening,
    /// The gateway has accepted: streams can be taken up.
    Ready,
    /// The tunnel is over, and so are its streams.
    Ended,
}

/// A tunnel from its opening to its end, and how many streams are open in it.
#[derive(Clone, Copy, Debug, PartialEq, Eq, Structural)]
pub struct TunnelRun {
    pub phase: TunnelPhase,
    pub streams: usize,
}

impl TunnelRun {
    /// There are never more streams than an installation may have, and none but in a tunnel that
    /// stands.
    pub open spec fn well_formed(self) -> bool {
        &&& self.streams <= MAX_INSTALLATION_STREAMS
        &&& self.phase != TunnelPhase::Ready ==> self.streams == 0
    }

    /// A tunnel that is over.
    pub open spec fn over() -> TunnelRun {
        TunnelRun { phase: TunnelPhase::Ended, streams: 0 }
    }

    /// The tunnel after the gateway has answered its opening.
    pub open spec fn answered(self, status: u16) -> TunnelRun {
        if self.phase != TunnelPhase::Opening {
            self
        } else if 200 <= status < 300 {
            TunnelRun { phase: TunnelPhase::Ready, ..self }
        } else {
            TunnelRun::over()
        }
    }

    /// The tunnel after its loop was woken: a stream that has ended makes room for another.
    pub open spec fn woken(self, wake: TunnelWake) -> TunnelRun {
        if self.phase != TunnelPhase::Ready {
            self
        } else if wake_end(wake) is Some {
            TunnelRun::over()
        } else if wake matches TunnelWake::Task(TunnelTaskCompletion::Stream(_)) && self.streams
            > 0 {
            TunnelRun { streams: (self.streams - 1) as usize, ..self }
        } else {
            self
        }
    }

    /// The tunnel after an event of the gateway, and what is to be done: a stream is taken up
    /// only where there is room for it, and else passed over.
    pub open spec fn informed(self, host: Seq<char>, event: TunnelEvent, now_ms: u64) -> (
        TunnelRun,
        Result<Option<StreamOrder>, ClientError>,
    ) {
        match event_outcome(host, event, now_ms) {
            Err(error) => (TunnelRun::over(), Err(error)),
            Ok(None) => (self, Ok(None)),
            Ok(Some(order)) => if self.streams < MAX_INSTALLATION_STREAMS {
                (TunnelRun { streams: (self.streams + 1) as usize, ..self }, Ok(Some(order)))
            } else {
                (self, Ok(None))
            },
        }
    }

    /// A tunnel that is being opened.
    pub fn new() -> (run: Self)
        ensures
            run == (TunnelRun { phase: TunnelPhase::Opening, streams: 0 }),
            run.well_formed(),
    {
        TunnelRun { phase: TunnelPhase::Opening, streams: 0 }
    }

    /// Whether streams can be taken up.
    pub fn is_ready(&self) -> (ready: bool)
        ensures
            ready == (self.phase == TunnelPhase::Ready),
    {
        self.phase == TunnelPhase::Ready
    }

    /// Takes the answer of the gateway to the opening in.
    pub fn on_response(&mut self, status: u16) -> (outcome: Result<(), ClientError>)
        requires
            old(self).well_formed(),
            old(self).phase == TunnelPhase::Opening,
        ensures
            final(self).well_formed(),
            *final(self) == old(self).answered(status),
            outcome == if 200 <= status < 300 {
                Ok::<(), ClientError>(())
            } else {
                Err(ClientError::Rejected)
            },
    {
        let outcome: Result<(), ClientError> = response_verdict(status);
        if outcome.is_ok() {
            self.phase = TunnelPhase::Ready;
        } else {
            self.phase = TunnelPhase::Ended;
        }
        outcome
    }

    /// Takes what the loop was woken by in, and tells what it ends with, where it does not go on.
    pub fn on_wake(&mut self, wake: TunnelWake) -> (end: Option<Result<(), ClientError>>)
        requires
            old(self).well_formed(),
            old(self).phase == TunnelPhase::Ready,
        ensures
            final(self).well_formed(),
            *final(self) == old(self).woken(wake),
            end == wake_end(wake),
    {
        let end: Option<Result<(), ClientError>> = tunnel_verdict(wake);
        if end.is_some() {
            self.phase = TunnelPhase::Ended;
            self.streams = 0;
        } else {
            match wake {
                TunnelWake::Task(TunnelTaskCompletion::Stream(_)) => {
                    if self.streams > 0 {
                        self.streams = self.streams - 1;
                    }
                },
                _ => {},
            }
        }
        end
    }

    /// Takes an event of the gateway in, and tells which stream is to be opened.
    pub fn on_event(&mut self, client: &TunnelClient, event: TunnelEvent, now_ms: u64) -> (outcome:
        Result<Option<StreamOrder>, ClientError>)
        requires
            old(self).well_formed(),
            old(self).phase == TunnelPhase::Ready,
        ensures
            final(self).well_formed(),
            (*final(self), outcome) == old(self).informed(
                client.config().hostname@,
                event,
                now_ms,
            ),
    {
        match client.on_event(event, now_ms) {
            Err(error) => {
                self.phase = TunnelPhase::Ended;
                self.streams = 0;
                Err(error)
            },
            Ok(None) => Ok(None),
            Ok(Some(order)) => {
                if self.streams < MAX_INSTALLATION_STREAMS {
                    self.streams = self.streams + 1;
                    Ok(Some(order))
                } else {
                    Ok(None)
                }
            },
        }
    }
}

/// A tunnel is ready only once the gateway has accepted it, and never again once it is over:
/// nothing but a successful answer to its opening makes it ready.
pub proof fn law_ready_only_after_success(
    run: TunnelRun,
    status: u16,
    wake: TunnelWake,
    host: Seq<char>,
    event: TunnelEvent,
    now_ms: u64,
)
    ensures
        run.phase != TunnelPhase::Ready && run.answered(status).phase == TunnelPhase::Ready
            <==> run.phase == TunnelPhase::Opening && 200 <= status < 300,
        run.phase != TunnelPhase::Ready ==> run.woken(wake).phase != TunnelPhase::Ready
            && run.informed(host, event, now_ms).0.phase != TunnelPhase::Ready,
        run.phase == TunnelPhase::Ended ==> run.answered(status).phase == TunnelPhase::Ended
            && run.woken(wake).phase == TunnelPhase::Ended && run.informed(
            host,
            event,
            now_ms,
        ).0.phase == TunnelPhase::Ended,
{
}

/// Where the public health of a hostname is probed.
pub fn probe_url(hostname: &str) -> (outcome: Result<String, ClientError>)
    ensures
        match outcome {
            Ok(url) => crate::protocol::valid_hostname(hostname@) && url@ == "https://"@ + hostname@
                + "/.well-known/bloom/relay-health"@,
            Err(error) => !crate::protocol::valid_hostname(hostname@) && error
                == ClientError::InvalidConfiguration,
        },
{
    if validate_hostname(hostname).is_err() {
        return Err(ClientError::InvalidConfiguration);
    }
    let mut url: String = joined("https://", hostname);
    url.append("/.well-known/bloom/relay-health");
    Ok(url)
}

/// What the status of a health probe means: only an empty success counts.
pub fn probe_verdict(status: u16) -> (outcome: Result<(), ClientError>)
    ensures
        outcome == if status == 204 {
            Ok::<(), ClientError>(())
        } else {
            Err(ClientError::Rejected)
        },
{
    call_verdict(status, 204)
}

/// A credential can be replaced where it is one of tunnels or DNS-01 answers, every identifier and
/// the generation are given, and the new secret can be one.
pub proof fn law_renewal_is_asked_in_full(
    installation_id: Uuid,
    scope: Scope,
    generation: u64,
    new_token: Seq<char>,
    operation_id: Uuid,
)
    ensures
        valid_renewal(installation_id, scope, generation, new_token, operation_id) <==> {
            &&& !(scope is SurfaceAdmin)
            &&& generation > 0
            &&& installation_id.bits > 0
            &&& operation_id.bits > 0
            &&& crate::credential::valid_token(new_token)
        },
{
}

/// A request for a replacement carries this version, what was asked for, and the digest of the new
/// secret, never the secret itself, and ends in half a minute.
pub proof fn law_renewal_request_says_what_was_asked(
    request: CredentialRenewRequest,
    installation_id: Uuid,
    scope: Scope,
    generation: u64,
    new_token: Seq<char>,
    operation_id: Uuid,
    nonce: Uuid,
    now_ms: u64,
)
    requires
        is_renewal_request(
            request,
            installation_id,
            scope,
            generation,
            new_token,
            operation_id,
            nonce,
            now_ms,
        ),
    ensures
        request.version == 1,
        request.installation_id == installation_id,
        request.scope == scope,
        request.generation == generation,
        request.operation_id == operation_id,
        request.nonce@ == nonce.spec_text(),
        request.new_token_sha256@ == crate::encoding::hex_text(
            crate::encoding::sha256(vstd::utf8::encode_utf8(new_token)),
        ),
        now_ms + 30_000 <= u64::MAX ==> request.expires_at_ms == now_ms + 30_000,
        now_ms + 30_000 > u64::MAX ==> request.expires_at_ms == u64::MAX,
{
}

/// A stream is taken up exactly for an announcement of this version, of the hostname of the
/// client, that is not over: under its ticket and generation, towards port 18735 of the machine
/// itself. An announcement of another version ends the tunnel; everything else is passed over.
pub proof fn law_stream_is_taken_up_as_announced(host: Seq<char>, event: TunnelEvent, now_ms: u64)
    ensures
        ({
            let outcome = event_outcome(host, event, now_ms);
            match event {
                TunnelEvent::Heartbeat { version, generation } => outcome == Ok::<
                    Option<StreamOrder>,
                    ClientError,
                >(None),
                TunnelEvent::Open {
                    version,
                    ticket,
                    connection_id,
                    hostname,
                    generation,
                    expires_at_ms,
                } => {
                    let taken = version == 1 && hostname@ == host && now_ms < expires_at_ms;
                    &&& outcome is Err <==> version != 1
                    &&& outcome matches Err(error) ==> error == (
                    ClientError::IncompatibleProtocol { offered: version, supported: 1 })
                    &&& outcome is Ok ==> (outcome->Ok_0 is Some <==> taken)
                    &&& outcome is Ok && outcome->Ok_0 is Some ==> {
                        let order = outcome->Ok_0->0;
                        &&& order.ticket == ticket
                        &&& order.generation == generation
                        &&& order.upstream.ip == IpAddress::V4(0x7f00_0001)
                        &&& order.upstream.port == 18_735
                    }
                },
            }
        }),
{
}

/// A tunnel goes on where events came in or a stream ended otherwise than by its retirement, and
/// ends in every other case: well where the caller asked for it, as retired where a stream was
/// told so, as its connection failed where it did, and as a failure of transport otherwise.
pub proof fn law_tunnel_ends_for_a_reason(wake: TunnelWake)
    ensures
        wake_end(wake) is None <==> wake is Frame || (wake matches TunnelWake::Task(
            TunnelTaskCompletion::Stream(result),
        ) && result != Err::<(), ClientError>(ClientError::TunnelRetired)),
        wake_end(wake) == Some(Ok::<(), ClientError>(())) <==> wake is Shutdown,
        wake is TaskLost || wake is StreamBroken ==> wake_end(wake) == Some(
            Err::<(), ClientError>(ClientError::Transport),
        ),
        wake matches TunnelWake::Task(TunnelTaskCompletion::Connection(result)) ==> wake_end(wake)
            == Some(
            Err::<(), ClientError>(
                match result {
                    Ok(_) => ClientError::Transport,
                    Err(error) => error,
                },
            ),
        ),
        wake matches TunnelWake::Task(TunnelTaskCompletion::Stream(result)) && result == Err::<
            (),
            ClientError,
        >(ClientError::TunnelRetired) ==> wake_end(wake) == Some(
            Err::<(), ClientError>(ClientError::TunnelRetired),
        ),
{
}

/// The count of streams goes up by one with each that is taken up, down by one with each that
/// ends, to nothing with the tunnel, and never above 128: what is announced beyond that is passed
/// over. A tunnel is ready only by an answer of success, and is over by any other.
pub proof fn law_streams_are_counted(
    run: TunnelRun,
    host: Seq<char>,
    event: TunnelEvent,
    wake: TunnelWake,
    status: u16,
    now_ms: u64,
)
    requires
        run.well_formed(),
    ensures
        run.phase is Opening ==> if 200 <= status < 300 {
            run.answered(status).phase is Ready && run.answered(status).streams == run.streams
        } else {
            run.answered(status).phase is Ended && run.answered(status).streams == 0
        },
        run.phase is Ready && wake_end(wake) is Some ==> run.woken(wake).phase is Ended
            && run.woken(wake).streams == 0,
        run.phase is Ready && wake_end(wake) is None ==> run.woken(wake).phase is Ready
            && run.woken(wake).streams == if wake is Task && run.streams > 0 {
            run.streams - 1
        } else {
            run.streams as int
        },
        ({
            let wanted = event_outcome(host, event, now_ms);
            let (after, told) = run.informed(host, event, now_ms);
            let room = run.streams < 128;
            &&& wanted is Err ==> told == wanted && after.phase is Ended && after.streams == 0
            &&& wanted is Ok && wanted->Ok_0 is Some && room ==> told == wanted && after.streams
                == run.streams + 1 && after.phase == run.phase
            &&& wanted is Ok && (wanted->Ok_0 is None || !room) ==> told == Ok::<
                Option<StreamOrder>,
                ClientError,
            >(None) && after == run
        }),
        run.streams <= 128,
{
}

/// Every error is described in its own words, and the versions of an incompatible peer are named.
pub proof fn law_errors_are_described(offered: u16, supported: u16)
    ensures
        ClientError::InvalidConfiguration.spec_message() == "invalid relay configuration"@,
        ClientError::Transport.spec_message() == "relay transport unavailable"@,
        ClientError::TunnelRetired.spec_message()
            == "relay control tunnel is draining and must reconnect"@,
        ClientError::Rejected.spec_message() == "relay rejected tunnel"@,
        (ClientError::IncompatibleProtocol { offered, supported }).spec_message()
            == "incompatible relay protocol: offered "@ + crate::numbers::decimal_text(
            offered as nat,
        ) + ", supported "@ + crate::numbers::decimal_text(supported as nat),
{
}

} // verus!
