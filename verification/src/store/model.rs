//! The rows of the relay database and what they stand for.

use crate::address::IpAddress;
use crate::id_table::IdTable;
use crate::ids::Uuid;
use crate::protocol::{AllocationState, Scope};
use crate::text::same_text;
use crate::text_map::TextMap;
use vstd::prelude::*;

verus! {

/// The largest generation that the database can hold.
pub const MAX_GENERATION: u64 = 9_223_372_036_854_775_807;

/// Why a store operation failed.
#[derive(Clone, Copy, Debug, PartialEq, Eq, Structural)]
pub enum StoreError {
    /// The database refused the change: a key is taken, or a counter is exhausted.
    Unavailable,
    /// The operation contradicts an earlier one, or the installation is not in a state for it.
    Conflict,
    InvalidRequest,
    Unauthorized,
}

impl StoreError {
    /// The description of an error.
    pub open spec fn spec_message(self) -> Seq<char> {
        match self {
            StoreError::Unavailable => "store unavailable"@,
            StoreError::Conflict => "operation conflicts with prior request"@,
            StoreError::InvalidRequest => "invalid request"@,
            StoreError::Unauthorized => "unauthorized"@,
        }
    }

    /// Describes an error in words.
    pub fn message(self) -> (words: &'static str)
        ensures
            words@ == self.spec_message(),
    {
        match self {
            StoreError::Unavailable => "store unavailable",
            StoreError::Conflict => "operation conflicts with prior request",
            StoreError::InvalidRequest => "invalid request",
            StoreError::Unauthorized => "unauthorized",
        }
    }
}

/// A scoped bearer credential; only the digest of the secret is kept.
#[derive(Clone, Copy, Debug, PartialEq, Eq)]
pub struct Credential {
    pub scope: Scope,
    pub generation: u64,
    pub token_hash: [u8; 32],
    pub expires_at_ms: u64,
    pub revoked: bool,
}

/// What a credential stands for.
#[verifier::ext_equal]
pub struct CredentialView {
    pub scope: Scope,
    pub generation: u64,
    pub token_hash: Seq<u8>,
    pub expires_at_ms: u64,
    pub revoked: bool,
}

impl View for Credential {
    type V = CredentialView;

    open spec fn view(&self) -> CredentialView {
        CredentialView {
            scope: self.scope,
            generation: self.generation,
            token_hash: self.token_hash@,
            expires_at_ms: self.expires_at_ms,
            revoked: self.revoked,
        }
    }
}

/// The right of a gateway to serve an installation for a while.
#[derive(Debug, PartialEq, Eq)]
pub struct TunnelLease {
    pub generation: u64,
    pub gateway_id: String,
    pub expires_at_ms: u64,
}

/// What a lease stands for.
#[verifier::ext_equal]
pub struct LeaseView {
    pub generation: u64,
    pub gateway_id: Seq<char>,
    pub expires_at_ms: u64,
}

impl View for TunnelLease {
    type V = LeaseView;

    open spec fn view(&self) -> LeaseView {
        LeaseView {
            generation: self.generation,
            gateway_id: self.gateway_id@,
            expires_at_ms: self.expires_at_ms,
        }
    }
}

/// A DNS-01 answer of an installation.
#[derive(Debug, PartialEq, Eq)]
pub struct Challenge {
    pub lease_id: Uuid,
    pub txt_value: String,
    pub generation: u64,
    pub expires_at_ms: u64,
    pub ready: bool,
    pub deleted: bool,
}

/// What a DNS-01 answer stands for.
#[verifier::ext_equal]
pub struct ChallengeView {
    pub lease_id: Uuid,
    pub txt_value: Seq<char>,
    pub generation: u64,
    pub expires_at_ms: u64,
    pub ready: bool,
    pub deleted: bool,
}

impl View for Challenge {
    type V = ChallengeView;

    open spec fn view(&self) -> ChallengeView {
        ChallengeView {
            lease_id: self.lease_id,
            txt_value: self.txt_value@,
            generation: self.generation,
            expires_at_ms: self.expires_at_ms,
            ready: self.ready,
            deleted: self.deleted,
        }
    }
}

impl ChallengeView {
    /// Neither deleted nor expired.
    pub open spec fn live(self, now_ms: u64) -> bool {
        !self.deleted && self.expires_at_ms > now_ms
    }
}

/// A certificate that Broker has reported as its own.
#[derive(Debug, PartialEq, Eq)]
pub struct ExpectedCertificate {
    pub fingerprint: String,
    pub lineage: String,
    pub not_before_ms: u64,
    pub not_after_ms: u64,
}

/// What a reported certificate stands for.
#[verifier::ext_equal]
pub struct CertificateView {
    pub fingerprint: Seq<char>,
    pub lineage: Seq<char>,
    pub not_before_ms: u64,
    pub not_after_ms: u64,
}

impl View for ExpectedCertificate {
    type V = CertificateView;

    open spec fn view(&self) -> CertificateView {
        CertificateView {
            fingerprint: self.fingerprint@,
            lineage: self.lineage@,
            not_before_ms: self.not_before_ms,
            not_after_ms: self.not_after_ms,
        }
    }
}

/// An installation with everything that belongs to it alone.
#[derive(Debug, PartialEq, Eq)]
pub struct Installation {
    pub hostname: String,
    pub admin_public_key: [u8; 32],
    pub placement: String,
    pub state: AllocationState,
    pub generation: u64,
    pub acme_account_uri: Option<String>,
    pub created_at_ms: u64,
    pub credentials: Vec<Credential>,
    pub lease: Option<TunnelLease>,
    pub challenges: Vec<Challenge>,
    pub inventory: Vec<ExpectedCertificate>,
}

/// What an installation stands for.
#[verifier::ext_equal]
pub struct InstallationView {
    pub hostname: Seq<char>,
    pub admin_public_key: Seq<u8>,
    pub placement: Seq<char>,
    pub state: AllocationState,
    pub generation: u64,
    pub acme_account_uri: Option<Seq<char>>,
    pub created_at_ms: u64,
    pub credentials: Seq<CredentialView>,
    pub lease: Option<LeaseView>,
    pub challenges: Seq<ChallengeView>,
    pub inventory: Seq<CertificateView>,
}

/// What an optional text stands for.
pub open spec fn text_option(text: Option<String>) -> Option<Seq<char>> {
    match text {
        Some(found) => Some(found@),
        None => None,
    }
}

/// What an optional lease stands for.
pub open spec fn lease_option(lease: Option<TunnelLease>) -> Option<LeaseView> {
    match lease {
        Some(found) => Some(found@),
        None => None,
    }
}

impl View for Installation {
    type V = InstallationView;

    open spec fn view(&self) -> InstallationView {
        InstallationView {
            hostname: self.hostname@,
            admin_public_key: self.admin_public_key@,
            placement: self.placement@,
            state: self.state,
            generation: self.generation,
            acme_account_uri: text_option(self.acme_account_uri),
            created_at_ms: self.created_at_ms,
            credentials: self.credentials@.map_values(|row: Credential| row@),
            lease: lease_option(self.lease),
            challenges: self.challenges@.map_values(|row: Challenge| row@),
            inventory: self.inventory@.map_values(|row: ExpectedCertificate| row@),
        }
    }
}

impl InstallationView {
    /// Generations grow along the credentials and never pass that of the installation, at most
    /// one credential of a scope is not revoked, the lease is no newer than the installation,
    /// and a retired installation has none.
    pub open spec fn valid(self) -> bool {
        &&& crate::protocol::valid_hostname(self.hostname)
        &&& self.generation <= MAX_GENERATION
        &&& forall|i: int, j: int|
            0 <= i < j < self.credentials.len() ==> (#[trigger] self.credentials[i]).generation < (
            #[trigger] self.credentials[j]).generation
        &&& forall|i: int|
            0 <= i < self.credentials.len() ==> (#[trigger] self.credentials[i]).generation
                <= self.generation
        &&& forall|i: int, j: int|
            0 <= i < j < self.credentials.len() && (#[trigger] self.credentials[i]).scope == (
            #[trigger] self.credentials[j]).scope ==> self.credentials[i].revoked
                || self.credentials[j].revoked
        &&& self.lease matches Some(lease) ==> lease.generation <= self.generation
        &&& self.state == AllocationState::Retired ==> self.lease is None
        &&& forall|i: int, j: int|
            0 <= i < j < self.challenges.len() ==> (#[trigger] self.challenges[i]).lease_id != (
            #[trigger] self.challenges[j]).lease_id
        &&& forall|i: int, j: int|
            0 <= i < j < self.inventory.len() ==> (#[trigger] self.inventory[i]).fingerprint != (
            #[trigger] self.inventory[j]).fingerprint
    }
}

/// What an operation did.
#[derive(Clone, Copy, Debug, PartialEq, Eq, Structural)]
pub enum OperationKind {
    Allocate,
    Issue(Scope),
    Renew(Scope),
    Relocate,
    Retire,
}

/// An operation that was carried out, kept so that a retry gets the same answer.
#[derive(Clone, Copy, Debug, PartialEq, Eq)]
pub struct Operation {
    pub installation_id: Uuid,
    pub kind: OperationKind,
    pub request_digest: [u8; 32],
    pub generation: u64,
    pub expires_at_ms: u64,
    pub created_at_ms: u64,
}

/// What an operation stands for.
#[verifier::ext_equal]
pub struct OperationView {
    pub installation_id: Uuid,
    pub kind: OperationKind,
    pub request_digest: Seq<u8>,
    pub generation: u64,
    pub expires_at_ms: u64,
    pub created_at_ms: u64,
}

impl View for Operation {
    type V = OperationView;

    open spec fn view(&self) -> OperationView {
        OperationView {
            installation_id: self.installation_id,
            kind: self.kind,
            request_digest: self.request_digest@,
            generation: self.generation,
            expires_at_ms: self.expires_at_ms,
            created_at_ms: self.created_at_ms,
        }
    }
}

/// DNS work that is owed to an installation.
#[derive(Clone, Copy, Debug, PartialEq, Eq, Structural)]
pub enum JobKind {
    PublishName,
    RemoveRecords,
    PublishTxt(Uuid),
    RemoveTxt(Uuid),
}

impl JobKind {
    /// The name of the work in the database.
    pub open spec fn spec_name(self) -> Seq<char> {
        match self {
            JobKind::PublishName => "publish_name"@,
            JobKind::RemoveRecords => "remove_records"@,
            JobKind::PublishTxt(_) => "publish_txt"@,
            JobKind::RemoveTxt(_) => "remove_txt"@,
        }
    }

    /// The name of the work in the database.
    pub fn name(self) -> (name: &'static str)
        ensures
            name@ == self.spec_name(),
    {
        match self {
            JobKind::PublishName => "publish_name",
            JobKind::RemoveRecords => "remove_records",
            JobKind::PublishTxt(_) => "publish_txt",
            JobKind::RemoveTxt(_) => "remove_txt",
        }
    }
}

/// The work that a worker may do: on the records that serve names, or on DNS-01 answers.
#[derive(Clone, Copy, Debug, PartialEq, Eq, Structural)]
pub enum DnsJobScope {
    Serving,
    Challenge,
}

impl DnsJobScope {
    /// Whether the work is in the scope.
    pub open spec fn covers(self, kind: JobKind) -> bool {
        match kind {
            JobKind::PublishName | JobKind::RemoveRecords => self == DnsJobScope::Serving,
            JobKind::PublishTxt(_) | JobKind::RemoveTxt(_) => self == DnsJobScope::Challenge,
        }
    }

    /// Tells whether the work is in the scope.
    pub fn admits(self, kind: JobKind) -> (admitted: bool)
        ensures
            admitted == self.covers(kind),
    {
        match kind {
            JobKind::PublishName | JobKind::RemoveRecords => self == DnsJobScope::Serving,
            JobKind::PublishTxt(_) | JobKind::RemoveTxt(_) => self == DnsJobScope::Challenge,
        }
    }
}

/// The work that a row of the outbox names: the name of its kind, and the lease in its payload.
pub open spec fn kind_named(kind: Seq<char>, lease: Option<Uuid>) -> Option<JobKind> {
    if kind == "publish_name"@ {
        Some(JobKind::PublishName)
    } else if kind == "remove_records"@ {
        Some(JobKind::RemoveRecords)
    } else if kind == "publish_txt"@ && lease is Some {
        Some(JobKind::PublishTxt(lease->0))
    } else if kind == "remove_txt"@ && lease is Some {
        Some(JobKind::RemoveTxt(lease->0))
    } else {
        None
    }
}

/// The lease that a payload names.
pub open spec fn payload_lease(payload: Option<Seq<char>>) -> Option<Uuid> {
    match payload {
        Some(text) => crate::ids::parse_outcome(crate::ids::parsed_uuid(text)),
        None => None,
    }
}

impl JobKind {
    /// The lease that the payload of the work holds.
    pub open spec fn spec_lease(self) -> Option<Uuid> {
        match self {
            JobKind::PublishTxt(lease_id) | JobKind::RemoveTxt(lease_id) => Some(lease_id),
            _ => None,
        }
    }

    /// The lease that the payload of the work holds.
    pub fn lease(self) -> (lease: Option<Uuid>)
        ensures
            lease == self.spec_lease(),
    {
        match self {
            JobKind::PublishTxt(lease_id) => Some(lease_id),
            JobKind::RemoveTxt(lease_id) => Some(lease_id),
            _ => None,
        }
    }
}

/// What is written of a piece of work is read back as the same work.
pub proof fn law_job_kind_round_trip(kind: JobKind)
    ensures
        kind_named(kind.spec_name(), kind.spec_lease()) == Some(kind),
{
    reveal_strlit("publish_name");
    reveal_strlit("remove_records");
    reveal_strlit("publish_txt");
    reveal_strlit("remove_txt");
    assert("publish_name"@.len() == 12);
    assert("remove_records"@.len() == 14);
    assert("publish_txt"@.len() == 11);
    assert("remove_txt"@.len() == 10);
}

/// Reads the work of a row of the outbox, for a lease that was read from its payload.
pub fn job_kind(kind: &str, lease: Option<Uuid>) -> (found: Option<JobKind>)
    ensures
        found == kind_named(kind@, lease),
{
    if same_text(kind, "publish_name") {
        return Some(JobKind::PublishName);
    }
    if same_text(kind, "remove_records") {
        return Some(JobKind::RemoveRecords);
    }
    match lease {
        Some(lease_id) => if same_text(kind, "publish_txt") {
            Some(JobKind::PublishTxt(lease_id))
        } else if same_text(kind, "remove_txt") {
            Some(JobKind::RemoveTxt(lease_id))
        } else {
            None
        },
        None => None,
    }
}

/// Reads the work of a row of the outbox; a row that names no work cannot be done.
pub fn read_job_kind(kind: &str, payload: Option<&str>) -> (found: Option<JobKind>)
    ensures
        found == kind_named(
            kind@,
            payload_lease(
                match payload {
                    Some(text) => Some(text@),
                    None => None,
                },
            ),
        ),
{
    let lease: Option<Uuid> = match payload {
        Some(text) => Uuid::parse_str(text),
        None => None,
    };
    job_kind(kind, lease)
}

/// An entry of the outbox.
#[derive(Clone, Copy, Debug, PartialEq, Eq, Structural)]
pub struct OutboxJob {
    pub id: u64,
    pub installation_id: Uuid,
    pub kind: JobKind,
    pub attempts: u32,
    pub next_attempt_ms: u64,
    pub completed: bool,
}

/// What is recorded of a security transition.
#[derive(Clone, Copy, Debug, PartialEq, Eq, Structural)]
pub enum AuditEvent {
    Allocated,
    CredentialRotated,
    CredentialRenewed,
    AcmeAccountBound,
    DnsReady,
    ChallengeCreated,
    ChallengeDeleted,
    ChallengeDnsReady,
    ChallengeExpired,
    TunnelClaimed,
    Relocated,
    Retired,
    PendingExpired,
    CertificateExpected,
    UnexpectedCt,
}

impl AuditEvent {
    /// The name of the event in the audit log.
    pub open spec fn spec_name(self) -> Seq<char> {
        match self {
            AuditEvent::Allocated => "allocated"@,
            AuditEvent::CredentialRotated => "credential_rotated"@,
            AuditEvent::CredentialRenewed => "credential_renewed"@,
            AuditEvent::AcmeAccountBound => "acme_account_bound"@,
            AuditEvent::DnsReady => "dns_ready"@,
            AuditEvent::ChallengeCreated => "challenge_created"@,
            AuditEvent::ChallengeDeleted => "challenge_deleted"@,
            AuditEvent::ChallengeDnsReady => "challenge_dns_ready"@,
            AuditEvent::ChallengeExpired => "challenge_expired"@,
            AuditEvent::TunnelClaimed => "tunnel_claimed"@,
            AuditEvent::Relocated => "relocated"@,
            AuditEvent::Retired => "retired"@,
            AuditEvent::PendingExpired => "pending_expired"@,
            AuditEvent::CertificateExpected => "certificate_expected"@,
            AuditEvent::UnexpectedCt => "unexpected_ct"@,
        }
    }

    /// The name of the event in the audit log.
    pub fn name(self) -> (name: &'static str)
        ensures
            name@ == self.spec_name(),
    {
        match self {
            AuditEvent::Allocated => "allocated",
            AuditEvent::CredentialRotated => "credential_rotated",
            AuditEvent::CredentialRenewed => "credential_renewed",
            AuditEvent::AcmeAccountBound => "acme_account_bound",
            AuditEvent::DnsReady => "dns_ready",
            AuditEvent::ChallengeCreated => "challenge_created",
            AuditEvent::ChallengeDeleted => "challenge_deleted",
            AuditEvent::ChallengeDnsReady => "challenge_dns_ready",
            AuditEvent::ChallengeExpired => "challenge_expired",
            AuditEvent::TunnelClaimed => "tunnel_claimed",
            AuditEvent::Relocated => "relocated",
            AuditEvent::Retired => "retired",
            AuditEvent::PendingExpired => "pending_expired",
            AuditEvent::CertificateExpected => "certificate_expected",
            AuditEvent::UnexpectedCt => "unexpected_ct",
        }
    }
}

/// A line of the audit log.
#[derive(Clone, Copy, Debug, PartialEq, Eq, Structural)]
pub struct AuditEntry {
    pub installation_id: Uuid,
    pub operation_id: Option<Uuid>,
    pub event: AuditEvent,
}

/// A nonce that an installation has used.
#[derive(Debug, PartialEq, Eq)]
pub struct UsedNonce {
    pub installation_id: Uuid,
    pub nonce: String,
    pub expires_at_ms: u64,
}

/// What a used nonce stands for.
#[verifier::ext_equal]
pub struct NonceView {
    pub installation_id: Uuid,
    pub nonce: Seq<char>,
    pub expires_at_ms: u64,
}

impl View for UsedNonce {
    type V = NonceView;

    open spec fn view(&self) -> NonceView {
        NonceView {
            installation_id: self.installation_id,
            nonce: self.nonce@,
            expires_at_ms: self.expires_at_ms,
        }
    }
}

/// A bootstrap challenge that has been given out.
#[derive(Debug, PartialEq, Eq)]
pub struct Bootstrap {
    pub nonce: String,
    pub source: IpAddress,
    pub created_at_ms: u64,
    pub expires_at_ms: u64,
}

/// What a bootstrap challenge stands for.
#[verifier::ext_equal]
pub struct BootstrapView {
    pub nonce: Seq<char>,
    pub source: IpAddress,
    pub created_at_ms: u64,
    pub expires_at_ms: u64,
}

impl View for Bootstrap {
    type V = BootstrapView;

    open spec fn view(&self) -> BootstrapView {
        BootstrapView {
            nonce: self.nonce@,
            source: self.source,
            created_at_ms: self.created_at_ms,
            expires_at_ms: self.expires_at_ms,
        }
    }
}

/// How far a certificate transparency feed has been read, and when it last answered.
#[derive(Clone, Copy, Debug, PartialEq, Eq, Structural)]
pub struct Checkpoint {
    pub position: u64,
    pub observed_at_ms: u64,
}

/// A certificate seen in a transparency feed.
#[derive(Debug, PartialEq, Eq)]
pub struct CtObservation {
    pub source: String,
    pub position: u64,
    pub installation_id: Option<Uuid>,
    pub hostname: String,
    pub fingerprint: String,
    pub expected: bool,
}

/// What an observation stands for.
#[verifier::ext_equal]
pub struct ObservationView {
    pub source: Seq<char>,
    pub position: u64,
    pub installation_id: Option<Uuid>,
    pub hostname: Seq<char>,
    pub fingerprint: Seq<char>,
    pub expected: bool,
}

impl View for CtObservation {
    type V = ObservationView;

    open spec fn view(&self) -> ObservationView {
        ObservationView {
            source: self.source@,
            position: self.position,
            installation_id: self.installation_id,
            hostname: self.hostname@,
            fingerprint: self.fingerprint@,
            expected: self.expected,
        }
    }
}

/// An issuance that nobody has reported as expected.
#[derive(Debug, PartialEq, Eq)]
pub struct CtAlert {
    pub id: u64,
    pub source: String,
    pub position: u64,
    pub hostname: String,
    pub fingerprint: String,
}

/// What an alert stands for.
#[verifier::ext_equal]
pub struct AlertView {
    pub id: u64,
    pub source: Seq<char>,
    pub position: u64,
    pub hostname: Seq<char>,
    pub fingerprint: Seq<char>,
}

impl View for CtAlert {
    type V = AlertView;

    open spec fn view(&self) -> AlertView {
        AlertView {
            id: self.id,
            source: self.source@,
            position: self.position,
            hostname: self.hostname@,
            fingerprint: self.fingerprint@,
        }
    }
}

/// A feed that has been silent for too long.
#[derive(Debug, PartialEq, Eq)]
pub struct CtLagAlert {
    pub id: u64,
    pub source: String,
    pub lag_seconds: u64,
}

/// What a lag alert stands for.
#[verifier::ext_equal]
pub struct LagView {
    pub id: u64,
    pub source: Seq<char>,
    pub lag_seconds: u64,
}

impl View for CtLagAlert {
    type V = LagView;

    open spec fn view(&self) -> LagView {
        LagView { id: self.id, source: self.source@, lag_seconds: self.lag_seconds }
    }
}

/// An alert with the window it belongs to and whether it was delivered.
#[derive(Debug, PartialEq, Eq)]
pub struct LagRow {
    pub alert: CtLagAlert,
    pub window: u64,
    pub delivered: bool,
}

/// An alert and whether it was delivered.
#[derive(Debug, PartialEq, Eq)]
pub struct AlertRow {
    pub alert: CtAlert,
    pub delivered: bool,
}

/// The tables about certificate transparency.
pub struct CtTables {
    pub checkpoints: TextMap<Checkpoint>,
    pub observations: Vec<CtObservation>,
    pub alerts: Vec<AlertRow>,
    pub lags: Vec<LagRow>,
    pub next_alert: u64,
}

/// What the tables about certificate transparency stand for; an alert is paired with whether it
/// was delivered, a lag alert also with its window.
#[verifier::ext_equal]
pub struct CtView {
    pub checkpoints: Map<Seq<char>, Checkpoint>,
    pub observations: Seq<ObservationView>,
    pub alerts: Seq<(AlertView, bool)>,
    pub lags: Seq<(LagView, u64, bool)>,
    pub next_alert: u64,
}

impl CtView {
    /// No position of a feed was observed twice, and none beyond its checkpoint.
    pub open spec fn valid(self) -> bool {
        &&& forall|i: int, j: int|
            0 <= i < j < self.observations.len() ==> (#[trigger] self.observations[i]).source != (
            #[trigger] self.observations[j]).source || self.observations[i].position
                != self.observations[j].position
        &&& forall|i: int|
            0 <= i < self.observations.len() ==> self.checkpoints.dom().contains(
                (#[trigger] self.observations[i]).source,
            ) && self.observations[i].position <= self.checkpoints[self.observations[i].source].position
    }
}

impl View for CtTables {
    type V = CtView;

    open spec fn view(&self) -> CtView {
        CtView {
            checkpoints: self.checkpoints@,
            observations: self.observations@.map_values(|row: CtObservation| row@),
            alerts: self.alerts@.map_values(|row: AlertRow| (row.alert@, row.delivered)),
            lags: self.lags@.map_values(|row: LagRow| (row.alert@, row.window, row.delivered)),
            next_alert: self.next_alert,
        }
    }
}

/// What the store holds.
#[verifier::ext_equal]
pub struct StoreView {
    pub installations: Map<Uuid, InstallationView>,
    pub order: Seq<Uuid>,
    pub reservations: Map<Seq<char>, Uuid>,
    pub operations: Map<Uuid, OperationView>,
    pub outbox: Seq<OutboxJob>,
    pub audit: Seq<AuditEntry>,
    pub nonces: Seq<NonceView>,
    pub bootstraps: Seq<BootstrapView>,
    pub ct: CtView,
    pub next_job: u64,
    pub revision: nat,
}

impl StoreView {
    /// The store with one more line in the audit log.
    pub open spec fn noted(self, id: Uuid, operation_id: Option<Uuid>, event: AuditEvent) -> Self {
        StoreView {
            audit: self.audit.push(AuditEntry { installation_id: id, operation_id, event }),
            ..self
        }
    }

    /// The store with one more job in the outbox, due at once.
    pub open spec fn queued(self, id: Uuid, kind: JobKind, now_ms: u64) -> Self {
        StoreView {
            outbox: self.outbox.push(
                OutboxJob {
                    id: self.next_job,
                    installation_id: id,
                    kind,
                    attempts: 0,
                    next_attempt_ms: now_ms,
                    completed: false,
                },
            ),
            next_job: (self.next_job + 1) as u64,
            ..self
        }
    }

    /// The store with a changed installation.
    pub open spec fn with_row(self, id: Uuid, row: InstallationView) -> Self {
        StoreView { installations: self.installations.insert(id, row), ..self }
    }

    /// The store with one more operation.
    pub open spec fn with_operation(self, id: Uuid, operation: OperationView) -> Self {
        StoreView { operations: self.operations.insert(id, operation), ..self }
    }

    /// The store at the next revision.
    pub open spec fn advanced(self) -> Self {
        StoreView { revision: self.revision + 1, ..self }
    }

    /// An installation that is there and not retired.
    pub open spec fn active(self, id: Uuid) -> bool {
        self.installations.dom().contains(id) && self.installations[id].state
            != AllocationState::Retired
    }

    /// An installation whose name is published.
    pub open spec fn dns_ready(self, id: Uuid) -> bool {
        self.installations.dom().contains(id) && self.installations[id].state
            == AllocationState::DnsReady
    }

    /// Every installation is valid and holds the reservation of its hostname, every operation
    /// belongs to an installation and every retirement to a retired one, job numbers grow and
    /// stay below the next one, no bootstrap nonce was given out twice, and the tables about
    /// certificate transparency are valid.
    pub open spec fn valid(self) -> bool {
        &&& forall|id: Uuid| #[trigger]
            self.installations.dom().contains(id) ==> self.installations[id].valid()
                && self.reservations.dom().contains(self.installations[id].hostname)
                && self.reservations[self.installations[id].hostname] == id
        &&& forall|name: Seq<char>| #[trigger]
            self.reservations.dom().contains(name) ==> self.installations.dom().contains(
                self.reservations[name],
            ) && self.installations[self.reservations[name]].hostname == name
        &&& forall|id: Uuid| #[trigger]
            self.operations.dom().contains(id) ==> self.installations.dom().contains(
                self.operations[id].installation_id,
            ) && (self.operations[id].kind == OperationKind::Retire
                ==> self.installations[self.operations[id].installation_id].state
                == AllocationState::Retired)
        &&& forall|i: int, j: int|
            0 <= i < j < self.outbox.len() ==> (#[trigger] self.outbox[i]).id < (
            #[trigger] self.outbox[j]).id
        &&& forall|i: int|
            0 <= i < self.outbox.len() ==> (#[trigger] self.outbox[i]).id < self.next_job
        &&& forall|i: int, j: int|
            0 <= i < j < self.bootstraps.len() ==> (#[trigger] self.bootstraps[i]).nonce != (
            #[trigger] self.bootstraps[j]).nonce
        &&& self.ct.valid()
    }
}

/// The rows that a transaction has read.
pub struct Store {
    pub installations: IdTable<Installation>,
    pub reservations: TextMap<Uuid>,
    pub operations: IdTable<Operation>,
    pub outbox: Vec<OutboxJob>,
    pub audit: Vec<AuditEntry>,
    pub nonces: Vec<UsedNonce>,
    pub bootstraps: Vec<Bootstrap>,
    pub ct: CtTables,
    pub next_job: u64,
    pub revision: u64,
}

impl View for Store {
    type V = StoreView;

    open spec fn view(&self) -> StoreView {
        StoreView {
            installations: self.installations@.map_values(|row: Installation| row@),
            order: self.installations.keys(),
            reservations: self.reservations@,
            operations: self.operations@.map_values(|row: Operation| row@),
            outbox: self.outbox@,
            audit: self.audit@,
            nonces: self.nonces@.map_values(|row: UsedNonce| row@),
            bootstraps: self.bootstraps@.map_values(|row: Bootstrap| row@),
            ct: self.ct@,
            next_job: self.next_job,
            revision: self.revision as nat,
        }
    }
}

impl Store {
    /// The tables have distinct keys and what they stand for is valid.
    pub open spec fn well_formed(self) -> bool {
        &&& self.installations.well_formed()
        &&& self.operations.well_formed()
        &&& self@.valid()
    }

    /// The counters can grow by `steps`.
    pub open spec fn has_room(self, steps: int) -> bool {
        &&& self.next_job + steps <= MAX_GENERATION
        &&& self.revision + steps <= MAX_GENERATION
    }

    /// A store without rows, at the first revision.
    pub fn new() -> (store: Self)
        ensures
            store.well_formed(),
            store.has_room(1),
            store@ == (StoreView {
                installations: Map::empty(),
                order: Seq::empty(),
                reservations: Map::empty(),
                operations: Map::empty(),
                outbox: Seq::empty(),
                audit: Seq::empty(),
                nonces: Seq::empty(),
                bootstraps: Seq::empty(),
                ct: CtView {
                    checkpoints: Map::empty(),
                    observations: Seq::empty(),
                    alerts: Seq::empty(),
                    lags: Seq::empty(),
                    next_alert: 1,
                },
                next_job: 1,
                revision: 1,
            }),
    {
        let store = Store {
            installations: IdTable::new(),
            reservations: TextMap::new(),
            operations: IdTable::new(),
            outbox: Vec::new(),
            audit: Vec::new(),
            nonces: Vec::new(),
            bootstraps: Vec::new(),
            ct: CtTables {
                checkpoints: TextMap::new(),
                observations: Vec::new(),
                alerts: Vec::new(),
                lags: Vec::new(),
                next_alert: 1,
            },
            next_job: 1,
            revision: 1,
        };
        proof {
            assert(store@.installations =~= Map::empty());
            assert(store@.operations =~= Map::empty());
            assert(store@.nonces =~= Seq::empty());
            assert(store@.bootstraps =~= Seq::empty());
            assert(store@.ct.observations =~= Seq::empty());
            assert(store@.ct.alerts =~= Seq::empty());
            assert(store@.ct.lags =~= Seq::empty());
        }
        store
    }

    /// Adds a line to the audit log.
    pub(crate) fn note(&mut self, id: Uuid, operation_id: Option<Uuid>, event: AuditEvent)
        ensures
            final(self)@ == old(self)@.noted(id, operation_id, event),
            final(self).installations == old(self).installations,
            final(self).operations == old(self).operations,
    {
        self.audit.push(AuditEntry { installation_id: id, operation_id, event });
    }

    /// Adds a job to the outbox.
    pub(crate) fn enqueue(&mut self, id: Uuid, kind: JobKind, now_ms: u64)
        requires
            old(self).next_job < u64::MAX,
        ensures
            final(self)@ == old(self)@.queued(id, kind, now_ms),
            final(self).installations == old(self).installations,
            final(self).operations == old(self).operations,
    {
        self.outbox.push(
            OutboxJob {
                id: self.next_job,
                installation_id: id,
                kind,
                attempts: 0,
                next_attempt_ms: now_ms,
                completed: false,
            },
        );
        self.next_job = self.next_job + 1;
    }

    /// Goes on to the next revision.
    pub(crate) fn advance(&mut self)
        requires
            old(self).revision < u64::MAX,
        ensures
            final(self)@ == old(self)@.advanced(),
            final(self).installations == old(self).installations,
            final(self).operations == old(self).operations,
    {
        self.revision = self.revision + 1;
    }

    /// Records an operation.
    pub(crate) fn record(&mut self, id: Uuid, operation: Operation)
        requires
            old(self).operations.well_formed(),
            !old(self)@.operations.dom().contains(id),
        ensures
            final(self)@ == old(self)@.with_operation(id, operation@),
            final(self).operations.well_formed(),
            final(self).installations == old(self).installations,
    {
        self.operations.add_row(id, operation);
        proof {
            assert(self@.operations =~= old(self)@.operations.insert(id, operation@));
        }
    }
}

/// Compares two byte strings of 32 bytes.
pub fn same_32(left: &[u8; 32], right: &[u8; 32]) -> (equal: bool)
    ensures
        equal == (left@ == right@),
{
    let mut i: usize = 0;
    while i < 32
        invariant
            i <= 32,
            forall|j: int| 0 <= j < i ==> left@[j] == right@[j],
        decreases 32 - i,
    {
        if left[i] != right[i] {
            return false;
        }
        i += 1;
    }
    proof {
        assert(left@ =~= right@);
    }
    true
}

} // verus!
