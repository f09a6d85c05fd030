use bloom_relay::client::{ceremony_upstream, StreamOrder, TunnelClient, TunnelConfig};
use bloom_relay::control_api::unauthorized;
use bloom_relay::control_bearer::dns_challenge_ready;
use bloom_relay::control_session::{ControlAction, ControlRequest, ControlSession};
use bloom_relay::gateway::{GatewayTables, TunnelRoute};
use bloom_relay::ids::Uuid;
use bloom_relay::protocol::{
    Allocation, AllocationReceipt, AllocationState, AuthClaims, ChallengeLease, Scope, TunnelEvent,
};
use bloom_relay::store::model::{Store, StoreError};

const ACCOUNT: &str = "https://acme-v02.api.letsencrypt.org/acme/acct/123";
const HOST: &str = "abcdefghijklmnopqrstuv2345.relay.bloom.directory";
const NOW: u64 = 1_700_000_000_000;

fn ready(store: &mut Store) -> Uuid {
    let allocation = store
        .allocate(Uuid::new_v4(), &[5u8; 32], "fixture", NOW)
        .unwrap();
    let id = allocation.installation_id;
    store.register_acme_account(id, ACCOUNT, NOW).unwrap();
    store.mark_dns_ready(id);
    id
}

fn state_of(store: &Store, id: Uuid) -> AllocationState {
    store.allocation_status(id).unwrap().state
}

#[test]
fn requests_and_receipts_are_signed_in_their_own_domains() {
    let claims = AuthClaims {
        version: 1,
        installation_id: Uuid::nil(),
        scope: Scope::SurfaceAdmin,
        generation: 0,
        audience: "relay-control.bloom.directory".into(),
        operation_id: Uuid::from_u128(1),
        nonce: "nonce".into(),
        expires_at_ms: NOW,
        body_sha256: String::new(),
    };
    let receipt = AllocationReceipt {
        allocation: Allocation {
            version: 1,
            installation_id: Uuid::from_u128(2),
            hostname: HOST.into(),
            placement: "fixture".into(),
            state: AllocationState::PendingDns,
        },
        operation_id: Uuid::from_u128(1),
        admin_key_sha256: String::new(),
        issued_at_ms: NOW,
        signature: String::new(),
    };
    let request_bytes = claims.signing_bytes().unwrap();
    let receipt_bytes = receipt.signed_bytes().unwrap();
    assert!(request_bytes.starts_with(b"bloom-relay/control/v1\0{"));
    assert!(receipt_bytes.starts_with(b"bloom-relay/allocation-receipt/v1\0[{"));
    assert_ne!(request_bytes, receipt_bytes);
}

#[test]
fn random_identifiers_are_of_version_four() {
    for _ in 0..64 {
        let id = Uuid::new_v4();
        assert_ne!(id, Uuid::nil());
        let text = id.to_text();
        assert_eq!(&text[14..15], "4");
        assert!(matches!(&text[19..20], "8" | "9" | "a" | "b"));
    }
}

#[test]
fn sweeps_find_nothing_when_they_are_repeated() {
    let mut store = Store::new();
    let pending = store
        .allocate(Uuid::new_v4(), &[4u8; 32], "fixture", NOW)
        .unwrap();
    let serving = ready(&mut store);
    let lease = ChallengeLease {
        operation_id: Uuid::from_u128(77),
        txt_value: "v".repeat(43),
        expires_at_ms: NOW + 1000,
    };
    store.create_challenge(serving, 1, &lease, NOW).unwrap();
    let later = NOW + 86_400_000;
    assert_eq!(store.expire_pending_allocations(10, later - 1), 0);
    assert_eq!(store.expire_pending_allocations(10, later), 1);
    assert_eq!(
        state_of(&store, pending.installation_id),
        AllocationState::Retired
    );
    let revision = store.restore_revision();
    assert_eq!(store.expire_pending_allocations(10, later), 0);
    assert_eq!(store.expire_challenge_leases(10, NOW + 999), 0);
    assert_eq!(store.restore_revision(), revision);
    assert_eq!(store.expire_challenge_leases(10, NOW + 1000), 1);
    assert_eq!(store.restore_revision(), revision + 1);
    assert_eq!(store.expire_challenge_leases(10, NOW + 1000), 0);
    assert_eq!(store.restore_revision(), revision + 1);
}

#[test]
fn every_change_moves_the_revision_on_and_is_audited() {
    let mut store = Store::new();
    let start = store.restore_revision();
    let id = ready(&mut store);
    assert_eq!(store.restore_revision(), start + 3);
    assert_eq!(store.audit.len(), 3);
    let issue = Uuid::new_v4();
    store
        .issue_bearer(id, issue, "tunnel", &[1; 32], 3600, NOW)
        .unwrap();
    assert_eq!(store.restore_revision(), start + 4);
    assert_eq!(store.audit.len(), 4);
    store
        .issue_bearer(id, issue, "tunnel", &[1; 32], 3600, NOW)
        .unwrap();
    assert_eq!(store.restore_revision(), start + 4);
    assert_eq!(store.audit.len(), 4);
}

#[test]
fn retired_installations_are_left_alone() {
    let mut store = Store::new();
    let id = ready(&mut store);
    let operation = Uuid::new_v4();
    store.retire(id, operation, NOW).unwrap();
    let revision = store.restore_revision();
    assert_eq!(
        store.issue_bearer(id, Uuid::new_v4(), "tunnel", &[1; 32], 3600, NOW),
        Err(StoreError::Conflict)
    );
    assert_eq!(
        store.relocate(id, Uuid::new_v4(), "elsewhere", NOW),
        Err(StoreError::Conflict)
    );
    assert_eq!(
        store.register_acme_account(id, ACCOUNT, NOW),
        Err(StoreError::Conflict)
    );
    assert_eq!(
        store.claim_tunnel(id, "fixture", 45, NOW),
        Err(StoreError::Conflict)
    );
    assert_eq!(store.retire(id, operation, NOW), Ok(()));
    assert_eq!(store.restore_revision(), revision);
    assert_eq!(state_of(&store, id), AllocationState::Retired);
}

#[test]
fn callers_without_credentials_learn_of_no_installation() {
    let mut store = Store::new();
    let id = ready(&mut store);
    let header = format!("Bearer {}", "x".repeat(43));
    let known = dns_challenge_ready(&store, Some(&header), id, Uuid::nil(), NOW);
    let unknown = dns_challenge_ready(&store, Some(&header), Uuid::from_u128(5), Uuid::nil(), NOW);
    assert_eq!(known, Err(unauthorized()));
    assert_eq!(known, unknown);
}

#[test]
fn silent_feeds_are_alerted_once_in_a_window() {
    let mut store = Store::new();
    store.ensure_ct_source("feed", NOW).unwrap();
    store.queue_ct_lag_alert("feed", NOW + 900_000).unwrap();
    assert_eq!(store.pending_ct_lag_alerts("feed", 10).unwrap().len(), 0);
    store.queue_ct_lag_alert("feed", NOW + 900_001).unwrap();
    store.queue_ct_lag_alert("feed", NOW + 900_002).unwrap();
    let alerts = store.pending_ct_lag_alerts("feed", 10).unwrap();
    assert_eq!(alerts.len(), 1);
    assert_eq!(alerts[0].lag_seconds, 900);
    store
        .queue_ct_lag_alert("feed", NOW + 1_800_001)
        .unwrap();
    assert_eq!(store.pending_ct_lag_alerts("feed", 10).unwrap().len(), 2);
}

#[test]
fn repeated_observations_add_no_alert() {
    let mut store = Store::new();
    let print = "f".repeat(64);
    assert_eq!(store.observe_ct("feed", 1, HOST, &print, NOW), Ok(false));
    assert_eq!(store.observe_ct("feed", 1, HOST, &print, NOW + 5), Ok(false));
    assert_eq!(store.pending_ct_alerts("feed", 10).unwrap().len(), 1);
    assert_eq!(store.ct_checkpoint("feed"), Ok(Some(1)));
}

fn request(method: &str, path: &str) -> ControlRequest {
    ControlRequest {
        method: method.into(),
        path: path.into(),
        authority: None,
        version: None,
        installation: None,
        hostname: None,
        authorization: None,
        ticket: None,
    }
}

#[test]
fn announced_streams_reach_the_connection_that_they_were_offered_to() {
    let id = Uuid::from_u128(9);
    let client = TunnelClient::new(
        TunnelConfig {
            gateway: ceremony_upstream(),
            control_server_name: "relay-control.bloom.directory".into(),
            hostname: HOST.into(),
            installation_id: id,
            credential_path: "/credential".into(),
        },
        ceremony_upstream(),
    )
    .unwrap();
    let mut opening = request("POST", "/v1/tunnel");
    for header in client.tunnel_headers("secret") {
        match header.name {
            "x-bloom-version" => opening.version = Some(header.value),
            "x-bloom-installation" => opening.installation = Some(header.value),
            "x-bloom-hostname" => opening.hostname = Some(header.value),
            "authorization" => opening.authorization = Some(header.value),
            name => panic!("unexpected header {name}"),
        }
    }
    let mut tables = GatewayTables::new();
    let mut session = ControlSession::new();
    assert_eq!(
        session.on_request(&mut tables, opening, 0),
        ControlAction::LookUpHostname(id)
    );
    session.on_hostname(Some(HOST.into()));
    session.on_bearer(true);
    session.on_lease(&mut tables, 4);
    let route = TunnelRoute { id, generation: 4 };
    let (ticket, event) = tables
        .offer_stream(HOST.into(), route, true, 100, NOW)
        .unwrap();
    assert!(matches!(&event, TunnelEvent::Open { ticket: told, .. } if *told == ticket));
    let order: StreamOrder = client.on_event(event, NOW + 9_999).unwrap().unwrap();
    assert_eq!(order.ticket, ticket);
    assert_eq!(order.generation, 4);
    assert_eq!(order.upstream, ceremony_upstream());
    let mut claim = request("CONNECT", "");
    claim.authority = Some(HOST.into());
    for header in client.stream_headers(&order, "secret") {
        if header.name == "x-bloom-ticket" {
            claim.ticket = Some(header.value);
        }
    }
    assert_eq!(
        session.on_request(&mut tables, claim, 10_000_000_099),
        ControlAction::CheckLease(route)
    );
}
