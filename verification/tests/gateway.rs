use bloom_relay::address::{IpAddress, SocketAddress};
use bloom_relay::bridge::{Bridge, BridgeAction, BridgeEvent};
use bloom_relay::client_hello::{HelloError, SniReader};
use bloom_relay::control_session::{ControlAction, ControlRequest, ControlSession};
use bloom_relay::gateway::{
    next_chunk, stream_capacity, ticket_owner_matches, valid_gateway_id, wanted_capacity,
    BrowserRefusal, GatewayTables, TunnelRoute,
};
use bloom_relay::ids::Uuid;
use bloom_relay::observe::{check_listeners, private_bind, HealthHandle, ObserveError};
use bloom_relay::protocol::TunnelEvent;
use bloom_relay::quota::{IngressQuota, QUOTA_WINDOW_NS};
use std::sync::Arc;

const HOST: &str = "abcdefghijklmnopqrstuv2345.relay.bloom.directory";

fn ip(a: u8, b: u8, c: u8, d: u8) -> IpAddress {
    IpAddress::V4(u32::from_be_bytes([a, b, c, d]))
}

fn hello_for(host: &str) -> Vec<u8> {
    hello_with(host, 0)
}

fn hello_with(host: &str, protocols: u8) -> Vec<u8> {
    rustls::crypto::ring::default_provider()
        .install_default()
        .ok();
    let mut config = rustls::ClientConfig::builder()
        .with_root_certificates(rustls::RootCertStore::empty())
        .with_no_client_auth();
    config.alpn_protocols = (0..protocols).map(|i| vec![i; 100]).collect();
    let name = rustls::pki_types::ServerName::try_from(host.to_owned()).unwrap();
    let mut client = rustls::ClientConnection::new(Arc::new(config), name).unwrap();
    let mut hello = Vec::new();
    client.write_tls(&mut hello).unwrap();
    hello
}

#[test]
fn fragmented_client_hello_extracts_exact_sni_and_preserves_bytes() {
    let host = "abcdefghijklmnopqrstuv2345.relay.bloom.directory";
    let hello = hello_for(host);
    let mut reader = SniReader::new();
    let mut observed = None;
    for chunk in hello.chunks(7) {
        observed = reader.push(chunk).unwrap();
    }
    assert_eq!(observed.as_deref(), Some(host));
    assert_eq!(reader.into_bytes(), hello);
}

#[test]
fn client_hello_longer_than_a_read_is_taken_in_at_once() {
    let hello = hello_with(HOST, 120);
    assert!(hello.len() > 2 * 4_096);
    let mut reader = SniReader::new();
    assert_eq!(reader.push(&hello).unwrap().as_deref(), Some(HOST));
    assert_eq!(reader.into_bytes(), hello);
    let mut cut = SniReader::new();
    let (most, last) = hello.split_at(hello.len() - 1);
    assert_eq!(cut.push(most), Ok(None));
    assert_eq!(cut.push(last).unwrap().as_deref(), Some(HOST));
}

#[test]
fn malformed_client_hello_fails_closed() {
    let mut reader = SniReader::new();
    assert!(reader.push(b"GET / HTTP/1.1\r\n\r\n").is_err());
}

#[test]
fn client_hello_is_bounded_and_exact() {
    let mut reader = SniReader::new();
    assert_eq!(reader.push(b""), Err(HelloError::IncompleteOrTooLarge));
    assert_eq!(
        reader.push(&vec![22; 65_537]),
        Err(HelloError::IncompleteOrTooLarge)
    );
    let mut other = SniReader::new();
    assert_eq!(
        other.push(&hello_for("sibling.example")),
        Err(HelloError::InvalidHostname)
    );
}

#[test]
fn ingress_quota_bounds_source_and_global_handshakes() {
    let start = 1_000;
    let mut quota = IngressQuota::new(start);
    let first = ip(198, 51, 100, 1);
    for _ in 0..120 {
        assert!(quota.allow_at(first, start));
    }
    assert!(!quota.allow_at(first, start));
    for index in 2..=41 {
        let source = ip(198, 51, 100, index);
        for _ in 0..120 {
            assert!(quota.allow_at(source, start));
        }
    }
    let last = ip(203, 0, 113, 1);
    for _ in 0..80 {
        assert!(quota.allow_at(last, start));
    }
    assert!(!quota.allow_at(last, start));
    assert!(quota.allow_at(first, start + QUOTA_WINDOW_NS));
}

#[test]
fn ingress_quota_never_exceeds_source_or_global_budget() {
    let now = 5;
    let mut quota = IngressQuota::new(now);
    let mut accepted = [0u32; 200];
    let mut total = 0u32;
    let mut state = 12_345u64;
    for _ in 0..7_000 {
        state = state.wrapping_mul(6_364_136_223_846_793_005).wrapping_add(1);
        let source = ((state >> 33) % 200) as usize;
        if quota.allow_at(ip(198, 51, 0, source as u8), now) {
            accepted[source] += 1;
            total += 1;
            assert!(accepted[source] <= 120);
            assert!(total <= 5_000);
        } else {
            assert!(accepted[source] == 120 || total == 5_000);
        }
    }
    assert!(quota.allow_at(ip(198, 51, 100, 1), now + QUOTA_WINDOW_NS));
}

#[test]
fn ticket_owner_requires_exact_host_installation_and_generation() {
    let id = Uuid::from_u128(77);
    assert!(ticket_owner_matches(HOST, id, 3, HOST, id, 3));
    let other_host = format!("x.{HOST}");
    assert!(!ticket_owner_matches(HOST, id, 3, &other_host, id, 3));
    assert!(!ticket_owner_matches(HOST, id, 3, HOST, Uuid::from_u128(76), 3));
    assert!(!ticket_owner_matches(HOST, id, 3, HOST, id, 4));
}

fn offer(host: &str, token: &str) -> ControlRequest {
    ControlRequest {
        method: "POST".into(),
        path: "/v1/tunnel".into(),
        authority: None,
        version: Some("1".into()),
        installation: Some(Uuid::from_u128(9).to_text()),
        hostname: Some(host.into()),
        authorization: Some(format!("Bearer {token}")),
        ticket: None,
    }
}

fn claim(ticket: &str, authority: &str) -> ControlRequest {
    ControlRequest {
        method: "CONNECT".into(),
        path: "".into(),
        authority: Some(authority.into()),
        version: None,
        installation: None,
        hostname: None,
        authorization: None,
        ticket: Some(ticket.into()),
    }
}

fn establish(tables: &mut GatewayTables, generation: u64) -> ControlSession {
    let mut session = ControlSession::new();
    let asked = session.on_request(tables, offer(HOST, "secret"), 0);
    assert_eq!(asked, ControlAction::LookUpHostname(Uuid::from_u128(9)));
    let checked = session.on_hostname(Some(HOST.into()));
    assert_eq!(
        checked,
        ControlAction::CheckBearer {
            id: Uuid::from_u128(9),
            token: "secret".into()
        }
    );
    assert_eq!(
        session.on_bearer(true),
        ControlAction::ClaimLease(Uuid::from_u128(9))
    );
    assert!(matches!(
        session.on_lease(tables, generation),
        ControlAction::AcceptTunnel { .. }
    ));
    session
}

#[test]
fn opaque_streams_are_claimed_once_and_reconnect_fences_old_generation() {
    let mut tables = GatewayTables::new();
    assert_eq!(
        tables.admit_browser(HOST),
        Err(BrowserRefusal::NoTunnel)
    );
    let mut first = establish(&mut tables, 1);
    let route = tables.admit_browser(HOST).unwrap();
    assert_eq!(
        route,
        TunnelRoute {
            id: Uuid::from_u128(9),
            generation: 1
        }
    );
    assert_eq!(
        tables.offer_stream(HOST.into(), route, false, 0, 0),
        Err(BrowserRefusal::StaleTunnel)
    );
    let (ticket, event) = tables.offer_stream(HOST.into(), route, true, 0, 0).unwrap();
    assert!(matches!(
        event,
        TunnelEvent::Open {
            generation: 1,
            expires_at_ms: 10_000,
            ..
        }
    ));
    assert_eq!(
        first.on_request(&mut tables, claim(&ticket, HOST), 1),
        ControlAction::CheckLease(route)
    );
    assert!(matches!(
        first.on_lease_current(true),
        ControlAction::AcceptStream(_)
    ));
    assert_eq!(
        first.on_request(&mut tables, claim(&ticket, HOST), 1),
        ControlAction::Gone
    );
    let mut second = establish(&mut tables, 2);
    let newer = tables.route(HOST).unwrap();
    assert_eq!(newer.generation, 2);
    let (late, _) = tables.offer_stream(HOST.into(), newer, true, 0, 0).unwrap();
    assert_eq!(
        first.on_request(&mut tables, claim(&late, HOST), 1),
        ControlAction::Gone
    );
    assert_eq!(first.on_tick(), ControlAction::RenewLease(route));
    assert_eq!(first.on_renewed(&mut tables, false), ControlAction::Close);
    assert_eq!(tables.route(HOST), Some(newer));
    assert_eq!(second.on_peer_closed(&mut tables), ControlAction::Close);
    assert_eq!(tables.route(HOST), None);
}

#[test]
fn requests_on_a_control_connection_are_refused_as_documented() {
    let mut tables = GatewayTables::new();
    let mut session = ControlSession::new();
    let mut wrong = offer(HOST, "secret");
    wrong.version = Some("2".into());
    assert_eq!(
        session.on_request(&mut tables, wrong, 0),
        ControlAction::Unauthorized
    );
    assert_eq!(
        session.on_request(&mut tables, offer("sibling.example", "secret"), 0),
        ControlAction::Unauthorized
    );
    let mut other = offer(HOST, "secret");
    other.path = "/other".into();
    assert_eq!(
        session.on_request(&mut tables, other, 0),
        ControlAction::NotFound
    );
    assert_eq!(
        session.on_request(&mut tables, claim("unknown", HOST), 0),
        ControlAction::Gone
    );
    assert_eq!(
        session.on_request(&mut tables, offer(HOST, "secret"), 0),
        ControlAction::LookUpHostname(Uuid::from_u128(9))
    );
    assert_eq!(session.on_hostname(None), ControlAction::Unauthorized);
    let mut live = establish(&mut tables, 5);
    let route = tables.route(HOST).unwrap();
    let (ticket, _) = tables.offer_stream(HOST.into(), route, true, 0, 0).unwrap();
    assert_eq!(
        live.on_request(&mut tables, claim(&ticket, HOST), 10_000_000_000),
        ControlAction::Gone
    );
    assert_eq!(live.on_tick(), ControlAction::RenewLease(route));
    assert!(matches!(
        live.on_renewed(&mut tables, true),
        ControlAction::SendHeartbeat(TunnelEvent::Heartbeat { generation: 5, .. })
    ));
    assert_eq!(live.on_heartbeat_sent(&mut tables), ControlAction::Wait);
}

#[test]
fn bytes_are_relayed_until_both_sides_end() {
    let mut bridge = Bridge::new();
    assert_eq!(
        bridge.step(BridgeEvent::SocketRead(5)),
        BridgeAction::ForwardToTunnel(5)
    );
    assert_eq!(
        bridge.step(BridgeEvent::TunnelData(6)),
        BridgeAction::ForwardToSocket(6)
    );
    assert_eq!(
        bridge.step(BridgeEvent::SocketRead(0)),
        BridgeAction::EndTunnel
    );
    assert!(!bridge.finished());
    assert_eq!(bridge.step(BridgeEvent::TunnelEnd), BridgeAction::EndSocket);
    assert!(bridge.finished());
    assert_eq!(bridge.step(BridgeEvent::TunnelFailed), BridgeAction::Fail);
}

#[test]
fn capacities_are_exact() {
    assert_eq!(stream_capacity(), 2048);
    assert!(valid_gateway_id("shard-1"));
    assert!(!valid_gateway_id(""));
    assert!(!valid_gateway_id(&"x".repeat(65)));
    assert_eq!(wanted_capacity(10), 10);
    assert_eq!(wanted_capacity(100_000), 16_384);
    assert_eq!(next_chunk(20_000, 100_000), 16_384);
    assert_eq!(next_chunk(7, 100_000), 7);
    assert_eq!(next_chunk(20_000, 3), 3);
    assert_eq!(BrowserRefusal::StaleTunnel.message(), "stale tunnel");
}

#[test]
fn diagnostics_are_loopback_only() {
    let at = |ip: IpAddress| SocketAddress { ip, port: 9100 };
    assert!(private_bind(at(ip(127, 0, 0, 1))).is_ok());
    assert!(private_bind(at(IpAddress::V6(1))).is_ok());
    assert!(private_bind(at(ip(0, 0, 0, 0))).is_err());
}

#[test]
fn listeners_differ_and_readiness_is_told() {
    let metrics = SocketAddress {
        ip: ip(127, 0, 0, 1),
        port: 9100,
    };
    let health = SocketAddress {
        ip: ip(127, 0, 0, 1),
        port: 9101,
    };
    assert_eq!(check_listeners(metrics, health), Ok(()));
    assert_eq!(
        check_listeners(metrics, metrics),
        Err(ObserveError::SameListener)
    );
    assert_eq!(
        ObserveError::NotLoopback.message(),
        "diagnostic listener must bind to loopback"
    );
    let mut handle = HealthHandle::new();
    assert_eq!(handle.ready_status(), 503);
    handle.set_ready(true);
    assert_eq!(handle.ready_status(), 200);
}
