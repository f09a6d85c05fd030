use bloom_relay::address::{IpAddress, SocketAddress};
use bloom_relay::admin_client::{
    check_accepted, check_allocation, check_challenge, check_credential, check_status, enroll,
    fresh_nonce, installation_status, issue_credential, nonce_of, register_acme_account,
    response_fits, retire_installation, EnrollmentError,
};
use bloom_relay::client::{
    call_verdict, ceremony_upstream, check_credential_file, check_renewal, fresh_renewal_request,
    map_h2_stream_error, probe_url, probe_verdict, read_credential, renewal_request,
    response_verdict, tunnel_verdict, validate_token, ClientError, DnsChallengeClient,
    TunnelClient, TunnelConfig, TunnelPhase, TunnelRun, TunnelTaskCompletion, TunnelWake,
};
use bloom_relay::credential::trusted_response_expiry;
use bloom_relay::encoding::sha256_hex;
use bloom_relay::ids::Uuid;
use bloom_relay::protocol::{
    Allocation, AllocationReceipt, AllocationState, BootstrapChallenge, ChallengeLease,
    CredentialIssueReceipt, Scope, TunnelEvent, VerifyingKey, TRUSTED_RESPONSE_CLOCK_SKEW_MS,
    WIRE_VERSION,
};
use bloom_relay::secret::SecretToken;
use bloom_relay::signing::{public_key, sign};

const HOST: &str = "abcdefghijklmnopqrstuv2345.relay.bloom.directory";
const AUDIENCE: &str = "relay-control.bloom.directory";
const SEED: [u8; 32] = [17; 32];

fn signer(message: &[u8]) -> Result<[u8; 64], EnrollmentError> {
    Ok(sign(&SEED, message))
}

fn broken_signer(_message: &[u8]) -> Result<[u8; 64], EnrollmentError> {
    Err(EnrollmentError::Unavailable)
}

fn config() -> TunnelConfig {
    TunnelConfig {
        gateway: SocketAddress {
            ip: IpAddress::V4(0x7f00_0001),
            port: 443,
        },
        control_server_name: "relay-control.bloom.directory".into(),
        hostname: "abcdefghijklmnopqrstuv2345.relay.bloom.directory".into(),
        installation_id: Uuid::new_v4(),
        credential_path: "/protected/test-token".into(),
    }
}

#[test]
fn upstream_cannot_be_supplied_by_gateway_or_config() {
    let other = SocketAddress {
        ip: IpAddress::V4(0x7f00_0001),
        port: 18734,
    };
    assert!(TunnelClient::new(config(), other).is_err());
    assert!(TunnelClient::new(config(), ceremony_upstream()).is_ok());
}

#[test]
fn credential_expiry_allows_only_bounded_future_clock_offset() {
    let now = 1_000_000;
    let lifetime = 86_400_000;
    assert!(trusted_response_expiry(
        now + lifetime + TRUSTED_RESPONSE_CLOCK_SKEW_MS,
        now,
        lifetime
    ));
    assert!(!trusted_response_expiry(
        now + lifetime + TRUSTED_RESPONSE_CLOCK_SKEW_MS + 1,
        now,
        lifetime
    ));
    assert!(!trusted_response_expiry(now, now, lifetime));
}

#[test]
fn retired_tunnel_stream_failure_restarts_shared_connection() {
    assert!(matches!(
        TunnelTaskCompletion::Stream(Err(ClientError::TunnelRetired)).into_fatal_error(),
        Some(ClientError::TunnelRetired)
    ));
    assert!(
        TunnelTaskCompletion::Stream(Err(ClientError::Rejected))
            .into_fatal_error()
            .is_none()
    );
    assert!(
        TunnelTaskCompletion::Stream(Err(ClientError::Transport))
            .into_fatal_error()
            .is_none()
    );
}

#[test]
fn events_are_followed_only_for_the_own_hostname() {
    let client = TunnelClient::new(config(), ceremony_upstream()).unwrap();
    let open = |version: u16, hostname: &str, expires_at_ms: u64| TunnelEvent::Open {
        version,
        ticket: "ticket".into(),
        connection_id: Uuid::nil(),
        hostname: hostname.into(),
        generation: 4,
        expires_at_ms,
    };
    let order = client
        .on_event(open(WIRE_VERSION, HOST, 11), 10)
        .unwrap()
        .unwrap();
    assert_eq!(order.ticket, "ticket");
    assert_eq!(order.generation, 4);
    assert_eq!(order.upstream, ceremony_upstream());
    assert_eq!(client.on_event(open(WIRE_VERSION, HOST, 10), 10), Ok(None));
    assert_eq!(
        client.on_event(open(WIRE_VERSION, "other", 11), 10),
        Ok(None)
    );
    assert_eq!(
        client.on_event(open(2, HOST, 11), 10),
        Err(ClientError::IncompatibleProtocol {
            offered: 2,
            supported: 1
        })
    );
    assert_eq!(
        client.tunnel_uri(),
        "https://relay-control.bloom.directory/v1/tunnel"
    );
    assert_eq!(client.stream_uri(), format!("https://{HOST}"));
    let headers = client.stream_headers(&order, "secret");
    assert_eq!(headers[3].name, "x-bloom-generation");
    assert_eq!(headers[3].value, "4");
    assert_eq!(headers[4].value, "Bearer secret");
    assert_eq!(headers[5].value, "ticket");
    assert_eq!(client.tunnel_headers("secret").len(), 4);
}

#[test]
fn tunnel_is_ready_between_acceptance_and_end_with_bounded_streams() {
    let client = TunnelClient::new(config(), ceremony_upstream()).unwrap();
    let open = |version: u16| TunnelEvent::Open {
        version,
        ticket: "ticket".into(),
        connection_id: Uuid::nil(),
        hostname: HOST.into(),
        generation: 4,
        expires_at_ms: 11,
    };
    let mut refused = TunnelRun::new();
    assert!(!refused.is_ready());
    assert_eq!(refused.on_response(401), Err(ClientError::Rejected));
    assert!(!refused.is_ready());
    let mut run = TunnelRun::new();
    assert_eq!(run.on_response(200), Ok(()));
    assert!(run.is_ready());
    for _ in 0..128 {
        assert!(run.on_event(&client, open(WIRE_VERSION), 10).unwrap().is_some());
    }
    assert_eq!(run.on_event(&client, open(WIRE_VERSION), 10), Ok(None));
    assert_eq!(run.streams, 128);
    let ended = TunnelTaskCompletion::Stream(Err(ClientError::Rejected));
    assert_eq!(run.on_wake(TunnelWake::Task(ended)), None);
    assert_eq!(run.streams, 127);
    assert!(run.on_event(&client, open(WIRE_VERSION), 10).unwrap().is_some());
    let mut other = run;
    assert!(other.on_event(&client, open(2), 10).is_err());
    assert_eq!(other.phase, TunnelPhase::Ended);
    assert_eq!(run.on_wake(TunnelWake::Frame), None);
    assert_eq!(run.on_wake(TunnelWake::Shutdown), Some(Ok(())));
    assert!(!run.is_ready());
    assert_eq!(run.streams, 0);
}

#[test]
fn credential_files_are_private_and_bounded() {
    assert_eq!(check_credential_file(true, 256, 0o100600), Ok(()));
    assert!(check_credential_file(true, 257, 0o100600).is_err());
    assert!(check_credential_file(false, 1, 0o100600).is_err());
    assert!(check_credential_file(true, 1, 0o100640).is_err());
    let token = "t".repeat(43);
    assert_eq!(read_credential(&format!("{token}\r\n")), Ok(token.clone()));
    assert!(read_credential(&format!(" {token}")).is_err());
    assert!(validate_token(&token).is_ok());
    assert!(validate_token("short").is_err());
}

#[test]
fn renewal_requests_and_receipts_are_bound() {
    let token = "n".repeat(43);
    let request = renewal_request(
        Uuid::from_u128(1),
        Scope::Tunnel,
        7,
        &token,
        Uuid::from_u128(2),
        Uuid::from_u128(3),
        1_000,
    )
    .unwrap();
    assert_eq!(request.expires_at_ms, 31_000);
    assert_eq!(request.new_token_sha256, sha256_hex(token.as_bytes()));
    assert_eq!(request.nonce, "00000000-0000-0000-0000-000000000003");
    assert!(renewal_request(
        Uuid::from_u128(1),
        Scope::SurfaceAdmin,
        7,
        &token,
        Uuid::from_u128(2),
        Uuid::from_u128(3),
        1_000,
    )
    .is_err());
    assert!(fresh_renewal_request(
        Uuid::from_u128(1),
        Scope::Tunnel,
        0,
        &token,
        Uuid::from_u128(2),
        1_000
    )
    .is_err());
    let first = fresh_renewal_request(
        Uuid::from_u128(1),
        Scope::Tunnel,
        7,
        &token,
        Uuid::from_u128(2),
        1_000,
    )
    .unwrap();
    assert_eq!(first.nonce.len(), 36);
    let receipt = |generation: u64| CredentialIssueReceipt {
        version: WIRE_VERSION,
        scope: Scope::Tunnel,
        generation,
        operation_id: Uuid::from_u128(2),
        expires_at_ms: 86_401_000,
    };
    assert!(check_renewal(receipt(8), Scope::Tunnel, 7, Uuid::from_u128(2), 1_000).is_ok());
    assert!(check_renewal(receipt(7), Scope::Tunnel, 7, Uuid::from_u128(2), 1_000).is_err());
    assert!(check_renewal(receipt(8), Scope::DnsChallenge, 7, Uuid::from_u128(2), 1_000).is_err());
}

#[test]
fn dns_client_asks_and_understands() {
    assert!(
        DnsChallengeClient::new(vec![], Uuid::from_u128(1), 2, "/protected/token".into()).is_err()
    );
    let client =
        DnsChallengeClient::new(vec![1], Uuid::from_u128(1), 2, "/protected/token".into()).unwrap();
    let call = client.create(
        ChallengeLease {
            operation_id: Uuid::from_u128(5),
            txt_value: "a".repeat(43),
            expires_at_ms: 9,
        },
        Uuid::from_u128(6),
    );
    assert_eq!(call.path, "/v1/dns/challenge");
    assert_eq!(call.expected, 202);
    assert_eq!(call.body.unwrap().generation, 2);
    assert_eq!(
        client.ready_path(Uuid::from_u128(5)),
        "/v1/dns/challenge/00000000-0000-0000-0000-000000000001/00000000-0000-0000-0000-000000000005"
    );
    assert_eq!(DnsChallengeClient::ready(204), Ok(true));
    assert_eq!(DnsChallengeClient::ready(202), Ok(false));
    assert!(DnsChallengeClient::ready(500).is_err());
    assert_eq!(
        client.delete(Uuid::from_u128(5), Uuid::from_u128(6)).path,
        "/v1/dns/challenge/delete"
    );
    assert_eq!(call_verdict(202, 202), Ok(()));
    assert!(call_verdict(200, 202).is_err());
}

#[test]
fn wakes_and_failures_end_as_they_should() {
    assert_eq!(map_h2_stream_error(true), ClientError::TunnelRetired);
    assert_eq!(map_h2_stream_error(false), ClientError::Transport);
    assert_eq!(
        tunnel_verdict(TunnelWake::StreamBroken),
        Some(Err(ClientError::Transport))
    );
    assert_eq!(response_verdict(204), Ok(()));
    assert_eq!(response_verdict(401), Err(ClientError::Rejected));
    assert_eq!(
        probe_url(HOST).unwrap(),
        format!("https://{HOST}/.well-known/bloom/relay-health")
    );
    assert!(probe_url("sibling.example").is_err());
    assert_eq!(probe_verdict(204), Ok(()));
    assert!(probe_verdict(200).is_err());
    assert_eq!(
        ClientError::IncompatibleProtocol {
            offered: 2,
            supported: 1
        }
        .message(),
        "incompatible relay protocol: offered 2, supported 1"
    );
}

#[test]
fn secrets_are_256_bits() {
    let token = SecretToken::generate();
    assert_eq!(token.expose().len(), 43);
    assert_ne!(token.expose(), SecretToken::generate().expose());
    assert_eq!(
        SecretToken::from_encoded(token.expose().to_owned())
            .unwrap()
            .expose(),
        token.expose()
    );
    assert!(matches!(
        SecretToken::from_encoded("short".into()),
        Err(EnrollmentError::InvalidTrust)
    ));
    assert_eq!(
        SecretToken::from_bytes(&vec![0; 32]).expose(),
        "A".repeat(43)
    );
}

fn challenge(expires_at_ms: u64) -> BootstrapChallenge {
    BootstrapChallenge {
        version: WIRE_VERSION,
        nonce: nonce_of(&vec![3; 32]),
        expires_at_ms,
    }
}

#[test]
fn administrative_requests_are_signed_for_their_body() {
    let request = enroll(
        challenge(50_000),
        &public_key(&SEED),
        Uuid::from_u128(9),
        10_000,
        signer,
    )
    .unwrap();
    let key = VerifyingKey::from_bytes(&public_key(&SEED)).unwrap();
    let body =
        bloom_relay::canonical::canonical_json(&request.body.document());
    assert!(request
        .claims
        .verify(&body, &request.signature, &key, Scope::SurfaceAdmin, AUDIENCE, 10_000)
        .is_ok());
    assert_eq!(request.body.bootstrap_nonce, request.claims.nonce);
    assert_eq!(request.claims.installation_id, Uuid::nil());
    let status = installation_status(
        Uuid::from_u128(4),
        Uuid::from_u128(9),
        fresh_nonce(),
        10_000,
        signer,
    )
    .unwrap();
    assert_eq!(status.claims.expires_at_ms, 40_000);
    assert_eq!(status.body.installation_id, Uuid::from_u128(4));
    assert!(matches!(
        retire_installation(
            Uuid::from_u128(4),
            Uuid::from_u128(9),
            fresh_nonce(),
            10_000,
            broken_signer
        ),
        Err(EnrollmentError::Unavailable)
    ));
    let account = register_acme_account(
        Uuid::from_u128(4),
        "https://acme-v02.api.letsencrypt.org/acme/acct/123".into(),
        Uuid::from_u128(9),
        fresh_nonce(),
        10_000,
        signer,
    )
    .unwrap();
    assert_eq!(account.claims.generation, 0);
    let token = SecretToken::from_bytes(&vec![1; 32]);
    let issue = issue_credential(
        Uuid::from_u128(4),
        Scope::Tunnel,
        &token,
        Uuid::from_u128(9),
        fresh_nonce(),
        10_000,
        signer,
    )
    .unwrap();
    assert_eq!(issue.body.token_sha256, sha256_hex(token.expose().as_bytes()));
    assert_eq!(issue.body.validity_seconds, 86_400);
}

#[test]
fn challenges_and_answers_are_checked() {
    assert_eq!(check_challenge(&challenge(50_000), 10_000), None);
    assert!(check_challenge(&challenge(10_000), 10_000).is_some());
    assert!(check_challenge(&challenge(75_001), 10_000).is_some());
    let mut other = challenge(50_000);
    other.version = 2;
    assert_eq!(
        check_challenge(&other, 10_000),
        Some(EnrollmentError::IncompatibleProtocol)
    );
    assert_eq!(check_accepted(202), Ok(()));
    assert_eq!(check_accepted(200), Err(EnrollmentError::Rejected));
    assert!(response_fits(16_384));
    assert!(!response_fits(16_385));
    let receipt = AllocationReceipt {
        allocation: Allocation {
            version: WIRE_VERSION,
            installation_id: Uuid::from_u128(4),
            hostname: HOST.into(),
            placement: "shard-1".into(),
            state: AllocationState::PendingDns,
        },
        operation_id: Uuid::from_u128(9),
        admin_key_sha256: sha256_hex(&public_key(&SEED)),
        issued_at_ms: 10_000,
        signature: String::new(),
    };
    let signed = receipt.sign(&[5; 32]).unwrap();
    let accepted = check_allocation(
        signed,
        &public_key(&[5; 32]),
        Uuid::from_u128(9),
        &public_key(&SEED),
        10_000,
    )
    .unwrap();
    assert!(matches!(
        check_allocation(
            accepted,
            &public_key(&[6; 32]),
            Uuid::from_u128(9),
            &public_key(&SEED),
            10_000,
        ),
        Err(EnrollmentError::InvalidReceipt)
    ));
    let credential = |generation: u64| CredentialIssueReceipt {
        version: WIRE_VERSION,
        scope: Scope::Tunnel,
        generation,
        operation_id: Uuid::from_u128(9),
        expires_at_ms: 86_410_000,
    };
    assert!(check_credential(credential(1), Scope::Tunnel, Uuid::from_u128(9), 10_000).is_ok());
    assert!(check_credential(credential(0), Scope::Tunnel, Uuid::from_u128(9), 10_000).is_err());
    let allocation = Allocation {
        version: WIRE_VERSION,
        installation_id: Uuid::from_u128(4),
        hostname: HOST.into(),
        placement: "shard-1".into(),
        state: AllocationState::Retired,
    };
    assert!(check_status(allocation, Uuid::from_u128(4)).is_ok());
    assert_eq!(
        EnrollmentError::InvalidReceipt.message(),
        "relay response failed identity verification"
    );
}
