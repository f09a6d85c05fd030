use bloom_relay::address::IpAddress;
use bloom_relay::admin_client::{
    check_allocation, check_credential, enroll as enroll_request, fresh_nonce,
    installation_status as status_request, issue_credential as issue_request,
    register_acme_account as account_request, retire_installation as retire_request,
    EnrollmentError,
};
use bloom_relay::client::{fresh_renewal_request, check_renewal};
use bloom_relay::control_api::{
    installation_status, issue_credential, quota_exceeded, read_bearer, read_digest,
    register_acme_account, retire_installation, retry_after, unauthorized, unavailable, ApiError,
};
use bloom_relay::control_bearer::{
    create_dns_challenge, delete_dns_challenge, dns_challenge_ready, record_certificate,
    renew_credential,
};
use bloom_relay::dns::Address;
use bloom_relay::dns_worker::{begin_job, settle_job, WorkerAction};
use bloom_relay::enrollment::{challenge, challenge_with, enroll};
use bloom_relay::ids::Uuid;
use bloom_relay::protocol::{
    AllocationState, CertificateMetadata, ChallengeLease, DnsChallengeDeleteRequest,
    DnsChallengeRequest, ErrorCode, InstallationStatusRequest, RetireRequest, Scope,
    SignedRequest, WIRE_VERSION,
};
use bloom_relay::secret::SecretToken;
use bloom_relay::signing::{public_key, sign};
use bloom_relay::store::model::Store;

const AUDIENCE: &str = "relay-control.bloom.directory";
const ACCOUNT: &str = "https://acme-v02.api.letsencrypt.org/acme/acct/123";
const NOW: u64 = 1_700_000_000_000;
const ADMIN: [u8; 32] = [17; 32];
const RELAY: [u8; 32] = [5; 32];

fn signer(message: &[u8]) -> Result<[u8; 64], EnrollmentError> {
    Ok(sign(&ADMIN, message))
}

fn refusal(status: u16, code: ErrorCode, retryable: bool) -> ApiError {
    ApiError {
        status,
        code,
        retryable,
    }
}

fn status_of(
    claimed: Uuid,
    asked: Uuid,
) -> SignedRequest<InstallationStatusRequest> {
    let mut request =
        status_request(claimed, Uuid::new_v4(), fresh_nonce(), NOW, signer).unwrap();
    request.body.installation_id = asked;
    request
}

fn retire_of(id: Uuid, operation: Uuid) -> SignedRequest<RetireRequest> {
    retire_request(id, operation, fresh_nonce(), NOW, signer).unwrap()
}

fn ready_store() -> (Store, Uuid, String) {
    let mut store = Store::new();
    let allocation = store
        .allocate(Uuid::new_v4(), &public_key(&ADMIN), "fixture", NOW)
        .unwrap();
    let id = allocation.installation_id;
    store.register_acme_account(id, ACCOUNT, NOW).unwrap();
    store.mark_dns_ready(id);
    (store, id, allocation.hostname)
}

#[test]
fn admin_status_and_retirement_require_bound_signature_and_retry_safely() {
    let mut store = Store::new();
    let allocation = store
        .allocate(Uuid::new_v4(), &public_key(&[17u8; 32]), "fixture", NOW)
        .unwrap();
    let id = allocation.installation_id;
    assert_eq!(
        installation_status(&mut store, &status_of(id, Uuid::new_v4()), AUDIENCE, NOW)
            .unwrap_err()
            .status,
        401
    );
    let observed =
        installation_status(&mut store, &status_of(id, id), AUDIENCE, NOW).unwrap();
    assert_eq!(observed.hostname, allocation.hostname);
    let retirement = Uuid::new_v4();
    assert_eq!(
        retire_installation(&mut store, &retire_of(id, retirement), AUDIENCE, NOW),
        Ok(202)
    );
    assert_eq!(
        retire_installation(&mut store, &retire_of(id, retirement), AUDIENCE, NOW),
        Ok(202)
    );
    let observed =
        installation_status(&mut store, &status_of(id, id), AUDIENCE, NOW).unwrap();
    assert!(matches!(observed.state, AllocationState::Retired));
}

#[test]
fn replays_and_strangers_are_refused() {
    let (mut store, id, _) = ready_store();
    let request = status_of(id, id);
    assert!(installation_status(&mut store, &request, AUDIENCE, NOW).is_ok());
    assert_eq!(
        installation_status(&mut store, &request, AUDIENCE, NOW),
        Err(refusal(410, ErrorCode::ExpiredOrReplayed, false))
    );
    let mut forged = status_of(id, id);
    forged.signature = "A".repeat(86);
    assert_eq!(
        installation_status(&mut store, &forged, AUDIENCE, NOW),
        Err(refusal(401, ErrorCode::Unauthorized, false))
    );
    let unknown = Uuid::new_v4();
    assert_eq!(
        installation_status(&mut store, &status_of(unknown, unknown), AUDIENCE, NOW),
        Err(refusal(401, ErrorCode::Unauthorized, false))
    );
    let issued = Uuid::new_v4();
    store
        .issue_bearer(id, issued, "tunnel", &[1; 32], 3600, NOW)
        .unwrap();
    assert_eq!(
        retire_installation(&mut store, &retire_of(id, issued), AUDIENCE, NOW),
        Err(refusal(409, ErrorCode::Conflict, false))
    );
}

#[test]
fn enrollment_goes_from_challenge_to_receipt() {
    let mut store = Store::new();
    let source = IpAddress::V4(0xc633_6401);
    let given = challenge(&mut store, source, NOW).unwrap();
    assert_eq!(given.nonce.len(), 43);
    assert_eq!(given.expires_at_ms, NOW + 60_000);
    let operation = Uuid::new_v4();
    let request =
        enroll_request(given, &public_key(&ADMIN), operation, NOW, signer).unwrap();
    assert_eq!(
        enroll(&mut store, &request, IpAddress::V4(1), &RELAY, AUDIENCE, "shard-1", NOW),
        Err(refusal(410, ErrorCode::ExpiredOrReplayed, false))
    );
    let receipt = enroll(&mut store, &request, source, &RELAY, AUDIENCE, "shard-1", NOW).unwrap();
    assert!(check_allocation(
        receipt,
        &public_key(&RELAY),
        operation,
        &public_key(&ADMIN),
        NOW
    )
    .is_ok());
    assert_eq!(
        enroll(&mut store, &request, source, &RELAY, AUDIENCE, "shard-1", NOW),
        Err(refusal(410, ErrorCode::ExpiredOrReplayed, false))
    );
    let mut malformed = request;
    malformed.body.admin_public_key = "short".into();
    assert_eq!(
        enroll(&mut store, &malformed, source, &RELAY, AUDIENCE, "shard-1", NOW),
        Err(refusal(400, ErrorCode::InvalidRequest, false))
    );
}

#[test]
fn bootstrap_challenges_are_bounded_by_source() {
    let mut store = Store::new();
    let source = IpAddress::V4(3);
    let mut given = 0;
    let mut refused = None;
    for index in 0..100 {
        match challenge_with(&mut store, format!("nonce-{index}"), source, NOW) {
            Ok(_) => given += 1,
            Err(error) => {
                refused = Some(error);
            }
        }
    }
    assert!(given > 0);
    assert_eq!(refused, Some(refusal(429, ErrorCode::QuotaExceeded, true)));
    assert!(challenge_with(&mut store, "other".into(), IpAddress::V4(4), NOW).is_ok());
    assert!(challenge_with(&mut store, "later".into(), source, NOW + 60_001).is_ok());
}

#[test]
fn credentials_are_issued_renewed_and_used() {
    let (mut store, id, hostname) = ready_store();
    let secret = SecretToken::from_bytes(&vec![1; 32]);
    let operation = Uuid::new_v4();
    let request = issue_request(
        id,
        Scope::DnsChallenge,
        &secret,
        operation,
        fresh_nonce(),
        NOW,
        signer,
    )
    .unwrap();
    let receipt = issue_credential(&mut store, &request, AUDIENCE, NOW).unwrap();
    let receipt = check_credential(receipt, Scope::DnsChallenge, operation, NOW).unwrap();
    let bearer = format!("Bearer {}", secret.expose());
    let lease_id = Uuid::new_v4();
    let create = |nonce: &str| DnsChallengeRequest {
        version: WIRE_VERSION,
        installation_id: id,
        lease: ChallengeLease {
            operation_id: lease_id,
            txt_value: "a".repeat(43),
            expires_at_ms: NOW + 60_000,
        },
        nonce: nonce.into(),
        generation: receipt.generation,
    };
    assert_eq!(
        create_dns_challenge(&mut store, Some("Bearer wrong"), &create("0123456789abcdef"), NOW),
        Err(refusal(401, ErrorCode::Unauthorized, false))
    );
    assert_eq!(
        create_dns_challenge(&mut store, Some(&bearer), &create("short"), NOW),
        Err(refusal(400, ErrorCode::InvalidRequest, false))
    );
    assert_eq!(
        create_dns_challenge(&mut store, Some(&bearer), &create("0123456789abcdef"), NOW),
        Ok(202)
    );
    assert_eq!(
        create_dns_challenge(&mut store, Some(&bearer), &create("0123456789abcdef"), NOW),
        Err(refusal(410, ErrorCode::ExpiredOrReplayed, false))
    );
    assert_eq!(
        dns_challenge_ready(&store, Some(&bearer), id, lease_id, NOW),
        Ok(202)
    );
    store.mark_challenge_ready(id, lease_id, NOW);
    assert_eq!(
        dns_challenge_ready(&store, Some(&bearer), id, lease_id, NOW),
        Ok(204)
    );
    let certificate = CertificateMetadata {
        hostname: hostname.clone(),
        acme_account_uri: ACCOUNT.into(),
        key_fingerprint: "a".repeat(64),
        lineage: "lineage".into(),
        not_before_ms: NOW,
        not_after_ms: NOW + 1,
    };
    assert_eq!(
        record_certificate(&mut store, Some(&id.to_text()), Some(&bearer), &certificate, NOW),
        Ok(202)
    );
    assert_eq!(
        record_certificate(&mut store, Some("nobody"), Some(&bearer), &certificate, NOW),
        Err(refusal(400, ErrorCode::InvalidRequest, false))
    );
    assert_eq!(
        delete_dns_challenge(
            &mut store,
            Some(&bearer),
            &DnsChallengeDeleteRequest {
                version: WIRE_VERSION,
                installation_id: id,
                lease_id,
                nonce: "fedcba9876543210".into(),
                generation: receipt.generation,
            },
            NOW
        ),
        Ok(202)
    );
    let next = SecretToken::from_bytes(&vec![2; 32]);
    let renewal_operation = Uuid::new_v4();
    let renewal = fresh_renewal_request(
        id,
        Scope::DnsChallenge,
        receipt.generation,
        next.expose(),
        renewal_operation,
        NOW,
    )
    .unwrap();
    let renewed = renew_credential(&mut store, Some(&bearer), &renewal, NOW).unwrap();
    assert!(check_renewal(
        renewed,
        Scope::DnsChallenge,
        receipt.generation,
        renewal_operation,
        NOW
    )
    .is_ok());
    assert_eq!(
        dns_challenge_ready(&store, Some(&bearer), id, lease_id, NOW),
        Err(refusal(401, ErrorCode::Unauthorized, false))
    );
    assert_eq!(
        renew_credential(&mut store, None, &renewal, NOW),
        Err(refusal(401, ErrorCode::Unauthorized, false))
    );
    assert_eq!(
        renew_credential(&mut store, Some(&bearer), &renewal, NOW + 30_000),
        Err(refusal(400, ErrorCode::InvalidRequest, false))
    );
}

#[test]
fn accounts_are_bound_by_the_admin() {
    let mut store = Store::new();
    let allocation = store
        .allocate(Uuid::new_v4(), &public_key(&ADMIN), "fixture", NOW)
        .unwrap();
    let id = allocation.installation_id;
    let bind = |uri: &str| {
        account_request(id, uri.into(), Uuid::new_v4(), fresh_nonce(), NOW, signer).unwrap()
    };
    assert_eq!(
        register_acme_account(&mut store, &bind("https://example.com/acme/acct/1"), AUDIENCE, NOW),
        Err(refusal(400, ErrorCode::InvalidRequest, false))
    );
    assert_eq!(
        register_acme_account(&mut store, &bind(ACCOUNT), AUDIENCE, NOW),
        Ok(202)
    );
    assert_eq!(
        register_acme_account(&mut store, &bind(ACCOUNT), "elsewhere", NOW),
        Err(refusal(401, ErrorCode::Unauthorized, false))
    );
    let secret = SecretToken::from_bytes(&vec![1; 32]);
    let mut request = issue_request(
        id,
        Scope::Tunnel,
        &secret,
        Uuid::new_v4(),
        fresh_nonce(),
        NOW,
        signer,
    )
    .unwrap();
    request.body.scope = Scope::SurfaceAdmin;
    assert_eq!(
        issue_credential(&mut store, &request, AUDIENCE, NOW),
        Err(refusal(400, ErrorCode::InvalidRequest, false))
    );
}

#[test]
fn only_retryable_refusals_name_a_time() {
    assert_eq!(retry_after(quota_exceeded()), Some(60));
    assert_eq!(retry_after(unavailable()), Some(5));
    assert_eq!(retry_after(unauthorized()), None);
}

#[test]
fn headers_and_digests_are_read_exactly() {
    assert_eq!(read_bearer(Some("Bearer abc")).as_deref(), Some("abc"));
    assert_eq!(read_bearer(Some("bearer abc")), None);
    assert_eq!(read_bearer(None), None);
    assert_eq!(read_digest(&"0f".repeat(32)), Some([15; 32]));
    assert_eq!(read_digest(&"0f".repeat(31)), None);
    assert_eq!(read_digest("xy"), None);
}

#[test]
fn worker_publishes_observes_and_settles() {
    let mut store = Store::new();
    let allocation = store
        .allocate(Uuid::new_v4(), &public_key(&ADMIN), "fixture", NOW)
        .unwrap();
    let id = allocation.installation_id;
    let ingress = vec![Address {
        ip: IpAddress::V4(0xc000_0201),
        text: "192.0.2.1".into(),
    }];
    let early = store.claim_job("fixture", NOW).unwrap();
    assert_eq!(
        begin_job(&store, "fixture", &ingress, &early, NOW),
        WorkerAction::Done
    );
    store.complete_job(early.id);
    store.register_acme_account(id, ACCOUNT, NOW).unwrap();
    let job = store.claim_job("fixture", NOW).unwrap();
    assert_eq!(
        begin_job(&store, "elsewhere", &ingress, &job, NOW),
        WorkerAction::Wait
    );
    let action = begin_job(&store, "fixture", &ingress, &job, NOW);
    assert!(matches!(
        action,
        WorkerAction::PublishName(ref records)
            if records.hostname == allocation.hostname
                && records.addresses == ingress
                && records.acme_account_uri == ACCOUNT
    ));
    assert!(!settle_job(&mut store, &job, false, NOW));
    assert_eq!(store.hostname(id), None);
    assert!(settle_job(&mut store, &job, true, NOW));
    assert_eq!(store.hostname(id), Some(allocation.hostname.clone()));
    store.complete_job(job.id);
    let (generation, _) = store
        .issue_bearer(id, Uuid::new_v4(), "dns_challenge", &[3; 32], 3600, NOW)
        .unwrap();
    let lease_id = Uuid::new_v4();
    store
        .create_challenge(
            id,
            generation,
            &ChallengeLease {
                operation_id: lease_id,
                txt_value: "b".repeat(43),
                expires_at_ms: NOW + 60_000,
            },
            NOW,
        )
        .unwrap();
    let publish = store.claim_job("fixture", NOW).unwrap();
    assert!(matches!(
        begin_job(&store, "fixture", &ingress, &publish, NOW),
        WorkerAction::CreateTxt(ref lease)
            if lease.lease_id == lease_id.to_text() && lease.value == "b".repeat(43)
    ));
    assert!(settle_job(&mut store, &publish, true, NOW));
    assert!(store.challenge_ready(id, lease_id, NOW));
    store.complete_job(publish.id);
    store.delete_challenge(id, generation, lease_id, NOW).unwrap();
    let remove = store.claim_job("fixture", NOW).unwrap();
    assert!(matches!(
        begin_job(&store, "fixture", &ingress, &remove, NOW),
        WorkerAction::DeleteTxt(_)
    ));
    store.complete_job(remove.id);
    store.retire(id, Uuid::new_v4(), NOW).unwrap();
    let retire = store.claim_job("fixture", NOW).unwrap();
    assert_eq!(
        begin_job(&store, "fixture", &ingress, &retire, NOW),
        WorkerAction::RetireName(allocation.hostname)
    );
}
