use bloom_relay::address::IpAddress;
use bloom_relay::ids::Uuid;
use bloom_relay::protocol::{AllocationState, CertificateMetadata, ChallengeLease};
use bloom_relay::store::model::{
    job_kind, read_job_kind, DnsJobScope, JobKind, Store, StoreError,
};
use bloom_relay::store::outbox::retry_delay;
use bloom_relay::store::witness::{
    read_revision, temporary_name, verify_and_advance, witness_text, RestoreWitness, WitnessError,
    WitnessFault,
};
use sha2::{Digest, Sha256};

const ACCOUNT: &str = "https://acme-v02.api.letsencrypt.org/acme/acct/123";
const NOW: u64 = 1_700_000_000_000;

fn digest(text: &str) -> [u8; 32] {
    Sha256::digest(text.as_bytes()).into()
}

#[test]
fn allocation_rotation_dns_and_fencing() {
    let mut store = Store::new();
    let operation = Uuid::new_v4();
    let admin = [9u8; 32];
    let allocation = store.allocate(operation, &admin, "test-shard", NOW).unwrap();
    let duplicate = store.allocate(operation, &admin, "test-shard", NOW).unwrap();
    assert_eq!(allocation, duplicate);
    assert!(matches!(
        store.allocate(operation, &[8u8; 32], "test-shard", NOW),
        Err(StoreError::Conflict)
    ));
    let id = allocation.installation_id;
    let hostname = allocation.hostname.clone();
    assert_eq!(store.hostname(id), None);
    store.register_acme_account(id, ACCOUNT, NOW).unwrap();
    store.mark_dns_ready(id);
    assert_eq!(store.hostname(id), Some(hostname.clone()));

    let tunnel_token = "t".repeat(43);
    let issue = Uuid::new_v4();
    let hash = digest(&tunnel_token);
    let (credential_generation, expiry) = store
        .issue_bearer(id, issue, "tunnel", &hash, 86_400, NOW)
        .unwrap();
    assert_eq!(
        store
            .issue_bearer(id, issue, "tunnel", &hash, 86_400, NOW)
            .unwrap(),
        (credential_generation, expiry)
    );
    assert_eq!(
        store.authenticate_bearer(id, "tunnel", &tunnel_token, NOW),
        Some(credential_generation)
    );
    assert_eq!(
        store.authenticate_bearer(id, "dns_challenge", &tunnel_token, NOW),
        None
    );
    assert!(matches!(
        store.claim_tunnel(id, "wrong-placement", 45, NOW),
        Err(StoreError::Conflict)
    ));
    let first = store.claim_tunnel(id, "test-shard", 45, NOW).unwrap();
    let second = store.claim_tunnel(id, "test-shard", 45, NOW).unwrap();
    assert!(!store.tunnel_is_current(id, "test-shard", first, NOW));
    assert!(store.tunnel_is_current(id, "test-shard", second, NOW));
    let next_token = "n".repeat(43);
    let next_hash = digest(&next_token);
    let renew = Uuid::new_v4();
    let (next_generation, next_expiry) = store
        .renew_bearer(
            id,
            renew,
            "tunnel",
            credential_generation,
            &tunnel_token,
            &next_hash,
            NOW,
        )
        .unwrap();
    assert!(next_generation > credential_generation && next_expiry > expiry - 1000);
    assert_eq!(
        store
            .renew_bearer(
                id,
                renew,
                "tunnel",
                credential_generation,
                &tunnel_token,
                &next_hash,
                NOW
            )
            .unwrap(),
        (next_generation, next_expiry)
    );
    assert_eq!(
        store.authenticate_bearer(id, "tunnel", &tunnel_token, NOW),
        None
    );
    assert_eq!(
        store.authenticate_bearer(id, "tunnel", &next_token, NOW),
        Some(next_generation)
    );
    assert!(!store.tunnel_is_current(id, "test-shard", second, NOW));

    let dns_token = "d".repeat(43);
    let dns_hash = digest(&dns_token);
    let (dns_generation, _) = store
        .issue_bearer(id, Uuid::new_v4(), "dns_challenge", &dns_hash, 86_400, NOW)
        .unwrap();
    let lease_id = Uuid::new_v4();
    let lease = ChallengeLease {
        operation_id: lease_id,
        txt_value: "a".repeat(43),
        expires_at_ms: NOW + 600_000,
    };
    store
        .create_challenge(id, dns_generation, &lease, NOW)
        .unwrap();
    assert!(!store.challenge_ready(id, lease_id, NOW));
    store.mark_challenge_ready(id, lease_id, NOW);
    assert!(store.challenge_ready(id, lease_id, NOW));
    store
        .delete_challenge(id, dns_generation, lease_id, NOW)
        .unwrap();
    assert!(!store.challenge_ready(id, lease_id, NOW));
    let retire_operation = Uuid::new_v4();
    store.retire(id, retire_operation, NOW).unwrap();
    store.retire(id, retire_operation, NOW).unwrap();
    assert!(matches!(
        store.retire(id, issue, NOW),
        Err(StoreError::Conflict)
    ));
    assert!(matches!(
        store.allocation_status(id).unwrap().state,
        AllocationState::Retired
    ));
    assert_eq!(store.hostname(id), None);
    assert_eq!(
        store.authenticate_bearer(id, "dns_challenge", &dns_token, NOW),
        None
    );
    assert_eq!(store.reservations.get(&hostname), Some(&id));
}

#[test]
fn abandoned_pending_and_challenge_leases_are_swept_without_reuse() {
    let mut store = Store::new();
    let pending = store
        .allocate(Uuid::new_v4(), &[6u8; 32], "test-shard", NOW)
        .unwrap();
    let later = NOW + 25 * 3_600_000;
    assert!(store.expire_pending_allocations(100, later) >= 1);
    assert!(matches!(
        store
            .allocation_status(pending.installation_id)
            .unwrap()
            .state,
        AllocationState::Retired
    ));
    assert_eq!(
        store.reservations.get(&pending.hostname),
        Some(&pending.installation_id)
    );

    let allocation = store
        .allocate(Uuid::new_v4(), &[7u8; 32], "test-shard", later)
        .unwrap();
    let id = allocation.installation_id;
    store.register_acme_account(id, ACCOUNT, later).unwrap();
    store.mark_dns_ready(id);
    let token_hash = digest("d-credential");
    let (generation, _) = store
        .issue_bearer(id, Uuid::new_v4(), "dns_challenge", &token_hash, 3600, later)
        .unwrap();
    let lease_id = Uuid::new_v4();
    store
        .create_challenge(
            id,
            generation,
            &ChallengeLease {
                operation_id: lease_id,
                txt_value: "z".repeat(43),
                expires_at_ms: later + 60_000,
            },
            later,
        )
        .unwrap();
    let expired = later + 60_001;
    assert!(store.expire_challenge_leases(100, expired) >= 1);
    assert!(!store.challenge_ready(id, lease_id, expired));
    let jobs = store
        .outbox
        .iter()
        .filter(|job| job.installation_id == id && job.kind.name() == "remove_txt")
        .count();
    assert_eq!(jobs, 1);
}

#[test]
fn placement_move_fences_gateway_and_routes_dns_work() {
    let mut store = Store::new();
    let first_placement = "first-5d7f";
    let second_placement = "second-5d7f";
    let allocation = store
        .allocate(Uuid::new_v4(), &[3u8; 32], first_placement, NOW)
        .unwrap();
    let id = allocation.installation_id;
    assert!(store.claim_job(second_placement, NOW).is_none());
    let first_job = store.claim_job(first_placement, NOW).unwrap();
    assert_eq!(first_job.installation_id, id);
    store.complete_job(first_job.id);
    store.register_acme_account(id, ACCOUNT, NOW).unwrap();
    store.mark_dns_ready(id);
    let first_generation = store.claim_tunnel(id, first_placement, 45, NOW).unwrap();
    let move_operation = Uuid::new_v4();
    store
        .relocate(id, move_operation, second_placement, NOW)
        .unwrap();
    store
        .relocate(id, move_operation, second_placement, NOW)
        .unwrap();
    assert!(matches!(
        store.relocate(id, move_operation, first_placement, NOW),
        Err(StoreError::Conflict)
    ));
    assert!(!store.tunnel_is_current(id, first_placement, first_generation, NOW));
    assert!(matches!(
        store.claim_tunnel(id, first_placement, 45, NOW),
        Err(StoreError::Conflict)
    ));
    let second_generation = store.claim_tunnel(id, second_placement, 45, NOW).unwrap();
    assert!(second_generation > first_generation);
    assert!(store.claim_job(first_placement, NOW).is_none());
    let job = store.claim_job(second_placement, NOW).unwrap();
    assert_eq!(job.installation_id, id);
    assert_eq!(job.kind.name(), "publish_name");
    assert_eq!(
        store.allocation_status(id).unwrap().hostname,
        allocation.hostname
    );
}

#[test]
fn stale_database_revision_is_rejected_by_external_witness() {
    let mut store = Store::new();
    let revision = store.restore_revision();
    assert_eq!(verify_and_advance(None, revision, store.restore_pristine()), Ok(Some(revision)));
    store
        .allocate(Uuid::new_v4(), &[3u8; 32], "test-shard", NOW)
        .unwrap();
    let established = store.restore_revision();
    assert!(matches!(
        verify_and_advance(None, established, store.restore_pristine()),
        Err(WitnessError::Missing)
    ));
    let mark = read_revision(true, 0o100600, &witness_text(established).into_bytes()).unwrap();
    assert_eq!(mark, established);
    assert!(verify_and_advance(Some(mark), established, false).is_ok());
    store
        .allocate(Uuid::new_v4(), &[4u8; 32], "test-shard", NOW)
        .unwrap();
    let advanced = store.restore_revision();
    assert!(advanced > established);
    assert_eq!(
        verify_and_advance(Some(mark), advanced, false),
        Ok(Some(advanced))
    );
    store
        .allocate(Uuid::new_v4(), &[1u8; 32], "test-shard", NOW)
        .unwrap();
    store
        .allocate(Uuid::new_v4(), &[2u8; 32], "test-shard", NOW)
        .unwrap();
    assert!(store.restore_revision() >= advanced + 2);
    assert!(matches!(
        verify_and_advance(
            Some(store.restore_revision() + 1_000_000),
            store.restore_revision(),
            false
        ),
        Err(WitnessError::StaleDatabase)
    ));
}

#[test]
fn witness_files_are_private_numbers() {
    assert_eq!(
        read_revision(false, 0o100600, &b"1\n".to_vec()),
        Err(WitnessFault::NotAFile)
    );
    assert_eq!(
        read_revision(true, 0o100660, &b"1\n".to_vec()),
        Err(WitnessFault::Permissions)
    );
    assert_eq!(
        read_revision(true, 0o100600, &b"one\n".to_vec()),
        Err(WitnessFault::NotANumber)
    );
    assert_eq!(
        read_revision(true, 0o100600, &vec![b'1'; 65]),
        Err(WitnessFault::TooLarge)
    );
    assert_eq!(witness_text(7), "7\n");
    assert_eq!(
        temporary_name(Uuid::nil()),
        ".bloom-relay-witness-00000000-0000-0000-0000-000000000000"
    );
    assert!(RestoreWitness::new("/var/lib/bloom/witness".into()).is_ok());
    assert_eq!(
        RestoreWitness::new("witness".into()),
        Err(WitnessFault::Path)
    );
    assert_eq!(
        WitnessError::StaleDatabase.message(),
        "database revision below external restore witness"
    );
}

#[test]
fn ct_fixture_flags_unexpected_issuance_and_preserves_checkpoint() {
    let mut store = Store::new();
    let allocation = store
        .allocate(Uuid::new_v4(), &[5u8; 32], "test-shard", NOW)
        .unwrap();
    let id = allocation.installation_id;
    let account = "https://acme-v02.api.letsencrypt.org/acme/acct/123";
    store.register_acme_account(id, account, NOW).unwrap();
    store.mark_dns_ready(id);
    let expected_key = "a".repeat(64);
    store
        .record_expected_certificate(
            id,
            &CertificateMetadata {
                hostname: allocation.hostname.clone(),
                acme_account_uri: account.into(),
                key_fingerprint: expected_key.clone(),
                lineage: "fixture-lineage".into(),
                not_before_ms: NOW - 1000,
                not_after_ms: NOW + 86_400_000,
            },
        )
        .unwrap();
    let source = format!("fixture-{}", Uuid::new_v4().to_text());
    assert!(store
        .observe_ct(&source, 1, &allocation.hostname, &expected_key, NOW)
        .unwrap());
    assert!(store
        .observe_ct(&source, 1, &allocation.hostname, &expected_key, NOW)
        .unwrap());
    assert!(matches!(
        store.observe_ct(&source, 3, &allocation.hostname, &expected_key, NOW),
        Err(StoreError::Conflict)
    ));
    assert!(!store
        .observe_ct(&source, 2, &allocation.hostname, &"b".repeat(64), NOW)
        .unwrap());
    let alerts = store
        .ct
        .alerts
        .iter()
        .filter(|row| row.alert.source == source)
        .count();
    assert_eq!(alerts, 1);
    assert!(store.ct_feed_lag_seconds(&source, NOW).unwrap() < 15);
}

#[test]
fn refused_operations_change_nothing() {
    let mut store = Store::new();
    assert!(matches!(
        store.allocate(Uuid::new_v4(), &[1; 32], "", NOW),
        Err(StoreError::InvalidRequest)
    ));
    let allocation = store
        .allocate(Uuid::from_u128(1), &[1; 32], "shard", NOW)
        .unwrap();
    let id = allocation.installation_id;
    let revision = store.restore_revision();
    assert_eq!(
        store.register_acme_account(id, "https://example.com/acme/acct/1", NOW),
        Err(StoreError::InvalidRequest)
    );
    assert_eq!(
        store.issue_bearer(id, Uuid::new_v4(), "surface_admin", &[0; 32], 60, NOW),
        Err(StoreError::InvalidRequest)
    );
    assert_eq!(
        store.issue_bearer(id, Uuid::new_v4(), "tunnel", &[0; 32], 59, NOW),
        Err(StoreError::InvalidRequest)
    );
    assert_eq!(
        store.renew_bearer(
            id,
            Uuid::new_v4(),
            "tunnel",
            1,
            &"x".repeat(43),
            &[0; 32],
            NOW
        ),
        Err(StoreError::Unauthorized)
    );
    assert_eq!(store.admin_public_key(Uuid::from_u128(99)), None);
    assert_eq!(store.restore_revision(), revision);
    store.retire(id, Uuid::new_v4(), NOW).unwrap();
    assert_eq!(store.admin_public_key(id), None);
    assert_eq!(store.recorded_admin_key(id), Some([1; 32]));
    assert!(store.retired_hostname(id).is_some());
}

#[test]
fn nonces_and_bootstrap_challenges_work_once() {
    let mut store = Store::new();
    let id = Uuid::from_u128(4);
    let nonce = "n".repeat(16);
    assert!(store.consume_nonce(id, &nonce, NOW));
    assert!(!store.consume_nonce(id, &nonce, NOW));
    assert!(store.consume_nonce(Uuid::from_u128(5), &nonce, NOW));
    assert!(!store.consume_nonce(id, "short", NOW));
    let source = IpAddress::V4(7);
    assert_eq!(store.create_bootstrap_challenge("a", source, NOW), Ok(true));
    assert!(!store.consume_bootstrap_challenge("a", IpAddress::V4(8), NOW));
    assert!(store.consume_bootstrap_challenge("a", source, NOW));
    assert!(!store.consume_bootstrap_challenge("a", source, NOW));
    assert_eq!(store.create_bootstrap_challenge("b", source, NOW), Ok(true));
    assert!(!store.consume_bootstrap_challenge("b", source, NOW + 60_000));
}

#[test]
fn jobs_wait_between_attempts_and_are_scoped() {
    assert_eq!(retry_delay(1), 60);
    assert_eq!(retry_delay(6), 64);
    assert_eq!(retry_delay(7), 128);
    assert_eq!(retry_delay(8), 256);
    assert_eq!(retry_delay(100), 256);
    let mut store = Store::new();
    store
        .allocate(Uuid::new_v4(), &[1; 32], "shard", NOW)
        .unwrap();
    assert!(store
        .claim_scoped_job("shard", Some(DnsJobScope::Challenge), NOW)
        .is_none());
    assert!(store
        .claim_scoped_job("shard", Some(DnsJobScope::Serving), NOW)
        .is_some());
    assert!(store.claim_job("shard", NOW + 59_999).is_none());
    assert!(store.claim_job("shard", NOW + 60_000).is_some());
    let lease = Uuid::from_u128(3);
    for kind in [
        JobKind::PublishName,
        JobKind::RemoveRecords,
        JobKind::PublishTxt(lease),
        JobKind::RemoveTxt(lease),
    ] {
        assert_eq!(job_kind(kind.name(), kind.lease()), Some(kind));
    }
    assert_eq!(read_job_kind("publish_txt", None), None);
    assert_eq!(
        read_job_kind("remove_txt", Some("00000000-0000-0000-0000-000000000003")),
        Some(JobKind::RemoveTxt(lease))
    );
    assert_eq!(read_job_kind("other", None), None);
}
