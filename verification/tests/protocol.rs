use bloom_relay::canonical::{canonical_json, number_field, text_field, JsonDocument};
use bloom_relay::encoding::{base64url_read, sha256_hex};
use bloom_relay::frames::ControlDecoder;
use bloom_relay::ids::Uuid;
use bloom_relay::numbers::{parse_u16, parse_u64, to_decimal};
use bloom_relay::protocol::{
    read_signature, validate_acme_account_uri, validate_hostname, AcmeEnvironment, Allocation,
    AllocationReceipt, AllocationState, AuthClaims, ProtocolError, Scope, TunnelEvent,
    VerifyingKey, MAX_ACME_ACCOUNT_URI_LEN, MAX_CONTROL_BODY, TRUSTED_RESPONSE_CLOCK_SKEW_MS,
    WIRE_VERSION,
};
use bloom_relay::signing::{generate_seed, public_key, sign};
use base64::engine::general_purpose::URL_SAFE_NO_PAD;
use base64::Engine;
use ed25519_dalek::{Signer, SigningKey};

const HOST: &str = "abcdefghijklmnopqrstuv2345.relay.bloom.directory";

fn key_of(key: &SigningKey) -> VerifyingKey {
    VerifyingKey::from_bytes(&key.verifying_key().to_bytes()).unwrap()
}

#[test]
fn signed_claims_reject_wrong_scope_body_and_deadline() {
    let key = SigningKey::from_bytes(&[7; 32]);
    let body = b"{}";
    let claims = AuthClaims {
        version: WIRE_VERSION,
        installation_id: Uuid::nil(),
        scope: Scope::DnsChallenge,
        generation: 2,
        audience: "relay-control.bloom.directory".into(),
        operation_id: Uuid::nil(),
        nonce: "nonce".into(),
        expires_at_ms: 5_000,
        body_sha256: sha256_hex(body),
    };
    let sig = URL_SAFE_NO_PAD.encode(key.sign(&claims.signing_bytes().unwrap()).to_bytes());
    let point = key_of(&key);
    assert!(claims
        .verify(
            body,
            &sig,
            &point,
            Scope::DnsChallenge,
            "relay-control.bloom.directory",
            1_000
        )
        .is_ok());
    assert_eq!(
        claims.verify(
            body,
            &sig,
            &point,
            Scope::SurfaceAdmin,
            "relay-control.bloom.directory",
            1_000
        ),
        Err(ProtocolError::Unauthorized)
    );
    assert_eq!(
        claims.verify(
            b"bad",
            &sig,
            &point,
            Scope::DnsChallenge,
            "relay-control.bloom.directory",
            1_000
        ),
        Err(ProtocolError::InvalidSignature)
    );
    assert_eq!(
        claims.verify(
            body,
            &sig,
            &point,
            Scope::DnsChallenge,
            "relay-control.bloom.directory",
            5_000
        ),
        Err(ProtocolError::Expired)
    );
}

#[test]
fn signed_claims_have_exact_bytes() {
    let claims = AuthClaims {
        version: WIRE_VERSION,
        installation_id: Uuid::nil(),
        scope: Scope::SurfaceAdmin,
        generation: 0,
        audience: "relay-control.bloom.directory".into(),
        operation_id: Uuid::from_u128(1),
        nonce: "abcdefghijklmnop".into(),
        expires_at_ms: 7,
        body_sha256: "00".into(),
    };
    let bytes = claims.signing_bytes().unwrap();
    let text = String::from_utf8(bytes).unwrap();
    assert!(text.starts_with("bloom-relay/control/v1\0{\"audience\":\"relay-control.bloom.directory\""));
    assert!(text.ends_with("\"scope\":\"surface_admin\",\"version\":1}"));
    assert!(text.contains("\"operation_id\":\"00000000-0000-0000-0000-000000000001\""));
}

#[test]
fn claims_of_another_version_or_audience_are_refused() {
    let key = SigningKey::from_bytes(&[7; 32]);
    let point = key_of(&key);
    let mut claims = AuthClaims {
        version: WIRE_VERSION + 1,
        installation_id: Uuid::nil(),
        scope: Scope::Tunnel,
        generation: 0,
        audience: "relay-control.bloom.directory".into(),
        operation_id: Uuid::nil(),
        nonce: "abcdefghijklmnop".into(),
        expires_at_ms: 5_000,
        body_sha256: sha256_hex(b"{}"),
    };
    assert_eq!(claims.signing_bytes(), Err(ProtocolError::IncompatibleVersion));
    assert_eq!(
        claims.verify(
            b"{}",
            &"A".repeat(86),
            &point,
            Scope::Tunnel,
            "relay-control.bloom.directory",
            1_000
        ),
        Err(ProtocolError::IncompatibleVersion)
    );
    claims.version = WIRE_VERSION;
    assert_eq!(
        claims.verify(b"{}", "", &point, Scope::Tunnel, "elsewhere", 1_000),
        Err(ProtocolError::Unauthorized)
    );
    assert_eq!(
        claims.verify(
            &vec![b'x'; MAX_CONTROL_BODY + 1],
            "",
            &point,
            Scope::Tunnel,
            "relay-control.bloom.directory",
            1_000
        ),
        Err(ProtocolError::TooLarge)
    );
}

#[test]
fn hostname_is_exact_and_lowercase() {
    assert!(validate_hostname("abcdefghijklmnopqrstuv2345.relay.bloom.directory").is_ok());
    for invalid in [
        "relay.bloom.directory",
        "ABCDefghijklmnopqrstuv2345.relay.bloom.directory",
        "abcdefghijklmnopqrstuv2345.relay.bloom.directory.",
        "x.abcdefghijklmnopqrstuv2345.relay.bloom.directory",
    ] {
        assert!(validate_hostname(invalid).is_err());
    }
}

#[test]
fn acme_environment_accepts_only_its_exact_account_uri_namespace() {
    let production = "https://acme-v02.api.letsencrypt.org/acme/acct/123";
    let staging = "https://acme-staging-v02.api.letsencrypt.org/acme/acct/456";
    assert_eq!(
        validate_acme_account_uri(production),
        Ok(AcmeEnvironment::Production)
    );
    assert_eq!(
        validate_acme_account_uri(staging),
        Ok(AcmeEnvironment::Staging)
    );
    assert!(AcmeEnvironment::Production
        .validate_account_uri(staging)
        .is_err());
    assert!(AcmeEnvironment::Staging
        .validate_account_uri(production)
        .is_err());
    for invalid in [
        "https://acme-v02.api.letsencrypt.org/acme/acct/",
        "https://acme-v02.api.letsencrypt.org/acme/acct/123/",
        "https://acme-v02.api.letsencrypt.org/acme/acct/12x",
        "https://example.com/acme/acct/123",
        "http://acme-v02.api.letsencrypt.org/acme/acct/123",
    ] {
        assert!(validate_acme_account_uri(invalid).is_err(), "{invalid}");
    }
    let overlong = format!(
        "{}{}",
        AcmeEnvironment::Production.account_uri_prefix(),
        "1".repeat(
            MAX_ACME_ACCOUNT_URI_LEN + 1 - AcmeEnvironment::Production.account_uri_prefix().len()
        )
    );
    assert_eq!(overlong.len(), MAX_ACME_ACCOUNT_URI_LEN + 1);
    assert!(validate_acme_account_uri(&overlong).is_err());
    assert_eq!("production".parse(), Ok(AcmeEnvironment::Production));
    assert_eq!("staging".parse(), Ok(AcmeEnvironment::Staging));
    assert!("STAGING".parse::<AcmeEnvironment>().is_err());
}

fn write_event(event: &TunnelEvent) -> String {
    match event {
        TunnelEvent::Heartbeat {
            version,
            generation,
        } => format!(
            "{{\"type\":\"heartbeat\",\"version\":{version},\"generation\":{generation}}}"
        ),
        TunnelEvent::Open { .. } => panic!("only heartbeats are written here"),
    }
}

fn read_event(line: &[u8]) -> Option<TunnelEvent> {
    let value: serde_json::Value = serde_json::from_slice(line).ok()?;
    if value.get("type")?.as_str()? != "heartbeat" {
        return None;
    }
    Some(TunnelEvent::Heartbeat {
        version: u16::try_from(value.get("version")?.as_u64()?).ok()?,
        generation: value.get("generation")?.as_u64()?,
    })
}

fn heartbeat(generation: u64) -> TunnelEvent {
    TunnelEvent::Heartbeat {
        version: WIRE_VERSION,
        generation,
    }
}

#[test]
fn control_decoder_handles_split_and_coalesced_frames() {
    let event = TunnelEvent::Heartbeat {
        version: WIRE_VERSION,
        generation: 3,
    };
    let line = format!("{}\n", write_event(&event));
    let mut decoder = ControlDecoder::default();
    assert!(decoder
        .push(&line.as_bytes()[..4], read_event)
        .unwrap()
        .is_empty());
    assert_eq!(
        decoder.push(&line.as_bytes()[4..], read_event).unwrap(),
        vec![heartbeat(3)]
    );
    assert_eq!(
        decoder
            .push(format!("{line}{line}").as_bytes(), read_event)
            .unwrap(),
        vec![heartbeat(3), event]
    );
    assert_eq!(
        decoder
            .push(&vec![b'x'; MAX_CONTROL_BODY + 1], read_event)
            .unwrap_err(),
        ProtocolError::TooLarge
    );
}

#[test]
fn chunk_boundaries_do_not_matter() {
    let stream = format!(
        "{}\n{}\n{}\n{{\"type\":",
        write_event(&heartbeat(1)),
        write_event(&heartbeat(2)),
        write_event(&heartbeat(3))
    );
    let mut whole = ControlDecoder::default();
    let expected = whole.push(stream.as_bytes(), read_event).unwrap();
    assert_eq!(expected, vec![heartbeat(1), heartbeat(2), heartbeat(3)]);
    for size in [1, 2, 7, 64] {
        let mut fragmented = ControlDecoder::default();
        let mut observed = Vec::new();
        for chunk in stream.as_bytes().chunks(size) {
            observed.extend(fragmented.push(chunk, read_event).unwrap());
        }
        assert_eq!(observed, expected);
    }
    let refused = format!("{}\njunk\n", write_event(&heartbeat(1)));
    assert!(ControlDecoder::default()
        .push(refused.as_bytes(), read_event)
        .is_err());
    for size in [1, 2, 7, 64] {
        let mut fragmented = ControlDecoder::default();
        assert!(refused
            .as_bytes()
            .chunks(size)
            .any(|chunk| fragmented.push(chunk, read_event).is_err()));
    }
}

#[test]
fn unreadable_line_is_an_error_and_the_next_line_waits() {
    let mut decoder = ControlDecoder::default();
    let bytes = format!("junk\n{}\n", write_event(&heartbeat(4)));
    assert_eq!(
        decoder.push(bytes.as_bytes(), read_event),
        Err(ProtocolError::InvalidEncoding)
    );
    assert_eq!(decoder.push(b"", read_event).unwrap(), vec![heartbeat(4)]);
}

#[test]
fn allocation_receipt_binds_operation_and_admin_identity() {
    let key = SigningKey::from_bytes(&[9; 32]);
    let point = key_of(&key);
    let mut receipt = AllocationReceipt {
        allocation: Allocation {
            version: WIRE_VERSION,
            installation_id: Uuid::new_v4(),
            hostname: "abcdefghijklmnopqrstuv2345.relay.bloom.directory".into(),
            placement: "shard-1".into(),
            state: AllocationState::PendingDns,
        },
        operation_id: Uuid::new_v4(),
        admin_key_sha256: sha256_hex(&[7; 32]),
        issued_at_ms: 1000,
        signature: String::new(),
    };
    receipt.signature =
        URL_SAFE_NO_PAD.encode(key.sign(&receipt.signed_bytes().unwrap()).to_bytes());
    assert!(receipt
        .verify(&point, receipt.operation_id, &[7; 32], 1001)
        .is_ok());
    assert_eq!(
        receipt.verify(&point, Uuid::new_v4(), &[7; 32], 1001),
        Err(ProtocolError::Unauthorized)
    );
    assert_eq!(
        receipt.verify(&point, receipt.operation_id, &[8; 32], 1001),
        Err(ProtocolError::Unauthorized)
    );
    receipt.allocation.hostname = "sibling.example".into();
    assert_eq!(
        receipt.verify(&point, receipt.operation_id, &[7; 32], 1001),
        Err(ProtocolError::InvalidHostname)
    );
}

#[test]
fn allocation_receipt_allows_only_bounded_future_clock_offset() {
    let key = SigningKey::from_bytes(&[9; 32]);
    let point = key_of(&key);
    let now = 1_000_000;
    let mut receipt = AllocationReceipt {
        allocation: Allocation {
            version: WIRE_VERSION,
            installation_id: Uuid::new_v4(),
            hostname: "abcdefghijklmnopqrstuv2345.relay.bloom.directory".into(),
            placement: "shard-1".into(),
            state: AllocationState::PendingDns,
        },
        operation_id: Uuid::new_v4(),
        admin_key_sha256: sha256_hex(&[7; 32]),
        issued_at_ms: now + TRUSTED_RESPONSE_CLOCK_SKEW_MS,
        signature: String::new(),
    };
    receipt.signature =
        URL_SAFE_NO_PAD.encode(key.sign(&receipt.signed_bytes().unwrap()).to_bytes());
    assert!(receipt
        .verify(&point, receipt.operation_id, &[7; 32], now)
        .is_ok());

    receipt.issued_at_ms += 1;
    receipt.signature =
        URL_SAFE_NO_PAD.encode(key.sign(&receipt.signed_bytes().unwrap()).to_bytes());
    assert_eq!(
        receipt.verify(&point, receipt.operation_id, &[7; 32], now),
        Err(ProtocolError::Unauthorized)
    );
}

#[test]
fn signed_receipt_is_accepted_and_a_changed_one_is_not() {
    let seed = generate_seed();
    let public = public_key(&seed);
    let draft = AllocationReceipt {
        allocation: Allocation {
            version: WIRE_VERSION,
            installation_id: Uuid::from_u128(5),
            hostname: HOST.into(),
            placement: "shard-1".into(),
            state: AllocationState::DnsReady,
        },
        operation_id: Uuid::from_u128(6),
        admin_key_sha256: sha256_hex(&[7; 32]),
        issued_at_ms: 50_000,
        signature: String::new(),
    };
    let mut signed = draft.sign(&seed).unwrap();
    assert_eq!(
        signed.verify_bytes(&public, Uuid::from_u128(6), &[7; 32], 50_000),
        Ok(())
    );
    assert_eq!(
        signed.verify_bytes(&public, Uuid::from_u128(6), &[7; 32], 50_000 + 300_001),
        Err(ProtocolError::Unauthorized)
    );
    signed.allocation.placement = "shard-2".into();
    assert_eq!(
        signed.verify_bytes(&public, Uuid::from_u128(6), &[7; 32], 50_000),
        Err(ProtocolError::InvalidSignature)
    );
}

#[test]
fn seeds_sign_as_the_curve_does() {
    let reference = SigningKey::from_bytes(&[17; 32]);
    assert_eq!(public_key(&[17; 32]), reference.verifying_key().to_bytes());
    assert_eq!(
        sign(&[17; 32], b"message"),
        reference.sign(b"message").to_bytes()
    );
    assert_ne!(generate_seed(), generate_seed());
}

#[test]
fn points_off_the_curve_are_no_keys() {
    assert!(VerifyingKey::from_bytes(&public_key(&[1; 32])).is_some());
    let mut found = false;
    for first in 0..=255u8 {
        let mut bytes = [0u8; 32];
        bytes[0] = first;
        found = found || VerifyingKey::from_bytes(&bytes).is_none();
    }
    assert!(found);
}

#[test]
fn digests_and_encodings_are_exact() {
    assert_eq!(
        sha256_hex(b"abc"),
        "ba7816bf8f01cfea414140de5dae2223b00361a396177a9cb410ff61f20015ad"
    );
    assert_eq!(base64url_read("_-8"), Some(vec![0xff, 0xef]));
    assert_eq!(base64url_read("_-8="), None);
    assert_eq!(base64url_read("_-9"), None);
    assert!(read_signature(&"A".repeat(86)).is_some());
    assert!(read_signature(&"A".repeat(84)).is_none());
}

#[test]
fn documents_are_canonical() {
    let document = JsonDocument::Object(vec![
        text_field("b", "x\"y"),
        number_field("a", 7),
    ]);
    assert_eq!(
        canonical_json(&document),
        b"{\"a\":7,\"b\":\"x\\\"y\"}".to_vec()
    );
    assert_eq!(canonical_json(&JsonDocument::Object(vec![])), b"{}".to_vec());
    let odd = JsonDocument::Object(vec![
        text_field("\u{0}\n\u{7f}\u{1f600}", "/"),
        number_field("", u64::MAX),
    ]);
    assert_eq!(
        canonical_json(&odd),
        "{\"\":18446744073709552000,\"\\u0000\\n\u{7f}\u{1f600}\":\"/\"}".as_bytes()
    );
}

#[test]
fn identifiers_round_trip() {
    let id = Uuid::from_u128(0x0123_4567_89ab_cdef_0123_4567_89ab_cdef);
    assert_eq!(id.to_text(), "01234567-89ab-cdef-0123-456789abcdef");
    assert_eq!(Uuid::parse_str("01234567-89ab-cdef-0123-456789abcdef"), Some(id));
    assert_eq!(Uuid::parse_str("not an identifier"), None);
    assert_ne!(Uuid::new_v4(), Uuid::new_v4());
}

#[test]
fn decimal_numbers_are_read_and_written() {
    assert_eq!(to_decimal(0), "0");
    assert_eq!(to_decimal(u64::MAX), "18446744073709551615");
    assert_eq!(parse_u64("18446744073709551615"), Some(u64::MAX));
    assert_eq!(parse_u64("18446744073709551616"), None);
    assert_eq!(parse_u64("+7"), Some(7));
    assert_eq!(parse_u64(""), None);
    assert_eq!(parse_u16("65536"), None);
    assert_eq!(parse_u16("1"), Some(1));
}

#[test]
fn protocol_errors_have_messages() {
    assert!(!ProtocolError::Expired.message().is_empty());
    assert_ne!(
        ProtocolError::Expired.message(),
        ProtocolError::Unauthorized.message()
    );
}
