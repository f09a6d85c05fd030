use bloom_relay::ct_worker::{
    check_token_file, checked_url, feed_url, issuance_key_of, issuance_notice_of, lag_key_of,
    lag_notice_of, read_token, sink_verdict, take_round, CtBatch, CtEntry, CtError, Subject,
};
use bloom_relay::ids::Uuid;
use bloom_relay::protocol::{AllocationState, CertificateMetadata};
use bloom_relay::smoke::{
    check_account, check_control_ca, check_public_file, check_settings, notes_wait, poll_dns,
    read_receipt_key, validate_public_value, value_source, DnsPoll, SmokeError, SmokeEvent,
    SmokeFailure, SmokeRun, SmokeSettings, SmokeStep,
};
use bloom_relay::store::model::{Store, StoreError};
use bloom_relay::text::{is_white, trim};

const NOW: u64 = 1_700_000_000_000;

fn entry(position: u64, hostname: &str, fingerprint: &str) -> CtEntry {
    CtEntry {
        position,
        hostname: hostname.into(),
        key_fingerprint: fingerprint.into(),
    }
}

fn fixture() -> (Store, String, String) {
    let mut store = Store::new();
    let allocation = store
        .allocate(Uuid::new_v4(), &[3u8; 32], "fixture", NOW)
        .unwrap();
    let id = allocation.installation_id;
    let account = "https://acme-v02.api.letsencrypt.org/acme/acct/123";
    store.register_acme_account(id, account, NOW).unwrap();
    store.mark_dns_ready(id);
    store
        .record_expected_certificate(
            id,
            &CertificateMetadata {
                hostname: allocation.hostname.clone(),
                acme_account_uri: account.into(),
                key_fingerprint: "a".repeat(64),
                lineage: "fixture".into(),
                not_before_ms: 1,
                not_after_ms: 2_000_000_000_000,
            },
        )
        .unwrap();
    let source = format!("fixture-{}", Uuid::new_v4().to_text());
    store.ensure_ct_source(&source, NOW).unwrap();
    (store, source, allocation.hostname)
}

#[test]
fn executable_worker_consumes_feed_and_delivers_issuance_and_lag_alerts() {
    let (mut store, source, hostname) = fixture();
    let batch = CtBatch {
        source: source.clone(),
        entries: vec![
            entry(1, &hostname, &"a".repeat(64)),
            entry(2, &hostname, &"b".repeat(64)),
        ],
    };
    take_round(&mut store, &source, Some(&batch), NOW).unwrap();
    assert_eq!(store.ct_checkpoint(&source), Ok(Some(2)));
    let mut pending = store.pending_ct_alerts(&source, 100).unwrap();
    assert_eq!(pending.len(), 1);
    assert_eq!(pending[0].fingerprint, "b".repeat(64));
    assert_eq!(
        issuance_key_of(&pending[0]),
        format!("ct:{source}:{}", pending[0].id)
    );
    assert_eq!(sink_verdict(202), Ok(()));
    let id = pending[0].id;
    let notice = issuance_notice_of(pending.remove(0));
    assert_eq!(notice.key, format!("ct:{source}:{id}"));
    assert_eq!(notice.kind, "unexpected_issuance");
    assert_eq!(
        notice.subject,
        Subject::Issuance {
            position: 2,
            hostname: hostname.clone(),
            key_fingerprint: "b".repeat(64),
        }
    );
    store.mark_ct_alert_delivered(id);
    assert!(store.pending_ct_alerts(&source, 10).unwrap().is_empty());
    let later = NOW + 20 * 60_000;
    take_round(&mut store, &source, None, later).unwrap();
    let lags = store.pending_ct_lag_alerts(&source, 100).unwrap();
    assert_eq!(lags.len(), 1);
    assert_eq!(lags[0].lag_seconds, 1_200);
    assert_eq!(lag_key_of(&lags[0]), format!("ct-lag:{source}:{}", lags[0].id));
    store.mark_ct_lag_alert_delivered(lags[0].id);
    assert!(store.pending_ct_lag_alerts(&source, 10).unwrap().is_empty());
    let notice = lag_notice_of(lags.into_iter().next().unwrap());
    assert_eq!(notice.kind, "feed_lag");
    assert_eq!(notice.source, source);
    assert_eq!(notice.subject, Subject::Lag { lag_seconds: 1_200 });
}

#[test]
fn silence_is_delivered_once_in_a_window() {
    let (mut store, source, _) = fixture();
    let later = NOW + 20 * 60_000;
    take_round(&mut store, &source, None, later).unwrap();
    let lags = store.pending_ct_lag_alerts(&source, 100).unwrap();
    store.mark_ct_lag_alert_delivered(lags[0].id);
    take_round(&mut store, &source, None, later + 1_000).unwrap();
    assert!(store.pending_ct_lag_alerts(&source, 100).unwrap().is_empty());
    take_round(&mut store, &source, None, later + 900_000).unwrap();
    assert_eq!(store.pending_ct_lag_alerts(&source, 100).unwrap().len(), 1);
}

#[test]
fn batches_with_gaps_and_of_others_are_not_taken_whole() {
    let (mut store, source, hostname) = fixture();
    let gap = CtBatch {
        source: source.clone(),
        entries: vec![
            entry(1, &hostname, &"a".repeat(64)),
            entry(3, &hostname, &"a".repeat(64)),
        ],
    };
    take_round(&mut store, &source, Some(&gap), NOW).unwrap();
    assert_eq!(store.ct_checkpoint(&source), Ok(Some(1)));
    let foreign = CtBatch {
        source: "other".into(),
        entries: vec![entry(2, &hostname, &"a".repeat(64))],
    };
    take_round(&mut store, &source, Some(&foreign), NOW).unwrap();
    assert_eq!(store.ct_checkpoint(&source), Ok(Some(1)));
    let malformed = CtBatch {
        source: source.clone(),
        entries: vec![entry(2, "sibling.example", &"a".repeat(64))],
    };
    assert_eq!(
        take_round(&mut store, &source, Some(&malformed), NOW),
        Err(CtError::Store(StoreError::InvalidRequest))
    );
    assert_eq!(
        take_round(&mut store, "unknown", None, NOW),
        Err(CtError::MissingCheckpoint)
    );
    let long = CtBatch {
        source: source.clone(),
        entries: (2..=102)
            .map(|position| entry(position, &hostname, &"a".repeat(64)))
            .collect(),
    };
    take_round(&mut store, &source, Some(&long), NOW).unwrap();
    assert_eq!(store.ct_checkpoint(&source), Ok(Some(1)));
}

#[test]
fn endpoints_are_https_origins_without_credentials() {
    assert_eq!(
        checked_url("https://feed.example:8443/", true).as_deref(),
        Ok("https://feed.example:8443")
    );
    assert_eq!(
        checked_url("https://FEED.example:443", true).as_deref(),
        Ok("https://feed.example")
    );
    assert_eq!(
        checked_url("https://[::1]:8443/", true).as_deref(),
        Ok("https://[::1]:8443")
    );
    assert_eq!(
        checked_url("https://127.1/", true).as_deref(),
        Ok("https://127.0.0.1")
    );
    assert_eq!(
        checked_url("blob:https://feed.example/", true),
        Err(CtError::InvalidEndpoint)
    );
    assert_eq!(
        checked_url("https://sink.example/alerts", false).as_deref(),
        Ok("https://sink.example/alerts")
    );
    assert_eq!(
        checked_url("https://feed.example/path", true),
        Err(CtError::InvalidEndpoint)
    );
    assert_eq!(
        checked_url("http://feed.example/", true),
        Err(CtError::InvalidEndpoint)
    );
    assert_eq!(
        checked_url("https://user@feed.example/", true),
        Err(CtError::InvalidEndpoint)
    );
    assert_eq!(
        checked_url("https://:secret@feed.example/", true),
        Err(CtError::InvalidEndpoint)
    );
    assert_eq!(
        checked_url("https://feed.example/?q=1", true),
        Err(CtError::InvalidEndpoint)
    );
    assert_eq!(
        checked_url("https://feed.example/#f", true),
        Err(CtError::InvalidEndpoint)
    );
    assert_eq!(checked_url("not a url", true), Err(CtError::InvalidUrl));
    assert_eq!(
        feed_url("https://feed.example", 17),
        "https://feed.example/v1/entries?after=17&limit=100"
    );
}

#[test]
fn tokens_are_private_and_plain() {
    assert_eq!(check_token_file(true, 256, 0o100600), Ok(()));
    assert_eq!(
        check_token_file(true, 256, 0o100604),
        Err(CtError::InvalidTokenFile)
    );
    assert_eq!(
        read_token(" fixturetokenfixturetoken\n").as_deref(),
        Ok("fixturetokenfixturetoken")
    );
    assert_eq!(read_token("short"), Err(CtError::InvalidToken));
    assert_eq!(read_token("fixture token fixture"), Err(CtError::InvalidToken));
    assert_eq!(sink_verdict(200), Err(CtError::SinkRejected));
    assert_eq!(trim("\u{3000}\t a b \u{85}"), "a b");
    assert_eq!(trim(" \n "), "");
}

#[test]
fn white_space_is_what_the_standard_library_takes_for_it() {
    for code in 0..0x1_1000u32 {
        if let Some(c) = char::from_u32(code) {
            assert_eq!(is_white(c), c.is_whitespace(), "{code:x}");
        }
    }
}

fn settings<'a>(flag: Option<&'a str>, gateway: &'a str, ingress: &'a str) -> SmokeSettings<'a> {
    SmokeSettings {
        requested: flag,
        gateway,
        ingress,
    }
}

#[test]
fn probe_settings_are_fixed() {
    let gateway = "84.32.151.158:443";
    let ingress = "84.32.25.82:443";
    assert_eq!(check_settings(&settings(Some("1"), gateway, ingress)), Ok(()));
    assert_eq!(
        check_settings(&settings(None, gateway, ingress)),
        Err(SmokeError::NotRequested)
    );
    assert_eq!(
        check_settings(&settings(Some("1"), "127.0.0.1:443", ingress)),
        Err(SmokeError::WrongTopology)
    );
    assert_eq!(
        check_settings(&settings(Some("1"), " 84.32.151.158:443", ingress)),
        Err(SmokeError::InvalidSetting)
    );
    assert_eq!(validate_public_value("value"), Ok(()));
    assert_eq!(validate_public_value(""), Err(SmokeError::InvalidSetting));
    assert_eq!(validate_public_value("a\nb"), Err(SmokeError::InvalidSetting));
    assert_eq!(value_source(true, false), Ok(true));
    assert_eq!(value_source(true, true), Err(SmokeError::AmbiguousSetting));
    assert_eq!(value_source(false, false), Err(SmokeError::AmbiguousSetting));
    assert_eq!(check_public_file(true, 4_096), Ok(()));
    assert_eq!(check_public_file(true, 4_097), Err(SmokeError::InvalidSetting));
    assert_eq!(check_control_ca(0), Err(SmokeError::InvalidControlCa));
    assert_eq!(check_control_ca(65_536), Ok(()));
    assert_eq!(read_receipt_key(&"0a".repeat(32)), Ok([10; 32]));
    assert_eq!(
        read_receipt_key(&"0A".repeat(32)),
        Err(SmokeError::InvalidReceiptKey)
    );
    assert_eq!(
        check_account("https://acme-v02.api.letsencrypt.org/acme/acct/12"),
        Ok(())
    );
    assert_eq!(
        check_account("https://acme-v02.api.letsencrypt.org/acme/acct/"),
        Err(SmokeError::InvalidAccount)
    );
    assert_eq!(
        check_account("https://example.com/12"),
        Err(SmokeError::ForeignAccount)
    );
    assert_eq!(
        SmokeError::WrongTopology.message(),
        "gateway or ingress does not match the fixed deployed topology"
    );
}

#[test]
fn probe_always_retires_and_reports_the_first_failure() {
    let mut run = SmokeRun::new();
    let mut steps = 0;
    while run.step != SmokeStep::Finished {
        run.advance(SmokeEvent::Passed);
        steps += 1;
    }
    assert_eq!(steps, 16);
    assert_eq!(run.failure, None);
    let mut failing = SmokeRun::new();
    failing.advance(SmokeEvent::Failed);
    assert_eq!(failing.step, SmokeStep::Retire);
    failing.advance(SmokeEvent::Failed);
    assert_eq!(failing.step, SmokeStep::Finished);
    assert_eq!(
        failing.failure,
        Some(SmokeFailure::Step(SmokeStep::IssueTunnelCredential))
    );
    let mut leased = SmokeRun::new();
    while leased.step != SmokeStep::AwaitLease {
        leased.advance(SmokeEvent::Passed);
    }
    leased.advance(SmokeEvent::Failed);
    assert_eq!(leased.step, SmokeStep::DeleteLease);
    leased.advance(SmokeEvent::Failed);
    assert_eq!(leased.step, SmokeStep::Retire);
    assert_eq!(
        leased.failure,
        Some(SmokeFailure::Step(SmokeStep::AwaitLease))
    );
    let mut stopped = SmokeRun::new();
    stopped.advance(SmokeEvent::Interrupted);
    assert_eq!(stopped.step, SmokeStep::Retire);
    assert_eq!(stopped.failure, Some(SmokeFailure::Interrupted));
    let mut overtaken = SmokeRun::new();
    while overtaken.step != SmokeStep::AwaitLease {
        overtaken.advance(SmokeEvent::Passed);
    }
    overtaken.advance(SmokeEvent::Failed);
    assert_eq!(overtaken.step, SmokeStep::DeleteLease);
    overtaken.advance(SmokeEvent::Interrupted);
    assert_eq!(overtaken.step, SmokeStep::Retire);
    assert_eq!(overtaken.failure, Some(SmokeFailure::Interrupted));
    overtaken.advance(SmokeEvent::Failed);
    assert_eq!(overtaken.failure, Some(SmokeFailure::Interrupted));
}

#[test]
fn waiting_ends_with_readiness_time_or_retirement() {
    assert_eq!(poll_dns(AllocationState::DnsReady, false), DnsPoll::Ready);
    assert_eq!(poll_dns(AllocationState::PendingDns, true), DnsPoll::Wait);
    assert_eq!(poll_dns(AllocationState::PendingDns, false), DnsPoll::TimedOut);
    assert_eq!(poll_dns(AllocationState::Retired, true), DnsPoll::Retired);
    assert!(notes_wait(0));
    assert!(!notes_wait(14));
    assert!(notes_wait(30));
}
