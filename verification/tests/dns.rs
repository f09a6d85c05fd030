use bloom_relay::address::{addresses_are_usable, IpAddress};
use bloom_relay::cloudflare::plan::{
    plan_serving, serving_steps, CaaData, PlanStep, Record, RecordKind,
};
use bloom_relay::cloudflare::provider::{
    check_listing, chunk_fits, plan_create_txt, plan_delete_txt, plan_retire_challenge,
    plan_retire_name, serving_desired, status_verdict, txt_content, valid_id, valid_lease,
    write_verdict, CloudflareProvider, CloudflareScope, CHALLENGE_TTL_SECONDS,
};
use bloom_relay::dns::{
    caa_values, challenge_name, validate_records, zone, Address, DnsError, MemoryProvider,
    NameRecords, TxtLease,
};
use bloom_relay::observer::{
    challenge_absent, check_name, name_absent, name_visible, query_name, txt_absent, txt_visible,
    CaaSeen, HickoryObserver, Lookup, NameSeen, Presence,
};
use bloom_relay::protocol::ProtocolError;
use bloom_relay::route53::{
    change, plan_publish, plan_retire_challenge as retire_challenge_sets,
    plan_retire_name as retire_name_sets, plan_txt, plan_txt_removal, ChangeAction, RecordSet,
    Route53Provider, RrType,
};

const TEST_ZONE: &str = "0123456789abcdef0123456789abcdef";
const HOST: &str = "abcdefghijklmnopqrstuv2345.relay.bloom.directory";
const ACCOUNT: &str = "https://acme-v02.api.letsencrypt.org/acme/acct/123";
const SERVING_COMMENT: &str = "bloom-relay serving v1";
const CHALLENGE_PREFIX: &str = "bloom-relay challenge v1 ";

fn v4(a: u8, b: u8, c: u8, d: u8) -> Address {
    Address {
        ip: IpAddress::V4(u32::from_be_bytes([a, b, c, d])),
        text: format!("{a}.{b}.{c}.{d}"),
    }
}

fn v6() -> Address {
    Address {
        ip: IpAddress::V6(0x2001_0db8_0000_0000_0000_0000_0000_0001),
        text: "2001:db8::1".into(),
    }
}

fn names(addresses: Vec<Address>) -> NameRecords {
    NameRecords {
        hostname: HOST.into(),
        addresses,
        acme_account_uri: ACCOUNT.into(),
    }
}

fn lease(id: &str, value: &str, expires_at_ms: u64) -> TxtLease {
    TxtLease {
        hostname: HOST.into(),
        lease_id: id.into(),
        value: value.into(),
        expires_at_ms,
    }
}

fn record(id: &str, kind: RecordKind, content: &str, comment: &str) -> Record {
    Record {
        id: id.repeat(32),
        name: HOST.into(),
        kind,
        content: content.into(),
        ttl: 300,
        proxied: false,
        comment: comment.into(),
        data: None,
    }
}

fn caa_record(id: &str, tag: &str, value: &str) -> Record {
    let mut made = record(
        id,
        RecordKind::Caa,
        &format!("0 {tag} \"{value}\""),
        SERVING_COMMENT,
    );
    made.data = Some(CaaData {
        flags: 0,
        tag: tag.into(),
        value: value.into(),
    });
    made
}

#[test]
fn delayed_cleanup_cannot_delete_new_lease() {
    let mut dns = MemoryProvider::default();
    let host = "abcdefghijklmnopqrstuv2345.relay.bloom.directory";
    let old = TxtLease {
        hostname: host.into(),
        lease_id: "old".into(),
        value: "a".into(),
        expires_at_ms: 1,
    };
    dns.create_txt(lease("old", "a", 1)).unwrap();
    dns.create_txt(TxtLease {
        hostname: host.into(),
        lease_id: "new".into(),
        value: "b".into(),
        expires_at_ms: 2,
    })
    .unwrap();
    dns.delete_txt(&old).unwrap();
    assert_eq!(dns.txt(host).unwrap().value, "b");
    assert!(challenge_name("sibling.example").is_err());
}

#[test]
fn retirement_splits_serving_and_challenge_records() {
    let mut dns = MemoryProvider::default();
    let host = "abcdefghijklmnopqrstuv2345.relay.bloom.directory";
    dns.publish_name(NameRecords {
        hostname: host.into(),
        addresses: vec![v4(192, 0, 2, 10)],
        acme_account_uri: "https://acme-v02.api.letsencrypt.org/acme/acct/123".into(),
    })
    .unwrap();
    dns.create_txt(TxtLease {
        hostname: host.into(),
        lease_id: "lease".into(),
        value: "value".into(),
        expires_at_ms: 5,
    })
    .unwrap();
    dns.retire_name(host).unwrap();
    assert!(dns.records(host).is_none());
    assert!(dns.txt(host).is_some());
    dns.retire_challenge(host).unwrap();
    assert!(dns.txt(host).is_none());
}

#[test]
fn memory_provider_refuses_what_it_must() {
    let mut dns = MemoryProvider::default();
    assert_eq!(
        dns.create_txt(lease("a", "", 1)),
        Err(DnsError::InvalidChange)
    );
    assert_eq!(
        dns.create_txt(lease("a", &"x".repeat(256), 1)),
        Err(DnsError::InvalidChange)
    );
    dns.create_txt(lease("a", "x", 5)).unwrap();
    assert_eq!(dns.create_txt(lease("b", "y", 5)), Err(DnsError::Conflict));
    dns.create_txt(lease("a", "z", 1)).unwrap();
    assert_eq!(dns.txt(HOST).unwrap().value, "z");
    assert_eq!(
        dns.retire_name("sibling.example"),
        Err(DnsError::InvalidHostname(ProtocolError::InvalidHostname))
    );
    assert_eq!(
        DnsError::Conflict.message(),
        "DNS lease conflicts with current owner"
    );
}

#[test]
fn records_are_bounded_and_exact() {
    assert_eq!(zone(), "relay.bloom.directory");
    assert_eq!(validate_records(&names(vec![v4(192, 0, 2, 1)])), Ok(()));
    assert_eq!(
        validate_records(&names(vec![])),
        Err(DnsError::InvalidChange)
    );
    assert_eq!(
        validate_records(&names(vec![v4(0, 0, 0, 0)])),
        Err(DnsError::InvalidChange)
    );
    let five = (1..=5).map(|last| v4(192, 0, 2, last)).collect();
    assert_eq!(validate_records(&names(five)), Err(DnsError::InvalidChange));
    assert_eq!(
        caa_values(ACCOUNT).unwrap(),
        [
            "0 issue \"letsencrypt.org; validationmethods=dns-01; accounturi=https://acme-v02.api.letsencrypt.org/acme/acct/123\"".to_owned(),
            "0 issuewild \";\"".to_owned(),
        ]
    );
    assert_eq!(
        caa_values("https://acme-v02.api.letsencrypt.org/acme/acct/12x"),
        Err(DnsError::InvalidChange)
    );
    assert_eq!(
        caa_values("https://example.com/acme/acct/1"),
        Err(DnsError::InvalidChange)
    );
    assert_eq!(
        challenge_name(HOST).unwrap(),
        format!("_acme-challenge.{HOST}")
    );
    assert!(addresses_are_usable(&[IpAddress::V4(1)]));
    assert!(!addresses_are_usable(&[]));
    assert!(!addresses_are_usable(&[IpAddress::V6(0)]));
    assert!(!addresses_are_usable(&[IpAddress::V4(1); 9]));
    let observer = HickoryObserver::new(vec![IpAddress::V4(1); 8]).unwrap();
    assert_eq!(observer.authoritative(), &[IpAddress::V4(1); 8]);
    assert_eq!(HickoryObserver::new(vec![]), Err(DnsError::InvalidChange));
}

#[test]
fn provider_changes_are_exact_and_bounded() {
    assert!(change(
        "_acme-challenge.abcdefghijklmnopqrstuv2345.relay.bloom.directory",
        RrType::Txt,
        30,
        vec!["\"token\"".into()],
        ChangeAction::Upsert
    )
    .is_ok());
    assert!(change(
        "bad",
        RrType::Txt,
        30,
        Vec::<String>::new(),
        ChangeAction::Upsert
    )
    .is_err());
}

fn set(name: &str, kind: RrType, values: &[&str]) -> RecordSet {
    RecordSet {
        name: name.into(),
        kind,
        ttl: 300,
        values: values.iter().map(|value| (*value).to_owned()).collect(),
    }
}

#[test]
fn zone_publication_deletes_only_stale_families() {
    let dotted = format!("{HOST}.");
    let listed = vec![
        set(&dotted, RrType::A, &["192.0.2.9"]),
        set(&dotted, RrType::Aaaa, &["2001:db8::9"]),
        set(&dotted, RrType::Other, &["x"]),
        set("other.example.", RrType::Aaaa, &["2001:db8::9"]),
    ];
    let plan = plan_publish(&names(vec![v4(192, 0, 2, 1), v4(192, 0, 2, 2)]), &listed).unwrap();
    assert_eq!(plan.deletions, vec![1]);
    assert_eq!(plan.changes.len(), 2);
    assert_eq!(plan.changes[0].record.kind, RrType::A);
    assert_eq!(
        plan.changes[0].record.values,
        vec!["192.0.2.1".to_owned(), "192.0.2.2".to_owned()]
    );
    assert_eq!(plan.changes[1].record.kind, RrType::Caa);
    assert_eq!(plan.changes[1].record.ttl, 300);
    assert_eq!(plan.changes[1].record.values[1], "0 issuewild \";\"");
    let both = plan_publish(&names(vec![v6(), v4(192, 0, 2, 1)]), &listed).unwrap();
    assert!(both.deletions.is_empty());
    assert_eq!(both.changes[1].record.values, vec!["2001:db8::1".to_owned()]);
}

#[test]
fn zone_answers_are_removed_only_when_they_are_the_leased_ones() {
    let name = format!("_acme-challenge.{HOST}.");
    let made = plan_txt(&lease("a", "token", 1)).unwrap();
    assert_eq!(made.record.values, vec!["\"token\"".to_owned()]);
    assert_eq!(made.record.ttl, 30);
    assert_eq!(plan_txt_removal(&lease("a", "token", 1), &vec![]), Ok(None));
    let listed = vec![
        set("other.", RrType::Txt, &["\"token\""]),
        set(&name, RrType::Txt, &["\"token\""]),
    ];
    assert_eq!(
        plan_txt_removal(&lease("a", "token", 1), &listed),
        Ok(Some(1))
    );
    assert_eq!(
        plan_txt_removal(&lease("a", "newer", 1), &listed),
        Err(DnsError::Conflict)
    );
    let several = vec![set(&name, RrType::Txt, &["\"token\"", "\"other\""])];
    assert_eq!(
        plan_txt_removal(&lease("a", "token", 1), &several),
        Err(DnsError::Conflict)
    );
    assert_eq!(
        plan_txt(&lease("a", "", 1)),
        Err(DnsError::InvalidChange)
    );
}

#[test]
fn zone_retirement_is_split_and_exact() {
    let dotted = format!("{HOST}.");
    let answers = format!("_acme-challenge.{HOST}.");
    let listed = vec![
        set(&dotted, RrType::A, &["192.0.2.9"]),
        set(&dotted, RrType::Txt, &["\"keep\""]),
        set(&dotted, RrType::Caa, &["0 issuewild \";\""]),
        set(&answers, RrType::Txt, &["\"token\""]),
        set(&dotted, RrType::Other, &["x"]),
    ];
    assert_eq!(retire_name_sets(HOST, &listed), Ok(vec![0, 2]));
    assert_eq!(retire_challenge_sets(HOST, &listed), Ok(vec![3]));
    assert!(retire_name_sets("sibling.example", &listed).is_err());
    let zone = Route53Provider::new("/hostedzone/Z123".into()).unwrap();
    assert_eq!(zone.hosted_zone_id(), "/hostedzone/Z123");
    assert_eq!(Route53Provider::new("".into()), Err(DnsError::InvalidChange));
    assert_eq!(Route53Provider::new("Z 1".into()), Err(DnsError::InvalidChange));
}

#[test]
fn exact_zone_and_scope_validation() {
    assert!(
        CloudflareProvider::new(TEST_ZONE.into(), "token".into(), CloudflareScope::Serving).is_ok()
    );
    assert!(
        CloudflareProvider::new("other".into(), "token".into(), CloudflareScope::Serving).is_err()
    );
    let provider =
        CloudflareProvider::new(TEST_ZONE.into(), "token".into(), CloudflareScope::Serving)
            .unwrap();
    assert!(provider.require(CloudflareScope::Challenge).is_err());
    assert!(
        CloudflareProvider::new(TEST_ZONE.into(), "to ken".into(), CloudflareScope::Serving)
            .is_err()
    );
    assert!(CloudflareProvider::new(TEST_ZONE.into(), "".into(), CloudflareScope::Serving).is_err());
    assert_eq!(
        provider.records_url(),
        format!("https://api.cloudflare.com/client/v4/zones/{TEST_ZONE}/dns_records")
    );
    assert_eq!(provider.bearer(), "token");
    assert_eq!(
        provider
            .record_url(&record("a", RecordKind::A, "192.0.2.1", SERVING_COMMENT))
            .unwrap(),
        format!(
            "https://api.cloudflare.com/client/v4/zones/{TEST_ZONE}/dns_records/{}",
            "a".repeat(32)
        )
    );
}

#[test]
fn serving_records_are_exact_and_unproxied() {
    let records = NameRecords {
        hostname: HOST.into(),
        addresses: vec![v4(192, 0, 2, 1), v6()],
        acme_account_uri: "https://acme-v02.api.letsencrypt.org/acme/acct/123".into(),
    };
    let desired = serving_desired(&records).unwrap();
    assert_eq!(desired.len(), 4);
    assert!(desired
        .iter()
        .all(|wanted| wanted.body.name == HOST && wanted.body.comment == SERVING_COMMENT));
    assert_eq!(
        desired
            .iter()
            .find(|wanted| wanted.key.kind == RecordKind::A)
            .unwrap()
            .body
            .proxied,
        Some(false)
    );
    assert_eq!(
        desired
            .iter()
            .find(|wanted| wanted.key.content.starts_with("issuewild:"))
            .unwrap()
            .body
            .data
            .as_ref()
            .unwrap()
            .value,
        ";"
    );
}

#[test]
fn repeated_addresses_are_written_once() {
    let desired = serving_desired(&names(vec![v4(192, 0, 2, 1), v4(192, 0, 2, 1)])).unwrap();
    assert_eq!(desired.len(), 3);
}

#[test]
fn txt_rejects_untrusted_content() {
    let lease = TxtLease {
        hostname: HOST.into(),
        lease_id: "00000000-0000-0000-0000-000000000001".into(),
        value: "token\";bad".into(),
        expires_at_ms: 1,
    };
    assert!(valid_lease(&lease).is_err());
}

#[test]
fn cleanup_deletes_only_matching_lease_record() {
    let old = "00000000-0000-0000-0000-000000000001";
    let new = "00000000-0000-0000-0000-000000000002";
    let name = format!("_acme-challenge.{HOST}");
    let mut first = record("a", RecordKind::Txt, "old", &format!("{CHALLENGE_PREFIX}{old}"));
    first.name = name.clone();
    first.ttl = 60;
    let mut second = record("b", RecordKind::Txt, "new", &format!("{CHALLENGE_PREFIX}{new}"));
    second.name = name.clone();
    second.ttl = 60;
    let provider = CloudflareProvider::new(
        TEST_ZONE.into(),
        "fixture-token".into(),
        CloudflareScope::Challenge,
    )
    .unwrap();
    let wanted = lease(old, "old", 1);
    assert_eq!(provider.begin_txt(&wanted).unwrap(), name);
    let existing = check_listing(true, Some(1), Some(vec![first, second]), &name).unwrap();
    let deletions = plan_delete_txt(&existing, &wanted).unwrap();
    assert_eq!(deletions.len(), 1);
    assert!(provider
        .record_url(&existing[deletions[0]])
        .unwrap()
        .ends_with("/aaaaaaaaaaaaaaaaaaaaaaaaaaaaaaaa"));
    assert_eq!(
        plan_delete_txt(&existing, &lease(old, "different", 1)),
        Err(DnsError::Conflict)
    );
    assert_eq!(plan_retire_challenge(&existing), Ok(vec![0, 1]));
}

#[test]
fn foreign_serving_record_causes_no_write() {
    let existing = vec![record("a", RecordKind::A, "192.0.2.1", "operator")];
    let desired = serving_desired(&names(vec![v4(192, 0, 2, 2)])).unwrap();
    assert_eq!(plan_serving(&existing, &desired), Err(DnsError::Conflict));
    let delegated = vec![record("a", RecordKind::Ns, "ns.example", SERVING_COMMENT)];
    assert_eq!(plan_serving(&delegated, &desired), Err(DnsError::Conflict));
    assert_eq!(plan_retire_name(&existing), Err(DnsError::Conflict));
}

#[test]
fn empty_result_page_zero_can_create_records() {
    let provider = CloudflareProvider::new(
        TEST_ZONE.into(),
        "fixture-token".into(),
        CloudflareScope::Serving,
    )
    .unwrap();
    let desired = provider
        .begin_publish(&names(vec![v4(192, 0, 2, 2)]))
        .unwrap();
    let existing = check_listing(true, Some(0), Some(vec![]), HOST).unwrap();
    let plan = plan_serving(&existing, &desired).unwrap();
    let steps = serving_steps(&plan);
    assert_eq!(
        steps
            .iter()
            .filter(|step| matches!(step, PlanStep::Create(_)))
            .count(),
        3
    );
}

#[test]
fn retry_plan_keeps_existing_values_after_partial_write() {
    let desired = serving_desired(&names(vec![v4(192, 0, 2, 2)])).unwrap();
    let initial = plan_serving(&vec![], &desired).unwrap();
    assert_eq!(initial.missing.len(), 3);
    assert_eq!(
        desired[initial.missing[0]].body.data.as_ref().unwrap().tag,
        "issuewild"
    );
    assert_eq!(
        desired[initial.missing[1]].body.data.as_ref().unwrap().tag,
        "issue"
    );
    let existing = record("a", RecordKind::A, "192.0.2.2", SERVING_COMMENT);
    let plan = plan_serving(&vec![existing], &desired).unwrap();
    assert!(plan.stale.is_empty());
    assert_eq!(plan.missing.len(), 2);
    assert!(plan.updates.is_empty());
}

#[test]
fn ambiguous_create_is_reconciled_from_next_list() {
    let desired = serving_desired(&names(vec![v4(192, 0, 2, 2)])).unwrap();
    let first = plan_serving(&vec![], &desired).unwrap();
    assert_eq!(serving_steps(&first)[0], PlanStep::Create(first.missing[0]));
    assert_eq!(status_verdict(503), Err(DnsError::Unavailable));
    let existing = vec![caa_record("a", "issuewild", ";")];
    let second = plan_serving(&existing, &desired).unwrap();
    let steps = serving_steps(&second);
    assert_eq!(steps.len(), 2);
    assert!(steps.iter().all(|step| matches!(step, PlanStep::Create(_))));
}

#[test]
fn listings_ask_for_one_name() {
    let provider = CloudflareProvider::new(
        TEST_ZONE.into(),
        "fixture-token".into(),
        CloudflareScope::Serving,
    )
    .unwrap();
    assert_eq!(
        provider.listing_query(HOST),
        vec![
            ("name.exact", HOST.to_owned()),
            ("per_page", "1000".to_owned())
        ]
    );
}

#[test]
fn owned_metadata_drift_uses_patch_in_place() {
    let desired = serving_desired(&names(vec![v4(192, 0, 2, 2)])).unwrap();
    let mut drifted = record("a", RecordKind::A, "192.0.2.2", SERVING_COMMENT);
    drifted.ttl = 120;
    drifted.proxied = true;
    let plan = plan_serving(&vec![drifted], &desired).unwrap();
    assert!(plan.stale.is_empty());
    assert_eq!(plan.missing.len(), 2);
    assert_eq!(plan.updates.len(), 1);
    let (existing, wanted) = plan.updates[0];
    assert_eq!(existing, 0);
    assert_eq!(desired[wanted].body.kind, RecordKind::A);
    assert_eq!(serving_steps(&plan)[2], PlanStep::Update(existing, wanted));
}

#[test]
fn retirement_keeps_wildcard_deny_until_issue_is_removed() {
    let existing = vec![
        caa_record("a", "issuewild", ";"),
        record("b", RecordKind::A, "192.0.2.2", SERVING_COMMENT),
        caa_record("c", "issue", "letsencrypt.org"),
    ];
    assert_eq!(plan_retire_name(&existing), Ok(vec![2, 1, 0]));
}

#[test]
fn missing_records_are_created_in_a_fixed_order() {
    let desired = serving_desired(&names(vec![
        v4(192, 0, 2, 9),
        v6(),
        v4(192, 0, 2, 10),
    ]))
    .unwrap();
    let plan = plan_serving(&vec![], &desired).unwrap();
    let order: Vec<String> = plan
        .missing
        .iter()
        .map(|at| desired[*at].key.content.clone())
        .collect();
    assert_eq!(order[0], "issuewild:;");
    assert!(order[1].starts_with("issue:letsencrypt.org"));
    assert_eq!(order[2], "192.0.2.10");
    assert_eq!(order[3], "192.0.2.9");
    assert_eq!(order[4], "2001:db8::1");
}

#[test]
fn of_repeated_desired_keys_the_last_counts() {
    let mut desired = serving_desired(&names(vec![v4(192, 0, 2, 2)])).unwrap();
    let more = serving_desired(&names(vec![v4(192, 0, 2, 2)])).unwrap();
    let (single, first) = (desired.len(), desired.iter().position(|d| d.key.kind == RecordKind::A));
    desired.extend(more);
    let last = first.unwrap() + single;
    let plan = plan_serving(&vec![], &desired).unwrap();
    assert_eq!(plan.missing.len(), single);
    assert!(plan.missing.iter().all(|at| *at >= single));
    let mut drifted = record("a", RecordKind::A, "192.0.2.2", SERVING_COMMENT);
    drifted.ttl = 120;
    let plan = plan_serving(&vec![drifted], &desired).unwrap();
    assert_eq!(plan.updates, vec![(0, last)]);
    assert_eq!(plan.missing.len(), single - 1);
    assert!(plan.stale.is_empty());
    let alias = record("b", RecordKind::Cname, "elsewhere.example", SERVING_COMMENT);
    assert_eq!(plan_serving(&vec![alias], &desired), Err(DnsError::Conflict));
}

#[test]
fn duplicates_and_unknown_values_are_stale() {
    let desired = serving_desired(&names(vec![v4(192, 0, 2, 2)])).unwrap();
    let existing = vec![
        record("a", RecordKind::A, "192.0.2.2", SERVING_COMMENT),
        record("b", RecordKind::A, "192.0.2.2", SERVING_COMMENT),
        record("c", RecordKind::A, "192.0.2.3", SERVING_COMMENT),
        record("d", RecordKind::Txt, "unrelated", "operator"),
    ];
    let plan = plan_serving(&existing, &desired).unwrap();
    assert_eq!(plan.stale, vec![1, 2]);
    let again = plan_serving(
        &vec![
            record("a", RecordKind::A, "192.0.2.2", SERVING_COMMENT),
            caa_record("b", "issuewild", ";"),
            caa_record(
                "c",
                "issue",
                &format!("letsencrypt.org; validationmethods=dns-01; accounturi={ACCOUNT}"),
            ),
        ],
        &desired,
    )
    .unwrap();
    assert!(serving_steps(&again).is_empty());
}

#[test]
fn answers_are_published_once_and_never_over_others() {
    let id = "00000000-0000-0000-0000-000000000001";
    let other = "00000000-0000-0000-0000-000000000002";
    let wanted = lease(id, "token", 1);
    let body = plan_create_txt(&vec![], &wanted).unwrap().unwrap();
    assert_eq!(body.content.as_deref(), Some("\"token\""));
    assert_eq!(body.ttl, CHALLENGE_TTL_SECONDS);
    assert_eq!(body.comment, format!("{CHALLENGE_PREFIX}{id}"));
    let mine = record("a", RecordKind::Txt, "\"token\"", &format!("{CHALLENGE_PREFIX}{id}"));
    assert_eq!(txt_content(&mine), "token");
    assert_eq!(plan_create_txt(&vec![mine], &wanted), Ok(None));
    let sibling = record("a", RecordKind::Txt, "\"x\"", &format!("{CHALLENGE_PREFIX}{other}"));
    assert!(plan_create_txt(&vec![sibling], &wanted).unwrap().is_some());
    let changed = record("a", RecordKind::Txt, "\"x\"", &format!("{CHALLENGE_PREFIX}{id}"));
    assert_eq!(
        plan_create_txt(&vec![changed], &wanted),
        Err(DnsError::Conflict)
    );
    let foreign = record("a", RecordKind::Txt, "\"x\"", "operator");
    assert_eq!(
        plan_create_txt(&vec![foreign], &wanted),
        Err(DnsError::Conflict)
    );
}

#[test]
fn listings_must_be_whole_and_exact() {
    assert!(valid_id(TEST_ZONE));
    assert!(!valid_id("0123"));
    let other = record("a", RecordKind::A, "192.0.2.1", SERVING_COMMENT);
    assert_eq!(
        check_listing(true, Some(1), Some(vec![other]), "elsewhere"),
        Err(DnsError::Unavailable)
    );
    assert_eq!(
        check_listing(true, Some(2), Some(vec![]), HOST),
        Err(DnsError::Unavailable)
    );
    assert_eq!(
        check_listing(true, None, Some(vec![]), HOST),
        Err(DnsError::Unavailable)
    );
    assert_eq!(
        check_listing(false, Some(1), Some(vec![]), HOST),
        Err(DnsError::Unavailable)
    );
    assert_eq!(status_verdict(409), Err(DnsError::Conflict));
    assert_eq!(status_verdict(204), Ok(()));
    assert!(chunk_fits(262_143, 1));
    assert!(!chunk_fits(262_144, 1));
    assert_eq!(write_verdict(true, false), Err(DnsError::Unavailable));
    assert_eq!(write_verdict(true, true), Ok(()));
    assert_eq!(RecordKind::read("AAAA"), RecordKind::Aaaa);
    assert_eq!(RecordKind::read("aaaa"), RecordKind::Other);
}

fn seen(v4: &[&str], v6: Lookup<String>, value: &str) -> NameSeen {
    NameSeen {
        v4: Lookup::Found(v4.iter().map(|text| (*text).to_owned()).collect()),
        v6,
        caa: Lookup::Found(vec![
            CaaSeen {
                tag: "issuewild".into(),
                value: ";".into(),
            },
            CaaSeen {
                tag: "issue".into(),
                value: value.into(),
            },
        ]),
    }
}

#[test]
fn names_are_visible_only_when_exact() {
    let value = format!("letsencrypt.org; validationmethods=dns-01; accounturi={ACCOUNT}");
    let records = names(vec![v4(192, 0, 2, 1), v4(192, 0, 2, 2)]);
    let exact = seen(&["192.0.2.2", "192.0.2.1"], Lookup::NoRecords, &value);
    assert!(check_name(&exact, &records));
    assert_eq!(name_visible(&records, &exact, &exact), Ok(true));
    let short = seen(&["192.0.2.2"], Lookup::NoRecords, &value);
    assert_eq!(name_visible(&records, &exact, &short), Ok(false));
    let failed = seen(&["192.0.2.2", "192.0.2.1"], Lookup::Failed, &value);
    assert!(!check_name(&failed, &records));
    let other = seen(&["192.0.2.2", "192.0.2.1"], Lookup::NoRecords, "letsencrypt.org");
    assert!(!check_name(&other, &records));
    assert_eq!(query_name(HOST), format!("{HOST}."));
}

#[test]
fn answers_are_visible_by_value_and_absent_only_for_sure() {
    let found: Lookup<Vec<Vec<u8>>> =
        Lookup::Found(vec![vec![b"to".to_vec(), b"ken".to_vec()], vec![]]);
    assert_eq!(txt_visible(HOST, "token", &found, &found), Ok(true));
    assert_eq!(txt_visible(HOST, "other", &found, &found), Ok(false));
    assert_eq!(
        txt_visible(HOST, "token", &found, &Lookup::NoRecords),
        Ok(false)
    );
    assert_eq!(txt_absent(HOST, "other", &found, &Lookup::NoRecords), Ok(true));
    assert_eq!(txt_absent(HOST, "token", &found, &Lookup::NoRecords), Ok(false));
    assert_eq!(txt_absent(HOST, "other", &Lookup::Failed, &found), Ok(false));
    assert!(txt_absent("sibling.example", "other", &found, &found).is_err());
    let gone = [Presence::NoRecords; 6];
    assert_eq!(name_absent(HOST, &gone), Ok(true));
    let mut left = gone;
    left[4] = Presence::Answers(1);
    assert_eq!(name_absent(HOST, &left), Ok(false));
    left[4] = Presence::Answers(0);
    assert_eq!(name_absent(HOST, &left), Ok(true));
    assert_eq!(
        challenge_absent(HOST, Presence::NoRecords, Presence::Failed),
        Ok(false)
    );
}
