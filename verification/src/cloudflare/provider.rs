//! What the adapter asks of a zone, and what it makes of the answers.

use crate::address::IpAddress;
use crate::cloudflare::plan::{
    order_deletions, CaaData, Desired, Record, RecordBody, RecordKey, RecordKind,
};
use crate::dns::{
    caa_values, challenge_name, check_hostname, issue_value_of, validate_records, DnsError,
    NameRecords, TxtLease, TTL_SECONDS,
};
use crate::text::{after_prefix, chars_of, joined, range_in, same_text, text_of, CharClass};
use vstd::prelude::*;

verus! {

/// How many records a listing may hold.
pub const MAX_LISTED: usize = 1000;

/// How many bytes an answer of the provider may have.
pub const MAX_ANSWER_BYTES: usize = 262_144;

/// How long a DNS-01 answer may be cached, in seconds.
pub const CHALLENGE_TTL_SECONDS: u32 = 60;

/// The start of the comment on every DNS-01 answer.
pub open spec fn challenge_mark() -> Seq<char> {
    "bloom-relay challenge v1 "@
}

/// What a worker may change.
#[derive(Clone, Copy, Debug, PartialEq, Eq, Structural)]
pub enum CloudflareScope {
    Serving,
    Challenge,
}

/// Whether a text has the form of an identifier of the provider.
pub open spec fn is_id(id: Seq<char>) -> bool {
    id.len() == 32 && crate::text::all_in(id, CharClass::Hex)
}

/// Tells whether a text has the form of an identifier of the provider.
pub fn valid_id(id: &str) -> (valid: bool)
    ensures
        valid == is_id(id@),
{
    let chars: Vec<char> = chars_of(id);
    proof {
        assert(chars@.subrange(0, chars@.len() as int) =~= id@);
    }
    chars.len() == 32 && range_in(&chars, 0, chars.len(), CharClass::Hex)
}

/// Whether a text can be sent as a token: it is not empty and has neither blanks nor control
/// characters.
pub open spec fn is_token(token: Seq<char>) -> bool {
    token.len() > 0 && forall|i: int|
        0 <= i < token.len() ==> (#[trigger] token[i]) as int > 32 && token[i] as int != 127
}

/// Tells whether a text can be sent as a token.
fn token_is_sendable(token: &str) -> (valid: bool)
    ensures
        valid == is_token(token@),
{
    let chars: Vec<char> = chars_of(token);
    let mut i: usize = 0;
    while i < chars.len()
        invariant
            i <= chars@.len(),
            chars@ == token@,
            forall|j: int|
                0 <= j < i ==> (#[trigger] token@[j]) as int > 32 && token@[j] as int != 127,
        decreases chars@.len() - i,
    {
        let c: char = chars[i];
        if c <= ' ' || c == '\u{7f}' {
            return false;
        }
        i += 1;
    }
    chars.len() > 0
}

/// The adapter for one zone and one scope.
#[derive(Debug)]
pub struct CloudflareProvider {
    zone_id: String,
    token: String,
    scope: CloudflareScope,
}

impl CloudflareProvider {
    /// The zone.
    pub closed spec fn spec_zone(self) -> Seq<char> {
        self.zone_id@
    }

    /// The token.
    pub closed spec fn spec_token(self) -> Seq<char> {
        self.token@
    }

    /// What may be changed.
    pub closed spec fn spec_scope(self) -> CloudflareScope {
        self.scope
    }

    /// An adapter for a zone.
    pub fn new(zone_id: String, token: String, scope: CloudflareScope) -> (outcome: Result<
        Self,
        DnsError,
    >)
        ensures
            if is_id(zone_id@) && is_token(token@) {
                outcome matches Ok(provider) && provider.spec_zone() == zone_id@
                    && provider.spec_token() == token@ && provider.spec_scope() == scope
            } else {
                outcome == Err::<Self, DnsError>(DnsError::InvalidChange)
            },
    {
        if !valid_id(zone_id.as_str()) || !token_is_sendable(token.as_str()) {
            return Err(DnsError::InvalidChange);
        }
        Ok(CloudflareProvider { zone_id, token, scope })
    }

    /// The token that authorizes every request.
    pub fn bearer(&self) -> (token: &str)
        ensures
            token@ == self.spec_token(),
    {
        self.token.as_str()
    }

    /// Refuses what is not in the scope of the adapter.
    pub fn require(&self, scope: CloudflareScope) -> (outcome: Result<(), DnsError>)
        ensures
            outcome == if self.spec_scope() == scope {
                Ok(())
            } else {
                Err(DnsError::InvalidChange)
            },
    {
        if self.scope == scope {
            Ok(())
        } else {
            Err(DnsError::InvalidChange)
        }
    }

    /// The URL of the records of the zone.
    pub open spec fn spec_records_url(self) -> Seq<char> {
        "https://api.cloudflare.com/client/v4/zones/"@ + self.spec_zone() + "/dns_records"@
    }

    /// The URL of the records of the zone.
    pub fn records_url(&self) -> (url: String)
        ensures
            url@ == self.spec_records_url(),
    {
        let head: String = joined(
            "https://api.cloudflare.com/client/v4/zones/",
            self.zone_id.as_str(),
        );
        joined(head.as_str(), "/dns_records")
    }

    /// What the records of a name are asked for by, as names and values of the query.
    pub fn listing_query(&self, name: &str) -> (pairs: Vec<(&'static str, String)>)
        ensures
            pairs@.len() == 2,
            pairs@[0].0@ == "name.exact"@ && pairs@[0].1@ == name@,
            pairs@[1].0@ == "per_page"@ && pairs@[1].1@ == "1000"@,
    {
        let mut pairs: Vec<(&'static str, String)> = Vec::new();
        pairs.push(("name.exact", name.to_owned()));
        pairs.push(("per_page", "1000".to_owned()));
        pairs
    }

    /// The URL of one record; a record without a well-formed identifier has none.
    pub fn record_url(&self, record: &Record) -> (outcome: Result<String, DnsError>)
        ensures
            if is_id(record.id@) {
                outcome matches Ok(url) && url@ == self.spec_records_url() + "/"@ + record.id@
            } else {
                outcome == Err::<String, DnsError>(DnsError::Unavailable)
            },
    {
        if !valid_id(record.id.as_str()) {
            return Err(DnsError::Unavailable);
        }
        let base: String = self.records_url();
        let head: String = joined(base.as_str(), "/");
        Ok(joined(head.as_str(), record.id.as_str()))
    }

    /// Begins the publication of a name: the scope is right, and these records are desired.
    pub fn begin_publish(&self, records: &NameRecords) -> (outcome: Result<Vec<Desired>, DnsError>)
        ensures
            if self.spec_scope() != CloudflareScope::Serving {
                outcome == Err::<Vec<Desired>, DnsError>(DnsError::InvalidChange)
            } else {
                is_serving_outcome(outcome, *records)
            },
            outcome matches Ok(desired) ==> crate::cloudflare::plan::distinct_keys(desired@),
    {
        match self.require(CloudflareScope::Serving) {
            Err(error) => Err(error),
            Ok(()) => serving_desired(records),
        }
    }

    /// Begins a change to a DNS-01 answer: the scope is right, the lease is well-formed, and
    /// this is the name at which the answers stand.
    pub fn begin_txt(&self, lease: &TxtLease) -> (outcome: Result<String, DnsError>)
        ensures
            if self.spec_scope() != CloudflareScope::Challenge {
                outcome == Err::<String, DnsError>(DnsError::InvalidChange)
            } else {
                match lease_verdict(*lease) {
                    Err(error) => outcome == Err::<String, DnsError>(error),
                    Ok(_) => outcome matches Ok(name) && name@ == crate::dns::challenge_owner(
                        lease.hostname@,
                    ),
                }
            },
    {
        match self.require(CloudflareScope::Challenge) {
            Err(error) => {
                return Err(error);
            },
            Ok(()) => {},
        }
        match valid_lease(lease) {
            Err(error) => Err(error),
            Ok(()) => challenge_name(lease.hostname.as_str()),
        }
    }

    /// Begins the retirement of a name.
    pub fn begin_retire_name(&self, hostname: &str) -> (outcome: Result<(), DnsError>)
        ensures
            outcome == if self.spec_scope() != CloudflareScope::Serving {
                Err(DnsError::InvalidChange)
            } else {
                crate::dns::hostname_verdict(hostname@)
            },
    {
        match self.require(CloudflareScope::Serving) {
            Err(error) => Err(error),
            Ok(()) => check_hostname(hostname),
        }
    }

    /// Begins the retirement of the answers of a name.
    pub fn begin_retire_challenge(&self, hostname: &str) -> (outcome: Result<String, DnsError>)
        ensures
            if self.spec_scope() != CloudflareScope::Challenge {
                outcome == Err::<String, DnsError>(DnsError::InvalidChange)
            } else {
                match crate::dns::hostname_verdict(hostname@) {
                    Err(error) => outcome == Err::<String, DnsError>(error),
                    Ok(_) => outcome matches Ok(name) && name@ == crate::dns::challenge_owner(
                        hostname@,
                    ),
                }
            },
    {
        match self.require(CloudflareScope::Challenge) {
            Err(error) => Err(error),
            Ok(()) => challenge_name(hostname),
        }
    }
}

/// What the status of an answer means: a conflict is told apart, and everything but success is
/// a failure.
pub fn status_verdict(status: u16) -> (outcome: Result<(), DnsError>)
    ensures
        outcome == if status == 409 {
            Err(DnsError::Conflict)
        } else if 200 <= status < 300 {
            Ok(())
        } else {
            Err(DnsError::Unavailable)
        },
{
    if status == 409 {
        return Err(DnsError::Conflict);
    }
    if status < 200 || status >= 300 {
        return Err(DnsError::Unavailable);
    }
    Ok(())
}

/// Whether a further chunk of an answer is taken in: the answer must stay within its bound.
pub fn chunk_fits(held: usize, chunk: usize) -> (fits: bool)
    ensures
        fits == (held + chunk <= MAX_ANSWER_BYTES),
{
    held <= MAX_ANSWER_BYTES && chunk <= MAX_ANSWER_BYTES - held
}

/// What a write was answered with: it succeeded and named a result.
pub fn write_verdict(success: bool, has_result: bool) -> (outcome: Result<(), DnsError>)
    ensures
        outcome == if success && has_result {
            Ok(())
        } else {
            Err(DnsError::Unavailable)
        },
{
    if success && has_result {
        Ok(())
    } else {
        Err(DnsError::Unavailable)
    }
}

/// Whether a listing is the whole and exact one of a name.
pub open spec fn exact_listing(records: Seq<Record>, name: Seq<char>) -> bool {
    &&& records.len() <= MAX_LISTED
    &&& forall|i: int|
        0 <= i < records.len() ==> (#[trigger] records[i]).name@ == name && is_id(records[i].id@)
}

/// Accepts a listing only where it is complete and holds nothing but records of the name.
pub fn check_listing(
    success: bool,
    total_pages: Option<u32>,
    records: Option<Vec<Record>>,
    name: &str,
) -> (outcome: Result<Vec<Record>, DnsError>)
    ensures
        outcome == match (total_pages, records) {
            (Some(pages), Some(listed)) if success && pages <= 1 && exact_listing(
                listed@,
                name@,
            ) => Ok(listed),
            _ => Err(DnsError::Unavailable),
        },
{
    if !success {
        return Err(DnsError::Unavailable);
    }
    match total_pages {
        Some(pages) => {
            if pages > 1 {
                return Err(DnsError::Unavailable);
            }
        },
        None => {
            return Err(DnsError::Unavailable);
        },
    }
    let listed: Vec<Record> = match records {
        Some(listed) => listed,
        None => {
            return Err(DnsError::Unavailable);
        },
    };
    if listed.len() > MAX_LISTED {
        return Err(DnsError::Unavailable);
    }
    let mut i: usize = 0;
    while i < listed.len()
        invariant
            i <= listed@.len() <= MAX_LISTED,
            records == Some(listed),
            forall|j: int|
                0 <= j < i ==> (#[trigger] listed@[j]).name@ == name@ && is_id(listed@[j].id@),
        decreases listed@.len() - i,
    {
        if !same_text(listed[i].name.as_str(), name) || !valid_id(listed[i].id.as_str()) {
            return Err(DnsError::Unavailable);
        }
        i += 1;
    }
    Ok(listed)
}

/// The key of an address record.
pub open spec fn address_key(address: crate::dns::Address) -> crate::cloudflare::plan::KeyView {
    crate::cloudflare::plan::KeyView {
        kind: match address.ip {
            IpAddress::V4(_) => RecordKind::A,
            IpAddress::V6(_) => RecordKind::Aaaa,
        },
        content: address.text@,
    }
}

/// The keys of the first `count` addresses, each once.
pub open spec fn address_keys(addresses: Seq<crate::dns::Address>, count: nat) -> Seq<
    crate::cloudflare::plan::KeyView,
>
    decreases count,
{
    if count == 0 {
        Seq::empty()
    } else {
        let before = address_keys(addresses, (count - 1) as nat);
        let key = address_key(addresses[count - 1]);
        if before.contains(key) {
            before
        } else {
            before.push(key)
        }
    }
}

/// Whether a desired record is an address record: exact, not proxied, and marked.
pub open spec fn is_address_record(record: Desired, hostname: Seq<char>) -> bool {
    &&& record.body.kind == record.key.kind
    &&& record.body.name@ == hostname
    &&& record.body.content matches Some(content) && content@ == record.key.content@
    &&& record.body.ttl == TTL_SECONDS
    &&& record.body.proxied == Some(false)
    &&& record.body.comment@ == crate::cloudflare::plan::serving_mark()
    &&& record.body.data is None
}

/// Whether a desired record is a CAA record with a tag and a value.
pub open spec fn is_caa_record(
    record: Desired,
    hostname: Seq<char>,
    tag: Seq<char>,
    value: Seq<char>,
) -> bool {
    &&& record.key@ == crate::cloudflare::plan::KeyView {
        kind: RecordKind::Caa,
        content: tag + ":"@ + value,
    }
    &&& record.body.kind == RecordKind::Caa
    &&& record.body.name@ == hostname
    &&& record.body.content is None
    &&& record.body.ttl == TTL_SECONDS
    &&& record.body.proxied is None
    &&& record.body.comment@ == crate::cloudflare::plan::serving_mark()
    &&& record.body.data matches Some(data) && data.flags == 0 && data.tag@ == tag && data.value@
        == value
}

/// The keys of desired records.
pub open spec fn keys_of(desired: Seq<Desired>) -> Seq<crate::cloudflare::plan::KeyView> {
    desired.map_values(|record: Desired| record.key@)
}

/// Whether these are the records that serve a name: its addresses, each once, and its two CAA
/// records.
pub open spec fn serves_name(desired: Seq<Desired>, records: NameRecords) -> bool {
    let keys = address_keys(records.addresses@, records.addresses@.len());
    let n = keys.len() as int;
    &&& desired.len() == n + 2
    &&& keys_of(desired.take(n)) == keys
    &&& forall|i: int|
        0 <= i < n ==> is_address_record(#[trigger] desired[i], records.hostname@)
    &&& is_caa_record(
        desired[n],
        records.hostname@,
        "issue"@,
        crate::dns::issue_value(records.acme_account_uri@),
    )
    &&& is_caa_record(desired[n + 1], records.hostname@, "issuewild"@, ";"@)
}

/// What the question for the desired records of a name is answered with.
pub open spec fn is_serving_outcome(
    outcome: Result<Vec<Desired>, DnsError>,
    records: NameRecords,
) -> bool {
    match crate::dns::records_verdict(records) {
        Err(error) => outcome == Err::<Vec<Desired>, DnsError>(error),
        Ok(_) => if crate::dns::digits_account(records.acme_account_uri@) {
            outcome matches Ok(desired) && serves_name(desired@, records)
        } else {
            outcome == Err::<Vec<Desired>, DnsError>(DnsError::InvalidChange)
        },
    }
}

/// Writes a CAA record that serves a name.
fn caa_record(hostname: &str, tag: &str, value: String) -> (record: Desired)
    ensures
        is_caa_record(record, hostname@, tag@, value@),
{
    let head: String = joined(tag, ":");
    let content: String = joined(head.as_str(), value.as_str());
    let record = Desired {
        key: RecordKey { kind: RecordKind::Caa, content },
        body: RecordBody {
            kind: RecordKind::Caa,
            name: hostname.to_owned(),
            content: None,
            ttl: TTL_SECONDS,
            proxied: None,
            comment: "bloom-relay serving v1".to_owned(),
            data: Some(CaaData { flags: 0, tag: tag.to_owned(), value }),
        },
    };
    proof {
        assert(record.key@ =~= crate::cloudflare::plan::KeyView {
            kind: RecordKind::Caa,
            content: tag@ + ":"@ + value@,
        });
    }
    record
}

/// Tells whether a key is among those of desired records.
fn has_key(desired: &Vec<Desired>, kind: RecordKind, content: &str) -> (found: bool)
    ensures
        found == keys_of(desired@).contains(
            crate::cloudflare::plan::KeyView { kind, content: content@ },
        ),
{
    let ghost key = crate::cloudflare::plan::KeyView { kind, content: content@ };
    let mut i: usize = 0;
    while i < desired.len()
        invariant
            i <= desired@.len(),
            key == (crate::cloudflare::plan::KeyView { kind, content: content@ }),
            forall|j: int| 0 <= j < i ==> keys_of(desired@)[j] != key,
        decreases desired@.len() - i,
    {
        if desired[i].key.kind == kind && same_text(desired[i].key.content.as_str(), content) {
            proof {
                assert(keys_of(desired@)[i as int] =~= key);
            }
            return true;
        }
        i += 1;
    }
    false
}

/// Works out the records that have to serve a name.
pub fn serving_desired(records: &NameRecords) -> (outcome: Result<Vec<Desired>, DnsError>)
    ensures
        is_serving_outcome(outcome, *records),
        outcome matches Ok(desired) ==> crate::cloudflare::plan::distinct_keys(desired@),
{
    match validate_records(records) {
        Err(error) => {
            return Err(error);
        },
        Ok(()) => {},
    }
    let mut desired: Vec<Desired> = Vec::new();
    let mut i: usize = 0;
    proof {
        assert(keys_of(desired@) =~= address_keys(records.addresses@, 0));
    }
    while i < records.addresses.len()
        invariant
            i <= records.addresses@.len(),
            keys_of(desired@) == address_keys(records.addresses@, i as nat),
            keys_of(desired@).no_duplicates(),
            forall|j: int|
                0 <= j < desired@.len() ==> is_address_record(
                    #[trigger] desired@[j],
                    records.hostname@,
                ) && desired@[j].key.kind != RecordKind::Caa,
        decreases records.addresses@.len() - i,
    {
        let kind: RecordKind = match records.addresses[i].ip {
            IpAddress::V4(_) => RecordKind::A,
            IpAddress::V6(_) => RecordKind::Aaaa,
        };
        let ghost before = keys_of(desired@);
        let ghost key = address_key(records.addresses@[i as int]);
        if !has_key(&desired, kind, records.addresses[i].text.as_str()) {
            let record = Desired {
                key: RecordKey { kind, content: records.addresses[i].text.clone() },
                body: RecordBody {
                    kind,
                    name: records.hostname.clone(),
                    content: Some(records.addresses[i].text.clone()),
                    ttl: TTL_SECONDS,
                    proxied: Some(false),
                    comment: "bloom-relay serving v1".to_owned(),
                    data: None,
                },
            };
            proof {
                assert(record.key@ =~= key);
            }
            desired.push(record);
            proof {
                assert(keys_of(desired@) =~= before.push(key));
            }
        }
        i += 1;
    }
    let ghost addressed = desired@;
    match caa_values(records.acme_account_uri.as_str()) {
        Err(error) => {
            return Err(error);
        },
        Ok(_) => {},
    }
    let value: String = issue_value_of(records.acme_account_uri.as_str());
    desired.push(caa_record(records.hostname.as_str(), "issue", value));
    desired.push(caa_record(records.hostname.as_str(), "issuewild", ";".to_owned()));
    proof {
        let n = addressed.len() as int;
        assert(desired@.take(n) =~= addressed);
        assert forall|c: int, d: int| 0 <= c < d < desired@.len() implies (
        #[trigger] desired@[c]).key@ != (#[trigger] desired@[d]).key@ by {
            if d < n {
                assert(keys_of(addressed)[c] != keys_of(addressed)[d]);
            } else if c >= n {
                let issue = desired@[n].key@.content;
                let wildcard = desired@[n + 1].key@.content;
                reveal_strlit("issue");
                reveal_strlit("issuewild");
                reveal_strlit(":");
                assert(issue[5] == ':');
                assert(wildcard[5] == 'w');
            } else {
                assert(addressed[c].key.kind != RecordKind::Caa);
            }
        }
    }
    Ok(desired)
}

/// Whether a text is made of hexadecimal digits and dashes.
pub open spec fn dashed_hex(text: Seq<char>) -> bool {
    forall|i: int|
        0 <= i < text.len() ==> CharClass::Hex.holds(#[trigger] text[i]) || text[i] == '-'
}

/// Tells whether a text is made of hexadecimal digits and dashes.
fn is_dashed_hex(chars: &Vec<char>) -> (valid: bool)
    ensures
        valid == dashed_hex(chars@),
{
    let mut i: usize = 0;
    while i < chars.len()
        invariant
            i <= chars@.len(),
            forall|j: int|
                0 <= j < i ==> CharClass::Hex.holds(#[trigger] chars@[j]) || chars@[j] == '-',
        decreases chars@.len() - i,
    {
        if !CharClass::Hex.admits(chars[i]) && chars[i] != '-' {
            return false;
        }
        i += 1;
    }
    true
}

/// Whether a lease can be written: its identifier is one, and its value has only characters
/// that need no quoting.
pub open spec fn writable(lease: TxtLease) -> bool {
    &&& lease.lease_id@.len() == 36
    &&& dashed_hex(lease.lease_id@)
    &&& 1 <= lease.value@.len() <= 255
    &&& crate::text::all_in(lease.value@, CharClass::UrlSafe)
}

/// The verdict on a lease.
pub open spec fn lease_verdict(lease: TxtLease) -> Result<(), DnsError> {
    match crate::dns::hostname_verdict(lease.hostname@) {
        Err(error) => Err(error),
        Ok(_) => if writable(lease) {
            Ok(())
        } else {
            Err(DnsError::InvalidChange)
        },
    }
}

/// Checks a lease.
pub fn valid_lease(lease: &TxtLease) -> (outcome: Result<(), DnsError>)
    ensures
        outcome == lease_verdict(*lease),
{
    match check_hostname(lease.hostname.as_str()) {
        Err(error) => {
            return Err(error);
        },
        Ok(()) => {},
    }
    let id: Vec<char> = chars_of(lease.lease_id.as_str());
    let value: Vec<char> = chars_of(lease.value.as_str());
    proof {
        assert(value@.subrange(0, value@.len() as int) =~= lease.value@);
    }
    if id.len() != 36 || !is_dashed_hex(&id) || value.len() == 0 || value.len() > 255 || !range_in(
        &value,
        0,
        value.len(),
        CharClass::UrlSafe,
    ) {
        return Err(DnsError::InvalidChange);
    }
    Ok(())
}

/// The value of a TXT record without the quotes around it.
pub open spec fn unquoted(content: Seq<char>) -> Seq<char> {
    if content.len() >= 2 && content[0] == '"' && content.last() == '"' {
        content.subrange(1, content.len() - 1)
    } else {
        content
    }
}

/// Takes the quotes around the value of a TXT record off.
pub fn txt_content(record: &Record) -> (value: String)
    ensures
        value@ == unquoted(record.content@),
{
    let chars: Vec<char> = chars_of(record.content.as_str());
    if chars.len() >= 2 && chars[0] == '"' && chars[chars.len() - 1] == '"' {
        text_of(&chars, 1, chars.len() - 1)
    } else {
        record.content.clone()
    }
}

/// The comment on the record of a lease.
pub open spec fn lease_mark(lease: TxtLease) -> Seq<char> {
    challenge_mark() + lease.lease_id@
}

/// Writes the comment on the record of a lease.
fn lease_comment(lease: &TxtLease) -> (comment: String)
    ensures
        comment@ == lease_mark(*lease),
{
    joined("bloom-relay challenge v1 ", lease.lease_id.as_str())
}

/// Whether a record is the one of a lease.
pub open spec fn of_lease(record: Record, lease: TxtLease) -> bool {
    record.kind == RecordKind::Txt && record.comment@ == lease_mark(lease)
}

/// Whether a record stands in the way of a lease: it is no TXT record, it was not made here, or
/// it is the one of the lease with another value.
pub open spec fn obstructs(record: Record, lease: TxtLease) -> bool {
    ||| record.kind != RecordKind::Txt
    ||| !crate::text::starts_with(record.comment@, challenge_mark())
    ||| record.comment@ == lease_mark(lease) && unquoted(record.content@) != lease.value@
}

/// Whether a body is the record of a lease.
pub open spec fn is_txt_body(body: RecordBody, lease: TxtLease) -> bool {
    &&& body.kind == RecordKind::Txt
    &&& body.name@ == crate::dns::challenge_owner(lease.hostname@)
    &&& body.content matches Some(content) && content@ == "\""@ + lease.value@ + "\""@
    &&& body.ttl == CHALLENGE_TTL_SECONDS
    &&& body.proxied is None
    &&& body.comment@ == lease_mark(lease)
    &&& body.data is None
}

/// Plans the publication of a DNS-01 answer over the records that stand at its name: nothing
/// where it is published already.
pub fn plan_create_txt(existing: &Vec<Record>, lease: &TxtLease) -> (outcome: Result<
    Option<RecordBody>,
    DnsError,
>)
    ensures
        match lease_verdict(*lease) {
            Err(error) => outcome == Err::<Option<RecordBody>, DnsError>(error),
            Ok(_) => if exists|i: int|
                0 <= i < existing@.len() && obstructs(#[trigger] existing@[i], *lease) {
                outcome == Err::<Option<RecordBody>, DnsError>(DnsError::Conflict)
            } else if exists|i: int|
                0 <= i < existing@.len() && of_lease(#[trigger] existing@[i], *lease) {
                outcome == Ok::<Option<RecordBody>, DnsError>(None)
            } else {
                outcome matches Ok(Some(body)) && is_txt_body(body, *lease)
            },
        },
{
    match valid_lease(lease) {
        Err(error) => {
            return Err(error);
        },
        Ok(()) => {},
    }
    let comment: String = lease_comment(lease);
    let mut found: bool = false;
    let mut i: usize = 0;
    while i < existing.len()
        invariant
            i <= existing@.len(),
            lease_verdict(*lease) is Ok,
            comment@ == lease_mark(*lease),
            found == exists|j: int| 0 <= j < i && of_lease(#[trigger] existing@[j], *lease),
            forall|j: int| 0 <= j < i ==> !obstructs(#[trigger] existing@[j], *lease),
        decreases existing@.len() - i,
    {
        let record: &Record = &existing[i];
        let mine: bool = same_text(record.comment.as_str(), comment.as_str());
        let value: String = txt_content(record);
        if record.kind != RecordKind::Txt || after_prefix(
            record.comment.as_str(),
            "bloom-relay challenge v1 ",
        ).is_none() || (mine && !same_text(value.as_str(), lease.value.as_str())) {
            proof {
                assert(obstructs(existing@[i as int], *lease));
            }
            return Err(DnsError::Conflict);
        }
        if mine {
            proof {
                assert(of_lease(existing@[i as int], *lease));
            }
            found = true;
        }
        i += 1;
    }
    if found {
        return Ok(None);
    }
    let name: String = match challenge_name(lease.hostname.as_str()) {
        Ok(name) => name,
        Err(error) => {
            return Err(error);
        },
    };
    let opened: String = joined("\"", lease.value.as_str());
    Ok(
        Some(
            RecordBody {
                kind: RecordKind::Txt,
                name,
                content: Some(joined(opened.as_str(), "\"")),
                ttl: CHALLENGE_TTL_SECONDS,
                proxied: None,
                comment,
                data: None,
            },
        ),
    )
}

/// The positions of the first `count` records that are the one of a lease.
pub open spec fn lease_positions(existing: Seq<Record>, count: nat, lease: TxtLease) -> Seq<usize>
    decreases count,
{
    if count == 0 {
        Seq::empty()
    } else {
        let before = lease_positions(existing, (count - 1) as nat, lease);
        if of_lease(existing[count - 1], lease) {
            before.push((count - 1) as usize)
        } else {
            before
        }
    }
}

/// Plans the removal of a DNS-01 answer: only the records of this lease go, and none where one
/// of them has another value.
pub fn plan_delete_txt(existing: &Vec<Record>, lease: &TxtLease) -> (outcome: Result<
    Vec<usize>,
    DnsError,
>)
    ensures
        match lease_verdict(*lease) {
            Err(error) => outcome == Err::<Vec<usize>, DnsError>(error),
            Ok(_) => if exists|i: int|
                0 <= i < existing@.len() && of_lease(#[trigger] existing@[i], *lease) && unquoted(
                    existing@[i].content@,
                ) != lease.value@ {
                outcome == Err::<Vec<usize>, DnsError>(DnsError::Conflict)
            } else {
                outcome matches Ok(found) && found@ == lease_positions(
                    existing@,
                    existing@.len(),
                    *lease,
                )
            },
        },
{
    match valid_lease(lease) {
        Err(error) => {
            return Err(error);
        },
        Ok(()) => {},
    }
    let comment: String = lease_comment(lease);
    let mut found: Vec<usize> = Vec::new();
    let mut i: usize = 0;
    while i < existing.len()
        invariant
            i <= existing@.len(),
            lease_verdict(*lease) is Ok,
            comment@ == lease_mark(*lease),
            found@ == lease_positions(existing@, i as nat, *lease),
            forall|j: int|
                0 <= j < i && of_lease(#[trigger] existing@[j], *lease) ==> unquoted(
                    existing@[j].content@,
                ) == lease.value@,
        decreases existing@.len() - i,
    {
        let record: &Record = &existing[i];
        if record.kind == RecordKind::Txt && same_text(
            record.comment.as_str(),
            comment.as_str(),
        ) {
            proof {
                assert(of_lease(existing@[i as int], *lease));
            }
            let value: String = txt_content(record);
            if !same_text(value.as_str(), lease.value.as_str()) {
                return Err(DnsError::Conflict);
            }
            found.push(i);
        }
        i += 1;
    }
    Ok(found)
}

/// Which records serve, one answer for each.
pub open spec fn serving(existing: Seq<Record>) -> Seq<bool> {
    Seq::new(existing.len(), |i: int| existing[i].kind.serves())
}

/// Whether a serving record was not made here.
pub open spec fn unmarked(record: Record) -> bool {
    record.kind.serves() && (record.comment@ != crate::cloudflare::plan::serving_mark()
        || crate::cloudflare::plan::key_of(record) is Err)
}

/// Plans the retirement of a name: every serving record goes, the wildcard denial last. Where
/// one of them was not made here, none goes.
pub fn plan_retire_name(existing: &Vec<Record>) -> (outcome: Result<Vec<usize>, DnsError>)
    ensures
        if exists|i: int| 0 <= i < existing@.len() && unmarked(#[trigger] existing@[i]) {
            outcome == Err::<Vec<usize>, DnsError>(DnsError::Conflict)
        } else {
            outcome matches Ok(order) && order@ == crate::cloudflare::plan::deletion_order(
                existing@,
                serving(existing@),
            )
        },
{
    let mut chosen: Vec<bool> = Vec::new();
    let mut i: usize = 0;
    while i < existing.len()
        invariant
            i <= existing@.len(),
            chosen@ == serving(existing@).take(i as int),
            forall|j: int| 0 <= j < i ==> !unmarked(#[trigger] existing@[j]),
        decreases existing@.len() - i,
    {
        let record: &Record = &existing[i];
        let serves: bool = record.kind.is_serving();
        if serves && (!same_text(record.comment.as_str(), "bloom-relay serving v1")
            || record.key().is_err()) {
            proof {
                assert(unmarked(existing@[i as int]));
            }
            return Err(DnsError::Conflict);
        }
        chosen.push(serves);
        i += 1;
        proof {
            assert(chosen@ =~= serving(existing@).take(i as int));
        }
    }
    proof {
        assert(chosen@ =~= serving(existing@));
    }
    Ok(order_deletions(existing, &chosen))
}

/// The positions of the first `count` records that are TXT records.
pub open spec fn txt_positions(existing: Seq<Record>, count: nat) -> Seq<usize>
    decreases count,
{
    if count == 0 {
        Seq::empty()
    } else {
        let before = txt_positions(existing, (count - 1) as nat);
        if existing[count - 1].kind == RecordKind::Txt {
            before.push((count - 1) as usize)
        } else {
            before
        }
    }
}

/// Plans the retirement of the answers of a name: every TXT record goes, and none where one of
/// them was not made here.
pub fn plan_retire_challenge(existing: &Vec<Record>) -> (outcome: Result<Vec<usize>, DnsError>)
    ensures
        if exists|i: int|
            0 <= i < existing@.len() && (#[trigger] existing@[i]).kind == RecordKind::Txt
                && !crate::text::starts_with(existing@[i].comment@, challenge_mark()) {
            outcome == Err::<Vec<usize>, DnsError>(DnsError::Conflict)
        } else {
            outcome matches Ok(found) && found@ == txt_positions(existing@, existing@.len())
        },
{
    let mut found: Vec<usize> = Vec::new();
    let mut i: usize = 0;
    while i < existing.len()
        invariant
            i <= existing@.len(),
            found@ == txt_positions(existing@, i as nat),
            forall|j: int|
                0 <= j < i && (#[trigger] existing@[j]).kind == RecordKind::Txt
                    ==> crate::text::starts_with(existing@[j].comment@, challenge_mark()),
        decreases existing@.len() - i,
    {
        let record: &Record = &existing[i];
        if record.kind == RecordKind::Txt {
            if after_prefix(record.comment.as_str(), "bloom-relay challenge v1 ").is_none() {
                proof {
                    assert(existing@[i as int].kind == RecordKind::Txt);
                }
                return Err(DnsError::Conflict);
            }
            found.push(i);
        }
        i += 1;
    }
    Ok(found)
}

/// The records that are removed for one lease are never those of another.
pub proof fn law_cleanup_keeps_other_leases(
    existing: Seq<Record>,
    count: nat,
    lease: TxtLease,
    other: TxtLease,
)
    requires
        count <= existing.len() <= usize::MAX,
        lease.lease_id@ != other.lease_id@,
    ensures
        forall|at: int|
            0 <= at < lease_positions(existing, count, lease).len() ==> {
                let i = #[trigger] lease_positions(existing, count, lease)[at];
                i < count && of_lease(existing[i as int], lease) && !of_lease(
                    existing[i as int],
                    other,
                )
            },
    decreases count,
{
    if count > 0 {
        law_cleanup_keeps_other_leases(existing, (count - 1) as nat, lease, other);
        let size = challenge_mark().len() as int;
        assert(lease_mark(lease).skip(size) =~= lease.lease_id@);
        assert(lease_mark(other).skip(size) =~= other.lease_id@);
        let before = lease_positions(existing, (count - 1) as nat, lease);
        let after = lease_positions(existing, count, lease);
        assert forall|at: int| 0 <= at < after.len() implies {
            let i = #[trigger] after[at];
            i < count && of_lease(existing[i as int], lease) && !of_lease(existing[i as int], other)
        } by {
            if at < before.len() {
                assert(after[at] == before[at]);
            }
        }
    }
}

/// Whether a desired record is the address record of an address at a hostname.
pub open spec fn serves_address(
    record: Desired,
    hostname: Seq<char>,
    address: crate::dns::Address,
) -> bool {
    let kind = match address.ip {
        IpAddress::V4(_) => RecordKind::A,
        IpAddress::V6(_) => RecordKind::Aaaa,
    };
    &&& record.key.kind == kind && record.key.content@ == address.text@
    &&& record.body.kind == kind && record.body.name@ == hostname
    &&& record.body.content matches Some(content) && content@ == address.text@
    &&& record.body.ttl == 300 && record.body.proxied == Some(false)
    &&& record.body.comment@ == "bloom-relay serving v1"@
}

/// Whether a desired record is a CAA record at a hostname.
pub open spec fn states_policy(
    record: Desired,
    hostname: Seq<char>,
    tag: Seq<char>,
    value: Seq<char>,
) -> bool {
    &&& record.key.kind == RecordKind::Caa && record.key.content@ == tag + ":"@ + value
    &&& record.body.kind == RecordKind::Caa && record.body.name@ == hostname
    &&& record.body.data matches Some(data) && data.flags == 0 && data.tag@ == tag && data.value@
        == value
    &&& record.body.ttl == 300 && record.body.comment@ == "bloom-relay serving v1"@
}

/// The records that a name is to have are those of its addresses, every one of them, the CAA
/// record that lets the one account issue, the one that forbids wildcards, and no other.
pub proof fn law_desired_records_are_the_name(desired: Seq<Desired>, records: NameRecords)
    requires
        serves_name(desired, records),
    ensures
        forall|a: int|
            0 <= a < records.addresses@.len() ==> exists|d: int|
                0 <= d < desired.len() && serves_address(
                    #[trigger] desired[d],
                    records.hostname@,
                    #[trigger] records.addresses@[a],
                ),
        exists|d: int|
            0 <= d < desired.len() && states_policy(
                #[trigger] desired[d],
                records.hostname@,
                "issue"@,
                "letsencrypt.org; validationmethods=dns-01; accounturi="@
                    + records.acme_account_uri@,
            ),
        exists|d: int|
            0 <= d < desired.len() && states_policy(
                #[trigger] desired[d],
                records.hostname@,
                "issuewild"@,
                ";"@,
            ),
        forall|d: int|
            0 <= d < desired.len() ==> states_policy(
                #[trigger] desired[d],
                records.hostname@,
                "issue"@,
                "letsencrypt.org; validationmethods=dns-01; accounturi="@
                    + records.acme_account_uri@,
            ) || states_policy(desired[d], records.hostname@, "issuewild"@, ";"@) || exists|a: int|
                0 <= a < records.addresses@.len() && serves_address(
                    desired[d],
                    records.hostname@,
                    #[trigger] records.addresses@[a],
                ),
{
    let addresses = records.addresses@;
    let keys = address_keys(addresses, addresses.len());
    let n = keys.len() as int;
    lemma_address_keys(addresses, addresses.len());
    assert forall|d: int| 0 <= d < n implies (#[trigger] desired[d]).key@ == keys[d] by {
        assert(keys_of(desired.take(n))[d] == desired.take(n)[d].key@);
    }
    assert forall|a: int| 0 <= a < addresses.len() implies exists|d: int|
        0 <= d < desired.len() && serves_address(
            #[trigger] desired[d],
            records.hostname@,
            #[trigger] addresses[a],
        ) by {
        let d = keys.index_of(address_key(addresses[a]));
        assert(desired[d].key@ == address_key(addresses[a]));
        assert(serves_address(desired[d], records.hostname@, addresses[a]));
    }
    assert forall|d: int| 0 <= d < n implies exists|a: int|
        0 <= a < addresses.len() && serves_address(
            #[trigger] desired[d],
            records.hostname@,
            #[trigger] addresses[a],
        ) by {
        assert(desired[d].key@ == keys[d]);
        let a = choose|a: int| 0 <= a < addresses.len() && address_key(#[trigger] addresses[a]) == keys[d];
        assert(serves_address(desired[d], records.hostname@, addresses[a]));
    }
    assert(states_policy(
        desired[n],
        records.hostname@,
        "issue"@,
        "letsencrypt.org; validationmethods=dns-01; accounturi="@ + records.acme_account_uri@,
    ));
    assert(states_policy(desired[n + 1], records.hostname@, "issuewild"@, ";"@));
}

/// The keys of addresses are theirs and no others.
proof fn lemma_address_keys(addresses: Seq<crate::dns::Address>, count: nat)
    requires
        count <= addresses.len(),
    ensures
        forall|a: int|
            0 <= a < count ==> address_keys(addresses, count).contains(
                address_key(#[trigger] addresses[a]),
            ),
        forall|k: int|
            0 <= k < address_keys(addresses, count).len() ==> exists|a: int|
                0 <= a < count && address_key(#[trigger] addresses[a]) == #[trigger] address_keys(
                    addresses,
                    count,
                )[k],
    decreases count,
{
    if count > 0 {
        lemma_address_keys(addresses, (count - 1) as nat);
        let before = address_keys(addresses, (count - 1) as nat);
        let after = address_keys(addresses, count);
        let last = address_key(addresses[count - 1]);
        assert forall|a: int| 0 <= a < count implies after.contains(
            address_key(#[trigger] addresses[a]),
        ) by {
            if a < count - 1 {
                let k = before.index_of(address_key(addresses[a]));
                assert(after[k] == before[k]);
            } else if !before.contains(last) {
                assert(after.last() == last);
            }
        }
        assert forall|k: int| 0 <= k < after.len() implies exists|a: int|
            0 <= a < count && address_key(#[trigger] addresses[a]) == #[trigger] after[k] by {
            if k < before.len() {
                assert(after[k] == before[k]);
                let a = choose|a: int|
                    0 <= a < count - 1 && address_key(#[trigger] addresses[a]) == before[k];
                assert(address_key(addresses[a]) == after[k]);
            } else {
                assert(address_key(addresses[count - 1]) == after[k]);
            }
        }
    }
}

/// The retirement of a name deletes every record of a serving type and no other, and is refused
/// where one of them lacks the comment of this service or is a CAA record that it does not write.
pub proof fn law_retirement_deletes_what_serves(existing: Seq<Record>, i: int)
    requires
        existing.len() <= usize::MAX,
        0 <= i < existing.len(),
    ensures
        crate::cloudflare::plan::deletion_order(existing, serving(existing)).contains(i as usize)
            <==> crate::cloudflare::plan::of_serving_type(existing[i]),
        unmarked(existing[i]) <==> crate::cloudflare::plan::of_serving_type(existing[i]) && (
        existing[i].comment@ != "bloom-relay serving v1"@ || (existing[i].kind == RecordKind::Caa
            && match existing[i].data {
            None => true,
            Some(data) => data.flags != 0 || (data.tag@ != "issue"@ && data.tag@ != "issuewild"@),
        })),
{
    let chosen = serving(existing);
    crate::cloudflare::plan::law_denial_outlives_authorization(existing, chosen);
    assert(chosen[i] == existing[i].kind.serves());
}

/// The removal of a DNS-01 answer deletes exactly the TXT records with the comment of the lease,
/// and the retirement of the answers every TXT record.
pub proof fn law_answer_removal_is_exact(existing: Seq<Record>, lease: TxtLease, i: int)
    requires
        existing.len() <= usize::MAX,
        0 <= i < existing.len(),
    ensures
        lease_positions(existing, existing.len(), lease).contains(i as usize) <==> existing[i].kind
            == RecordKind::Txt && existing[i].comment@ == "bloom-relay challenge v1 "@
            + lease.lease_id@,
        txt_positions(existing, existing.len()).contains(i as usize) <==> existing[i].kind
            == RecordKind::Txt,
{
    lemma_positions(existing, existing.len(), lease, i);
}

proof fn lemma_positions(existing: Seq<Record>, count: nat, lease: TxtLease, i: int)
    requires
        count <= existing.len() <= usize::MAX,
        0 <= i,
    ensures
        i < existing.len() ==> (lease_positions(existing, count, lease).contains(i as usize) <==> i
            < count && of_lease(existing[i], lease)),
        i < existing.len() ==> (txt_positions(existing, count).contains(i as usize) <==> i < count
            && existing[i].kind == RecordKind::Txt),
    decreases count,
{
    if count > 0 && i < existing.len() {
        lemma_positions(existing, (count - 1) as nat, lease, i);
        let leases = lease_positions(existing, (count - 1) as nat, lease);
        let texts = txt_positions(existing, (count - 1) as nat);
        assert forall|x: usize, s: Seq<usize>| #[trigger]
            s.push(x).contains(i as usize) == (s.contains(i as usize) || x == i as usize) by {
            if s.contains(i as usize) {
                let k = s.index_of(i as usize);
                assert(s.push(x)[k] == i as usize);
            }
            if x == i as usize {
                assert(s.push(x)[s.len() as int] == x);
            }
        }
    }
}

/// A record stands in the way of a DNS-01 answer exactly where it is no TXT record, was not made
/// here, or has the comment of the lease with another value; and what is written is the value
/// alone, quoted, at the name of the answers, for a minute.
pub proof fn law_answer_is_written_exactly(record: Record, body: RecordBody, lease: TxtLease)
    ensures
        obstructs(record, lease) <==> {
            let mark = "bloom-relay challenge v1 "@;
            ||| record.kind != RecordKind::Txt
            ||| !(mark.len() <= record.comment@.len() && record.comment@.take(mark.len() as int)
                == mark)
            ||| record.comment@ == mark + lease.lease_id@ && unquoted(record.content@) != lease.value@
        },
        is_txt_body(body, lease) ==> body.kind == RecordKind::Txt && body.name@
            == "_acme-challenge."@ + lease.hostname@ && (body.content matches Some(content)
            && content@ == "\""@ + lease.value@ + "\""@) && body.ttl == 60 && body.comment@
            == "bloom-relay challenge v1 "@ + lease.lease_id@,
{
}

/// Quotes around a value are taken off, and nothing else is.
pub proof fn law_quotes_are_taken_off(value: Seq<char>)
    ensures
        unquoted("\""@ + value + "\""@) == value,
        value.len() < 2 || value[0] != '"' || value.last() != '"' ==> unquoted(value) == value,
{
    reveal_strlit("\"");
    let quoted = "\""@ + value + "\""@;
    assert(quoted.subrange(1, quoted.len() - 1) =~= value);
}

/// A zone and a record are named by 32 hexadecimal digits, and a token is of visible characters
/// alone.
pub proof fn law_zones_and_tokens_have_a_form(text: Seq<char>)
    ensures
        is_id(text) <==> {
            &&& text.len() == 32
            &&& forall|i: int|
                0 <= i < text.len() ==> ('0' <= #[trigger] text[i] <= '9' || 'a' <= text[i] <= 'f'
                    || 'A' <= text[i] <= 'F')
        },
        is_token(text) <==> {
            &&& text.len() > 0
            &&& forall|i: int|
                0 <= i < text.len() ==> #[trigger] text[i] > ' ' && text[i] != '\u{7f}'
        },
{
    if is_id(text) {
        assert forall|i: int| 0 <= i < text.len() implies ('0' <= #[trigger] text[i] <= '9' || 'a'
            <= text[i] <= 'f' || 'A' <= text[i] <= 'F') by {
            assert(CharClass::Hex.holds(text[i]));
        }
    }
}

/// A listing is used only where it is complete, of at most a thousand records, and every record in
/// it stands under the very name that was asked for and can be addressed.
pub proof fn law_listing_is_of_the_name(records: Seq<Record>, name: Seq<char>)
    ensures
        exact_listing(records, name) <==> {
            &&& records.len() <= 1_000
            &&& forall|i: int| 0 <= i < records.len() ==> (#[trigger] records[i]).name@ == name
            &&& forall|i: int| 0 <= i < records.len() ==> is_id((#[trigger] records[i]).id@)
        },
        MAX_ANSWER_BYTES == 262_144,
{
    if (forall|i: int| 0 <= i < records.len() ==> (#[trigger] records[i]).name@ == name) && (forall|
        i: int,
    |
        0 <= i < records.len() ==> is_id((#[trigger] records[i]).id@)) {
        assert forall|i: int| 0 <= i < records.len() implies (#[trigger] records[i]).name@ == name
            && is_id(records[i].id@) by {}
    }
}

/// Requests go to the records of the zone and nowhere else.
pub proof fn law_requests_go_to_the_zone(provider: CloudflareProvider)
    ensures
        provider.spec_records_url() == "https://api.cloudflare.com/client/v4/zones/"@
            + provider.spec_zone() + "/dns_records"@,
{
}

/// An answer is written exactly where its hostname is a relay hostname, its identifier has the 36
/// characters of one, and its value is one to 255 letters, digits, hyphens and underscores.
pub proof fn law_answer_has_a_form(lease: TxtLease)
    ensures
        ({
            let named = crate::protocol::valid_hostname(lease.hostname@);
            let formed = {
                &&& lease.lease_id@.len() == 36
                &&& forall|i: int|
                    0 <= i < lease.lease_id@.len() ==> ('0' <= #[trigger] lease.lease_id@[i] <= '9'
                        || 'a' <= lease.lease_id@[i] <= 'f' || 'A' <= lease.lease_id@[i] <= 'F'
                        || lease.lease_id@[i] == '-')
                &&& 1 <= lease.value@.len() <= 255
                &&& forall|i: int|
                    0 <= i < lease.value@.len() ==> ('0' <= #[trigger] lease.value@[i] <= '9'
                        || 'a' <= lease.value@[i] <= 'z' || 'A' <= lease.value@[i] <= 'Z'
                        || lease.value@[i] == '-' || lease.value@[i] == '_')
            };
            let verdict = lease_verdict(lease);
            &&& verdict is Ok <==> named && formed
            &&& !named ==> verdict->Err_0 is InvalidHostname
            &&& named && !formed ==> verdict->Err_0 is InvalidChange
        }),
{
    if writable(lease) {
        assert forall|i: int| 0 <= i < lease.lease_id@.len() implies ('0'
            <= #[trigger] lease.lease_id@[i] <= '9' || 'a' <= lease.lease_id@[i] <= 'f' || 'A'
            <= lease.lease_id@[i] <= 'F' || lease.lease_id@[i] == '-') by {
            assert(CharClass::Hex.holds(lease.lease_id@[i]) || lease.lease_id@[i] == '-');
        }
        assert forall|i: int| 0 <= i < lease.value@.len() implies ('0'
            <= #[trigger] lease.value@[i] <= '9' || 'a' <= lease.value@[i] <= 'z' || 'A'
            <= lease.value@[i] <= 'Z' || lease.value@[i] == '-' || lease.value@[i] == '_') by {
            assert(CharClass::UrlSafe.holds(lease.value@[i]));
        }
    }
}

/// A publication is begun exactly for a relay hostname with one to four addresses, none of them
/// all zeros, and a numbered production account; what is wanted is then the name, and any other
/// is refused, as a hostname or as a change that is not valid.
pub proof fn law_publication_is_begun(
    outcome: Result<Vec<Desired>, DnsError>,
    records: NameRecords,
)
    requires
        is_serving_outcome(outcome, records),
    ensures
        ({
            let named = crate::protocol::valid_hostname(records.hostname@);
            let some = 1 <= records.addresses@.len() <= 4 && forall|i: int|
                0 <= i < records.addresses@.len() ==> (#[trigger] records.addresses@[i]).ip
                    != IpAddress::V4(0) && records.addresses@[i].ip != IpAddress::V6(0);
            let account = crate::store::effects::production_account(records.acme_account_uri@);
            &&& outcome is Ok <==> named && some && account
            &&& !named ==> outcome->Err_0 is InvalidHostname
            &&& named && outcome is Err ==> outcome->Err_0 is InvalidChange
            &&& outcome is Ok ==> serves_name(outcome->Ok_0@, records)
        }),
{
    crate::dns::lemma_digits_account(records.acme_account_uri@);
    let addresses = records.addresses@;
    if crate::dns::publishable(records) {
        assert forall|i: int| 0 <= i < addresses.len() implies (#[trigger] addresses[i]).ip
            != IpAddress::V4(0) && addresses[i].ip != IpAddress::V6(0) by {
            assert(!addresses[i].ip.unspecified());
        }
    }
}

/// A retirement stops at a record that serves the name without the mark of the relay, or that is a
/// CAA record it cannot tell.
pub proof fn law_unmarked_records_stop_a_retirement(record: Record)
    ensures
        unmarked(record) <==> (record.kind is A || record.kind is Aaaa || record.kind is Caa) && (
        record.comment@ != "bloom-relay serving v1"@ || (record.kind is Caa && match record.data {
            None => true,
            Some(data) => data.flags != 0 || (data.tag@ != "issue"@ && data.tag@ != "issuewild"@),
        })),
{
}

} // verus!
