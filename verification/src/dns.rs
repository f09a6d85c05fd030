//! Exact-owner DNS changes: what is published for an assigned hostname, and a provider that
//! keeps it in memory.

use crate::address::IpAddress;
use crate::protocol::{validate_hostname, ProtocolError};
use crate::text::{after_prefix, chars_of, joined, range_in, same_text, CharClass};
use crate::text_map::TextMap;
use vstd::prelude::*;

verus! {

/// How long a serving record may be cached, in seconds.
pub const TTL_SECONDS: u32 = 300;

/// How many addresses a name may have.
pub const MAX_NAME_ADDRESSES: usize = 4;

/// How many bytes a TXT value may have.
pub const MAX_TXT_BYTES: usize = 255;

/// An address with its text form, as a record holds it.
#[derive(Debug, PartialEq, Eq)]
pub struct Address {
    pub ip: IpAddress,
    pub text: String,
}

/// What is published for an assigned hostname.
#[derive(Debug, PartialEq, Eq)]
pub struct NameRecords {
    pub hostname: String,
    pub addresses: Vec<Address>,
    pub acme_account_uri: String,
}

/// A DNS-01 answer of an assigned hostname.
#[derive(Debug, PartialEq, Eq)]
pub struct TxtLease {
    pub hostname: String,
    pub lease_id: String,
    pub value: String,
    pub expires_at_ms: u64,
}

/// Why a DNS change was not made.
#[derive(Clone, Copy, Debug, PartialEq, Eq, Structural)]
pub enum DnsError {
    InvalidHostname(ProtocolError),
    InvalidChange,
    Unavailable,
    Conflict,
}

impl DnsError {
    /// A description for people.
    pub fn message(self) -> (message: &'static str)
        ensures
            message@ == match self {
                DnsError::InvalidHostname(_) => "invalid assigned hostname"@,
                DnsError::InvalidChange => "invalid DNS change"@,
                DnsError::Unavailable => "DNS provider unavailable"@,
                DnsError::Conflict => "DNS lease conflicts with current owner"@,
            },
    {
        match self {
            DnsError::InvalidHostname(_) => "invalid assigned hostname",
            DnsError::InvalidChange => "invalid DNS change",
            DnsError::Unavailable => "DNS provider unavailable",
            DnsError::Conflict => "DNS lease conflicts with current owner",
        }
    }
}

/// The zone of all assigned hostnames.
pub fn zone() -> (name: &'static str)
    ensures
        name@ == "relay.bloom.directory"@,
{
    "relay.bloom.directory"
}

/// The start of the URI of every ACME account that a hostname may be bound to.
pub open spec fn account_prefix() -> Seq<char> {
    "https://acme-v02.api.letsencrypt.org/acme/acct/"@
}

/// The verdict on a hostname, as an error of this module.
pub open spec fn hostname_verdict(hostname: Seq<char>) -> Result<(), DnsError> {
    if crate::protocol::valid_hostname(hostname) {
        Ok(())
    } else {
        Err(DnsError::InvalidHostname(ProtocolError::InvalidHostname))
    }
}

/// Checks a hostname.
pub fn check_hostname(hostname: &str) -> (outcome: Result<(), DnsError>)
    ensures
        outcome == hostname_verdict(hostname@),
{
    match validate_hostname(hostname) {
        Ok(()) => Ok(()),
        Err(error) => Err(DnsError::InvalidHostname(error)),
    }
}

/// Whether what is to be published is well-formed, but for its hostname: one to four specified
/// addresses, and an account of the certificate authority.
pub open spec fn publishable(records: NameRecords) -> bool {
    &&& 1 <= records.addresses@.len() <= MAX_NAME_ADDRESSES
    &&& forall|i: int|
        0 <= i < records.addresses@.len() ==> !(#[trigger] records.addresses@[i]).ip.unspecified()
    &&& crate::text::starts_with(records.acme_account_uri@, account_prefix())
}

/// The verdict on what is to be published.
pub open spec fn records_verdict(records: NameRecords) -> Result<(), DnsError> {
    match hostname_verdict(records.hostname@) {
        Err(error) => Err(error),
        Ok(_) => if publishable(records) {
            Ok(())
        } else {
            Err(DnsError::InvalidChange)
        },
    }
}

/// Checks what is to be published.
pub fn validate_records(records: &NameRecords) -> (outcome: Result<(), DnsError>)
    ensures
        outcome == records_verdict(*records),
{
    match check_hostname(records.hostname.as_str()) {
        Err(error) => {
            return Err(error);
        },
        Ok(()) => {},
    }
    if records.addresses.len() == 0 || records.addresses.len() > MAX_NAME_ADDRESSES {
        return Err(DnsError::InvalidChange);
    }
    let mut i: usize = 0;
    while i < records.addresses.len()
        invariant
            i <= records.addresses@.len(),
            1 <= records.addresses@.len() <= MAX_NAME_ADDRESSES,
            hostname_verdict(records.hostname@) is Ok,
            forall|j: int|
                0 <= j < i ==> !(#[trigger] records.addresses@[j]).ip.unspecified(),
        decreases records.addresses@.len() - i,
    {
        if records.addresses[i].ip.is_unspecified() {
            return Err(DnsError::InvalidChange);
        }
        i += 1;
    }
    match after_prefix(
        records.acme_account_uri.as_str(),
        "https://acme-v02.api.letsencrypt.org/acme/acct/",
    ) {
        Some(_) => Ok(()),
        None => Err(DnsError::InvalidChange),
    }
}

/// Whether a text is the URI of an account, that is the prefix and digits.
pub open spec fn digits_account(uri: Seq<char>) -> bool {
    &&& crate::text::starts_with(uri, account_prefix())
    &&& crate::text::all_in(uri.skip(account_prefix().len() as int), CharClass::Digit)
}

/// The value of the CAA record that lets the certificate authority issue, for this account and
/// by DNS-01 alone.
pub open spec fn issue_value(uri: Seq<char>) -> Seq<char> {
    "letsencrypt.org; validationmethods=dns-01; accounturi="@ + uri
}

/// The CAA records of a hostname in text form: who may issue, and that nobody may issue for a
/// wildcard.
pub open spec fn caa_texts(uri: Seq<char>) -> (Seq<char>, Seq<char>) {
    ("0 issue \""@ + issue_value(uri) + "\""@, "0 issuewild \";\""@)
}

/// Writes the value of the CAA record that lets the certificate authority issue.
pub fn issue_value_of(uri: &str) -> (value: String)
    ensures
        value@ == issue_value(uri@),
{
    joined("letsencrypt.org; validationmethods=dns-01; accounturi=", uri)
}

/// Writes the CAA records of a hostname that is bound to an ACME account.
pub fn caa_values(acme_account_uri: &str) -> (outcome: Result<[String; 2], DnsError>)
    ensures
        if digits_account(acme_account_uri@) {
            outcome matches Ok(values) && (values@[0]@, values@[1]@) == caa_texts(acme_account_uri@)
        } else {
            outcome == Err::<[String; 2], DnsError>(DnsError::InvalidChange)
        },
{
    let digits: String = match after_prefix(
        acme_account_uri,
        "https://acme-v02.api.letsencrypt.org/acme/acct/",
    ) {
        Some(rest) => rest,
        None => {
            return Err(DnsError::InvalidChange);
        },
    };
    let chars: Vec<char> = chars_of(digits.as_str());
    proof {
        assert(chars@.subrange(0, chars@.len() as int) =~= digits@);
    }
    if !range_in(&chars, 0, chars.len(), CharClass::Digit) {
        return Err(DnsError::InvalidChange);
    }
    let value: String = issue_value_of(acme_account_uri);
    let opened: String = joined("0 issue \"", value.as_str());
    let issue: String = joined(opened.as_str(), "\"");
    let wildcard: String = "0 issuewild \";\"".to_owned();
    Ok([issue, wildcard])
}

/// The value of a CAA record fits in its field for every account URI of at most the length that
/// the protocol accepts.
pub proof fn law_issue_value_fits(uri: Seq<char>)
    requires
        uri.len() <= crate::protocol::MAX_ACME_ACCOUNT_URI_LEN,
    ensures
        issue_value(uri).len() <= 255,
{
    reveal_strlit("letsencrypt.org; validationmethods=dns-01; accounturi=");
}

/// The name at which the DNS-01 answers of a hostname stand.
pub open spec fn challenge_owner(hostname: Seq<char>) -> Seq<char> {
    "_acme-challenge."@ + hostname
}

/// Derives the name at which the DNS-01 answers of a hostname stand; no other name can be asked
/// for.
pub fn challenge_name(hostname: &str) -> (outcome: Result<String, DnsError>)
    ensures
        match hostname_verdict(hostname@) {
            Err(error) => outcome == Err::<String, DnsError>(error),
            Ok(_) => outcome matches Ok(name) && name@ == challenge_owner(hostname@),
        },
{
    match check_hostname(hostname) {
        Err(error) => Err(error),
        Ok(()) => Ok(joined("_acme-challenge.", hostname)),
    }
}

/// The names of a hostname and of its answers differ, and those of two hostnames do too.
pub proof fn law_challenge_owner_is_exact(one: Seq<char>, other: Seq<char>)
    requires
        challenge_owner(one) == challenge_owner(other),
    ensures
        one == other,
{
    let size = "_acme-challenge."@.len() as int;
    assert(challenge_owner(one).skip(size) =~= one);
    assert(challenge_owner(other).skip(size) =~= other);
}

/// Whether a TXT value and its lease have something in them, and the value fits.
pub open spec fn leasable(lease: TxtLease) -> bool {
    &&& 1 <= vstd::utf8::encode_utf8(lease.value@).len() <= MAX_TXT_BYTES
    &&& vstd::utf8::encode_utf8(lease.lease_id@).len() > 0
}

/// What a provider in memory holds.
pub struct MemoryView {
    pub names: Map<Seq<char>, NameRecords>,
    pub leases: Map<Seq<char>, TxtLease>,
}

/// A provider that keeps names and answers in memory.
pub struct MemoryProvider {
    names: TextMap<NameRecords>,
    leases: TextMap<TxtLease>,
}

impl View for MemoryProvider {
    type V = MemoryView;

    closed spec fn view(&self) -> MemoryView {
        MemoryView { names: self.names@, leases: self.leases@ }
    }
}

/// What the publication of a name does and answers.
pub open spec fn publish_outcome(state: MemoryView, records: NameRecords) -> (
    MemoryView,
    Result<(), DnsError>,
) {
    match records_verdict(records) {
        Err(error) => (state, Err(error)),
        Ok(_) => (
            MemoryView { names: state.names.insert(records.hostname@, records), ..state },
            Ok(()),
        ),
    }
}

/// What the lease of an answer does and answers: a lease of somebody else gives way only to one
/// that ends later.
pub open spec fn lease_outcome(state: MemoryView, lease: TxtLease) -> (
    MemoryView,
    Result<(), DnsError>,
) {
    match hostname_verdict(lease.hostname@) {
        Err(error) => (state, Err(error)),
        Ok(_) => if !leasable(lease) {
            (state, Err(DnsError::InvalidChange))
        } else if state.leases.dom().contains(lease.hostname@)
            && state.leases[lease.hostname@].lease_id@ != lease.lease_id@
            && state.leases[lease.hostname@].expires_at_ms >= lease.expires_at_ms {
            (state, Err(DnsError::Conflict))
        } else {
            (MemoryView { leases: state.leases.insert(lease.hostname@, lease), ..state }, Ok(()))
        },
    }
}

/// What the removal of an answer does and answers: only the very lease with the very value goes.
pub open spec fn release_outcome(state: MemoryView, lease: TxtLease) -> (
    MemoryView,
    Result<(), DnsError>,
) {
    match hostname_verdict(lease.hostname@) {
        Err(error) => (state, Err(error)),
        Ok(_) => if state.leases.dom().contains(lease.hostname@)
            && state.leases[lease.hostname@].lease_id@ == lease.lease_id@
            && state.leases[lease.hostname@].value@ == lease.value@ {
            (MemoryView { leases: state.leases.remove(lease.hostname@), ..state }, Ok(()))
        } else {
            (state, Ok(()))
        },
    }
}

/// What the retirement of a name does and answers; its answers stay.
pub open spec fn retire_outcome(state: MemoryView, hostname: Seq<char>) -> (
    MemoryView,
    Result<(), DnsError>,
) {
    match hostname_verdict(hostname) {
        Err(error) => (state, Err(error)),
        Ok(_) => (MemoryView { names: state.names.remove(hostname), ..state }, Ok(())),
    }
}

/// What the retirement of the answers of a name does and answers; the name stays.
pub open spec fn retire_challenge_outcome(state: MemoryView, hostname: Seq<char>) -> (
    MemoryView,
    Result<(), DnsError>,
) {
    match hostname_verdict(hostname) {
        Err(error) => (state, Err(error)),
        Ok(_) => (MemoryView { leases: state.leases.remove(hostname), ..state }, Ok(())),
    }
}

impl Default for MemoryProvider {
    /// A provider that holds nothing.
    fn default() -> (provider: Self)
        ensures
            provider@.names == Map::<Seq<char>, NameRecords>::empty(),
            provider@.leases == Map::<Seq<char>, TxtLease>::empty(),
    {
        MemoryProvider { names: TextMap::new(), leases: TextMap::new() }
    }
}

impl MemoryProvider {
    /// What is published for a hostname.
    pub fn records(&self, hostname: &str) -> (records: Option<&NameRecords>)
        ensures
            records is Some == self@.names.dom().contains(hostname@),
            records matches Some(found) ==> *found == self@.names[hostname@],
    {
        self.names.get(hostname)
    }

    /// The DNS-01 answer of a hostname.
    pub fn txt(&self, hostname: &str) -> (lease: Option<&TxtLease>)
        ensures
            lease is Some == self@.leases.dom().contains(hostname@),
            lease matches Some(found) ==> *found == self@.leases[hostname@],
    {
        self.leases.get(hostname)
    }

    /// Publishes a name.
    pub fn publish_name(&mut self, records: NameRecords) -> (outcome: Result<(), DnsError>)
        ensures
            (final(self)@, outcome) == publish_outcome(old(self)@, records),
    {
        match validate_records(&records) {
            Err(error) => {
                return Err(error);
            },
            Ok(()) => {},
        }
        let hostname: String = records.hostname.clone();
        let _ = self.names.insert(hostname, records);
        Ok(())
    }

    /// Publishes a DNS-01 answer.
    pub fn create_txt(&mut self, lease: TxtLease) -> (outcome: Result<(), DnsError>)
        ensures
            (final(self)@, outcome) == lease_outcome(old(self)@, lease),
    {
        match check_hostname(lease.hostname.as_str()) {
            Err(error) => {
                return Err(error);
            },
            Ok(()) => {},
        }
        let size: usize = lease.value.as_str().as_bytes().len();
        if size == 0 || size > MAX_TXT_BYTES || lease.lease_id.as_str().as_bytes().len() == 0 {
            return Err(DnsError::InvalidChange);
        }
        let taken: bool = match self.leases.get(lease.hostname.as_str()) {
            Some(current) => !same_text(current.lease_id.as_str(), lease.lease_id.as_str())
                && current.expires_at_ms >= lease.expires_at_ms,
            None => false,
        };
        if taken {
            return Err(DnsError::Conflict);
        }
        let hostname: String = lease.hostname.clone();
        let _ = self.leases.insert(hostname, lease);
        Ok(())
    }

    /// Removes a DNS-01 answer, where it is still the one that is published.
    pub fn delete_txt(&mut self, lease: &TxtLease) -> (outcome: Result<(), DnsError>)
        ensures
            (final(self)@, outcome) == release_outcome(old(self)@, *lease),
    {
        match check_hostname(lease.hostname.as_str()) {
            Err(error) => {
                return Err(error);
            },
            Ok(()) => {},
        }
        let current: bool = match self.leases.get(lease.hostname.as_str()) {
            Some(current) => same_text(current.lease_id.as_str(), lease.lease_id.as_str())
                && same_text(current.value.as_str(), lease.value.as_str()),
            None => false,
        };
        if current {
            let _ = self.leases.remove(lease.hostname.as_str());
        }
        Ok(())
    }

    /// Removes what is published for a hostname, but for its answers.
    pub fn retire_name(&mut self, hostname: &str) -> (outcome: Result<(), DnsError>)
        ensures
            (final(self)@, outcome) == retire_outcome(old(self)@, hostname@),
    {
        match check_hostname(hostname) {
            Err(error) => {
                return Err(error);
            },
            Ok(()) => {},
        }
        let _ = self.names.remove(hostname);
        Ok(())
    }

    /// Removes the answers of a hostname.
    pub fn retire_challenge(&mut self, hostname: &str) -> (outcome: Result<(), DnsError>)
        ensures
            (final(self)@, outcome) == retire_challenge_outcome(old(self)@, hostname@),
    {
        match check_hostname(hostname) {
            Err(error) => {
                return Err(error);
            },
            Ok(()) => {},
        }
        let _ = self.leases.remove(hostname);
        Ok(())
    }
}

/// A delayed cleanup of an old lease leaves the newer lease of the name alone.
pub proof fn law_delayed_cleanup_keeps_new_lease(state: MemoryView, old_lease: TxtLease, new_lease: TxtLease)
    requires
        old_lease.hostname@ == new_lease.hostname@,
        old_lease.lease_id@ != new_lease.lease_id@,
        lease_outcome(state, new_lease).1 is Ok,
    ensures
        ({
            let (leased, _) = lease_outcome(state, new_lease);
            let (cleaned, outcome) = release_outcome(leased, old_lease);
            &&& outcome is Ok
            &&& cleaned == leased
            &&& cleaned.leases[new_lease.hostname@] == new_lease
        }),
{
}

/// Retirement of a name and retirement of its answers touch one of them each, and nothing of
/// another name.
pub proof fn law_retirement_is_split(state: MemoryView, hostname: Seq<char>, other: Seq<char>)
    requires
        crate::protocol::valid_hostname(hostname),
        other != hostname,
    ensures
        ({
            let (unnamed, _) = retire_outcome(state, hostname);
            let (unanswered, _) = retire_challenge_outcome(state, hostname);
            &&& !unnamed.names.dom().contains(hostname)
            &&& unnamed.leases == state.leases
            &&& unnamed.names.dom().contains(other) == state.names.dom().contains(other)
            &&& !unanswered.leases.dom().contains(hostname)
            &&& unanswered.names == state.names
            &&& unanswered.leases.dom().contains(other) == state.leases.dom().contains(other)
        }),
{
}

/// The form of an account URI: the start of every one, and then digits.
pub(crate) proof fn lemma_digits_account(uri: Seq<char>)
    ensures
        digits_account(uri) <==> {
            let prefix = "https://acme-v02.api.letsencrypt.org/acme/acct/"@;
            &&& prefix.len() <= uri.len() && uri.take(prefix.len() as int) == prefix
            &&& forall|i: int| prefix.len() <= i < uri.len() ==> '0' <= #[trigger] uri[i] <= '9'
        },
{
    let prefix = "https://acme-v02.api.letsencrypt.org/acme/acct/"@;
    let rest = uri.skip(prefix.len() as int);
    if prefix.len() <= uri.len() {
        if crate::text::all_in(rest, CharClass::Digit) {
            assert forall|i: int| prefix.len() <= i < uri.len() implies '0' <= #[trigger] uri[i]
                <= '9' by {
                assert(CharClass::Digit.holds(rest[i - prefix.len()]));
            }
        }
        if forall|i: int| prefix.len() <= i < uri.len() ==> '0' <= #[trigger] uri[i] <= '9' {
            assert forall|i: int| 0 <= i < rest.len() implies CharClass::Digit.holds(
                #[trigger] rest[i],
            ) by {
                assert(rest[i] == uri[i + prefix.len()]);
            }
        }
    }
}

/// What can be published: a relay hostname with one to four addresses, none of which is the
/// unspecified one, for an account of the certificate authority. Everything else is refused, a
/// foreign hostname before the rest.
pub proof fn law_publication_is_bounded(records: NameRecords)
    ensures
        records_verdict(records) is Ok <==> {
            let uri = records.acme_account_uri@;
            let prefix = "https://acme-v02.api.letsencrypt.org/acme/acct/"@;
            &&& crate::protocol::valid_hostname(records.hostname@)
            &&& 1 <= records.addresses@.len() <= 4
            &&& forall|i: int|
                0 <= i < records.addresses@.len() ==> match (#[trigger] records.addresses@[i]).ip {
                    crate::address::IpAddress::V4(bits) => bits != 0,
                    crate::address::IpAddress::V6(bits) => bits != 0,
                }
            &&& prefix.len() <= uri.len() && uri.take(prefix.len() as int) == prefix
        },
        records_verdict(records) matches Err(error) ==> (error is InvalidHostname
            <==> !crate::protocol::valid_hostname(records.hostname@)) && (error is InvalidHostname
            || error is InvalidChange),
{
    let uri = records.acme_account_uri@;
    let prefix = "https://acme-v02.api.letsencrypt.org/acme/acct/"@;
    if publishable(records) {
        assert forall|i: int| 0 <= i < records.addresses@.len() implies match (
        #[trigger] records.addresses@[i]).ip {
            crate::address::IpAddress::V4(bits) => bits != 0,
            crate::address::IpAddress::V6(bits) => bits != 0,
        } by {
            assert(!records.addresses@[i].ip.unspecified());
        }
    }
}

/// The CAA records of an account let one authority issue, for that account and by DNS-01 alone,
/// and nobody for a wildcard; records of two accounts are never the same.
pub proof fn law_caa_names_one_account(uri: Seq<char>, other: Seq<char>)
    ensures
        caa_texts(uri).0 == "0 issue \"letsencrypt.org; validationmethods=dns-01; accounturi="@ + uri
            + "\""@,
        caa_texts(uri).1 == "0 issuewild \";\""@,
        caa_texts(uri).0 == caa_texts(other).0 ==> uri == other,
        issue_value(uri) == issue_value(other) ==> uri == other,
{
    reveal_strlit("0 issue \"");
    reveal_strlit("letsencrypt.org; validationmethods=dns-01; accounturi=");
    reveal_strlit("0 issue \"letsencrypt.org; validationmethods=dns-01; accounturi=");
    assert(caa_texts(uri).0 =~= "0 issue \"letsencrypt.org; validationmethods=dns-01; accounturi="@
        + uri + "\""@);
    let head = "letsencrypt.org; validationmethods=dns-01; accounturi="@;
    assert(issue_value(uri).skip(head.len() as int) =~= uri);
    assert(issue_value(other).skip(head.len() as int) =~= other);
    let opened = "0 issue \""@;
    let n = opened.len() as int;
    assert(caa_texts(uri).0.subrange(n, caa_texts(uri).0.len() - "\""@.len()) =~= issue_value(uri));
    assert(caa_texts(other).0.subrange(n, caa_texts(other).0.len() - "\""@.len()) =~= issue_value(
        other,
    ));
}

/// A publication that is allowed replaces the records of its hostname by what it says, whatever
/// stood there, and changes nothing else; any other changes nothing.
pub proof fn law_publication_replaces_the_name(
    state: MemoryView,
    records: NameRecords,
    other: Seq<char>,
)
    ensures
        ({
            let (after, answer) = publish_outcome(state, records);
            let allowed = crate::protocol::valid_hostname(records.hostname@) && publishable(records);
            &&& answer is Ok <==> allowed
            &&& !allowed ==> after == state
            &&& !crate::protocol::valid_hostname(records.hostname@)
                ==> answer->Err_0 is InvalidHostname
            &&& crate::protocol::valid_hostname(records.hostname@) && !allowed
                ==> answer->Err_0 is InvalidChange
            &&& allowed ==> {
                &&& after.names.dom().contains(records.hostname@)
                &&& after.names[records.hostname@] == records
                &&& after.leases == state.leases
                &&& other != records.hostname@ ==> after.names.dom().contains(other)
                    == state.names.dom().contains(other)
                &&& other != records.hostname@ && state.names.dom().contains(other)
                    ==> after.names[other] == state.names[other]
            }
        }),
{
}

/// An answer of one to 255 bytes is written where none stands, where the one that stands has the
/// same identifier, and where that one ends sooner; another one that ends no sooner is not
/// replaced. Names and the answers of other hostnames stay.
pub proof fn law_answer_replaces_an_older_one(state: MemoryView, lease: TxtLease, other: Seq<char>)
    ensures
        ({
            let (after, answer) = lease_outcome(state, lease);
            let host = lease.hostname@;
            let formed = 1 <= vstd::utf8::encode_utf8(lease.value@).len() <= 255
                && vstd::utf8::encode_utf8(lease.lease_id@).len() > 0;
            let stands = state.leases.dom().contains(host);
            let replaced = !stands || state.leases[host].lease_id@ == lease.lease_id@
                || state.leases[host].expires_at_ms < lease.expires_at_ms;
            &&& answer is Ok <==> crate::protocol::valid_hostname(host) && formed && replaced
            &&& answer is Err ==> after == state
            &&& crate::protocol::valid_hostname(host) && !formed ==> answer->Err_0 is InvalidChange
            &&& crate::protocol::valid_hostname(host) && formed && !replaced
                ==> answer->Err_0 is Conflict
            &&& answer is Ok ==> {
                &&& after.leases.dom().contains(host) && after.leases[host] == lease
                &&& after.names == state.names
                &&& other != host ==> after.leases.dom().contains(other)
                    == state.leases.dom().contains(other)
                &&& other != host && state.leases.dom().contains(other) ==> after.leases[other]
                    == state.leases[other]
            }
        }),
{
}

/// An answer is removed exactly where the one that stands has its identifier and value; anything
/// else stays, and the removal succeeds all the same.
pub proof fn law_only_the_own_answer_is_removed(
    state: MemoryView,
    lease: TxtLease,
    other: Seq<char>,
)
    ensures
        ({
            let (after, answer) = release_outcome(state, lease);
            let host = lease.hostname@;
            let own = state.leases.dom().contains(host) && state.leases[host].lease_id@
                == lease.lease_id@ && state.leases[host].value@ == lease.value@;
            &&& answer is Ok <==> crate::protocol::valid_hostname(host)
            &&& answer is Err || !own ==> after == state
            &&& answer is Ok && own ==> {
                &&& !after.leases.dom().contains(host)
                &&& after.names == state.names
                &&& other != host ==> after.leases.dom().contains(other)
                    == state.leases.dom().contains(other)
                &&& other != host && state.leases.dom().contains(other) ==> after.leases[other]
                    == state.leases[other]
            }
        }),
{
}

/// The retirement of a name removes its records and leaves its answer, and that of an answer the
/// other way round; other hostnames stay.
pub proof fn law_retirement_removes_one_kind(state: MemoryView, hostname: Seq<char>)
    ensures
        ({
            let (after, answer) = retire_outcome(state, hostname);
            &&& answer is Ok <==> crate::protocol::valid_hostname(hostname)
            &&& answer is Err ==> after == state
            &&& answer is Ok ==> after.names == state.names.remove(hostname) && after.leases
                == state.leases
        }),
        ({
            let (after, answer) = retire_challenge_outcome(state, hostname);
            &&& answer is Ok <==> crate::protocol::valid_hostname(hostname)
            &&& answer is Err ==> after == state
            &&& answer is Ok ==> after.leases == state.leases.remove(hostname) && after.names
                == state.names
        }),
{
}

} // verus!
