//! Read-after-write observation: what the answers of authoritative and recursive servers have
//! to be before a change counts as made.

use crate::address::{addresses_are_usable, IpAddress};
use crate::dns::{caa_values, check_hostname, validate_records, DnsError, NameRecords};
use crate::text::{joined, same_text};
use vstd::prelude::*;

verus! {

/// What a server answered.
#[derive(Debug, PartialEq, Eq)]
pub enum Lookup<T> {
    Found(Vec<T>),
    NoRecords,
    Failed,
}

/// A CAA record as a server shows it.
#[derive(Debug, PartialEq, Eq)]
pub struct CaaSeen {
    pub tag: String,
    pub value: String,
}

/// What one resolver sees of a name.
#[derive(Debug, PartialEq, Eq)]
pub struct NameSeen {
    pub v4: Lookup<String>,
    pub v6: Lookup<String>,
    pub caa: Lookup<CaaSeen>,
}

/// The servers that are asked besides the recursive ones.
#[derive(Debug, PartialEq, Eq)]
pub struct HickoryObserver {
    authoritative: Vec<IpAddress>,
}

impl HickoryObserver {
    /// The authoritative servers.
    pub closed spec fn servers(self) -> Seq<IpAddress> {
        self.authoritative@
    }

    /// An observer that asks these authoritative servers.
    pub fn new(authoritative: Vec<IpAddress>) -> (outcome: Result<Self, DnsError>)
        ensures
            match outcome {
                Ok(observer) => crate::address::usable_addresses(authoritative@)
                    && observer.servers() == authoritative@,
                Err(error) => !crate::address::usable_addresses(authoritative@) && error
                    == DnsError::InvalidChange,
            },
    {
        if addresses_are_usable(authoritative.as_slice()) {
            Ok(HickoryObserver { authoritative })
        } else {
            Err(DnsError::InvalidChange)
        }
    }

    /// The authoritative servers.
    pub fn authoritative(&self) -> (servers: &[IpAddress])
        ensures
            servers@ == self.servers(),
    {
        self.authoritative.as_slice()
    }
}

/// The texts among some, as a set.
pub open spec fn text_set(texts: Seq<String>) -> Set<Seq<char>> {
    Set::new(|text: Seq<char>| exists|i: int| 0 <= i < texts.len() && (#[trigger] texts[i])@ == text)
}

/// The texts of the addresses of one version, as a set.
pub open spec fn expected_addresses(records: NameRecords, v4: bool) -> Set<Seq<char>> {
    Set::new(
        |text: Seq<char>|
            exists|i: int|
                0 <= i < records.addresses@.len() && ((#[trigger] records.addresses@[i]).ip is V4)
                    == v4 && records.addresses@[i].text@ == text,
    )
}

/// The addresses that a server shows; none where it knows of none.
pub open spec fn shown_addresses(lookup: Lookup<String>) -> Option<Set<Seq<char>>> {
    match lookup {
        Lookup::Found(texts) => Some(text_set(texts@)),
        Lookup::NoRecords => Some(Set::empty()),
        Lookup::Failed => None,
    }
}

/// A CAA record in text form.
pub open spec fn caa_text(seen: CaaSeen) -> Seq<char> {
    "0 "@ + seen.tag@ + " \""@ + seen.value@ + "\""@
}

/// The CAA records that a server shows, in text form.
pub open spec fn shown_caa(records: Seq<CaaSeen>) -> Set<Seq<char>> {
    Set::new(
        |text: Seq<char>|
            exists|i: int| 0 <= i < records.len() && caa_text(#[trigger] records[i]) == text,
    )
}

/// Whether a resolver sees a name exactly as it is published: the addresses of each version,
/// and the two CAA records, no more and no less.
pub open spec fn name_exact(seen: NameSeen, records: NameRecords) -> bool {
    let (issue, wildcard) = crate::dns::caa_texts(records.acme_account_uri@);
    &&& shown_addresses(seen.v4) == Some(expected_addresses(records, true))
    &&& shown_addresses(seen.v6) == Some(expected_addresses(records, false))
    &&& crate::dns::digits_account(records.acme_account_uri@)
    &&& seen.caa matches Lookup::Found(shown) && shown_caa(shown@) == set![issue, wildcard]
}

/// Tells whether a text is among some.
fn holds_text(texts: &Vec<String>, text: &str) -> (found: bool)
    ensures
        found == text_set(texts@).contains(text@),
{
    let mut i: usize = 0;
    while i < texts.len()
        invariant
            i <= texts@.len(),
            forall|j: int| 0 <= j < i ==> (#[trigger] texts@[j])@ != text@,
        decreases texts@.len() - i,
    {
        if same_text(texts[i].as_str(), text) {
            return true;
        }
        i += 1;
    }
    false
}

/// Tells whether two lists hold the same texts.
fn same_texts(left: &Vec<String>, right: &Vec<String>) -> (same: bool)
    ensures
        same == (text_set(left@) == text_set(right@)),
{
    let mut i: usize = 0;
    while i < left.len()
        invariant
            i <= left@.len(),
            forall|j: int| 0 <= j < i ==> text_set(right@).contains((#[trigger] left@[j])@),
        decreases left@.len() - i,
    {
        if !holds_text(right, left[i].as_str()) {
            proof {
                assert(text_set(left@).contains(left@[i as int]@));
            }
            return false;
        }
        i += 1;
    }
    let mut k: usize = 0;
    while k < right.len()
        invariant
            k <= right@.len(),
            forall|j: int| 0 <= j < k ==> text_set(left@).contains((#[trigger] right@[j])@),
        decreases right@.len() - k,
    {
        if !holds_text(left, right[k].as_str()) {
            proof {
                assert(text_set(right@).contains(right@[k as int]@));
            }
            return false;
        }
        k += 1;
    }
    proof {
        assert(text_set(left@) =~= text_set(right@));
    }
    true
}

/// Lists the texts of the addresses of one version.
fn expected_texts(records: &NameRecords, v4: bool) -> (texts: Vec<String>)
    ensures
        text_set(texts@) == expected_addresses(*records, v4),
{
    let mut texts: Vec<String> = Vec::new();
    let mut i: usize = 0;
    while i < records.addresses.len()
        invariant
            i <= records.addresses@.len(),
            forall|j: int|
                0 <= j < texts@.len() ==> expected_addresses(*records, v4).contains(
                    (#[trigger] texts@[j])@,
                ),
            forall|j: int|
                0 <= j < i && ((#[trigger] records.addresses@[j]).ip is V4) == v4 ==> text_set(
                    texts@,
                ).contains(records.addresses@[j].text@),
        decreases records.addresses@.len() - i,
    {
        let is_v4: bool = match records.addresses[i].ip {
            IpAddress::V4(_) => true,
            IpAddress::V6(_) => false,
        };
        if is_v4 == v4 {
            let ghost before = texts@;
            texts.push(records.addresses[i].text.clone());
            proof {
                assert(records.addresses@[i as int].text@ == texts@.last()@);
                assert forall|text: Seq<char>| text_set(before).contains(text) implies text_set(
                    texts@,
                ).contains(text) by {
                    let k = choose|k: int| 0 <= k < before.len() && (#[trigger] before[k])@ == text;
                    assert(texts@[k]@ == text);
                }
                assert(text_set(texts@).contains(texts@.last()@));
                assert(forall|j: int| 0 <= j < before.len() ==> texts@[j] == before[j]);
            }
        }
        i += 1;
    }
    proof {
        assert(text_set(texts@) =~= expected_addresses(*records, v4));
    }
    texts
}

/// Writes a CAA record in text form.
fn show_caa(seen: &CaaSeen) -> (text: String)
    ensures
        text@ == caa_text(*seen),
{
    let head: String = joined("0 ", seen.tag.as_str());
    let opened: String = joined(head.as_str(), " \"");
    let value: String = joined(opened.as_str(), seen.value.as_str());
    joined(value.as_str(), "\"")
}

/// Tells whether a server shows just these addresses.
fn shows(lookup: &Lookup<String>, expected: &Vec<String>) -> (exact: bool)
    ensures
        exact == (shown_addresses(*lookup) == Some(text_set(expected@))),
{
    match lookup {
        Lookup::Found(texts) => same_texts(texts, expected),
        Lookup::NoRecords => {
            proof {
                if expected@.len() == 0 {
                    assert(text_set(expected@) =~= Set::<Seq<char>>::empty());
                } else {
                    assert(text_set(expected@).contains(expected@[0]@));
                }
            }
            expected.len() == 0
        },
        Lookup::Failed => false,
    }
}

/// Tells whether a resolver sees a name exactly as it is published.
pub fn check_name(seen: &NameSeen, records: &NameRecords) -> (exact: bool)
    ensures
        exact == name_exact(*seen, *records),
{
    let v4: Vec<String> = expected_texts(records, true);
    let v6: Vec<String> = expected_texts(records, false);
    if !shows(&seen.v4, &v4) || !shows(&seen.v6, &v6) {
        return false;
    }
    let lines: [String; 2] = match caa_values(records.acme_account_uri.as_str()) {
        Ok(lines) => lines,
        Err(_) => {
            return false;
        },
    };
    match &seen.caa {
        Lookup::Found(shown) => {
            let mut texts: Vec<String> = Vec::new();
            let mut i: usize = 0;
            while i < shown.len()
                invariant
                    i <= shown@.len(),
                    texts@.len() == i,
                    forall|j: int| 0 <= j < i ==> (#[trigger] texts@[j])@ == caa_text(shown@[j]),
                decreases shown@.len() - i,
            {
                texts.push(show_caa(&shown[i]));
                i += 1;
            }
            let mut expected: Vec<String> = Vec::new();
            expected.push(lines[0].clone());
            expected.push(lines[1].clone());
            proof {
                let (issue, wildcard) = crate::dns::caa_texts(records.acme_account_uri@);
                assert(expected@[0]@ == issue && expected@[1]@ == wildcard);
                assert(text_set(expected@) =~= set![issue, wildcard]);
                assert forall|text: Seq<char>|
                    text_set(texts@).contains(text) == shown_caa(shown@).contains(text) by {
                    if text_set(texts@).contains(text) {
                        let k = choose|k: int|
                            0 <= k < texts@.len() && (#[trigger] texts@[k])@ == text;
                        assert(caa_text(shown@[k]) == text);
                    }
                    if shown_caa(shown@).contains(text) {
                        let k = choose|k: int|
                            0 <= k < shown@.len() && caa_text(#[trigger] shown@[k]) == text;
                        assert(texts@[k]@ == text);
                    }
                }
                assert(text_set(texts@) =~= shown_caa(shown@));
            }
            same_texts(&texts, &expected)
        },
        _ => false,
    }
}

/// Tells whether both resolvers see a name exactly as it is published.
pub fn name_visible(records: &NameRecords, authoritative: &NameSeen, recursive: &NameSeen) -> (outcome:
    Result<bool, DnsError>)
    ensures
        outcome == match crate::dns::records_verdict(*records) {
            Err(error) => Err(error),
            Ok(_) => Ok(name_exact(*authoritative, *records) && name_exact(*recursive, *records)),
        },
{
    match validate_records(records) {
        Err(error) => Err(error),
        Ok(()) => Ok(check_name(authoritative, records) && check_name(recursive, records)),
    }
}

/// The bytes of a TXT record, whose parts stand behind each other.
pub open spec fn concat(parts: Seq<Vec<u8>>) -> Seq<u8>
    decreases parts.len(),
{
    if parts.len() == 0 {
        Seq::empty()
    } else {
        concat(parts.drop_last()) + parts.last()@
    }
}

/// Whether one of some TXT records has a value.
pub open spec fn any_txt(records: Seq<Vec<Vec<u8>>>, value: Seq<char>) -> bool {
    exists|i: int|
        0 <= i < records.len() && concat((#[trigger] records[i])@) == vstd::utf8::encode_utf8(value)
}

/// Tells whether the parts of a TXT record together are a text.
fn is_text(parts: &Vec<Vec<u8>>, text: &str) -> (same: bool)
    ensures
        same == (concat(parts@) == vstd::utf8::encode_utf8(text@)),
{
    let wanted: &[u8] = text.as_bytes();
    let size: usize = wanted.len();
    let mut at: usize = 0;
    let mut i: usize = 0;
    let ghost target = wanted@;
    proof {
        assert(concat(parts@.take(0)) =~= target.take(0));
        assert(parts@.take(parts@.len() as int) =~= parts@);
    }
    while i < parts.len()
        invariant
            i <= parts@.len(),
            at <= size == wanted@.len(),
            target == wanted@,
            target == vstd::utf8::encode_utf8(text@),
            parts@.take(parts@.len() as int) == parts@,
            concat(parts@.take(i as int)) == target.take(at as int),
        decreases parts@.len() - i,
    {
        let part: &Vec<u8> = &parts[i];
        let ghost joined = concat(parts@.take(i + 1));
        proof {
            assert(parts@.take(i + 1).drop_last() =~= parts@.take(i as int));
            assert(joined == target.take(at as int) + part@);
        }
        let mut j: usize = 0;
        while j < part.len()
            invariant
                i < parts@.len(),
                j <= part@.len(),
                at + j <= size == wanted@.len(),
                target == wanted@,
                target == vstd::utf8::encode_utf8(text@),
                parts@.take(parts@.len() as int) == parts@,
                joined == concat(parts@.take(i + 1)),
                joined == target.take(at as int) + part@,
                part@.take(j as int) == target.subrange(at as int, at + j),
            decreases part@.len() - j,
        {
            if at + j >= size || wanted[at + j] != part[j] {
                proof {
                    lemma_prefix(parts@, i + 1);
                    let whole = concat(parts@);
                    assert(whole.take(joined.len() as int) == joined);
                    if whole == target {
                        assert(joined[at + j] == part@[j as int]);
                        assert(whole[at + j] == joined[at + j]);
                    }
                }
                return false;
            }
            j += 1;
            proof {
                assert(part@.take(j as int) =~= target.subrange(at as int, at + j));
            }
        }
        proof {
            assert(part@.take(part@.len() as int) =~= part@);
            assert(target.take(at as int) + target.subrange(at as int, at + j) =~= target.take(
                at + j,
            ));
        }
        at += j;
        i += 1;
    }
    proof {
        if at == target.len() {
            assert(target.take(at as int) =~= target);
        }
    }
    at == size
}

proof fn lemma_prefix(parts: Seq<Vec<u8>>, count: int)
    requires
        0 <= count <= parts.len(),
    ensures
        concat(parts.take(count)).len() <= concat(parts).len(),
        concat(parts).take(concat(parts.take(count)).len() as int) == concat(parts.take(count)),
    decreases parts.len(),
{
    if count == parts.len() {
        assert(parts.take(count) =~= parts);
        assert(concat(parts).take(concat(parts).len() as int) =~= concat(parts));
    } else {
        lemma_prefix(parts.drop_last(), count);
        assert(parts.drop_last().take(count) =~= parts.take(count));
        let n = concat(parts.take(count)).len() as int;
        assert(concat(parts).take(n) =~= concat(parts.drop_last()).take(n));
    }
}

/// Tells whether one of some TXT records has a value.
fn has_txt(records: &Vec<Vec<Vec<u8>>>, value: &str) -> (found: bool)
    ensures
        found == any_txt(records@, value@),
{
    let mut i: usize = 0;
    while i < records.len()
        invariant
            i <= records@.len(),
            forall|j: int|
                0 <= j < i ==> concat((#[trigger] records@[j])@) != vstd::utf8::encode_utf8(value@),
        decreases records@.len() - i,
    {
        if is_text(&records[i], value) {
            return true;
        }
        i += 1;
    }
    false
}

/// Whether a resolver shows a TXT value.
pub open spec fn txt_shown(lookup: Lookup<Vec<Vec<u8>>>, value: Seq<char>) -> bool {
    lookup matches Lookup::Found(records) && any_txt(records@, value)
}

/// Whether a resolver certainly shows no such TXT value.
pub open spec fn txt_gone(lookup: Lookup<Vec<Vec<u8>>>, value: Seq<char>) -> bool {
    match lookup {
        Lookup::Found(records) => !any_txt(records@, value),
        Lookup::NoRecords => true,
        Lookup::Failed => false,
    }
}

/// Tells whether a resolver shows a TXT value.
pub fn check_txt(lookup: &Lookup<Vec<Vec<u8>>>, value: &str) -> (shown: bool)
    ensures
        shown == txt_shown(*lookup, value@),
{
    match lookup {
        Lookup::Found(records) => has_txt(records, value),
        _ => false,
    }
}

/// Tells whether a resolver certainly shows no such TXT value.
pub fn check_txt_absent(lookup: &Lookup<Vec<Vec<u8>>>, value: &str) -> (gone: bool)
    ensures
        gone == txt_gone(*lookup, value@),
{
    match lookup {
        Lookup::Found(records) => !has_txt(records, value),
        Lookup::NoRecords => true,
        Lookup::Failed => false,
    }
}

/// Tells whether both resolvers show a TXT value at the answers of a hostname.
pub fn txt_visible(
    hostname: &str,
    value: &str,
    authoritative: &Lookup<Vec<Vec<u8>>>,
    recursive: &Lookup<Vec<Vec<u8>>>,
) -> (outcome: Result<bool, DnsError>)
    ensures
        outcome == match crate::dns::hostname_verdict(hostname@) {
            Err(error) => Err(error),
            Ok(_) => Ok(txt_shown(*authoritative, value@) && txt_shown(*recursive, value@)),
        },
{
    match check_hostname(hostname) {
        Err(error) => Err(error),
        Ok(()) => Ok(check_txt(authoritative, value) && check_txt(recursive, value)),
    }
}

/// Tells whether both resolvers certainly show no such TXT value at the answers of a hostname.
pub fn txt_absent(
    hostname: &str,
    value: &str,
    authoritative: &Lookup<Vec<Vec<u8>>>,
    recursive: &Lookup<Vec<Vec<u8>>>,
) -> (outcome: Result<bool, DnsError>)
    ensures
        outcome == match crate::dns::hostname_verdict(hostname@) {
            Err(error) => Err(error),
            Ok(_) => Ok(txt_gone(*authoritative, value@) && txt_gone(*recursive, value@)),
        },
{
    match check_hostname(hostname) {
        Err(error) => Err(error),
        Ok(()) => Ok(check_txt_absent(authoritative, value) && check_txt_absent(recursive, value)),
    }
}

/// How many records a server has, where it could say.
#[derive(Clone, Copy, Debug, PartialEq, Eq, Structural)]
pub enum Presence {
    Answers(usize),
    NoRecords,
    Failed,
}

/// Whether a server certainly has no record.
pub open spec fn gone(presence: Presence) -> bool {
    presence == Presence::NoRecords || presence == Presence::Answers(0)
}

/// Tells whether a server certainly has no record.
pub fn record_absent(presence: Presence) -> (absent: bool)
    ensures
        absent == gone(presence),
{
    match presence {
        Presence::Answers(count) => count == 0,
        Presence::NoRecords => true,
        Presence::Failed => false,
    }
}

/// Tells whether every question for the records of a hostname was answered with none. The
/// questions are those for A, AAAA and CAA, to each resolver.
pub fn name_absent(hostname: &str, answers: &[Presence; 6]) -> (outcome: Result<bool, DnsError>)
    ensures
        outcome == match crate::dns::hostname_verdict(hostname@) {
            Err(error) => Err(error),
            Ok(_) => Ok(forall|i: int| 0 <= i < 6 ==> gone(#[trigger] answers@[i])),
        },
{
    match check_hostname(hostname) {
        Err(error) => {
            return Err(error);
        },
        Ok(()) => {},
    }
    let mut i: usize = 0;
    while i < 6
        invariant
            i <= 6,
            crate::dns::hostname_verdict(hostname@) is Ok,
            forall|j: int| 0 <= j < i ==> gone(#[trigger] answers@[j]),
        decreases 6 - i,
    {
        if !record_absent(answers[i]) {
            return Ok(false);
        }
        i += 1;
    }
    Ok(true)
}

/// Tells whether both resolvers certainly show no TXT record at the answers of a hostname.
pub fn challenge_absent(hostname: &str, authoritative: Presence, recursive: Presence) -> (outcome:
    Result<bool, DnsError>)
    ensures
        outcome == match crate::dns::hostname_verdict(hostname@) {
            Err(error) => Err(error),
            Ok(_) => Ok(gone(authoritative) && gone(recursive)),
        },
{
    match check_hostname(hostname) {
        Err(error) => Err(error),
        Ok(()) => Ok(record_absent(authoritative) && record_absent(recursive)),
    }
}

/// A name with the dot at its end, as servers are asked for it.
pub fn query_name(name: &str) -> (question: String)
    ensures
        question@ == name@ + "."@,
{
    joined(name, ".")
}

/// Whether a server has answered with a text.
pub open spec fn answered_with(lookup: Lookup<String>, text: Seq<char>) -> bool {
    lookup matches Lookup::Found(texts) && exists|i: int|
        0 <= i < texts@.len() && (#[trigger] texts@[i])@ == text
}

/// Whether an address of one version was published with a text.
pub open spec fn published_with(records: NameRecords, v4: bool, text: Seq<char>) -> bool {
    exists|i: int|
        0 <= i < records.addresses@.len() && (match (#[trigger] records.addresses@[i]).ip {
            IpAddress::V4(_) => v4,
            IpAddress::V6(_) => !v4,
        }) && records.addresses@[i].text@ == text
}

/// Whether a server shows a CAA record that reads as a text.
pub open spec fn shows_policy(seen: NameSeen, text: Seq<char>) -> bool {
    seen.caa matches Lookup::Found(shown) && exists|i: int|
        0 <= i < shown@.len() && "0 "@ + (#[trigger] shown@[i]).tag@ + " \""@ + shown@[i].value@
            + "\""@ == text
}

/// A name counts as seen by a resolver exactly where the resolver has answered every question,
/// shows every published address and no other, for IPv6 as for IPv4, and shows the two CAA
/// records of the account and no other.
pub proof fn law_seen_name_is_the_published_one(seen: NameSeen, records: NameRecords)
    ensures
        name_exact(seen, records) <==> {
            let uri = records.acme_account_uri@;
            let prefix = "https://acme-v02.api.letsencrypt.org/acme/acct/"@;
            let issue = "0 issue \""@ + "letsencrypt.org; validationmethods=dns-01; accounturi="@
                + uri + "\""@;
            let wildcard = "0 issuewild \";\""@;
            &&& !(seen.v4 is Failed) && !(seen.v6 is Failed)
            &&& forall|text: Seq<char>|
                #[trigger] answered_with(seen.v4, text) <==> published_with(records, true, text)
            &&& forall|text: Seq<char>|
                #[trigger] answered_with(seen.v6, text) <==> published_with(records, false, text)
            &&& forall|text: Seq<char>|
                #[trigger] shows_policy(seen, text) <==> (text == issue || text == wildcard)
            &&& seen.caa is Found
            &&& prefix.len() <= uri.len() && uri.take(prefix.len() as int) == prefix
            &&& forall|i: int| prefix.len() <= i < uri.len() ==> '0' <= #[trigger] uri[i] <= '9'
        },
{
    let uri = records.acme_account_uri@;
    let prefix = "https://acme-v02.api.letsencrypt.org/acme/acct/"@;
    let issue = "0 issue \""@ + "letsencrypt.org; validationmethods=dns-01; accounturi="@ + uri
        + "\""@;
    let wildcard = "0 issuewild \";\""@;
    assert(issue =~= crate::dns::caa_texts(uri).0);
    assert(wildcard == crate::dns::caa_texts(uri).1);
    lemma_addresses_seen(seen.v4, records, true);
    lemma_addresses_seen(seen.v6, records, false);
    crate::dns::lemma_digits_account(uri);
    let pair = set![issue, wildcard];
    assert(forall|text: Seq<char>| pair.contains(text) <==> (text == issue || text == wildcard));
    match seen.caa {
        Lookup::Found(shown) => {
            assert forall|text: Seq<char>|
                #[trigger] shows_policy(seen, text) == shown_caa(shown@).contains(text) by {
                if shows_policy(seen, text) {
                    let i = choose|i: int|
                        0 <= i < shown@.len() && "0 "@ + (#[trigger] shown@[i]).tag@ + " \""@
                            + shown@[i].value@ + "\""@ == text;
                    assert(caa_text(shown@[i]) == text);
                }
                if shown_caa(shown@).contains(text) {
                    let i = choose|i: int|
                        0 <= i < shown@.len() && caa_text(#[trigger] shown@[i]) == text;
                    assert("0 "@ + shown@[i].tag@ + " \""@ + shown@[i].value@ + "\""@ == text);
                }
            }
            if forall|text: Seq<char>| #[trigger]
                shows_policy(seen, text) <==> (text == issue || text == wildcard) {
                assert forall|text: Seq<char>| shown_caa(shown@).contains(text) == pair.contains(
                    text,
                ) by {
                    assert(shows_policy(seen, text) == shown_caa(shown@).contains(text));
                }
                assert(shown_caa(shown@) =~= pair);
            }
            if shown_caa(shown@) == pair {
                assert forall|text: Seq<char>| #[trigger]
                    shows_policy(seen, text) <==> (text == issue || text == wildcard) by {
                    assert(pair.contains(text) == (text == issue || text == wildcard));
                }
            }
        },
        _ => {},
    }
}

/// The addresses of a version that a server shows are the published ones exactly where each is
/// among its answers and each answer is one of them.
proof fn lemma_addresses_seen(lookup: Lookup<String>, records: NameRecords, v4: bool)
    ensures
        (shown_addresses(lookup) == Some(expected_addresses(records, v4))) <==> (!(
        lookup is Failed) && forall|text: Seq<char>|
            #[trigger] answered_with(lookup, text) <==> published_with(records, v4, text)),
{
    let expected = expected_addresses(records, v4);
    assert forall|text: Seq<char>|
        expected.contains(text) == #[trigger] published_with(records, v4, text) by {
        if expected.contains(text) {
            let i = choose|i: int|
                0 <= i < records.addresses@.len() && ((#[trigger] records.addresses@[i]).ip is V4)
                    == v4 && records.addresses@[i].text@ == text;
            assert(records.addresses@[i].text@ == text);
        }
        if published_with(records, v4, text) {
            let i = choose|i: int|
                0 <= i < records.addresses@.len() && (match (#[trigger] records.addresses@[i]).ip {
                    IpAddress::V4(_) => v4,
                    IpAddress::V6(_) => !v4,
                }) && records.addresses@[i].text@ == text;
            assert((records.addresses@[i].ip is V4) == v4);
        }
    }
    match lookup {
        Lookup::Found(texts) => {
            assert forall|text: Seq<char>|
                text_set(texts@).contains(text) == #[trigger] answered_with(lookup, text) by {}
            if forall|text: Seq<char>|
                #[trigger] answered_with(lookup, text) <==> published_with(records, v4, text) {
                assert forall|text: Seq<char>| text_set(texts@).contains(text) == expected.contains(
                    text,
                ) by {
                    assert(answered_with(lookup, text) <==> published_with(records, v4, text));
                }
                assert(text_set(texts@) =~= expected);
            }
            if text_set(texts@) == expected {
                assert forall|text: Seq<char>| #[trigger]
                    answered_with(lookup, text) <==> published_with(records, v4, text) by {
                    assert(text_set(texts@).contains(text) == expected.contains(text));
                }
            }
        },
        Lookup::NoRecords => {
            if forall|text: Seq<char>|
                #[trigger] answered_with(lookup, text) <==> published_with(records, v4, text) {
                assert forall|text: Seq<char>| !expected.contains(text) by {
                    assert(answered_with(lookup, text) <==> published_with(records, v4, text));
                }
                assert(expected =~= Set::<Seq<char>>::empty());
            }
            if expected == Set::<Seq<char>>::empty() {
                assert forall|text: Seq<char>| #[trigger]
                    answered_with(lookup, text) <==> published_with(records, v4, text) by {
                    assert(!expected.contains(text));
                }
            }
        },
        Lookup::Failed => {},
    }
}

/// A DNS-01 answer counts as visible exactly where the resolver has answered and one of its TXT
/// records, put together, is the value; it counts as gone exactly where the resolver has
/// answered and none is. A resolver that failed shows neither.
pub proof fn law_answer_is_visible_or_gone(lookup: Lookup<Vec<Vec<u8>>>, value: Seq<char>)
    ensures
        txt_shown(lookup, value) <==> (lookup matches Lookup::Found(records) && exists|i: int|
            0 <= i < records@.len() && concat((#[trigger] records@[i])@)
                == vstd::utf8::encode_utf8(value)),
        txt_gone(lookup, value) <==> !(lookup is Failed) && !txt_shown(lookup, value),
        lookup is Failed ==> !txt_shown(lookup, value) && !txt_gone(lookup, value),
{
}

/// The parts of a TXT record stand behind each other: a record of one part is that part, and
/// another part comes behind those before it.
pub proof fn law_parts_are_joined(parts: Seq<Vec<u8>>, part: Vec<u8>)
    ensures
        concat(seq![part]) == part@,
        concat(parts.push(part)) == concat(parts) + part@,
{
    reveal_with_fuel(concat, 2);
    assert(seq![part].drop_last() =~= Seq::<Vec<u8>>::empty());
    assert(concat(seq![part]) =~= part@);
    assert(parts.push(part).drop_last() =~= parts);
}

/// Nothing counts as gone that a server shows, or that it could not say anything about.
pub proof fn law_gone_needs_an_answer(presence: Presence)
    ensures
        gone(presence) <==> match presence {
            Presence::Answers(count) => count == 0,
            Presence::NoRecords => true,
            Presence::Failed => false,
        },
{
}

} // verus!
