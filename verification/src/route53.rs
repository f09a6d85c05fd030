//! Changes to a Route 53 zone: what has to be deleted and written for a hostname, given the
//! record sets that stand there.

use crate::dns::{
    caa_values, challenge_name, check_hostname, validate_records, DnsError, NameRecords, TxtLease,
    MAX_TXT_BYTES, TTL_SECONDS,
};
use crate::address::IpAddress;
use crate::text::{chars_of, joined, same_text, text_of};
use vstd::prelude::*;

verus! {

/// How long a DNS-01 answer may be cached, in seconds.
pub const TXT_TTL_SECONDS: u32 = 30;

/// The type of a record set.
#[derive(Clone, Copy, Debug, PartialEq, Eq, Structural)]
pub enum RrType {
    A,
    Aaaa,
    Caa,
    Txt,
    Other,
}

/// The records of one name and type.
#[derive(Debug, PartialEq, Eq)]
pub struct RecordSet {
    pub name: String,
    pub kind: RrType,
    pub ttl: u32,
    pub values: Vec<String>,
}

/// What is to be done with a record set.
#[derive(Clone, Copy, Debug, PartialEq, Eq, Structural)]
pub enum ChangeAction {
    Upsert,
    Delete,
}

/// A change to a record set.
#[derive(Debug, PartialEq, Eq)]
pub struct Change {
    pub action: ChangeAction,
    pub record: RecordSet,
}

/// What has to be done, in this order: the listed record sets that are deleted, by their
/// position in the listing, and the changes that are made.
#[derive(Debug, PartialEq, Eq)]
pub struct ZonePlan {
    pub deletions: Vec<usize>,
    pub changes: Vec<Change>,
}

/// The types of record sets that a deletion may touch.
#[derive(Clone, Copy, Debug, PartialEq, Eq, Structural)]
pub struct KindSet {
    pub a: bool,
    pub aaaa: bool,
    pub caa: bool,
    pub txt: bool,
}

impl KindSet {
    /// Whether a type is one of these.
    pub open spec fn has_kind(self, kind: RrType) -> bool {
        match kind {
            RrType::A => self.a,
            RrType::Aaaa => self.aaaa,
            RrType::Caa => self.caa,
            RrType::Txt => self.txt,
            RrType::Other => false,
        }
    }

    /// Whether a type is one of these.
    fn covers(self, kind: RrType) -> (covered: bool)
        ensures
            covered == self.has_kind(kind),
    {
        match kind {
            RrType::A => self.a,
            RrType::Aaaa => self.aaaa,
            RrType::Caa => self.caa,
            RrType::Txt => self.txt,
            RrType::Other => false,
        }
    }
}

/// The types that serve a hostname.
pub open spec fn serving_kinds() -> KindSet {
    KindSet { a: true, aaaa: true, caa: true, txt: false }
}

/// The type of the DNS-01 answers.
pub open spec fn challenge_kinds() -> KindSet {
    KindSet { a: false, aaaa: false, caa: false, txt: true }
}

/// Whether the identifier of a zone is well-formed.
pub open spec fn valid_zone_id(id: Seq<char>) -> bool {
    id.len() > 0 && forall|i: int|
        0 <= i < id.len() ==> crate::text::CharClass::Alphanumeric.holds(#[trigger] id[i])
            || id[i] == '/'
}

/// Tests whether the identifier of a zone is well-formed.
fn zone_id_is_valid(id: &str) -> (valid: bool)
    ensures
        valid == valid_zone_id(id@),
{
    let chars: Vec<char> = chars_of(id);
    if chars.len() == 0 {
        return false;
    }
    let mut i: usize = 0;
    while i < chars.len()
        invariant
            i <= chars@.len(),
            chars@ == id@,
            chars@.len() > 0,
            forall|j: int|
                0 <= j < i ==> crate::text::CharClass::Alphanumeric.holds(#[trigger] id@[j])
                    || id@[j] == '/',
        decreases chars@.len() - i,
    {
        if !crate::text::CharClass::Alphanumeric.admits(chars[i]) && chars[i] != '/' {
            return false;
        }
        i += 1;
    }
    true
}

/// The zone that changes are made in.
#[derive(Debug, PartialEq, Eq)]
pub struct Route53Provider {
    hosted_zone_id: String,
}

impl Route53Provider {
    /// The identifier of the zone.
    pub closed spec fn zone_id(self) -> Seq<char> {
        self.hosted_zone_id@
    }

    /// A provider for one zone.
    pub fn new(hosted_zone_id: String) -> (outcome: Result<Self, DnsError>)
        ensures
            match outcome {
                Ok(provider) => valid_zone_id(hosted_zone_id@) && provider.zone_id()
                    == hosted_zone_id@,
                Err(error) => !valid_zone_id(hosted_zone_id@) && error == DnsError::InvalidChange,
            },
    {
        if !zone_id_is_valid(hosted_zone_id.as_str()) {
            return Err(DnsError::InvalidChange);
        }
        Ok(Route53Provider { hosted_zone_id })
    }

    /// The identifier of the zone.
    pub fn hosted_zone_id(&self) -> (id: &str)
        ensures
            id@ == self.zone_id(),
    {
        self.hosted_zone_id.as_str()
    }
}

/// A name without the dots at its end.
pub open spec fn undotted(name: Seq<char>) -> Seq<char>
    decreases name.len(),
{
    if name.len() > 0 && name.last() == '.' {
        undotted(name.drop_last())
    } else {
        name
    }
}

/// Takes the dots at the end of a name off.
fn without_dots(name: &str) -> (plain: String)
    ensures
        plain@ == undotted(name@),
{
    let chars: Vec<char> = chars_of(name);
    let mut end: usize = chars.len();
    proof {
        assert(chars@.take(end as int) =~= name@);
    }
    while end > 0 && chars[end - 1] == '.'
        invariant
            end <= chars@.len(),
            undotted(chars@.take(end as int)) == undotted(name@),
        decreases end,
    {
        proof {
            assert(chars@.take(end as int).drop_last() =~= chars@.take(end - 1));
        }
        end -= 1;
    }
    let plain: String = text_of(&chars, 0, end);
    proof {
        assert(plain@ =~= chars@.take(end as int));
    }
    plain
}

/// Whether a listed record set is of a name and one of some types.
pub open spec fn concerns(record: RecordSet, name: Seq<char>, kinds: KindSet) -> bool {
    undotted(record.name@) == name && kinds.has_kind(record.kind)
}

/// The positions of the first `count` listed record sets that are of a name and some types.
pub open spec fn positions(
    listed: Seq<RecordSet>,
    count: nat,
    name: Seq<char>,
    kinds: KindSet,
) -> Seq<usize>
    decreases count,
{
    if count == 0 {
        Seq::empty()
    } else {
        let before = positions(listed, (count - 1) as nat, name, kinds);
        if concerns(listed[count - 1], name, kinds) {
            before.push((count - 1) as usize)
        } else {
            before
        }
    }
}

/// Finds the listed record sets that are of a name and some types.
fn find_all(listed: &Vec<RecordSet>, name: &str, kinds: KindSet) -> (found: Vec<usize>)
    ensures
        found@ == positions(listed@, listed@.len(), name@, kinds),
{
    let mut found: Vec<usize> = Vec::new();
    let mut i: usize = 0;
    while i < listed.len()
        invariant
            i <= listed@.len(),
            found@ == positions(listed@, i as nat, name@, kinds),
        decreases listed@.len() - i,
    {
        let plain: String = without_dots(listed[i].name.as_str());
        if same_text(plain.as_str(), name) && kinds.covers(listed[i].kind) {
            found.push(i);
        }
        i += 1;
    }
    found
}

/// What is deleted is exactly what concerns the name and the types: nothing else is touched,
/// and nothing of it is left.
pub proof fn law_deletions_are_exact(listed: Seq<RecordSet>, name: Seq<char>, kinds: KindSet)
    requires
        listed.len() <= usize::MAX,
    ensures
        forall|i: int|
            0 <= i < listed.len() ==> (positions(listed, listed.len(), name, kinds).contains(
                i as usize,
            ) == #[trigger] concerns(listed[i], name, kinds)),
{
    lemma_positions(listed, listed.len(), name, kinds);
    assert forall|i: int| 0 <= i < listed.len() implies (positions(
        listed,
        listed.len(),
        name,
        kinds,
    ).contains(i as usize) == #[trigger] concerns(listed[i], name, kinds)) by {
        let found = positions(listed, listed.len(), name, kinds);
        if found.contains(i as usize) {
            let at = found.index_of(i as usize);
            assert(concerns(listed[found[at] as int], name, kinds));
        }
    }
}

proof fn lemma_positions(listed: Seq<RecordSet>, count: nat, name: Seq<char>, kinds: KindSet)
    requires
        count <= listed.len() <= usize::MAX,
    ensures
        forall|at: int|
            0 <= at < positions(listed, count, name, kinds).len() ==> {
                let i = #[trigger] positions(listed, count, name, kinds)[at];
                i < count && concerns(listed[i as int], name, kinds)
            },
        forall|i: int|
            0 <= i < count && #[trigger] concerns(listed[i], name, kinds) ==> positions(
                listed,
                count,
                name,
                kinds,
            ).contains(i as usize),
    decreases count,
{
    if count > 0 {
        let before = positions(listed, (count - 1) as nat, name, kinds);
        let after = positions(listed, count, name, kinds);
        lemma_positions(listed, (count - 1) as nat, name, kinds);
        assert forall|i: int|
            0 <= i < count && #[trigger] concerns(listed[i], name, kinds) implies after.contains(
            i as usize,
        ) by {
            if i < count - 1 {
                let at = before.index_of(i as usize);
                assert(after[at] == before[at]);
            } else {
                assert(after.last() == i as usize);
            }
        }
    }
}

/// Writes a change; a record set without values cannot be written.
pub fn change(name: &str, kind: RrType, ttl: u32, values: Vec<String>, action: ChangeAction) -> (outcome:
    Result<Change, DnsError>)
    ensures
        if values@.len() == 0 {
            outcome == Err::<Change, DnsError>(DnsError::InvalidChange)
        } else {
            outcome matches Ok(made) && is_change(made, name@, kind, ttl, values@, action)
        },
{
    if values.len() == 0 {
        return Err(DnsError::InvalidChange);
    }
    Ok(Change { action, record: RecordSet { name: name.to_owned(), kind, ttl, values } })
}

/// Whether a change writes or deletes just these values.
pub open spec fn is_change(
    made: Change,
    name: Seq<char>,
    kind: RrType,
    ttl: u32,
    values: Seq<String>,
    action: ChangeAction,
) -> bool {
    &&& made.action == action
    &&& made.record.name@ == name
    &&& made.record.kind == kind
    &&& made.record.ttl == ttl
    &&& made.record.values@ == values
}

/// The text forms of the addresses of one version, in order.
pub open spec fn texts_of(addresses: Seq<crate::dns::Address>, count: nat, v4: bool) -> Seq<
    Seq<char>,
>
    decreases count,
{
    if count == 0 {
        Seq::empty()
    } else {
        let before = texts_of(addresses, (count - 1) as nat, v4);
        if (addresses[count - 1].ip is V4) == v4 {
            before.push(addresses[count - 1].text@)
        } else {
            before
        }
    }
}

/// The contents of some texts.
pub open spec fn contents(texts: Seq<String>) -> Seq<Seq<char>> {
    texts.map_values(|text: String| text@)
}

/// Picks the text forms of the addresses of one version.
fn address_texts(records: &NameRecords, v4: bool) -> (texts: Vec<String>)
    ensures
        contents(texts@) == texts_of(records.addresses@, records.addresses@.len(), v4),
{
    let mut texts: Vec<String> = Vec::new();
    let mut i: usize = 0;
    proof {
        assert(contents(texts@) =~= texts_of(records.addresses@, 0, v4));
    }
    while i < records.addresses.len()
        invariant
            i <= records.addresses@.len(),
            contents(texts@) == texts_of(records.addresses@, i as nat, v4),
        decreases records.addresses@.len() - i,
    {
        let ghost before = contents(texts@);
        let is_v4: bool = match records.addresses[i].ip {
            IpAddress::V4(_) => true,
            IpAddress::V6(_) => false,
        };
        if is_v4 == v4 {
            texts.push(records.addresses[i].text.clone());
            proof {
                assert(contents(texts@) =~= before.push(records.addresses@[i as int].text@));
            }
        }
        i += 1;
    }
    texts
}

/// What has to be written for a name: its addresses by version, and its CAA records. A version
/// without an address has no record set.
pub open spec fn writes_name(changes: Seq<Change>, records: NameRecords) -> bool {
    let v4 = texts_of(records.addresses@, records.addresses@.len(), true);
    let v6 = texts_of(records.addresses@, records.addresses@.len(), false);
    let with_v4: int = if v4.len() > 0 {
        1
    } else {
        0
    };
    let with_v6: int = if v6.len() > 0 {
        1
    } else {
        0
    };
    let (issue, wildcard) = crate::dns::caa_texts(records.acme_account_uri@);
    &&& changes.len() == with_v4 + with_v6 + 1
    &&& v4.len() > 0 ==> writes(changes[0], records.hostname@, RrType::A, v4)
    &&& v6.len() > 0 ==> writes(changes[with_v4], records.hostname@, RrType::Aaaa, v6)
    &&& writes(changes[with_v4 + with_v6], records.hostname@, RrType::Caa, seq![issue, wildcard])
}

/// Whether a change writes these values of a name and a type, with the lifetime of serving
/// records.
pub open spec fn writes(
    made: Change,
    name: Seq<char>,
    kind: RrType,
    values: Seq<Seq<char>>,
) -> bool {
    &&& made.action == ChangeAction::Upsert
    &&& made.record.name@ == name
    &&& made.record.kind == kind
    &&& made.record.ttl == TTL_SECONDS
    &&& contents(made.record.values@) == values
}

/// The address records that a name must not keep: those of a version that it has no address of.
pub open spec fn stale_kinds(records: NameRecords) -> KindSet {
    KindSet {
        a: texts_of(records.addresses@, records.addresses@.len(), true).len() == 0,
        aaaa: texts_of(records.addresses@, records.addresses@.len(), false).len() == 0,
        caa: false,
        txt: false,
    }
}

/// Plans the publication of a name over the record sets that are listed.
pub fn plan_publish(records: &NameRecords, listed: &Vec<RecordSet>) -> (outcome: Result<
    ZonePlan,
    DnsError,
>)
    ensures
        match crate::dns::records_verdict(*records) {
            Err(error) => outcome == Err::<ZonePlan, DnsError>(error),
            Ok(_) => if !crate::dns::digits_account(records.acme_account_uri@) {
                outcome == Err::<ZonePlan, DnsError>(DnsError::InvalidChange)
            } else {
                outcome matches Ok(plan) && plan.deletions@ == positions(
                    listed@,
                    listed@.len(),
                    records.hostname@,
                    stale_kinds(*records),
                ) && writes_name(plan.changes@, *records)
            },
        },
{
    match validate_records(records) {
        Err(error) => {
            return Err(error);
        },
        Ok(()) => {},
    }
    let v4: Vec<String> = address_texts(records, true);
    let v6: Vec<String> = address_texts(records, false);
    proof {
        assert(v4@.len() == contents(v4@).len());
        assert(v6@.len() == contents(v6@).len());
    }
    let stale = KindSet { a: v4.len() == 0, aaaa: v6.len() == 0, caa: false, txt: false };
    let deletions: Vec<usize> = find_all(listed, records.hostname.as_str(), stale);
    let mut changes: Vec<Change> = Vec::new();
    if v4.len() != 0 {
        match change(
            records.hostname.as_str(),
            RrType::A,
            TTL_SECONDS,
            v4,
            ChangeAction::Upsert,
        ) {
            Ok(made) => changes.push(made),
            Err(error) => {
                return Err(error);
            },
        }
    }
    if v6.len() != 0 {
        match change(
            records.hostname.as_str(),
            RrType::Aaaa,
            TTL_SECONDS,
            v6,
            ChangeAction::Upsert,
        ) {
            Ok(made) => changes.push(made),
            Err(error) => {
                return Err(error);
            },
        }
    }
    let lines: [String; 2] = match caa_values(records.acme_account_uri.as_str()) {
        Ok(values) => values,
        Err(error) => {
            return Err(error);
        },
    };
    let mut caa: Vec<String> = Vec::new();
    caa.push(lines[0].clone());
    caa.push(lines[1].clone());
    let ghost texts = crate::dns::caa_texts(records.acme_account_uri@);
    proof {
        assert(contents(caa@) =~= seq![texts.0, texts.1]);
    }
    match change(
        records.hostname.as_str(),
        RrType::Caa,
        TTL_SECONDS,
        caa,
        ChangeAction::Upsert,
    ) {
        Ok(made) => changes.push(made),
        Err(error) => {
            return Err(error);
        },
    }
    Ok(ZonePlan { deletions, changes })
}

/// A TXT value as a record holds it.
pub open spec fn quoted(value: Seq<char>) -> Seq<char> {
    "\""@ + value + "\""@
}

/// Writes a TXT value as a record holds it.
fn quote(value: &str) -> (text: String)
    ensures
        text@ == quoted(value@),
{
    let opened: String = joined("\"", value);
    joined(opened.as_str(), "\"")
}

/// Plans the publication of a DNS-01 answer.
pub fn plan_txt(lease: &TxtLease) -> (outcome: Result<Change, DnsError>)
    ensures
        match crate::dns::hostname_verdict(lease.hostname@) {
            Err(error) => outcome == Err::<Change, DnsError>(error),
            Ok(_) => if 1 <= vstd::utf8::encode_utf8(lease.value@).len() <= MAX_TXT_BYTES {
                outcome matches Ok(made) && made.action == ChangeAction::Upsert
                    && made.record.name@ == crate::dns::challenge_owner(lease.hostname@)
                    && made.record.kind == RrType::Txt && made.record.ttl == TXT_TTL_SECONDS
                    && contents(made.record.values@) == seq![quoted(lease.value@)]
            } else {
                outcome == Err::<Change, DnsError>(DnsError::InvalidChange)
            },
        },
{
    let name: String = match challenge_name(lease.hostname.as_str()) {
        Ok(name) => name,
        Err(error) => {
            return Err(error);
        },
    };
    let size: usize = lease.value.as_str().as_bytes().len();
    if size == 0 || size > MAX_TXT_BYTES {
        return Err(DnsError::InvalidChange);
    }
    let mut values: Vec<String> = Vec::new();
    values.push(quote(lease.value.as_str()));
    proof {
        assert(contents(values@) =~= seq![quoted(lease.value@)]);
    }
    change(name.as_str(), RrType::Txt, TXT_TTL_SECONDS, values, ChangeAction::Upsert)
}

/// The first listed record set of a name and some types.
pub open spec fn is_first(
    listed: Seq<RecordSet>,
    i: int,
    name: Seq<char>,
    kinds: KindSet,
) -> bool {
    &&& 0 <= i < listed.len()
    &&& concerns(listed[i], name, kinds)
    &&& forall|j: int| 0 <= j < i ==> !concerns(#[trigger] listed[j], name, kinds)
}

/// Plans the removal of a DNS-01 answer: nothing where none is published, and a conflict where
/// another one is, or more than one.
pub fn plan_txt_removal(lease: &TxtLease, listed: &Vec<RecordSet>) -> (outcome: Result<
    Option<usize>,
    DnsError,
>)
    ensures
        match crate::dns::hostname_verdict(lease.hostname@) {
            Err(error) => outcome == Err::<Option<usize>, DnsError>(error),
            Ok(_) => {
                let name = crate::dns::challenge_owner(lease.hostname@);
                match outcome {
                    Ok(None) => forall|i: int|
                        0 <= i < listed@.len() ==> !concerns(
                            #[trigger] listed@[i],
                            name,
                            challenge_kinds(),
                        ),
                    Ok(Some(i)) => is_first(listed@, i as int, name, challenge_kinds()) && contents(
                        listed@[i as int].values@,
                    ) == seq![quoted(lease.value@)],
                    Err(error) => error == DnsError::Conflict && exists|i: int|
                        #[trigger] is_first(listed@, i, name, challenge_kinds()) && contents(
                            listed@[i].values@,
                        ) != seq![quoted(lease.value@)],
                }
            },
        },
{
    let name: String = match challenge_name(lease.hostname.as_str()) {
        Ok(name) => name,
        Err(error) => {
            return Err(error);
        },
    };
    let kinds = KindSet { a: false, aaaa: false, caa: false, txt: true };
    let mut i: usize = 0;
    while i < listed.len()
        invariant
            i <= listed@.len(),
            kinds == challenge_kinds(),
            crate::dns::hostname_verdict(lease.hostname@) is Ok,
            name@ == crate::dns::challenge_owner(lease.hostname@),
            forall|j: int| 0 <= j < i ==> !concerns(#[trigger] listed@[j], name@, kinds),
        decreases listed@.len() - i,
    {
        let plain: String = without_dots(listed[i].name.as_str());
        if same_text(plain.as_str(), name.as_str()) && kinds.covers(listed[i].kind) {
            proof {
                assert(is_first(listed@, i as int, name@, kinds));
            }
            let wanted: String = quote(lease.value.as_str());
            let ghost held = contents(listed@[i as int].values@);
            proof {
                assert(held.len() == listed@[i as int].values@.len());
                if held.len() == 1 && held[0] == wanted@ {
                    assert(held =~= seq![wanted@]);
                }
                if held == seq![wanted@] {
                    assert(seq![wanted@][0] == wanted@);
                }
            }
            if listed[i].values.len() != 1 || !same_text(
                listed[i].values[0].as_str(),
                wanted.as_str(),
            ) {
                return Err(DnsError::Conflict);
            }
            return Ok(Some(i));
        }
        i += 1;
    }
    Ok(None)
}

/// Plans the retirement of a hostname: everything that serves it goes, and nothing else.
pub fn plan_retire_name(hostname: &str, listed: &Vec<RecordSet>) -> (outcome: Result<
    Vec<usize>,
    DnsError,
>)
    ensures
        match crate::dns::hostname_verdict(hostname@) {
            Err(error) => outcome == Err::<Vec<usize>, DnsError>(error),
            Ok(_) => outcome matches Ok(found) && found@ == positions(
                listed@,
                listed@.len(),
                hostname@,
                serving_kinds(),
            ),
        },
{
    match check_hostname(hostname) {
        Err(error) => Err(error),
        Ok(()) => Ok(
            find_all(
                listed,
                hostname,
                KindSet { a: true, aaaa: true, caa: true, txt: false },
            ),
        ),
    }
}

/// Plans the retirement of the DNS-01 answers of a hostname, and of nothing else.
pub fn plan_retire_challenge(hostname: &str, listed: &Vec<RecordSet>) -> (outcome: Result<
    Vec<usize>,
    DnsError,
>)
    ensures
        match crate::dns::hostname_verdict(hostname@) {
            Err(error) => outcome == Err::<Vec<usize>, DnsError>(error),
            Ok(_) => outcome matches Ok(found) && found@ == positions(
                listed@,
                listed@.len(),
                crate::dns::challenge_owner(hostname@),
                challenge_kinds(),
            ),
        },
{
    match challenge_name(hostname) {
        Err(error) => Err(error),
        Ok(name) => Ok(
            find_all(
                listed,
                name.as_str(),
                KindSet { a: false, aaaa: false, caa: false, txt: true },
            ),
        ),
    }
}

/// A name without the dots that it closes with is its beginning up to the last other character.
pub proof fn law_only_closing_dots_are_cut(name: Seq<char>)
    ensures
        undotted(name).len() <= name.len(),
        undotted(name) == name.take(undotted(name).len() as int),
        forall|i: int| undotted(name).len() <= i < name.len() ==> #[trigger] name[i] == '.',
        undotted(name).len() > 0 ==> undotted(name).last() != '.',
    decreases name.len(),
{
    if name.len() > 0 && name.last() == '.' {
        law_only_closing_dots_are_cut(name.drop_last());
        let rest = undotted(name.drop_last());
        assert(name.take(rest.len() as int) =~= name.drop_last().take(rest.len() as int));
        assert forall|i: int| rest.len() <= i < name.len() implies #[trigger] name[i] == '.' by {
            if i < name.len() - 1 {
                assert(name.drop_last()[i] == name[i]);
            }
        }
    } else {
        assert(name.take(name.len() as int) =~= name);
    }
}

/// The texts of the addresses of a kind are those of the addresses that are of it, all of them and
/// no others.
pub proof fn law_texts_are_those_of_the_kind(
    addresses: Seq<crate::dns::Address>,
    count: nat,
    v4: bool,
    text: Seq<char>,
)
    requires
        count <= addresses.len(),
    ensures
        texts_of(addresses, count, v4).contains(text) <==> exists|i: int|
            0 <= i < count && (#[trigger] addresses[i]).text@ == text && (addresses[i].ip is V4)
                == v4,
    decreases count,
{
    if count > 0 {
        let less = (count - 1) as nat;
        law_texts_are_those_of_the_kind(addresses, less, v4, text);
        let before = texts_of(addresses, less, v4);
        let after = texts_of(addresses, count, v4);
        if before.contains(text) {
            let k = before.index_of(text);
            assert(after[k] == text);
        }
        if (addresses[count - 1].ip is V4) == v4 {
            assert(after.last() == addresses[count - 1].text@);
            if after.contains(text) {
                let k = after.index_of(text);
                if k < before.len() {
                    assert(before[k] == text);
                } else {
                    assert(addresses[count - 1].text@ == text);
                }
            }
        }
    }
}

/// Whether some change writes a value under a type.
pub open spec fn written(changes: Seq<Change>, kind: RrType, value: Seq<char>) -> bool {
    exists|c: int|
        0 <= c < changes.len() && (#[trigger] changes[c]).record.kind == kind && contents(
            changes[c].record.values@,
        ).contains(value)
}

/// What a publication writes is the name: under A and AAAA exactly its addresses of that kind,
/// under CAA exactly the right of the account and the denial of wildcards, all under the hostname
/// and for five minutes, and nothing else.
pub proof fn law_publication_writes_the_name(
    changes: Seq<Change>,
    records: NameRecords,
    value: Seq<char>,
)
    requires
        writes_name(changes, records),
    ensures
        forall|c: int|
            0 <= c < changes.len() ==> (#[trigger] changes[c]).action is Upsert
                && changes[c].record.name@ == records.hostname@ && changes[c].record.ttl == 300 && (
            changes[c].record.kind is A || changes[c].record.kind is Aaaa
                || changes[c].record.kind is Caa),
        written(changes, RrType::A, value) <==> exists|i: int|
            0 <= i < records.addresses@.len() && (#[trigger] records.addresses@[i]).text@ == value
                && records.addresses@[i].ip is V4,
        written(changes, RrType::Aaaa, value) <==> exists|i: int|
            0 <= i < records.addresses@.len() && (#[trigger] records.addresses@[i]).text@ == value
                && records.addresses@[i].ip is V6,
        written(changes, RrType::Caa, value) <==> value == "0 issue \""@
            + ("letsencrypt.org; validationmethods=dns-01; accounturi="@
            + records.acme_account_uri@) + "\""@ || value == "0 issuewild \";\""@,
{
    let n = records.addresses@.len();
    let v4 = texts_of(records.addresses@, n, true);
    let v6 = texts_of(records.addresses@, n, false);
    law_texts_are_those_of_the_kind(records.addresses@, n, true, value);
    law_texts_are_those_of_the_kind(records.addresses@, n, false, value);
    let with_v4: int = if v4.len() > 0 {
        1
    } else {
        0
    };
    let with_v6: int = if v6.len() > 0 {
        1
    } else {
        0
    };
    let (issue, wildcard) = crate::dns::caa_texts(records.acme_account_uri@);
    let last = changes[with_v4 + with_v6];
    assert(last.record.kind is Caa);
    assert(contents(last.record.values@) == seq![issue, wildcard]);
    assert(seq![issue, wildcard][0] == issue && seq![issue, wildcard][1] == wildcard);
    if v4.len() > 0 {
        assert(changes[0].record.kind is A);
        assert(contents(changes[0].record.values@) == v4);
    }
    if v6.len() > 0 {
        assert(changes[with_v4].record.kind is Aaaa);
        assert(contents(changes[with_v4].record.values@) == v6);
    }
    assert(seq![issue, wildcard].contains(value) <==> value == issue || value == wildcard);
    assert forall|i: int|
        0 <= i < n && (#[trigger] records.addresses@[i]).text@ == value implies (
    records.addresses@[i].ip is V4) == !(records.addresses@[i].ip is V6) by {}
}

/// A publication deletes, of what is listed, exactly what stands under the name of a type that it
/// has no address of; a retirement exactly what stands under it as A, AAAA or CAA, and under its
/// challenge name as TXT.
pub proof fn law_deletions_are_of_the_name(
    records: NameRecords,
    listed: Seq<RecordSet>,
    name: Seq<char>,
    i: int,
)
    requires
        listed.len() <= usize::MAX,
        0 <= i < listed.len(),
    ensures
        ({
            let record = listed[i];
            let here = undotted(record.name@) == name;
            let has_v4 = exists|k: int|
                0 <= k < records.addresses@.len() && (
                #[trigger] records.addresses@[k]).ip is V4;
            let has_v6 = exists|k: int|
                0 <= k < records.addresses@.len() && (
                #[trigger] records.addresses@[k]).ip is V6;
            &&& positions(listed, listed.len(), name, stale_kinds(records)).contains(i as usize)
                <==> here && ((record.kind is A && !has_v4) || (record.kind is Aaaa && !has_v6))
            &&& positions(listed, listed.len(), name, serving_kinds()).contains(i as usize)
                <==> here && (record.kind is A || record.kind is Aaaa || record.kind is Caa)
            &&& positions(listed, listed.len(), name, challenge_kinds()).contains(i as usize)
                <==> here && record.kind is Txt
        }),
{
    let n = records.addresses@.len();
    law_deletions_are_exact(listed, name, stale_kinds(records));
    law_deletions_are_exact(listed, name, serving_kinds());
    law_deletions_are_exact(listed, name, challenge_kinds());
    let a = concerns(listed[i], name, stale_kinds(records));
    let b = concerns(listed[i], name, serving_kinds());
    let c = concerns(listed[i], name, challenge_kinds());
    assert(positions(listed, listed.len(), name, stale_kinds(records)).contains(i as usize) == a);
    assert(positions(listed, listed.len(), name, serving_kinds()).contains(i as usize) == b);
    assert(positions(listed, listed.len(), name, challenge_kinds()).contains(i as usize) == c);
    lemma_texts_of_some(records.addresses@, n, true);
    lemma_texts_of_some(records.addresses@, n, false);
    let v4 = texts_of(records.addresses@, n, true);
    let v6 = texts_of(records.addresses@, n, false);
    assert(v4.len() > 0 <==> exists|k: int|
        0 <= k < n && (#[trigger] records.addresses@[k]).ip is V4);
    assert(v6.len() > 0 <==> exists|k: int|
        0 <= k < n && (#[trigger] records.addresses@[k]).ip is V6) by {
        if v6.len() > 0 {
            let k = choose|k: int|
                0 <= k < n && ((#[trigger] records.addresses@[k]).ip is V4) == false;
            assert(records.addresses@[k].ip is V6);
        }
        if exists|k: int| 0 <= k < n && (#[trigger] records.addresses@[k]).ip is V6 {
            let k = choose|k: int| 0 <= k < n && (#[trigger] records.addresses@[k]).ip is V6;
            assert((records.addresses@[k].ip is V4) == false);
        }
    }
}

proof fn lemma_texts_of_some(addresses: Seq<crate::dns::Address>, count: nat, v4: bool)
    requires
        count <= addresses.len(),
    ensures
        texts_of(addresses, count, v4).len() > 0 <==> exists|i: int|
            0 <= i < count && ((#[trigger] addresses[i]).ip is V4) == v4,
    decreases count,
{
    if count > 0 {
        lemma_texts_of_some(addresses, (count - 1) as nat, v4);
        if (addresses[count - 1].ip is V4) == v4 {
            assert(texts_of(addresses, count, v4).len() > 0);
        }
    }
}

/// Quotes stand around a value, and different values are quoted differently.
pub proof fn law_quotes_stand_around(one: Seq<char>, other: Seq<char>)
    ensures
        quoted(one).len() == one.len() + 2,
        quoted(one)[0] == '"' && quoted(one).last() == '"',
        quoted(one).subrange(1, 1 + one.len() as int) == one,
        quoted(one) == quoted(other) ==> one == other,
{
    reveal_strlit("\"");
    assert(quoted(one).subrange(1, 1 + one.len() as int) =~= one);
    assert(quoted(other).subrange(1, 1 + other.len() as int) =~= other);
}

/// A hosted zone is named by letters, digits and slashes.
pub proof fn law_zone_form(id: Seq<char>)
    ensures
        valid_zone_id(id) <==> {
            &&& id.len() > 0
            &&& forall|i: int|
                0 <= i < id.len() ==> ('0' <= #[trigger] id[i] <= '9' || 'a' <= id[i] <= 'z' || 'A'
                    <= id[i] <= 'Z' || id[i] == '/')
        },
{
    if valid_zone_id(id) {
        assert forall|i: int| 0 <= i < id.len() implies ('0' <= #[trigger] id[i] <= '9' || 'a'
            <= id[i] <= 'z' || 'A' <= id[i] <= 'Z' || id[i] == '/') by {
            assert(crate::text::CharClass::Alphanumeric.holds(id[i]) || id[i] == '/');
        }
    }
}

/// The first record of a name is the one that none of the name stands before, so there is at most
/// one.
pub proof fn law_first_record_is_one(
    listed: Seq<RecordSet>,
    i: int,
    j: int,
    name: Seq<char>,
    kinds: KindSet,
)
    ensures
        is_first(listed, i, name, kinds) <==> {
            &&& 0 <= i < listed.len()
            &&& undotted(listed[i].name@) == name && kinds.has_kind(listed[i].kind)
            &&& forall|k: int|
                0 <= k < i ==> undotted((#[trigger] listed[k]).name@) != name || !kinds.has_kind(
                    listed[k].kind,
                )
        },
        is_first(listed, i, name, kinds) && is_first(listed, j, name, kinds) ==> i == j,
{
    if is_first(listed, i, name, kinds) {
        assert forall|k: int| 0 <= k < i implies undotted((#[trigger] listed[k]).name@) != name
            || !kinds.has_kind(listed[k].kind) by {
            assert(!concerns(listed[k], name, kinds));
        }
        if is_first(listed, j, name, kinds) {
            if i < j {
                assert(!concerns(listed[i], name, kinds));
            }
            if j < i {
                assert(!concerns(listed[j], name, kinds));
            }
        }
    }
}

/// A change carries the action, the name, the type, the time to live and the values that it was
/// made with.
pub proof fn law_change_carries_its_record(
    made: Change,
    name: Seq<char>,
    kind: RrType,
    ttl: u32,
    values: Seq<String>,
    action: ChangeAction,
)
    ensures
        is_change(made, name, kind, ttl, values, action) <==> made.action == action
            && made.record.name@ == name && made.record.kind == kind && made.record.ttl == ttl
            && made.record.values@ == values,
{
}

} // verus!
