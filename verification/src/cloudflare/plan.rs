//! Changes to a Cloudflare zone: which records have to be created, updated and deleted for an
//! exact name, given the records that stand there. A record that somebody else made is never
//! touched.

use crate::dns::{DnsError, TTL_SECONDS};
use crate::text::{joined, same_text};
use crate::text_order::comes_before;
use vstd::prelude::*;

verus! {

/// The comment on every record that serves a name.
pub open spec fn serving_mark() -> Seq<char> {
    "bloom-relay serving v1"@
}

/// The type of a record.
#[derive(Clone, Copy, Debug, PartialEq, Eq, Structural)]
pub enum RecordKind {
    A,
    Aaaa,
    Caa,
    Cname,
    Ns,
    Txt,
    Other,
}

impl RecordKind {
    /// The type that a text names.
    pub open spec fn named(text: Seq<char>) -> RecordKind {
        if text == "A"@ {
            RecordKind::A
        } else if text == "AAAA"@ {
            RecordKind::Aaaa
        } else if text == "CAA"@ {
            RecordKind::Caa
        } else if text == "CNAME"@ {
            RecordKind::Cname
        } else if text == "NS"@ {
            RecordKind::Ns
        } else if text == "TXT"@ {
            RecordKind::Txt
        } else {
            RecordKind::Other
        }
    }

    /// Reads a type.
    pub fn read(text: &str) -> (kind: RecordKind)
        ensures
            kind == RecordKind::named(text@),
    {
        if same_text(text, "A") {
            RecordKind::A
        } else if same_text(text, "AAAA") {
            RecordKind::Aaaa
        } else if same_text(text, "CAA") {
            RecordKind::Caa
        } else if same_text(text, "CNAME") {
            RecordKind::Cname
        } else if same_text(text, "NS") {
            RecordKind::Ns
        } else if same_text(text, "TXT") {
            RecordKind::Txt
        } else {
            RecordKind::Other
        }
    }

    /// Whether records of the type serve a name.
    pub open spec fn serves(self) -> bool {
        self == RecordKind::A || self == RecordKind::Aaaa || self == RecordKind::Caa
    }

    /// Whether records of the type serve a name.
    pub fn is_serving(self) -> (serves: bool)
        ensures
            serves == self.serves(),
    {
        self == RecordKind::A || self == RecordKind::Aaaa || self == RecordKind::Caa
    }

    /// The place of the type among the serving ones.
    pub open spec fn place(self) -> int {
        match self {
            RecordKind::A => 0,
            RecordKind::Aaaa => 1,
            RecordKind::Caa => 2,
            RecordKind::Cname => 3,
            RecordKind::Ns => 4,
            RecordKind::Txt => 5,
            RecordKind::Other => 6,
        }
    }

    /// The place of the type among the serving ones.
    fn place_of(self) -> (place: u8)
        ensures
            place == self.place(),
    {
        match self {
            RecordKind::A => 0,
            RecordKind::Aaaa => 1,
            RecordKind::Caa => 2,
            RecordKind::Cname => 3,
            RecordKind::Ns => 4,
            RecordKind::Txt => 5,
            RecordKind::Other => 6,
        }
    }
}

/// What a CAA record says.
#[derive(Debug, PartialEq, Eq)]
pub struct CaaData {
    pub flags: u8,
    pub tag: String,
    pub value: String,
}

/// A record that stands in the zone.
#[derive(Debug, PartialEq, Eq)]
pub struct Record {
    pub id: String,
    pub name: String,
    pub kind: RecordKind,
    pub content: String,
    pub ttl: u32,
    pub proxied: bool,
    pub comment: String,
    pub data: Option<CaaData>,
}

/// What a record is told apart by.
#[verifier::ext_equal]
pub struct KeyView {
    pub kind: RecordKind,
    pub content: Seq<char>,
}

/// What a record is told apart by.
#[derive(Debug, PartialEq, Eq)]
pub struct RecordKey {
    pub kind: RecordKind,
    pub content: String,
}

impl View for RecordKey {
    type V = KeyView;

    open spec fn view(&self) -> KeyView {
        KeyView { kind: self.kind, content: self.content@ }
    }
}

/// What is written into the zone.
#[derive(Debug, PartialEq, Eq)]
pub struct RecordBody {
    pub kind: RecordKind,
    pub name: String,
    pub content: Option<String>,
    pub ttl: u32,
    pub proxied: Option<bool>,
    pub comment: String,
    pub data: Option<CaaData>,
}

/// A record that has to stand in the zone.
#[derive(Debug, PartialEq, Eq)]
pub struct Desired {
    pub key: RecordKey,
    pub body: RecordBody,
}

/// What has to be done for a name, in this order: the desired records that are created, the
/// records that are updated and to what, and the records that are deleted. Each is given by its
/// position.
#[derive(Debug, PartialEq, Eq)]
pub struct ServingPlan {
    pub missing: Vec<usize>,
    pub updates: Vec<(usize, usize)>,
    pub stale: Vec<usize>,
}

/// One step of a plan.
#[derive(Clone, Copy, Debug, PartialEq, Eq, Structural)]
pub enum PlanStep {
    Create(usize),
    Update(usize, usize),
    Delete(usize),
}

/// The key of a CAA record with some data.
pub open spec fn caa_key(data: CaaData) -> KeyView {
    KeyView { kind: RecordKind::Caa, content: data.tag@ + ":"@ + data.value@ }
}

/// Whether the data of a CAA record is of the kinds that are written here.
pub open spec fn known_data(data: CaaData) -> bool {
    data.flags == 0 && (data.tag@ == "issue"@ || data.tag@ == "issuewild"@)
}

/// The key of a record; a CAA record that could not have been written here has none.
pub open spec fn key_of(record: Record) -> Result<KeyView, DnsError> {
    if record.kind == RecordKind::Caa {
        match record.data {
            Some(data) => if known_data(data) {
                Ok(caa_key(data))
            } else {
                Err(DnsError::Conflict)
            },
            None => Err(DnsError::Conflict),
        }
    } else {
        Ok(KeyView { kind: record.kind, content: record.content@ })
    }
}

/// The view of a key that was found.
pub open spec fn key_result(outcome: Result<RecordKey, DnsError>) -> Result<KeyView, DnsError> {
    match outcome {
        Ok(key) => Ok(key@),
        Err(error) => Err(error),
    }
}

impl Record {
    /// Finds what the record is told apart by.
    pub fn key(&self) -> (outcome: Result<RecordKey, DnsError>)
        ensures
            key_result(outcome) == key_of(*self),
    {
        if self.kind == RecordKind::Caa {
            match &self.data {
                Some(data) => {
                    if data.flags != 0 || !(same_text(data.tag.as_str(), "issue") || same_text(
                        data.tag.as_str(),
                        "issuewild",
                    )) {
                        return Err(DnsError::Conflict);
                    }
                    let head: String = joined(data.tag.as_str(), ":");
                    let content: String = joined(head.as_str(), data.value.as_str());
                    Ok(RecordKey { kind: RecordKind::Caa, content })
                },
                None => Err(DnsError::Conflict),
            }
        } else {
            Ok(RecordKey { kind: self.kind, content: self.content.clone() })
        }
    }
}

/// Whether a record stands in the way of serving a name: a delegation or an alias, or a serving
/// record that was not made here.
pub open spec fn foreign(record: Record) -> bool {
    ||| record.kind == RecordKind::Cname
    ||| record.kind == RecordKind::Ns
    ||| record.kind.serves() && (record.comment@ != serving_mark() || key_of(record) is Err)
}

/// Tells whether a record stands in the way of serving a name.
fn is_foreign(record: &Record) -> (answer: bool)
    ensures
        answer == foreign(*record),
{
    if record.kind == RecordKind::Cname || record.kind == RecordKind::Ns {
        return true;
    }
    if !record.kind.is_serving() {
        return false;
    }
    !same_text(record.comment.as_str(), "bloom-relay serving v1") || record.key().is_err()
}

/// Whether some record is foreign.
pub open spec fn any_foreign(existing: Seq<Record>) -> bool {
    exists|i: int| 0 <= i < existing.len() && foreign(#[trigger] existing[i])
}

/// Whether a record serves under a key.
pub open spec fn serves_under(record: Record, key: KeyView) -> bool {
    record.kind.serves() && key_of(record) == Ok::<KeyView, DnsError>(key)
}

/// Whether a key is desired.
pub open spec fn is_wanted(desired: Seq<Desired>, key: KeyView) -> bool {
    exists|d: int| 0 <= d < desired.len() && (#[trigger] desired[d]).key@ == key
}

/// Whether a desired record is the one that counts for its key: the last with that key.
pub open spec fn is_last(desired: Seq<Desired>, d: int) -> bool {
    forall|c: int| d < c < desired.len() ==> (#[trigger] desired[c]).key@ != desired[d].key@
}

/// The desired record that counts for a key.
pub open spec fn wanted_at(desired: Seq<Desired>, key: KeyView) -> int {
    choose|d: int|
        0 <= d < desired.len() && (#[trigger] desired[d]).key@ == key && is_last(desired, d)
}

/// No two desired records have the same key.
pub open spec fn distinct_keys(desired: Seq<Desired>) -> bool {
    forall|c: int, d: int|
        0 <= c < d < desired.len() ==> (#[trigger] desired[c]).key@ != (
        #[trigger] desired[d]).key@
}

/// Whether a record is kept: it is the first that serves under a key that is desired.
pub open spec fn kept(existing: Seq<Record>, desired: Seq<Desired>, i: int) -> bool {
    let key = key_of(existing[i])->Ok_0;
    &&& serves_under(existing[i], key)
    &&& is_wanted(desired, key)
    &&& forall|j: int| 0 <= j < i ==> !serves_under(#[trigger] existing[j], key)
}

/// Whether a record is deleted: it serves, but is not kept.
pub open spec fn stale(existing: Seq<Record>, desired: Seq<Desired>, i: int) -> bool {
    existing[i].kind.serves() && !kept(existing, desired, i)
}

/// Whether a record differs from what is desired in more than its key.
pub open spec fn drifted(record: Record) -> bool {
    record.ttl != TTL_SECONDS || record.proxied
}

/// The updates among the first `count` records: those that are kept and have drifted.
pub open spec fn updates_of(existing: Seq<Record>, desired: Seq<Desired>, count: nat) -> Seq<
    (usize, usize),
>
    decreases count,
{
    if count == 0 {
        Seq::empty()
    } else {
        let before = updates_of(existing, desired, (count - 1) as nat);
        let i = count - 1;
        if kept(existing, desired, i) && drifted(existing[i]) {
            before.push((i as usize, wanted_at(desired, key_of(existing[i])->Ok_0) as usize))
        } else {
            before
        }
    }
}

/// Whether the record of a desired key is missing: no record serves under the key.
pub open spec fn absent(existing: Seq<Record>, desired: Seq<Desired>, d: int) -> bool {
    forall|i: int|
        0 <= i < existing.len() ==> !serves_under(#[trigger] existing[i], desired[d].key@)
}

/// When a record is created: the wildcard denial first, and then the authorization, because a
/// CAA record set of the name ends the inheritance of the policy above it.
pub open spec fn create_rank(body: RecordBody) -> int {
    match body.data {
        Some(data) if body.kind == RecordKind::Caa && data.tag@ == "issuewild"@ => 0,
        Some(data) if body.kind == RecordKind::Caa && data.tag@ == "issue"@ => 1,
        _ => 2,
    }
}

/// When a record is deleted: the authorization first, and the wildcard denial last.
pub open spec fn delete_rank(record: Record) -> int {
    match record.data {
        Some(data) if record.kind == RecordKind::Caa && data.tag@ == "issue"@ => 0,
        Some(data) if record.kind == RecordKind::Caa && data.tag@ == "issuewild"@ => 2,
        _ => 1,
    }
}

/// Tells when a record is created.
fn create_rank_of(body: &RecordBody) -> (rank: u8)
    ensures
        rank == create_rank(*body),
{
    if body.kind != RecordKind::Caa {
        return 2;
    }
    match &body.data {
        Some(data) => if same_text(data.tag.as_str(), "issuewild") {
            0
        } else if same_text(data.tag.as_str(), "issue") {
            1
        } else {
            2
        },
        None => 2,
    }
}

/// Tells when a record is deleted.
fn delete_rank_of(record: &Record) -> (rank: u8)
    ensures
        rank == delete_rank(*record),
{
    if record.kind != RecordKind::Caa {
        return 1;
    }
    match &record.data {
        Some(data) => if same_text(data.tag.as_str(), "issue") {
            0
        } else if same_text(data.tag.as_str(), "issuewild") {
            2
        } else {
            1
        },
        None => 1,
    }
}

/// The order of keys: by type, and then by content.
pub open spec fn key_less(left: KeyView, right: KeyView) -> bool {
    ||| left.kind.place() < right.kind.place()
    ||| left.kind.place() == right.kind.place() && crate::text_order::text_less(
        left.content,
        right.content,
    )
}

/// The order in which records are created: by rank, and then by key.
pub open spec fn created_before(left: Desired, right: Desired) -> bool {
    ||| create_rank(left.body) < create_rank(right.body)
    ||| create_rank(left.body) == create_rank(right.body) && key_less(left.key@, right.key@)
}

/// Tells which of two records is created first.
fn is_created_before(left: &Desired, right: &Desired) -> (before: bool)
    ensures
        before == created_before(*left, *right),
{
    let l: u8 = create_rank_of(&left.body);
    let r: u8 = create_rank_of(&right.body);
    if l != r {
        return l < r;
    }
    let p: u8 = left.key.kind.place_of();
    let q: u8 = right.key.kind.place_of();
    if p != q {
        return p < q;
    }
    comes_before(left.key.content.as_str(), right.key.content.as_str())
}

proof fn lemma_creation_order(left: Desired, right: Desired)
    ensures
        left.key@ == right.key@ || created_before(left, right) || created_before(right, left),
{
    crate::text_order::law_text_order_is_total(left.key.content@, right.key.content@);
}

proof fn lemma_creation_order_transitive(first: Desired, second: Desired, third: Desired)
    requires
        created_before(first, second),
        created_before(second, third),
    ensures
        created_before(first, third),
{
    if create_rank(first.body) == create_rank(second.body) && create_rank(second.body)
        == create_rank(third.body) && first.key.kind.place() == second.key.kind.place()
        && second.key.kind.place() == third.key.kind.place() {
        crate::text_order::law_text_order_is_transitive(
            first.key.content@,
            second.key.content@,
            third.key.content@,
        );
    }
}

/// Whether positions are of desired records in the order of their creation.
pub open spec fn in_creation_order(desired: Seq<Desired>, order: Seq<usize>) -> bool {
    &&& forall|a: int| 0 <= a < order.len() ==> (#[trigger] order[a]) < desired.len()
    &&& forall|a: int, b: int|
        0 <= a < b < order.len() ==> created_before(
            desired[#[trigger] order[a] as int],
            desired[#[trigger] order[b] as int],
        )
}

/// The chosen ones among the first `count` records that are deleted at a rank.
pub open spec fn chosen_at_rank(
    existing: Seq<Record>,
    chosen: Seq<bool>,
    count: nat,
    rank: int,
) -> Seq<usize>
    decreases count,
{
    if count == 0 {
        Seq::empty()
    } else {
        let before = chosen_at_rank(existing, chosen, (count - 1) as nat, rank);
        if chosen[count - 1] && delete_rank(existing[count - 1]) == rank {
            before.push((count - 1) as usize)
        } else {
            before
        }
    }
}

/// The chosen records in the order of their deletion: by rank, and as listed within a rank.
pub open spec fn deletion_order(existing: Seq<Record>, chosen: Seq<bool>) -> Seq<usize> {
    chosen_at_rank(existing, chosen, existing.len(), 0) + chosen_at_rank(
        existing,
        chosen,
        existing.len(),
        1,
    ) + chosen_at_rank(existing, chosen, existing.len(), 2)
}

/// Which records are deleted, one answer for each.
pub open spec fn staleness(existing: Seq<Record>, desired: Seq<Desired>) -> Seq<bool> {
    Seq::new(existing.len(), |i: int| stale(existing, desired, i))
}

/// Whether a plan does what has to be done.
pub open spec fn is_plan(plan: ServingPlan, existing: Seq<Record>, desired: Seq<Desired>) -> bool {
    &&& plan.stale@ == deletion_order(existing, staleness(existing, desired))
    &&& plan.updates@ == updates_of(existing, desired, existing.len())
    &&& in_creation_order(desired, plan.missing@)
    &&& forall|d: int|
        0 <= d < desired.len() ==> (plan.missing@.contains(d as usize) == (is_last(desired, d)
            && #[trigger] absent(existing, desired, d)))
}

/// Finds the chosen records that are deleted at a rank.
fn at_rank(existing: &Vec<Record>, chosen: &Vec<bool>, rank: u8) -> (found: Vec<usize>)
    requires
        chosen@.len() == existing@.len(),
    ensures
        found@ == chosen_at_rank(existing@, chosen@, existing@.len(), rank as int),
{
    let mut found: Vec<usize> = Vec::new();
    let mut i: usize = 0;
    while i < existing.len()
        invariant
            i <= existing@.len() == chosen@.len(),
            found@ == chosen_at_rank(existing@, chosen@, i as nat, rank as int),
        decreases existing@.len() - i,
    {
        if chosen[i] && delete_rank_of(&existing[i]) == rank {
            found.push(i);
        }
        i += 1;
    }
    found
}

/// Puts the chosen records in the order of their deletion.
pub fn order_deletions(existing: &Vec<Record>, chosen: &Vec<bool>) -> (order: Vec<usize>)
    requires
        chosen@.len() == existing@.len(),
    ensures
        order@ == deletion_order(existing@, chosen@),
{
    let mut order: Vec<usize> = at_rank(existing, chosen, 0);
    let mut middle: Vec<usize> = at_rank(existing, chosen, 1);
    let mut last: Vec<usize> = at_rank(existing, chosen, 2);
    order.append(&mut middle);
    order.append(&mut last);
    order
}

/// Finds the desired record that counts for a key.
fn find_wanted(desired: &Vec<Desired>, key: &RecordKey) -> (found: Option<usize>)
    ensures
        found is Some == is_wanted(desired@, key@),
        found matches Some(d) ==> d < desired@.len() && desired@[d as int].key@ == key@
            && is_last(desired@, d as int) && d == wanted_at(desired@, key@),
{
    let mut rest: usize = desired.len();
    while rest > 0
        invariant
            rest <= desired@.len(),
            forall|c: int| rest <= c < desired@.len() ==> (#[trigger] desired@[c]).key@ != key@,
        decreases rest,
    {
        let d: usize = rest - 1;
        if desired[d].key.kind == key.kind && same_text(
            desired[d].key.content.as_str(),
            key.content.as_str(),
        ) {
            proof {
                assert(desired@[d as int].key@ =~= key@);
                assert(is_last(desired@, d as int));
                let at = wanted_at(desired@, key@);
                if at < d {
                    assert(desired@[d as int].key@ != desired@[at].key@);
                }
            }
            return Some(d);
        }
        rest = d;
    }
    None
}

/// Puts a desired record into the order of creation.
fn insert_in_order(desired: &Vec<Desired>, order: &mut Vec<usize>, d: usize)
    requires
        d < desired@.len(),
        is_last(desired@, d as int),
        in_creation_order(desired@, old(order)@),
        forall|c: usize| #[trigger] old(order)@.contains(c) ==> is_last(desired@, c as int),
        !old(order)@.contains(d),
    ensures
        in_creation_order(desired@, final(order)@),
        forall|c: usize|
            #[trigger] final(order)@.contains(c) == (c == d || old(order)@.contains(c)),
{
    let mut p: usize = 0;
    while p < order.len() && is_created_before(&desired[order[p]], &desired[d])
        invariant
            p <= order@.len(),
            d < desired@.len(),
            order@ == old(order)@,
            in_creation_order(desired@, order@),
            forall|a: int|
                0 <= a < p ==> created_before(
                    desired@[#[trigger] order@[a] as int],
                    desired@[d as int],
                ),
        decreases order@.len() - p,
    {
        p += 1;
    }
    let ghost before = order@;
    order.insert(p, d);
    proof {
        let after = order@;
        assert(after =~= before.insert(p as int, d));
        assert forall|a: int, b: int| 0 <= a < b < after.len() implies created_before(
            desired@[#[trigger] after[a] as int],
            desired@[#[trigger] after[b] as int],
        ) by {
            let old_a = if a < p {
                a
            } else {
                a - 1
            };
            let old_b = if b < p {
                b
            } else {
                b - 1
            };
            if b == p {
                assert(after[a] == before[a]);
            } else if a == p {
                assert(after[b] == before[b - 1]);
                let first = before[p as int] as int;
                assert(before.contains(before[p as int]));
                assert(first != d);
                lemma_creation_order(desired@[first], desired@[d as int]);
                assert(is_last(desired@, first));
                assert(desired@[first].key@ != desired@[d as int].key@);
                if b - 1 > p {
                    lemma_creation_order_transitive(
                        desired@[d as int],
                        desired@[first],
                        desired@[before[b - 1] as int],
                    );
                }
            } else {
                assert(after[a] == before[old_a]);
                assert(after[b] == before[old_b]);
            }
        }
        assert forall|c: usize| #[trigger] after.contains(c) == (c == d || before.contains(c)) by {
            if before.contains(c) {
                let at = before.index_of(c);
                let moved = if at < p {
                    at
                } else {
                    at + 1
                };
                assert(after[moved] == c);
            }
            assert(after[p as int] == d);
            if after.contains(c) && c != d {
                let at = after.index_of(c);
                let origin = if at < p {
                    at
                } else {
                    at - 1
                };
                assert(before[origin] == c);
            }
        }
    }
}

/// Tells whether an earlier record serves under a key.
fn served_before(existing: &Vec<Record>, count: usize, key: &RecordKey) -> (found: bool)
    requires
        count <= existing@.len(),
        !any_foreign(existing@),
    ensures
        found == exists|j: int| 0 <= j < count && serves_under(#[trigger] existing@[j], key@),
{
    let mut j: usize = 0;
    while j < count
        invariant
            j <= count <= existing@.len(),
            forall|k: int| 0 <= k < j ==> !serves_under(#[trigger] existing@[k], key@),
        decreases count - j,
    {
        if existing[j].kind.is_serving() {
            match existing[j].key() {
                Ok(other) => {
                    if other.kind == key.kind && same_text(
                        other.content.as_str(),
                        key.content.as_str(),
                    ) {
                        proof {
                            assert(other@ =~= key@);
                            assert(serves_under(existing@[j as int], key@));
                        }
                        return true;
                    }
                },
                Err(_) => {},
            }
        }
        j += 1;
    }
    false
}

/// Plans what has to be done so that a name is served exactly by the desired records; of those
/// with the same key the last counts. Where a foreign record stands there, nothing is done.
pub fn plan_serving(existing: &Vec<Record>, desired: &Vec<Desired>) -> (outcome: Result<
    ServingPlan,
    DnsError,
>)
    ensures
        if any_foreign(existing@) {
            outcome == Err::<ServingPlan, DnsError>(DnsError::Conflict)
        } else {
            outcome matches Ok(plan) && is_plan(plan, existing@, desired@)
        },
{
    let mut i: usize = 0;
    while i < existing.len()
        invariant
            i <= existing@.len(),
            forall|j: int| 0 <= j < i ==> !foreign(#[trigger] existing@[j]),
        decreases existing@.len() - i,
    {
        if is_foreign(&existing[i]) {
            return Err(DnsError::Conflict);
        }
        i += 1;
    }
    let mut chosen: Vec<bool> = Vec::new();
    let mut updates: Vec<(usize, usize)> = Vec::new();
    let mut k: usize = 0;
    while k < existing.len()
        invariant
            k <= existing@.len(),
            !any_foreign(existing@),
            chosen@.len() == k,
            forall|j: int| 0 <= j < k ==> chosen@[j] == stale(existing@, desired@, j),
            updates@ == updates_of(existing@, desired@, k as nat),
        decreases existing@.len() - k,
    {
        let record: &Record = &existing[k];
        if record.kind.is_serving() {
            match record.key() {
                Ok(key) => {
                    let earlier: bool = served_before(existing, k, &key);
                    let wanted: Option<usize> = find_wanted(desired, &key);
                    match wanted {
                        Some(d) => {
                            if !earlier {
                                proof {
                                    assert(kept(existing@, desired@, k as int));
                                }
                                chosen.push(false);
                                if record.ttl != TTL_SECONDS || record.proxied {
                                    updates.push((k, d));
                                }
                            } else {
                                proof {
                                    assert(!kept(existing@, desired@, k as int));
                                }
                                chosen.push(true);
                            }
                        },
                        None => {
                            proof {
                                assert(!kept(existing@, desired@, k as int));
                            }
                            chosen.push(true);
                        },
                    }
                },
                Err(_) => {
                    proof {
                        assert(foreign(existing@[k as int]));
                    }
                    chosen.push(true);
                },
            }
        } else {
            proof {
                assert(!kept(existing@, desired@, k as int));
            }
            chosen.push(false);
        }
        k += 1;
    }
    proof {
        assert(chosen@ =~= staleness(existing@, desired@));
    }
    let deletions: Vec<usize> = order_deletions(existing, &chosen);
    let mut missing: Vec<usize> = Vec::new();
    let mut d: usize = 0;
    while d < desired.len()
        invariant
            d <= desired@.len(),
            !any_foreign(existing@),
            in_creation_order(desired@, missing@),
            forall|c: usize|
                #[trigger] missing@.contains(c) == (c < d && is_last(desired@, c as int)
                    && absent(existing@, desired@, c as int)),
        decreases desired@.len() - d,
    {
        let there: bool = served_before(existing, existing.len(), &desired[d].key);
        proof {
            assert(there == !absent(existing@, desired@, d as int));
        }
        let counts: bool = match find_wanted(desired, &desired[d].key) {
            Some(last) => last == d,
            None => false,
        };
        proof {
            assert(is_wanted(desired@, desired@[d as int].key@));
            assert(counts == is_last(desired@, d as int));
        }
        if counts && !there {
            insert_in_order(desired, &mut missing, d);
        }
        d += 1;
    }
    Ok(ServingPlan { missing, updates, stale: deletions })
}

/// The steps of a plan, in order: a record is created before any other is changed, and deleted
/// after all others are, so that the name keeps its authority throughout.
pub fn serving_steps(plan: &ServingPlan) -> (steps: Vec<PlanStep>)
    ensures
        steps@ == steps_of(*plan),
{
    let mut steps: Vec<PlanStep> = Vec::new();
    let mut i: usize = 0;
    while i < plan.missing.len()
        invariant
            i <= plan.missing@.len(),
            steps@ == creations(plan.missing@).take(i as int),
        decreases plan.missing@.len() - i,
    {
        steps.push(PlanStep::Create(plan.missing[i]));
        i += 1;
        proof {
            assert(steps@ =~= creations(plan.missing@).take(i as int));
        }
    }
    let ghost made = creations(plan.missing@);
    proof {
        assert(steps@ =~= made);
    }
    let mut j: usize = 0;
    while j < plan.updates.len()
        invariant
            j <= plan.updates@.len(),
            steps@ == made + changes(plan.updates@).take(j as int),
        decreases plan.updates@.len() - j,
    {
        steps.push(PlanStep::Update(plan.updates[j].0, plan.updates[j].1));
        j += 1;
        proof {
            assert(steps@ =~= made + changes(plan.updates@).take(j as int));
        }
    }
    let ghost changed = made + changes(plan.updates@);
    proof {
        assert(steps@ =~= changed);
    }
    let mut k: usize = 0;
    while k < plan.stale.len()
        invariant
            k <= plan.stale@.len(),
            steps@ == changed + deletions_of(plan.stale@).take(k as int),
        decreases plan.stale@.len() - k,
    {
        steps.push(PlanStep::Delete(plan.stale[k]));
        k += 1;
        proof {
            assert(steps@ =~= changed + deletions_of(plan.stale@).take(k as int));
        }
    }
    proof {
        assert(steps@ =~= steps_of(*plan));
    }
    steps
}

/// The creation of records.
pub open spec fn creations(missing: Seq<usize>) -> Seq<PlanStep> {
    missing.map_values(|d: usize| PlanStep::Create(d))
}

/// The update of records.
pub open spec fn changes(updates: Seq<(usize, usize)>) -> Seq<PlanStep> {
    updates.map_values(|pair: (usize, usize)| PlanStep::Update(pair.0, pair.1))
}

/// The deletion of records.
pub open spec fn deletions_of(stale: Seq<usize>) -> Seq<PlanStep> {
    stale.map_values(|i: usize| PlanStep::Delete(i))
}

/// The steps of a plan.
pub open spec fn steps_of(plan: ServingPlan) -> Seq<PlanStep> {
    creations(plan.missing@) + changes(plan.updates@) + deletions_of(plan.stale@)
}

/// A zone in which every serving record is kept and has not drifted, and nothing desired is
/// absent, needs nothing.
pub proof fn law_reconciled_name_needs_nothing(
    plan: ServingPlan,
    existing: Seq<Record>,
    desired: Seq<Desired>,
)
    requires
        is_plan(plan, existing, desired),
        forall|i: int|
            0 <= i < existing.len() && (#[trigger] existing[i]).kind.serves() ==> kept(
                existing,
                desired,
                i,
            ) && !drifted(existing[i]),
        forall|d: int|
            0 <= d < desired.len() && is_last(desired, d) ==> !#[trigger] absent(
                existing,
                desired,
                d,
            ),
    ensures
        steps_of(plan).len() == 0,
{
    lemma_no_updates(existing, desired, existing.len());
    lemma_none_chosen(existing, staleness(existing, desired), existing.len(), 0);
    lemma_none_chosen(existing, staleness(existing, desired), existing.len(), 1);
    lemma_none_chosen(existing, staleness(existing, desired), existing.len(), 2);
    if plan.missing@.len() > 0 {
        let d = plan.missing@[0];
        assert(plan.missing@.contains(d));
        assert(absent(existing, desired, d as int));
    }
}

proof fn lemma_no_updates(existing: Seq<Record>, desired: Seq<Desired>, count: nat)
    requires
        count <= existing.len(),
        forall|i: int|
            0 <= i < existing.len() && (#[trigger] existing[i]).kind.serves() ==> !drifted(
                existing[i],
            ),
    ensures
        updates_of(existing, desired, count).len() == 0,
    decreases count,
{
    if count > 0 {
        lemma_no_updates(existing, desired, (count - 1) as nat);
        assert(kept(existing, desired, count - 1) ==> existing[count - 1].kind.serves());
    }
}

proof fn lemma_none_chosen(existing: Seq<Record>, chosen: Seq<bool>, count: nat, rank: int)
    requires
        count <= existing.len() == chosen.len(),
        forall|i: int| 0 <= i < chosen.len() ==> !#[trigger] chosen[i],
    ensures
        chosen_at_rank(existing, chosen, count, rank).len() == 0,
    decreases count,
{
    if count > 0 {
        lemma_none_chosen(existing, chosen, (count - 1) as nat, rank);
    }
}

proof fn lemma_chosen(existing: Seq<Record>, chosen: Seq<bool>, count: nat, rank: int)
    requires
        count <= existing.len() == chosen.len(),
        existing.len() <= usize::MAX,
    ensures
        forall|a: int|
            0 <= a < chosen_at_rank(existing, chosen, count, rank).len() ==> {
                let i = #[trigger] chosen_at_rank(existing, chosen, count, rank)[a];
                i < count && chosen[i as int] && delete_rank(existing[i as int]) == rank
            },
        forall|i: int|
            0 <= i < count && #[trigger] chosen[i] && delete_rank(existing[i]) == rank
                ==> chosen_at_rank(existing, chosen, count, rank).contains(i as usize),
    decreases count,
{
    if count > 0 {
        let before = chosen_at_rank(existing, chosen, (count - 1) as nat, rank);
        let after = chosen_at_rank(existing, chosen, count, rank);
        lemma_chosen(existing, chosen, (count - 1) as nat, rank);
        assert forall|i: int|
            0 <= i < count && #[trigger] chosen[i] && delete_rank(existing[i])
                == rank implies after.contains(i as usize) by {
            if i < count - 1 {
                let at = before.index_of(i as usize);
                assert(after[at] == before[at]);
            } else {
                assert(after.last() == i as usize);
            }
        }
    }
}

/// The records that are deleted are exactly the chosen ones, and what is deleted later never
/// has the lower rank: the wildcard denial of a name outlives its authorization.
pub proof fn law_denial_outlives_authorization(existing: Seq<Record>, chosen: Seq<bool>)
    requires
        existing.len() == chosen.len(),
        existing.len() <= usize::MAX,
    ensures
        forall|i: int|
            0 <= i < existing.len() ==> (deletion_order(existing, chosen).contains(i as usize)
                == #[trigger] chosen[i]),
        forall|a: int, b: int|
            0 <= a < b < deletion_order(existing, chosen).len() ==> delete_rank(
                existing[#[trigger] deletion_order(existing, chosen)[a] as int],
            ) <= delete_rank(existing[#[trigger] deletion_order(existing, chosen)[b] as int]),
{
    let n = existing.len();
    let r0 = chosen_at_rank(existing, chosen, n, 0);
    let r1 = chosen_at_rank(existing, chosen, n, 1);
    let r2 = chosen_at_rank(existing, chosen, n, 2);
    let order = deletion_order(existing, chosen);
    lemma_chosen(existing, chosen, n, 0);
    lemma_chosen(existing, chosen, n, 1);
    lemma_chosen(existing, chosen, n, 2);
    assert forall|a: int| 0 <= a < order.len() implies chosen[#[trigger] order[a] as int]
        && order[a] < n && delete_rank(existing[order[a] as int]) == (if a < r0.len() {
        0int
    } else if a < r0.len() + r1.len() {
        1int
    } else {
        2int
    }) by {
        if a < r0.len() {
            assert(order[a] == r0[a]);
        } else if a < r0.len() + r1.len() {
            assert(order[a] == r1[a - r0.len()]);
        } else {
            assert(order[a] == r2[a - r0.len() - r1.len()]);
        }
    }
    assert forall|i: int| 0 <= i < n implies (order.contains(i as usize) == #[trigger] chosen[i]) by {
        if order.contains(i as usize) {
            let a = order.index_of(i as usize);
            assert(chosen[order[a] as int]);
        }
        if chosen[i] {
            let rank = delete_rank(existing[i]);
            if rank == 0 {
                assert(order[r0.index_of(i as usize)] == i as usize);
            } else if rank == 1 {
                assert(order[r0.len() + r1.index_of(i as usize)] == i as usize);
            } else {
                assert(order[r0.len() + r1.len() + r2.index_of(i as usize)] == i as usize);
            }
        }
    }
}

/// The wildcard denial of a name is created before its authorization.
pub proof fn law_denial_precedes_authorization(
    plan: ServingPlan,
    existing: Seq<Record>,
    desired: Seq<Desired>,
    a: int,
    b: int,
)
    requires
        is_plan(plan, existing, desired),
        0 <= a < plan.missing@.len(),
        0 <= b < plan.missing@.len(),
        create_rank(desired[plan.missing@[a] as int].body) == 0,
        create_rank(desired[plan.missing@[b] as int].body) == 1,
    ensures
        a < b,
{
    if b < a {
        assert(created_before(
            desired[plan.missing@[b] as int],
            desired[plan.missing@[a] as int],
        ));
    }
}

/// A record that somebody else made is never updated or deleted, and neither is one that does
/// not serve.
pub proof fn law_foreign_records_are_left(
    plan: ServingPlan,
    existing: Seq<Record>,
    desired: Seq<Desired>,
    i: int,
)
    requires
        is_plan(plan, existing, desired),
        !any_foreign(existing),
        existing.len() <= usize::MAX,
        0 <= i < existing.len(),
        plan.stale@.contains(i as usize),
    ensures
        existing[i].kind.serves(),
        existing[i].comment@ == serving_mark(),
{
    let chosen = staleness(existing, desired);
    law_denial_outlives_authorization(existing, chosen);
    assert(deletion_order(existing, chosen).contains(i as usize));
    assert(chosen[i]);
    assert(!foreign(existing[i]));
}

/// Whether a record stands at a key: it is of the type, and it has the content or, where it is a
/// CAA record, the tag and the value.
pub open spec fn stands_at(record: Record, key: KeyView) -> bool {
    &&& record.kind == key.kind
    &&& if record.kind == RecordKind::Caa {
        record.data matches Some(data) && key.content == data.tag@ + ":"@ + data.value@
    } else {
        record.content@ == key.content
    }
}

/// Whether a record is of a type that serves a name.
pub open spec fn of_serving_type(record: Record) -> bool {
    record.kind == RecordKind::A || record.kind == RecordKind::Aaaa || record.kind
        == RecordKind::Caa
}

/// A plan is refused exactly where some record, at whatever position, is an alias or a
/// delegation, is of a serving type without the comment of this service, or is a CAA record
/// that this service does not write.
pub proof fn law_foreign_records_stop_a_plan(existing: Seq<Record>)
    ensures
        any_foreign(existing) <==> exists|i: int|
            0 <= i < existing.len() && ((#[trigger] existing[i]).kind == RecordKind::Cname
                || existing[i].kind == RecordKind::Ns || (of_serving_type(existing[i]) && (
            existing[i].comment@ != "bloom-relay serving v1"@ || (existing[i].kind
                == RecordKind::Caa && match existing[i].data {
                None => true,
                Some(data) => data.flags != 0 || (data.tag@ != "issue"@ && data.tag@
                    != "issuewild"@),
            })))),
{
    if any_foreign(existing) {
        let i = choose|i: int| 0 <= i < existing.len() && foreign(#[trigger] existing[i]);
        assert(foreign(existing[i]));
        assert(existing[i].kind == RecordKind::Cname || existing[i].kind == RecordKind::Ns || (
        of_serving_type(existing[i]) && (existing[i].comment@ != "bloom-relay serving v1"@ || (
        existing[i].kind == RecordKind::Caa && match existing[i].data {
            None => true,
            Some(data) => data.flags != 0 || (data.tag@ != "issue"@ && data.tag@ != "issuewild"@),
        }))));
    }
    if !any_foreign(existing) {
        assert forall|i: int| 0 <= i < existing.len() implies !((
        #[trigger] existing[i]).kind == RecordKind::Cname || existing[i].kind == RecordKind::Ns
            || (of_serving_type(existing[i]) && (existing[i].comment@ != "bloom-relay serving v1"@
            || (existing[i].kind == RecordKind::Caa && match existing[i].data {
            None => true,
            Some(data) => data.flags != 0 || (data.tag@ != "issue"@ && data.tag@ != "issuewild"@),
        })))) by {
            assert(!foreign(existing[i]));
        }
    }
}

/// What a plan leaves of the records that stand at a name, and what it adds: `left` tells
/// whether an existing record is not deleted, and `made` whether a desired one is created.
pub open spec fn left(plan: ServingPlan, i: int) -> bool {
    !plan.stale@.contains(i as usize)
}

/// Whether a desired record is created.
pub open spec fn made(plan: ServingPlan, d: int) -> bool {
    plan.missing@.contains(d as usize)
}

/// Whether a record that is left stands at a key.
pub open spec fn held_at(plan: ServingPlan, existing: Seq<Record>, key: KeyView) -> bool {
    exists|i: int|
        0 <= i < existing.len() && of_serving_type(existing[i]) && #[trigger] left(plan, i)
            && stands_at(existing[i], key)
}

/// Whether a record is created at a key.
pub open spec fn made_at(plan: ServingPlan, desired: Seq<Desired>, key: KeyView) -> bool {
    exists|d: int| 0 <= d < desired.len() && #[trigger] made(plan, d) && desired[d].key@ == key
}

/// After a plan was carried out on a name without foreign records, the records of a serving type
/// stand at exactly the desired keys, each once. Whatever stood at a key that is not desired, a
/// CAA record too, is deleted; no record of another type is; a desired key that nothing stood at
/// is created, and only then; and of several that stood at a key one is left.
pub proof fn law_plan_makes_name_exact(
    plan: ServingPlan,
    existing: Seq<Record>,
    desired: Seq<Desired>,
    key: KeyView,
)
    requires
        is_plan(plan, existing, desired),
        !any_foreign(existing),
        existing.len() <= usize::MAX,
        desired.len() <= usize::MAX,
    ensures
        (held_at(plan, existing, key) || made_at(plan, desired, key)) <==> exists|d: int|
            0 <= d < desired.len() && (#[trigger] desired[d]).key@ == key,
        !(held_at(plan, existing, key) && made_at(plan, desired, key)),
        forall|i: int, j: int|
            0 <= i < existing.len() && 0 <= j < existing.len() && of_serving_type(existing[i])
                && of_serving_type(existing[j]) && #[trigger] left(plan, i) && #[trigger] left(
                plan,
                j,
            ) && stands_at(existing[i], key) && stands_at(existing[j], key) ==> i == j,
        forall|c: int, d: int|
            0 <= c < desired.len() && 0 <= d < desired.len() && #[trigger] made(plan, c)
                && #[trigger] made(plan, d) && desired[c].key@ == key && desired[d].key@ == key
                ==> c == d,
        forall|i: int|
            0 <= i < existing.len() && !of_serving_type(existing[i]) ==> #[trigger] left(plan, i),
        forall|i: int|
            0 <= i < existing.len() && of_serving_type(existing[i]) && stands_at(
                existing[i],
                key,
            ) && !(exists|d: int| 0 <= d < desired.len() && (#[trigger] desired[d]).key@ == key)
                ==> !#[trigger] left(plan, i),
{
    assert forall|i: int| 0 <= i < existing.len() implies #[trigger] left(plan, i) == (
    !of_serving_type(existing[i]) || kept(existing, desired, i)) by {
        lemma_left(plan, existing, desired, i);
    }
    assert forall|i: int| 0 <= i < existing.len() && of_serving_type(existing[i]) implies (
    #[trigger] stands_at(existing[i], key) <==> serves_under(existing[i], key)) by {
        lemma_stands(existing, i, key);
    }
    assert forall|i: int| 0 <= i < existing.len() && #[trigger] left(plan, i) && of_serving_type(
        existing[i],
    ) && stands_at(existing[i], key) implies is_wanted(desired, key) && forall|j: int|
        0 <= j < i ==> !serves_under(#[trigger] existing[j], key) by {
        assert(serves_under(existing[i], key));
        assert(key_of(existing[i])->Ok_0 == key);
    }
    assert forall|d: int| 0 <= d < desired.len() implies #[trigger] made(plan, d) == (is_last(
        desired,
        d,
    ) && absent(existing, desired, d)) by {
        lemma_made(plan, existing, desired, d);
    }
    if is_wanted(desired, key) {
        let any = choose|d: int| 0 <= d < desired.len() && (#[trigger] desired[d]).key@ == key;
        lemma_last_exists(desired, any);
        let last = choose|k: int|
            0 <= k < desired.len() && (#[trigger] desired[k]).key@ == key && is_last(desired, k);
        if absent(existing, desired, last) {
            assert(made(plan, last));
        } else {
            let i = choose|i: int|
                0 <= i < existing.len() && serves_under(#[trigger] existing[i], key);
            lemma_first_exists(existing, key, i);
            let first = choose|i: int|
                0 <= i < existing.len() && serves_under(#[trigger] existing[i], key) && forall|j: int|
                    0 <= j < i ==> !serves_under(#[trigger] existing[j], key);
            assert(key_of(existing[first])->Ok_0 == key);
            assert(kept(existing, desired, first));
            assert(left(plan, first));
            assert(stands_at(existing[first], key));
        }
    }
    if made_at(plan, desired, key) {
        let d = choose|d: int|
            0 <= d < desired.len() && #[trigger] made(plan, d) && desired[d].key@ == key;
        assert(absent(existing, desired, d));
        assert(desired[d].key@ == key);
        if held_at(plan, existing, key) {
            let i = choose|i: int|
                0 <= i < existing.len() && of_serving_type(existing[i]) && #[trigger] left(plan, i)
                    && stands_at(existing[i], key);
            assert(serves_under(existing[i], desired[d].key@));
        }
    }
}

/// A record is left exactly where it does not serve or is kept.
proof fn lemma_left(plan: ServingPlan, existing: Seq<Record>, desired: Seq<Desired>, i: int)
    requires
        is_plan(plan, existing, desired),
        existing.len() <= usize::MAX,
        0 <= i < existing.len(),
    ensures
        left(plan, i) == (!of_serving_type(existing[i]) || kept(existing, desired, i)),
{
    let chosen = staleness(existing, desired);
    law_denial_outlives_authorization(existing, chosen);
    assert(chosen[i] == stale(existing, desired, i));
}

/// A desired record is created exactly where it counts and nothing serves under its key.
proof fn lemma_made(plan: ServingPlan, existing: Seq<Record>, desired: Seq<Desired>, d: int)
    requires
        is_plan(plan, existing, desired),
        0 <= d < desired.len(),
    ensures
        made(plan, d) == (is_last(desired, d) && absent(existing, desired, d)),
{
    let creates = absent(existing, desired, d);
}

/// A record that is not foreign stands at the key that it has.
proof fn lemma_stands(existing: Seq<Record>, i: int, key: KeyView)
    requires
        !any_foreign(existing),
        0 <= i < existing.len(),
        of_serving_type(existing[i]),
    ensures
        stands_at(existing[i], key) <==> serves_under(existing[i], key),
{
    assert(!foreign(existing[i]));
    let found = key_of(existing[i])->Ok_0;
    if stands_at(existing[i], key) {
        assert(found =~= key);
    }
}

/// Some desired record is the last with its key.
proof fn lemma_last_exists(desired: Seq<Desired>, d: int)
    requires
        0 <= d < desired.len(),
    ensures
        exists|k: int|
            0 <= k < desired.len() && (#[trigger] desired[k]).key@ == desired[d].key@ && is_last(
                desired,
                k,
            ),
    decreases desired.len() - d,
{
    if !is_last(desired, d) {
        let c = choose|c: int|
            d < c < desired.len() && (#[trigger] desired[c]).key@ == desired[d].key@;
        lemma_last_exists(desired, c);
    } else {
        assert(desired[d].key@ == desired[d].key@);
    }
}

/// Some record is the first that serves under a key.
proof fn lemma_first_exists(existing: Seq<Record>, key: KeyView, any: int)
    requires
        0 <= any < existing.len(),
        serves_under(existing[any], key),
    ensures
        exists|i: int|
            0 <= i < existing.len() && serves_under(#[trigger] existing[i], key) && forall|j: int|
                0 <= j < i ==> !serves_under(#[trigger] existing[j], key),
    decreases any,
{
    if exists|j: int| 0 <= j < any && serves_under(#[trigger] existing[j], key) {
        let j = choose|j: int| 0 <= j < any && serves_under(#[trigger] existing[j], key);
        lemma_first_exists(existing, key, j);
    } else {
        assert(serves_under(existing[any], key));
    }
}

/// A record of a serving type that is left and has another lifetime than five minutes, or goes
/// through the proxy, is updated to the last desired record at its key; nothing else is updated.
pub proof fn law_plan_mends_what_it_leaves(
    plan: ServingPlan,
    existing: Seq<Record>,
    desired: Seq<Desired>,
)
    requires
        is_plan(plan, existing, desired),
        !any_foreign(existing),
        existing.len() <= usize::MAX,
        desired.len() <= usize::MAX,
    ensures
        forall|i: int|
            0 <= i < existing.len() && of_serving_type(#[trigger] existing[i]) && left(plan, i) && (
            existing[i].ttl != 300 || existing[i].proxied) ==> exists|u: int|
                0 <= u < plan.updates@.len() && (#[trigger] plan.updates@[u]).0 == i,
        forall|u: int|
            0 <= u < plan.updates@.len() ==> {
                let (i, d) = #[trigger] plan.updates@[u];
                &&& i < existing.len() && of_serving_type(existing[i as int]) && left(plan, i as int)
                &&& existing[i as int].ttl != 300 || existing[i as int].proxied
                &&& d < desired.len() && stands_at(existing[i as int], desired[d as int].key@)
                &&& forall|c: int|
                    d < c < desired.len() ==> (#[trigger] desired[c]).key@ != desired[d as int].key@
            },
{
    assert forall|i: int| 0 <= i < existing.len() implies #[trigger] left(plan, i) == (
    !of_serving_type(existing[i]) || kept(existing, desired, i)) by {
        lemma_left(plan, existing, desired, i);
    }
    assert forall|i: int|
        0 <= i < existing.len() && of_serving_type(#[trigger] existing[i]) && left(plan, i) && (
        existing[i].ttl != 300 || existing[i].proxied) implies exists|u: int|
        0 <= u < plan.updates@.len() && (#[trigger] plan.updates@[u]).0 == i by {
        let u = lemma_update_of(existing, desired, existing.len(), i);
        assert(plan.updates@[u].0 == i);
    }
    assert forall|u: int| 0 <= u < plan.updates@.len() implies ({
        let (i, d) = #[trigger] plan.updates@[u];
        &&& i < existing.len() && of_serving_type(existing[i as int]) && left(plan, i as int)
        &&& existing[i as int].ttl != 300 || existing[i as int].proxied
        &&& d < desired.len() && stands_at(existing[i as int], desired[d as int].key@)
        &&& forall|c: int|
            d < c < desired.len() ==> (#[trigger] desired[c]).key@ != desired[d as int].key@
    }) by {
        let (i, d) = plan.updates@[u];
        lemma_update_at(existing, desired, existing.len(), u);
        assert(left(plan, i as int));
        let key = key_of(existing[i as int])->Ok_0;
        let any = choose|c: int| 0 <= c < desired.len() && (#[trigger] desired[c]).key@ == key;
        lemma_last_exists(desired, any);
        let last = choose|k: int|
            0 <= k < desired.len() && (#[trigger] desired[k]).key@ == key && is_last(desired, k);
        let at = wanted_at(desired, key);
        assert(desired[last].key@ == key);
        assert(desired[at].key@ == key && is_last(desired, at));
        assert(!foreign(existing[i as int]));
    }
}

/// An update is of a record that is kept and has drifted.
proof fn lemma_update_at(existing: Seq<Record>, desired: Seq<Desired>, count: nat, u: int)
    requires
        count <= existing.len() <= usize::MAX,
        0 <= u < updates_of(existing, desired, count).len(),
    ensures
        ({
            let (i, d) = updates_of(existing, desired, count)[u];
            &&& i < count
            &&& kept(existing, desired, i as int) && drifted(existing[i as int])
            &&& d == wanted_at(desired, key_of(existing[i as int])->Ok_0) as usize
        }),
    decreases count,
{
    if count > 0 {
        let before = updates_of(existing, desired, (count - 1) as nat);
        if u < before.len() {
            lemma_update_at(existing, desired, (count - 1) as nat, u);
        }
    }
}

/// A record that is kept and has drifted is updated.
proof fn lemma_update_of(existing: Seq<Record>, desired: Seq<Desired>, count: nat, i: int) -> (u:
    int)
    requires
        0 <= i < count <= existing.len() <= usize::MAX,
        kept(existing, desired, i),
        drifted(existing[i]),
    ensures
        0 <= u < updates_of(existing, desired, count).len(),
        updates_of(existing, desired, count)[u].0 == i,
    decreases count,
{
    if i < count - 1 {
        lemma_update_of(existing, desired, (count - 1) as nat, i)
    } else {
        updates_of(existing, desired, (count - 1) as nat).len() as int
    }
}

/// Where a plan creates both CAA records of a name, it creates the wildcard denial before the
/// authorization; and where it deletes both, it deletes the authorization before the denial.
pub proof fn law_denial_covers_authorization(
    plan: ServingPlan,
    existing: Seq<Record>,
    desired: Seq<Desired>,
    a: int,
    b: int,
)
    requires
        is_plan(plan, existing, desired),
        existing.len() <= usize::MAX,
    ensures
        0 <= a < plan.missing@.len() && 0 <= b < plan.missing@.len() && (
        desired[plan.missing@[a] as int].body.data matches Some(data)
            && desired[plan.missing@[a] as int].body.kind == RecordKind::Caa && data.tag@
            == "issuewild"@) && (desired[plan.missing@[b] as int].body.data matches Some(data)
            && desired[plan.missing@[b] as int].body.kind == RecordKind::Caa && data.tag@
            == "issue"@) ==> a < b,
        0 <= a < plan.stale@.len() && 0 <= b < plan.stale@.len() && (
        existing[plan.stale@[a] as int].data matches Some(data)
            && existing[plan.stale@[a] as int].kind == RecordKind::Caa && data.tag@ == "issue"@)
            && (existing[plan.stale@[b] as int].data matches Some(data)
            && existing[plan.stale@[b] as int].kind == RecordKind::Caa && data.tag@
            == "issuewild"@) ==> a < b,
{
    reveal_strlit("issue");
    reveal_strlit("issuewild");
    assert("issue"@.len() != "issuewild"@.len());
    law_denial_outlives_authorization(existing, staleness(existing, desired));
    if 0 <= b <= a < plan.missing@.len() {
        if b < a {
            assert(created_before(
                desired[plan.missing@[b] as int],
                desired[plan.missing@[a] as int],
            ));
        }
    }
    if 0 <= b <= a < plan.stale@.len() {
        let order = deletion_order(existing, staleness(existing, desired));
        if b < a {
            assert(delete_rank(existing[order[b] as int]) <= delete_rank(existing[order[a] as int]));
        }
    }
}

/// A plan is carried out in one order: everything is created before anything is changed, and
/// nothing is deleted before that.
pub proof fn law_steps_are_create_update_delete(plan: ServingPlan, a: int, b: int)
    requires
        0 <= a < b < steps_of(plan).len(),
    ensures
        steps_of(plan).len() == plan.missing@.len() + plan.updates@.len() + plan.stale@.len(),
        steps_of(plan)[a] is Update ==> !(steps_of(plan)[b] is Create),
        steps_of(plan)[a] is Delete ==> steps_of(plan)[b] is Delete,
        forall|k: int| 0 <= k < plan.missing@.len() ==> steps_of(plan)[k] == PlanStep::Create(
            #[trigger] plan.missing@[k],
        ),
        forall|k: int|
            0 <= k < plan.updates@.len() ==> steps_of(plan)[plan.missing@.len() + k]
                == PlanStep::Update((#[trigger] plan.updates@[k]).0, plan.updates@[k].1),
        forall|k: int|
            0 <= k < plan.stale@.len() ==> steps_of(plan)[plan.missing@.len()
                + plan.updates@.len() + k] == PlanStep::Delete(#[trigger] plan.stale@[k]),
{
}

/// Each type is read of its own name, and any other name is of a type that is left alone.
pub proof fn law_types_are_named(text: Seq<char>)
    ensures
        RecordKind::named(text) is A <==> text == "A"@,
        RecordKind::named(text) is Aaaa <==> text == "AAAA"@,
        RecordKind::named(text) is Caa <==> text == "CAA"@,
        RecordKind::named(text) is Cname <==> text == "CNAME"@,
        RecordKind::named(text) is Ns <==> text == "NS"@,
        RecordKind::named(text) is Txt <==> text == "TXT"@,
{
    reveal_strlit("A");
    reveal_strlit("AAAA");
    reveal_strlit("CAA");
    reveal_strlit("CNAME");
    reveal_strlit("NS");
    reveal_strlit("TXT");
    assert("A"@.len() == 1 && "AAAA"@.len() == 4 && "CNAME"@.len() == 5 && "NS"@.len() == 2);
    assert("CAA"@.len() == 3 && "TXT"@.len() == 3 && "CAA"@[0] == 'C' && "TXT"@[0] == 'T');
}

/// Records that are wanted are distinct where no two of them have the same type and content.
pub proof fn law_distinct_records_differ(desired: Seq<Desired>, c: int, d: int)
    requires
        distinct_keys(desired),
        0 <= c < desired.len(),
        0 <= d < desired.len(),
        desired[c].key.kind == desired[d].key.kind,
        desired[c].key.content@ == desired[d].key.content@,
    ensures
        c == d,
{
    assert(desired[c].key@ == desired[d].key@);
}

/// Whether a record is a CAA record with a tag.
pub open spec fn tagged(record: Record, tag: Seq<char>) -> bool {
    record.kind is Caa && record.data is Some && record.data->0.tag@ == tag
}

/// Whether a record that is wanted is a CAA record with a tag.
pub open spec fn tagged_body(body: RecordBody, tag: Seq<char>) -> bool {
    body.kind is Caa && body.data is Some && body.data->0.tag@ == tag
}

proof fn lemma_chosen_at_rank(existing: Seq<Record>, chosen: Seq<bool>, count: nat, rank: int)
    requires
        count <= existing.len() <= usize::MAX,
        chosen.len() == existing.len(),
    ensures
        forall|k: int|
            0 <= k < chosen_at_rank(existing, chosen, count, rank).len() ==> {
                let i = #[trigger] chosen_at_rank(existing, chosen, count, rank)[k];
                i < count && chosen[i as int] && delete_rank(existing[i as int]) == rank
            },
        forall|j: int, k: int|
            0 <= j < k < chosen_at_rank(existing, chosen, count, rank).len()
                ==> #[trigger] chosen_at_rank(existing, chosen, count, rank)[j]
                < #[trigger] chosen_at_rank(existing, chosen, count, rank)[k],
    decreases count,
{
    if count > 0 {
        let less = (count - 1) as nat;
        lemma_chosen_at_rank(existing, chosen, less, rank);
        let before = chosen_at_rank(existing, chosen, less, rank);
        let after = chosen_at_rank(existing, chosen, count, rank);
        assert forall|k: int| 0 <= k < after.len() implies {
            let i = #[trigger] after[k];
            i < count && chosen[i as int] && delete_rank(existing[i as int]) == rank
        } by {
            if k < before.len() {
                assert(after[k] == before[k]);
            }
        }
        assert forall|j: int, k: int| 0 <= j < k < after.len() implies #[trigger] after[j]
            < #[trigger] after[k] by {
            assert(after[j] == before[j]);
            if k < before.len() {
                assert(after[k] == before[k]);
            }
        }
    }
}

/// The right to issue is deleted before everything else and the denial of wildcards after
/// everything else, and in between the order is as it was listed.
pub proof fn law_deletions_close_with_the_denial(
    existing: Seq<Record>,
    chosen: Seq<bool>,
    a: int,
    b: int,
)
    requires
        existing.len() <= usize::MAX,
        chosen.len() == existing.len(),
        0 <= a < b < deletion_order(existing, chosen).len(),
    ensures
        ({
            let order = deletion_order(existing, chosen);
            let one = existing[order[a] as int];
            let other = existing[order[b] as int];
            &&& chosen[order[a] as int] && chosen[order[b] as int]
            &&& tagged(other, "issue"@) ==> tagged(one, "issue"@)
            &&& tagged(one, "issuewild"@) ==> tagged(other, "issuewild"@)
            &&& !tagged(one, "issue"@) && !tagged(other, "issuewild"@) ==> order[a] < order[b]
        }),
{
    reveal_strlit("issue");
    reveal_strlit("issuewild");
    assert("issue"@.len() == 5 && "issuewild"@.len() == 9);
    let n = existing.len();
    lemma_chosen_at_rank(existing, chosen, n, 0);
    lemma_chosen_at_rank(existing, chosen, n, 1);
    lemma_chosen_at_rank(existing, chosen, n, 2);
    let x = chosen_at_rank(existing, chosen, n, 0);
    let y = chosen_at_rank(existing, chosen, n, 1);
    let z = chosen_at_rank(existing, chosen, n, 2);
    let order = deletion_order(existing, chosen);
    assert(order == x + y + z);
    assert(order[a] == if a < x.len() {
        x[a]
    } else if a < x.len() + y.len() {
        y[a - x.len()]
    } else {
        z[a - x.len() - y.len()]
    });
    assert(order[b] == if b < x.len() {
        x[b]
    } else if b < x.len() + y.len() {
        y[b - x.len()]
    } else {
        z[b - x.len() - y.len()]
    });
}

/// The denial of wildcards is made before everything else, then the right to issue, then the
/// addresses: those of IPv4 before those of IPv6, and each by their text.
pub proof fn law_creations_open_with_the_denial(
    desired: Seq<Desired>,
    order: Seq<usize>,
    a: int,
    b: int,
)
    requires
        in_creation_order(desired, order),
        0 <= a < b < order.len(),
    ensures
        ({
            let one = desired[order[a] as int];
            let other = desired[order[b] as int];
            let wild = tagged_body(one.body, "issuewild"@);
            let issue = tagged_body(one.body, "issue"@);
            &&& order[a] < desired.len() && order[b] < desired.len()
            &&& tagged_body(other.body, "issuewild"@) ==> wild
            &&& tagged_body(other.body, "issue"@) ==> wild || issue
            &&& one.body.kind is Aaaa && one.key.kind is Aaaa && other.body.kind is A ==> !(
            other.key.kind is A)
            &&& one.body.kind == other.body.kind && one.key.kind == other.key.kind && !(
            one.body.kind is Caa) ==> crate::text_order::text_less(
                one.key.content@,
                other.key.content@,
            )
        }),
{
    reveal_strlit("issue");
    reveal_strlit("issuewild");
    assert("issue"@.len() == 5 && "issuewild"@.len() == 9);
    assert(created_before(desired[order[a] as int], desired[order[b] as int]));
}

} // verus!
