//! The certificate transparency worker: the endpoints it talks to, the batches it takes in, and
//! the alerts it hands over.

use crate::credential::credential_file_is_private;
use crate::numbers::to_decimal;
use crate::store::model::{Checkpoint, CtAlert, CtLagAlert, Store, StoreError};
use crate::text::{chars_of, joined, range_in, same_text, trim, CharClass};
use vstd::prelude::*;

verus! {

/// How many entries a batch may hold.
pub const MAX_BATCH: usize = 100;

/// How many alerts are handed over in a round.
pub const DELIVERY_LIMIT: i64 = 100;

/// Why a round of the worker ended early.
#[derive(Clone, Copy, Debug, PartialEq, Eq, Structural)]
pub enum CtError {
    InvalidUrl,
    InvalidEndpoint,
    InvalidTokenFile,
    InvalidToken,
    MissingCheckpoint,
    SinkRejected,
    Store(StoreError),
}

/// An entry of a feed.
#[derive(Debug, PartialEq, Eq)]
pub struct CtEntry {
    pub position: u64,
    pub hostname: String,
    pub key_fingerprint: String,
}

/// What a feed answers.
#[derive(Debug, PartialEq, Eq)]
pub struct CtBatch {
    pub source: String,
    pub entries: Vec<CtEntry>,
}

/// The parts of a URL.
#[derive(Debug, PartialEq, Eq)]
pub struct UrlParts {
    pub scheme: String,
    pub username: String,
    pub password: Option<String>,
    pub host: Option<String>,
    pub port: Option<u16>,
    pub path: String,
    pub query: Option<String>,
    pub fragment: Option<String>,
}

/// What the parts of a URL say.
#[verifier::ext_equal]
pub struct UrlView {
    pub scheme: Seq<char>,
    pub username: Seq<char>,
    pub password: Option<Seq<char>>,
    pub host: Option<Seq<char>>,
    pub port: Option<u16>,
    pub path: Seq<char>,
    pub query: Option<Seq<char>>,
    pub fragment: Option<Seq<char>>,
}

/// What an optional text holds.
pub open spec fn text_view(text: Option<String>) -> Option<Seq<char>> {
    match text {
        Some(found) => Some(found@),
        None => None,
    }
}

impl View for UrlParts {
    type V = UrlView;

    open spec fn view(&self) -> UrlView {
        UrlView {
            scheme: self.scheme@,
            username: self.username@,
            password: text_view(self.password),
            host: text_view(self.host),
            port: self.port,
            path: self.path@,
            query: text_view(self.query),
            fragment: text_view(self.fragment),
        }
    }
}

/// What `url::Url::parse` makes of a text: the parts of the URL, or nothing where the text is
/// none.
pub uninterp spec fn parsed_url(text: Seq<char>) -> Option<UrlView>;

/// The view of the parts of a URL, where there is one.
pub open spec fn parts_view(parts: Option<UrlParts>) -> Option<UrlView> {
    match parts {
        Some(found) => Some(found@),
        None => None,
    }
}

/// `url::Url::parse`, and what its accessors show of the result: scheme, user name, password,
/// host, port where it is not the one that the scheme implies, path, query and fragment. Claimed
/// is only that all of it depends on the text alone.
#[verifier::external_body]
fn parse_url(text: &str) -> (parts: Option<UrlParts>)
    ensures
        parts_view(parts) == parsed_url(text@),
{
    let url = url::Url::parse(text).ok()?;
    Some(UrlParts {
        scheme: url.scheme().to_owned(),
        username: url.username().to_owned(),
        password: url.password().map(str::to_owned),
        host: url.host_str().map(str::to_owned),
        port: url.port(),
        path: url.path().to_owned(),
        query: url.query().map(str::to_owned),
        fragment: url.fragment().map(str::to_owned),
    })
}

/// The origin of an HTTPS URL: its host, and its port where it is not the one that the scheme
/// implies.
pub open spec fn origin_text(url: UrlView) -> Seq<char> {
    "https://"@ + url.host->0 + match url.port {
        Some(port) => ":"@ + crate::numbers::decimal_text(port as nat),
        None => Seq::empty(),
    }
}

/// `url::Url::parse`, `Url::origin` and `Origin::ascii_serialization` for the text of an HTTPS
/// URL: the scheme, the host as `Url::host_str` shows it, and the port that `Url::port` shows,
/// which is none where it is the one of the scheme.
#[verifier::external_body]
fn origin_of(text: &str) -> (origin: String)
    requires
        parsed_url(text@) is Some,
        parsed_url(text@)->0.scheme == "https"@,
        parsed_url(text@)->0.host is Some,
    ensures
        origin@ == origin_text(parsed_url(text@)->0),
{
    url::Url::parse(text).map(|url| url.origin().ascii_serialization()).unwrap_or_default()
}

/// Whether an endpoint may be talked to: over HTTPS, to a host, without credentials, query or
/// fragment, and without a path where only an origin is wanted.
pub open spec fn acceptable(url: UrlView, origin_only: bool) -> bool {
    &&& url.scheme == "https"@
    &&& url.host is Some
    &&& url.username.len() == 0
    &&& url.password is None
    &&& url.query is None
    &&& url.fragment is None
    &&& origin_only ==> url.path == "/"@
}

/// The endpoint that a setting names.
pub open spec fn endpoint_outcome(
    url: Option<UrlView>,
    text: Seq<char>,
    origin_only: bool,
) -> Result<Seq<char>, CtError> {
    match url {
        None => Err(CtError::InvalidUrl),
        Some(parts) => if !acceptable(parts, origin_only) {
            Err(CtError::InvalidEndpoint)
        } else if origin_only {
            Ok(origin_text(parts))
        } else {
            Ok(text)
        },
    }
}

/// The text of an outcome.
pub open spec fn text_outcome(outcome: Result<String, CtError>) -> Result<Seq<char>, CtError> {
    match outcome {
        Ok(text) => Ok(text@),
        Err(error) => Err(error),
    }
}

/// Judges the endpoint that a setting names, by the parts of its URL.
pub fn judge_endpoint(parts: Option<UrlParts>, origin_only: bool) -> (outcome: Result<(), CtError>)
    ensures
        outcome == match parts_view(parts) {
            None => Err(CtError::InvalidUrl),
            Some(url) => if acceptable(url, origin_only) {
                Ok(())
            } else {
                Err(CtError::InvalidEndpoint)
            },
        },
{
    let url: UrlParts = match parts {
        Some(url) => url,
        None => {
            return Err(CtError::InvalidUrl);
        },
    };
    let named: bool = chars_of(url.username.as_str()).len() > 0;
    if !same_text(url.scheme.as_str(), "https") || url.host.is_none() || named
        || url.password.is_some() || url.query.is_some() || url.fragment.is_some() || (origin_only
        && !same_text(url.path.as_str(), "/")) {
        return Err(CtError::InvalidEndpoint);
    }
    Ok(())
}

/// Checks the endpoint that a setting names.
pub fn checked_url(value: &str, origin_only: bool) -> (outcome: Result<String, CtError>)
    ensures
        text_outcome(outcome) == endpoint_outcome(parsed_url(value@), value@, origin_only),
{
    let parts: Option<UrlParts> = parse_url(value);
    match judge_endpoint(parts, origin_only) {
        Err(error) => Err(error),
        Ok(()) => if origin_only {
            Ok(origin_of(value))
        } else {
            Ok(value.to_owned())
        },
    }
}

/// Checks the file of a token: a regular file of at most 256 bytes that only its owner has
/// access to.
pub fn check_token_file(is_file: bool, size: u64, mode: u32) -> (outcome: Result<(), CtError>)
    ensures
        outcome == if is_file && size <= 256 && mode & 0o077u32 == 0 {
            Ok(())
        } else {
            Err(CtError::InvalidTokenFile)
        },
{
    if credential_file_is_private(is_file, size, mode) {
        Ok(())
    } else {
        Err(CtError::InvalidTokenFile)
    }
}

/// Whether a text is a token of an endpoint.
pub open spec fn endpoint_token(token: Seq<char>) -> bool {
    16 <= token.len() <= 128 && crate::text::all_in(token, CharClass::UrlSafe)
}

/// Reads the token out of the content of its file.
pub fn read_token(content: &str) -> (outcome: Result<String, CtError>)
    ensures
        text_outcome(outcome) == {
            let token = crate::text::trimmed(content@);
            if endpoint_token(token) {
                Ok(token)
            } else {
                Err(CtError::InvalidToken)
            }
        },
{
    let token: String = trim(content);
    let chars: Vec<char> = chars_of(token.as_str());
    proof {
        assert(chars@.subrange(0, chars@.len() as int) =~= token@);
    }
    if chars.len() < 16 || chars.len() > 128 || !range_in(&chars, 0, chars.len(), CharClass::UrlSafe) {
        return Err(CtError::InvalidToken);
    }
    Ok(token)
}

/// The URL at which a feed is asked for what follows a position.
pub fn feed_url(origin: &str, checkpoint: u64) -> (url: String)
    ensures
        url@ == origin@ + "/v1/entries?after="@ + crate::numbers::decimal_text(checkpoint as nat)
            + "&limit=100"@,
{
    let path: String = joined(origin, "/v1/entries?after=");
    let number: String = to_decimal(checkpoint);
    let query: String = joined(path.as_str(), number.as_str());
    joined(query.as_str(), "&limit=100")
}

/// How the intake of a batch ended.
#[derive(Clone, Copy, Debug, PartialEq, Eq, Structural)]
pub enum Intake {
    /// Every entry was taken in.
    Whole,
    /// An entry does not follow the one before it.
    Gap,
    /// An entry is malformed.
    Refused(StoreError),
}

/// Whether an entry of a feed is well-formed.
pub open spec fn valid_entry(source: Seq<char>, entry: CtEntry) -> bool {
    &&& crate::protocol::valid_hostname(entry.hostname@)
    &&& crate::store::transparency::valid_fingerprint(entry.key_fingerprint@)
    &&& crate::store::transparency::valid_source(source)
    &&& entry.position <= crate::store::model::MAX_GENERATION
}

/// What the intake of entries does, and how it ends: each is taken in where it follows the
/// checkpoint, and the first that does not, or is malformed, ends it.
pub open spec fn intake(
    store: crate::store::model::StoreView,
    source: Seq<char>,
    entries: Seq<CtEntry>,
    now_ms: u64,
) -> (crate::store::model::StoreView, Intake)
    decreases entries.len(),
{
    if entries.len() == 0 {
        (store, Intake::Whole)
    } else if entries[0].position != store.ct.checkpoints[source].position + 1 {
        (store, Intake::Gap)
    } else if !valid_entry(source, entries[0]) {
        (store, Intake::Refused(StoreError::InvalidRequest))
    } else {
        intake(
            crate::store::transparency::recorded(
                store,
                source,
                entries[0].position,
                entries[0].hostname@,
                entries[0].key_fingerprint@,
                now_ms,
            ),
            source,
            entries.drop_first(),
            now_ms,
        )
    }
}

/// Whether a batch may be taken in: it is of the feed, and not too long.
pub open spec fn fitting(batch: CtBatch, source: Seq<char>) -> bool {
    batch.source@ == source && batch.entries@.len() <= MAX_BATCH
}

/// What a round does with the answer of a feed, and how it ends. `batch` is nothing where the
/// feed did not answer.
pub open spec fn round_outcome(
    store: crate::store::model::StoreView,
    source: Seq<char>,
    batch: Option<CtBatch>,
    now_ms: u64,
) -> (crate::store::model::StoreView, Result<(), CtError>) {
    if !crate::store::transparency::valid_source(source) {
        (store, Err(CtError::Store(StoreError::InvalidRequest)))
    } else if !store.ct.checkpoints.dom().contains(source) {
        (store, Err(CtError::MissingCheckpoint))
    } else {
        match batch {
            Some(answer) if fitting(answer, source) => {
                let (taken, end) = intake(store, source, answer.entries@, now_ms);
                match end {
                    Intake::Refused(error) => (taken, Err(CtError::Store(error))),
                    Intake::Whole => (
                        crate::store::alerts::lag_noticed(
                            crate::store::transparency::with_checkpoint(
                                taken,
                                source,
                                Checkpoint {
                                    position: taken.ct.checkpoints[source].position,
                                    observed_at_ms: now_ms,
                                },
                            ),
                            source,
                            now_ms,
                        ),
                        Ok(()),
                    ),
                    Intake::Gap => (
                        crate::store::alerts::lag_noticed(taken, source, now_ms),
                        Ok(()),
                    ),
                }
            },
            _ => (crate::store::alerts::lag_noticed(store, source, now_ms), Ok(())),
        }
    }
}

/// Takes the entries of a batch in.
fn take_entries(store: &mut Store, source: &str, entries: &Vec<CtEntry>, now_ms: u64) -> (end:
    Intake)
    requires
        old(store).well_formed(),
        old(store).has_room(entries@.len() as int),
        old(store).ct.next_alert + entries@.len() < u64::MAX,
        old(store)@.ct.checkpoints.dom().contains(source@),
    ensures
        final(store).well_formed(),
        (final(store)@, end) == intake(old(store)@, source@, entries@, now_ms),
        final(store).ct.next_alert <= old(store).ct.next_alert + entries@.len(),
        final(store)@.ct.checkpoints.dom().contains(source@),
{
    let ghost whole = intake(store@, source@, entries@, now_ms);
    let mut i: usize = 0;
    proof {
        assert(entries@.skip(0) =~= entries@);
    }
    while i < entries.len()
        invariant
            i <= entries@.len(),
            store.well_formed(),
            store.has_room(entries@.len() - i),
            store.ct.next_alert <= old(store).ct.next_alert + i,
            old(store).ct.next_alert + entries@.len() < u64::MAX,
            store@.ct.checkpoints.dom().contains(source@),
            whole == intake(old(store)@, source@, entries@, now_ms),
            whole == intake(store@, source@, entries@.skip(i as int), now_ms),
        decreases entries@.len() - i,
    {
        let entry: &CtEntry = &entries[i];
        let ghost rest = entries@.skip(i as int);
        let ghost before = store@;
        proof {
            assert(rest[0] == *entry);
            assert(rest.drop_first() =~= entries@.skip(i + 1));
        }
        let follows: bool = match store.ct.checkpoints.get(source) {
            Some(checkpoint) => checkpoint.position < u64::MAX && entry.position
                == checkpoint.position + 1,
            None => false,
        };
        if !follows {
            return Intake::Gap;
        }
        match store.observe_ct(
            source,
            entry.position,
            entry.hostname.as_str(),
            entry.key_fingerprint.as_str(),
            now_ms,
        ) {
            Err(error) => {
                return Intake::Refused(error);
            },
            Ok(_) => {},
        }
        proof {
            assert(crate::store::transparency::with_source(before, source@, now_ms) == before);
            assert(store@ == crate::store::transparency::recorded(
                before,
                source@,
                entry.position,
                entry.hostname@,
                entry.key_fingerprint@,
                now_ms,
            ));
        }
        i += 1;
    }
    proof {
        assert(entries@.skip(i as int).len() == 0);
    }
    Intake::Whole
}

/// Does a round with the answer of a feed: a fitting batch is taken in as far as it follows, a
/// whole one shows that the feed is alive, and a feed that has been silent becomes an alert.
pub fn take_round(store: &mut Store, source: &str, batch: Option<&CtBatch>, now_ms: u64) -> (outcome:
    Result<(), CtError>)
    requires
        old(store).well_formed(),
        old(store).has_room(MAX_BATCH as int),
        old(store).ct.next_alert + MAX_BATCH + 1 < u64::MAX,
        now_ms + 450_000 <= u64::MAX,
    ensures
        final(store).well_formed(),
        (final(store)@, outcome) == round_outcome(
            old(store)@,
            source@,
            match batch {
                Some(answer) => Some(*answer),
                None => None,
            },
            now_ms,
        ),
{
    match store.ct_checkpoint(source) {
        Err(error) => {
            return Err(CtError::Store(error));
        },
        Ok(None) => {
            return Err(CtError::MissingCheckpoint);
        },
        Ok(Some(_)) => {},
    }
    match batch {
        Some(answer) => {
            if same_text(answer.source.as_str(), source) && answer.entries.len() <= MAX_BATCH {
                match take_entries(store, source, &answer.entries, now_ms) {
                    Intake::Refused(error) => {
                        return Err(CtError::Store(error));
                    },
                    Intake::Gap => {},
                    Intake::Whole => {
                        let position: u64 = match store.ct.checkpoints.get(source) {
                            Some(checkpoint) => checkpoint.position,
                            None => 0,
                        };
                        match store.mark_ct_feed_healthy(source, position, now_ms) {
                            Err(error) => {
                                return Err(CtError::Store(error));
                            },
                            Ok(()) => {},
                        }
                    },
                }
            }
        },
        None => {},
    }
    match store.queue_ct_lag_alert(source, now_ms) {
        Err(error) => Err(CtError::Store(error)),
        Ok(()) => Ok(()),
    }
}

/// The key under which the sink takes an alert once.
pub open spec fn issuance_key(alert: crate::store::model::AlertView) -> Seq<char> {
    "ct:"@ + alert.source + ":"@ + crate::numbers::decimal_text(alert.id as nat)
}

/// The key under which the sink takes a lag alert once.
pub open spec fn lag_key(alert: crate::store::model::LagView) -> Seq<char> {
    "ct-lag:"@ + alert.source + ":"@ + crate::numbers::decimal_text(alert.id as nat)
}

/// What the sink is handed about an alert.
#[derive(Debug, PartialEq, Eq)]
pub struct Notice {
    pub key: String,
    pub kind: &'static str,
    pub source: String,
    pub subject: Subject,
}

/// What a notice is about.
#[derive(Debug, PartialEq, Eq)]
pub enum Subject {
    Issuance { position: u64, hostname: String, key_fingerprint: String },
    Lag { lag_seconds: u64 },
}

/// What a notice says.
#[verifier::ext_equal]
pub struct NoticeView {
    pub key: Seq<char>,
    pub kind: Seq<char>,
    pub source: Seq<char>,
    pub subject: SubjectView,
}

/// What a notice is about.
#[verifier::ext_equal]
pub enum SubjectView {
    Issuance { position: u64, hostname: Seq<char>, key_fingerprint: Seq<char> },
    Lag { lag_seconds: u64 },
}

impl View for Subject {
    type V = SubjectView;

    open spec fn view(&self) -> SubjectView {
        match *self {
            Subject::Issuance { position, hostname, key_fingerprint } => SubjectView::Issuance {
                position,
                hostname: hostname@,
                key_fingerprint: key_fingerprint@,
            },
            Subject::Lag { lag_seconds } => SubjectView::Lag { lag_seconds },
        }
    }
}

impl View for Notice {
    type V = NoticeView;

    open spec fn view(&self) -> NoticeView {
        NoticeView {
            key: self.key@,
            kind: self.kind@,
            source: self.source@,
            subject: self.subject@,
        }
    }
}

/// What the sink is handed about an unexpected issuance.
pub open spec fn issuance_notice(alert: crate::store::model::AlertView) -> NoticeView {
    NoticeView {
        key: issuance_key(alert),
        kind: "unexpected_issuance"@,
        source: alert.source,
        subject: SubjectView::Issuance {
            position: alert.position,
            hostname: alert.hostname,
            key_fingerprint: alert.fingerprint,
        },
    }
}

/// What the sink is handed about a silent feed.
pub open spec fn lag_notice(alert: crate::store::model::LagView) -> NoticeView {
    NoticeView {
        key: lag_key(alert),
        kind: "feed_lag"@,
        source: alert.source,
        subject: SubjectView::Lag { lag_seconds: alert.lag_seconds },
    }
}

/// Writes what the sink is handed about an unexpected issuance.
pub fn issuance_notice_of(alert: CtAlert) -> (notice: Notice)
    ensures
        notice@ == issuance_notice(alert@),
{
    Notice {
        key: issuance_key_of(&alert),
        kind: "unexpected_issuance",
        source: alert.source,
        subject: Subject::Issuance {
            position: alert.position,
            hostname: alert.hostname,
            key_fingerprint: alert.fingerprint,
        },
    }
}

/// Writes what the sink is handed about a silent feed.
pub fn lag_notice_of(alert: CtLagAlert) -> (notice: Notice)
    ensures
        notice@ == lag_notice(alert@),
{
    Notice {
        key: lag_key_of(&alert),
        kind: "feed_lag",
        source: alert.source,
        subject: Subject::Lag { lag_seconds: alert.lag_seconds },
    }
}

/// Writes the key under which the sink takes an alert once.
pub fn issuance_key_of(alert: &CtAlert) -> (key: String)
    ensures
        key@ == issuance_key(alert@),
{
    let head: String = joined("ct:", alert.source.as_str());
    let colon: String = joined(head.as_str(), ":");
    let number: String = to_decimal(alert.id);
    joined(colon.as_str(), number.as_str())
}

/// Writes the key under which the sink takes a lag alert once.
pub fn lag_key_of(alert: &CtLagAlert) -> (key: String)
    ensures
        key@ == lag_key(alert@),
{
    let head: String = joined("ct-lag:", alert.source.as_str());
    let colon: String = joined(head.as_str(), ":");
    let number: String = to_decimal(alert.id);
    joined(colon.as_str(), number.as_str())
}

/// What the answer of the sink means: an alert is handed over only where it was accepted.
pub fn sink_verdict(status: u16) -> (outcome: Result<(), CtError>)
    ensures
        outcome == if status == 202 {
            Ok(())
        } else {
            Err(CtError::SinkRejected)
        },
{
    if status == 202 {
        Ok(())
    } else {
        Err(CtError::SinkRejected)
    }
}

/// A round never moves the checkpoint past a gap: where every position up to every checkpoint
/// has been observed, it still has after any intake.
pub proof fn law_intake_leaves_no_gap(
    store: crate::store::model::StoreView,
    source: Seq<char>,
    entries: Seq<CtEntry>,
    now_ms: u64,
)
    requires
        crate::store::transparency::contiguous(store.ct),
        store.ct.checkpoints.dom().contains(source),
    ensures
        crate::store::transparency::contiguous(intake(store, source, entries, now_ms).0.ct),
    decreases entries.len(),
{
    if entries.len() > 0 && entries[0].position == store.ct.checkpoints[source].position + 1
        && valid_entry(source, entries[0]) {
        let entry = entries[0];
        let after = crate::store::transparency::recorded(
            store,
            source,
            entry.position,
            entry.hostname@,
            entry.key_fingerprint@,
            now_ms,
        );
        assert(crate::store::transparency::with_source(store, source, now_ms) == store);
        crate::store::transparency::law_feed_has_no_gaps(
            store,
            source,
            entry.position,
            entry.hostname@,
            entry.key_fingerprint@,
            now_ms,
            after,
            Ok(
                crate::store::transparency::is_expected(
                    store,
                    entry.hostname@,
                    entry.key_fingerprint@,
                ),
            ),
        );
        law_intake_leaves_no_gap(after, source, entries.drop_first(), now_ms);
    }
}

/// The checkpoint moves by as many positions as entries were taken in.
pub proof fn law_whole_batch_is_counted(
    store: crate::store::model::StoreView,
    source: Seq<char>,
    entries: Seq<CtEntry>,
    now_ms: u64,
)
    requires
        store.ct.checkpoints.dom().contains(source),
        intake(store, source, entries, now_ms).1 is Whole,
    ensures
        intake(store, source, entries, now_ms).0.ct.checkpoints[source].position
            == store.ct.checkpoints[source].position + entries.len(),
    decreases entries.len(),
{
    if entries.len() > 0 {
        law_whole_batch_is_counted(
            crate::store::transparency::recorded(
                store,
                source,
                entries[0].position,
                entries[0].hostname@,
                entries[0].key_fingerprint@,
                now_ms,
            ),
            source,
            entries.drop_first(),
            now_ms,
        );
    }
}

/// Whether entries follow the checkpoint of a feed one after the other, and are well-formed.
pub open spec fn follows(
    store: crate::store::model::StoreView,
    source: Seq<char>,
    entries: Seq<CtEntry>,
) -> bool {
    forall|i: int|
        0 <= i < entries.len() ==> (#[trigger] entries[i]).position
            == store.ct.checkpoints[source].position + 1 + i && valid_entry(source, entries[i])
}

/// Entries are taken in whole exactly where they follow the checkpoint and are well-formed.
pub proof fn law_following_batch_is_whole(
    store: crate::store::model::StoreView,
    source: Seq<char>,
    entries: Seq<CtEntry>,
    now_ms: u64,
)
    requires
        store.ct.checkpoints.dom().contains(source),
    ensures
        (intake(store, source, entries, now_ms).1 is Whole) == follows(store, source, entries),
    decreases entries.len(),
{
    if entries.len() > 0 {
        let entry = entries[0];
        let rest = entries.drop_first();
        if entry.position == store.ct.checkpoints[source].position + 1 && valid_entry(
            source,
            entry,
        ) {
            let next = crate::store::transparency::recorded(
                store,
                source,
                entry.position,
                entry.hostname@,
                entry.key_fingerprint@,
                now_ms,
            );
            law_following_batch_is_whole(next, source, rest, now_ms);
            if follows(store, source, entries) {
                assert forall|i: int| 0 <= i < rest.len() implies (#[trigger] rest[i]).position
                    == next.ct.checkpoints[source].position + 1 + i && valid_entry(
                    source,
                    rest[i],
                ) by {
                    assert(rest[i] == entries[i + 1]);
                }
            }
            if follows(next, source, rest) {
                assert forall|i: int| 0 <= i < entries.len() implies (
                #[trigger] entries[i]).position == store.ct.checkpoints[source].position + 1 + i
                    && valid_entry(source, entries[i]) by {
                    if i > 0 {
                        assert(rest[i - 1] == entries[i]);
                    }
                }
            }
        } else {
            assert(!(entries[0].position == store.ct.checkpoints[source].position + 1 + 0
                && valid_entry(source, entries[0])));
        }
    }
}

/// The alerts that entries of a feed lead to: one for each that was not expected, in order, and
/// numbered from `next` on.
pub open spec fn unexpected(
    store: crate::store::model::StoreView,
    source: Seq<char>,
    entries: Seq<CtEntry>,
    next: u64,
) -> Seq<crate::store::model::AlertView>
    decreases entries.len(),
{
    if entries.len() == 0 {
        Seq::empty()
    } else if crate::store::transparency::is_expected(
        store,
        entries[0].hostname@,
        entries[0].key_fingerprint@,
    ) {
        unexpected(store, source, entries.drop_first(), next)
    } else {
        seq![
            crate::store::model::AlertView {
                id: next,
                source,
                position: entries[0].position,
                hostname: entries[0].hostname@,
                fingerprint: entries[0].key_fingerprint@,
            },
        ] + unexpected(store, source, entries.drop_first(), (next + 1) as u64)
    }
}

/// Whole entries that were taken in leave an alert for each that was not expected and for no
/// other.
proof fn lemma_intake_alerts(
    base: crate::store::model::StoreView,
    store: crate::store::model::StoreView,
    source: Seq<char>,
    entries: Seq<CtEntry>,
    now_ms: u64,
)
    requires
        store.installations == base.installations,
        store.reservations == base.reservations,
        intake(store, source, entries, now_ms).1 is Whole,
    ensures
        ({
            let after = intake(store, source, entries, now_ms).0;
            &&& crate::store::alerts::undelivered(after.ct.alerts, source)
                == crate::store::alerts::undelivered(store.ct.alerts, source) + unexpected(
                base,
                source,
                entries,
                store.ct.next_alert,
            )
            &&& after.ct.lags == store.ct.lags
        }),
    decreases entries.len(),
{
    let pending = crate::store::alerts::undelivered(store.ct.alerts, source);
    if entries.len() == 0 {
        assert(pending + Seq::<crate::store::model::AlertView>::empty() =~= pending);
    } else {
        let entry = entries[0];
        let next = crate::store::transparency::recorded(
            store,
            source,
            entry.position,
            entry.hostname@,
            entry.key_fingerprint@,
            now_ms,
        );
        lemma_intake_alerts(base, next, source, entries.drop_first(), now_ms);
        let rest = unexpected(base, source, entries.drop_first(), next.ct.next_alert);
        assert(crate::store::transparency::is_expected(
            store,
            entry.hostname@,
            entry.key_fingerprint@,
        ) == crate::store::transparency::is_expected(
            base,
            entry.hostname@,
            entry.key_fingerprint@,
        ));
        if !crate::store::transparency::is_expected(store, entry.hostname@, entry.key_fingerprint@) {
            let row = next.ct.alerts.last();
            assert(next.ct.alerts.drop_last() =~= store.ct.alerts);
            assert(crate::store::alerts::undelivered(next.ct.alerts, source) == pending.push(
                row.0,
            ));
            assert(pending.push(row.0) + rest =~= pending + (seq![row.0] + rest));
        }
    }
}

/// A round with a batch that follows the checkpoint succeeds and moves the checkpoint to the last
/// position of the batch. To the alerts that were pending it adds one for each entry that was
/// not expected and for no other, and it leaves the lag alerts as they are.
pub proof fn law_round_takes_whole_batch(
    store: crate::store::model::StoreView,
    source: Seq<char>,
    batch: CtBatch,
    now_ms: u64,
)
    requires
        crate::store::transparency::valid_source(source),
        store.ct.checkpoints.dom().contains(source),
        fitting(batch, source),
        follows(store, source, batch.entries@),
    ensures
        ({
            let (after, outcome) = round_outcome(store, source, Some(batch), now_ms);
            &&& outcome == Ok::<(), CtError>(())
            &&& after.ct.checkpoints.dom().contains(source)
            &&& after.ct.checkpoints[source].position == store.ct.checkpoints[source].position
                + batch.entries@.len()
            &&& batch.entries@.len() > 0 ==> after.ct.checkpoints[source].position
                == batch.entries@.last().position
            &&& after.ct.checkpoints[source].observed_at_ms == now_ms
            &&& crate::store::alerts::undelivered(after.ct.alerts, source)
                == crate::store::alerts::undelivered(store.ct.alerts, source) + unexpected(
                store,
                source,
                batch.entries@,
                store.ct.next_alert,
            )
            &&& after.ct.lags == store.ct.lags
        }),
{
    law_following_batch_is_whole(store, source, batch.entries@, now_ms);
    law_whole_batch_is_counted(store, source, batch.entries@, now_ms);
    lemma_intake_alerts(store, store, source, batch.entries@, now_ms);
    lemma_intake_ends_at_last(store, source, batch.entries@, now_ms);
}

/// Whole entries that were taken in leave the checkpoint at the last of them.
proof fn lemma_intake_ends_at_last(
    store: crate::store::model::StoreView,
    source: Seq<char>,
    entries: Seq<CtEntry>,
    now_ms: u64,
)
    requires
        store.ct.checkpoints.dom().contains(source),
        intake(store, source, entries, now_ms).1 is Whole,
    ensures
        entries.len() > 0 ==> intake(store, source, entries, now_ms).0.ct.checkpoints[source].position
            == entries.last().position,
    decreases entries.len(),
{
    if entries.len() > 0 {
        let next = crate::store::transparency::recorded(
            store,
            source,
            entries[0].position,
            entries[0].hostname@,
            entries[0].key_fingerprint@,
            now_ms,
        );
        let rest = entries.drop_first();
        lemma_intake_ends_at_last(next, source, rest, now_ms);
        if rest.len() > 0 {
            assert(rest.last() == entries.last());
        }
    }
}

/// The alerts that are handed to the sink after a round.
pub open spec fn posted_alerts(store: crate::store::model::StoreView, source: Seq<char>) -> Seq<
    crate::store::model::AlertView,
> {
    crate::store::alerts::at_most(
        crate::store::alerts::undelivered(store.ct.alerts, source),
        DELIVERY_LIMIT as int,
    )
}

/// The lag alerts that are handed to the sink after a round.
pub open spec fn posted_lags(store: crate::store::model::StoreView, source: Seq<char>) -> Seq<
    crate::store::model::LagView,
> {
    crate::store::alerts::at_most(
        crate::store::alerts::undelivered_lags(store.ct.lags, source),
        DELIVERY_LIMIT as int,
    )
}

/// What the sink is handed after a round, in order.
pub open spec fn posted(store: crate::store::model::StoreView, source: Seq<char>) -> Seq<
    NoticeView,
> {
    posted_alerts(store, source).map_values(
        |alert: crate::store::model::AlertView| issuance_notice(alert),
    ) + posted_lags(store, source).map_values(
        |alert: crate::store::model::LagView| lag_notice(alert),
    )
}

/// The store after a sink has accepted all that it was handed.
pub open spec fn after_delivery(store: crate::store::model::StoreView, source: Seq<char>) -> (
    crate::store::model::StoreView) {
    crate::store::model::StoreView {
        ct: crate::store::model::CtView {
            alerts: crate::store::alerts::all_delivered(
                store.ct.alerts,
                posted_alerts(store, source),
            ),
            lags: crate::store::alerts::all_lags_delivered(
                store.ct.lags,
                posted_lags(store, source),
            ),
            ..store.ct
        },
        ..store
    }
}

/// Whether nothing of a feed is pending.
pub open spec fn nothing_pending(store: crate::store::model::StoreView, source: Seq<char>) -> bool {
    &&& crate::store::alerts::undelivered(store.ct.alerts, source).len() == 0
    &&& crate::store::alerts::undelivered_lags(store.ct.lags, source).len() == 0
}

/// A round and the deliveries after it, where these take all that is pending: a batch that
/// follows moves the checkpoint to its last position, the sink is handed what was pending and
/// then one alert for each entry that was not expected and for no other, and where it accepts,
/// nothing is pending.
pub proof fn law_unexpected_entries_are_delivered(
    store: crate::store::model::StoreView,
    source: Seq<char>,
    batch: CtBatch,
    now_ms: u64,
)
    requires
        crate::store::transparency::valid_source(source),
        store.ct.checkpoints.dom().contains(source),
        fitting(batch, source),
        follows(store, source, batch.entries@),
        crate::store::alerts::undelivered(store.ct.alerts, source).len() + unexpected(
            store,
            source,
            batch.entries@,
            store.ct.next_alert,
        ).len() <= DELIVERY_LIMIT,
        crate::store::alerts::undelivered_lags(store.ct.lags, source).len() <= DELIVERY_LIMIT,
    ensures
        ({
            let (after, outcome) = round_outcome(store, source, Some(batch), now_ms);
            let ended = after_delivery(after, source);
            &&& outcome == Ok::<(), CtError>(())
            &&& ended.ct.checkpoints[source].position == store.ct.checkpoints[source].position
                + batch.entries@.len()
            &&& batch.entries@.len() > 0 ==> ended.ct.checkpoints[source].position
                == batch.entries@.last().position
            &&& posted_alerts(after, source) == crate::store::alerts::undelivered(
                store.ct.alerts,
                source,
            ) + unexpected(store, source, batch.entries@, store.ct.next_alert)
            &&& posted_lags(after, source) == crate::store::alerts::undelivered_lags(
                store.ct.lags,
                source,
            )
            &&& nothing_pending(ended, source)
        }),
{
    let after = round_outcome(store, source, Some(batch), now_ms).0;
    law_round_takes_whole_batch(store, source, batch, now_ms);
    crate::store::alerts::law_delivery_leaves_no_alert(after.ct.alerts, source);
    crate::store::alerts::law_delivery_leaves_no_lag(after.ct.lags, source);
}

/// A feed that does not answer, or not fittingly, and has been silent for more than a quarter of
/// an hour leads to one lag alert in each window: the round leaves it pending behind those that
/// were, the sink is handed it, and where it accepts, no lag alert is pending, and no further
/// round in the same window without a fitting answer makes another.
pub proof fn law_silence_is_delivered_once(
    store: crate::store::model::StoreView,
    source: Seq<char>,
    batch: Option<CtBatch>,
    now_ms: u64,
    again: Option<CtBatch>,
    later_ms: u64,
)
    requires
        crate::store::transparency::valid_source(source),
        store.ct.checkpoints.dom().contains(source),
        store.ct.checkpoints[source].observed_at_ms + crate::store::transparency::FEED_LAG_MS
            < now_ms,
        batch matches Some(answer) ==> !fitting(answer, source),
        !crate::store::alerts::lag_queued(
            store.ct.lags,
            source,
            crate::store::alerts::lag_window(now_ms),
        ),
        crate::store::alerts::undelivered(store.ct.alerts, source).len() <= DELIVERY_LIMIT,
        crate::store::alerts::undelivered_lags(store.ct.lags, source).len() < DELIVERY_LIMIT,
        crate::store::alerts::lag_window(later_ms) == crate::store::alerts::lag_window(now_ms),
        again matches Some(answer) ==> !fitting(answer, source),
    ensures
        ({
            let (after, outcome) = round_outcome(store, source, batch, now_ms);
            let ended = after_delivery(after, source);
            &&& outcome == Ok::<(), CtError>(())
            &&& posted_lags(after, source) == crate::store::alerts::undelivered_lags(
                store.ct.lags,
                source,
            ).push(
                crate::store::model::LagView {
                    id: store.ct.next_alert,
                    source,
                    lag_seconds: crate::store::alerts::nearest_seconds(
                        now_ms - store.ct.checkpoints[source].observed_at_ms,
                    ) as u64,
                },
            )
            &&& posted_alerts(after, source) == crate::store::alerts::undelivered(
                store.ct.alerts,
                source,
            )
            &&& nothing_pending(ended, source)
            &&& round_outcome(ended, source, again, later_ms) == (ended, Ok::<(), CtError>(()))
        }),
{
    let after = round_outcome(store, source, batch, now_ms).0;
    let ended = after_delivery(after, source);
    let window = crate::store::alerts::lag_window(now_ms);
    assert(after == crate::store::alerts::lag_noticed(store, source, now_ms));
    assert(after.ct.lags.drop_last() =~= store.ct.lags);
    crate::store::alerts::law_silent_feed_is_alerted(store, source, now_ms);
    crate::store::alerts::law_delivery_leaves_no_alert(after.ct.alerts, source);
    crate::store::alerts::law_delivery_leaves_no_lag(after.ct.lags, source);
    assert(crate::store::alerts::lag_queued(ended.ct.lags, source, window));
}

/// There are no more alerts than entries.
proof fn lemma_unexpected_are_entries(
    store: crate::store::model::StoreView,
    source: Seq<char>,
    entries: Seq<CtEntry>,
    next: u64,
)
    ensures
        unexpected(store, source, entries, next).len() <= entries.len(),
    decreases entries.len(),
{
    if entries.len() > 0 {
        lemma_unexpected_are_entries(store, source, entries.drop_first(), next);
        lemma_unexpected_are_entries(store, source, entries.drop_first(), (next + 1) as u64);
    }
}

/// What the worker is for. Nothing was pending, and a batch comes that follows the checkpoint:
/// the round succeeds, the checkpoint is at the end of the batch, the sink is handed one
/// `unexpected_issuance` for each entry that was not expected and nothing else, and where it
/// accepts, nothing is pending. The feed then is down until more than a quarter of an hour has
/// passed: that round succeeds too, the sink is handed one `feed_lag` and nothing else, and where
/// it accepts, nothing is pending.
pub proof fn law_worker_reports_issuance_and_silence(
    store: crate::store::model::StoreView,
    source: Seq<char>,
    batch: CtBatch,
    now_ms: u64,
    later_ms: u64,
)
    requires
        crate::store::transparency::valid_source(source),
        store.ct.checkpoints.dom().contains(source),
        fitting(batch, source),
        follows(store, source, batch.entries@),
        nothing_pending(store, source),
        now_ms + crate::store::transparency::FEED_LAG_MS < later_ms,
        !crate::store::alerts::lag_queued(
            store.ct.lags,
            source,
            crate::store::alerts::lag_window(later_ms),
        ),
    ensures
        ({
            let (heard, first) = round_outcome(store, source, Some(batch), now_ms);
            let told = after_delivery(heard, source);
            let (missed, second) = round_outcome(told, source, None, later_ms);
            let ended = after_delivery(missed, source);
            &&& first == Ok::<(), CtError>(())
            &&& told.ct.checkpoints[source].position == store.ct.checkpoints[source].position
                + batch.entries@.len()
            &&& posted(heard, source) == unexpected(
                store,
                source,
                batch.entries@,
                store.ct.next_alert,
            ).map_values(|alert: crate::store::model::AlertView| issuance_notice(alert))
            &&& nothing_pending(told, source)
            &&& second == Ok::<(), CtError>(())
            &&& ended.ct.checkpoints == told.ct.checkpoints
            &&& posted(missed, source) == seq![
                lag_notice(
                    crate::store::model::LagView {
                        id: told.ct.next_alert,
                        source,
                        lag_seconds: crate::store::alerts::nearest_seconds(
                            later_ms - now_ms,
                        ) as u64,
                    },
                ),
            ]
            &&& nothing_pending(ended, source)
        }),
{
    let alerts = unexpected(store, source, batch.entries@, store.ct.next_alert);
    let heard = round_outcome(store, source, Some(batch), now_ms).0;
    let told = after_delivery(heard, source);
    let missed = round_outcome(told, source, None, later_ms).0;
    lemma_unexpected_are_entries(store, source, batch.entries@, store.ct.next_alert);
    law_round_takes_whole_batch(store, source, batch, now_ms);
    law_unexpected_entries_are_delivered(store, source, batch, now_ms);
    crate::store::alerts::law_delivery_leaves_no_lag(heard.ct.lags, source);
    assert(posted_lags(heard, source) =~= Seq::<crate::store::model::LagView>::empty());
    assert(posted_alerts(heard, source) =~= alerts);
    assert(posted(heard, source) =~= alerts.map_values(
        |alert: crate::store::model::AlertView| issuance_notice(alert),
    ));
    law_silence_is_delivered_once(told, source, None, later_ms, None, later_ms);
    assert(posted_alerts(missed, source) =~= Seq::<crate::store::model::AlertView>::empty());
    assert(posted(missed, source) =~= seq![
        lag_notice(
            crate::store::model::LagView {
                id: told.ct.next_alert,
                source,
                lag_seconds: crate::store::alerts::nearest_seconds(later_ms - now_ms) as u64,
            },
        ),
    ]);
}

/// An address of a feed or a sink is accepted exactly where it can be read and is of HTTPS, with a
/// host, without a user, a password, a query or a fragment, and where only an origin is asked for,
/// without a path. An origin is handed on as its scheme, host and port alone, and any other as it
/// was given.
pub proof fn law_endpoints_are_plain(url: Option<UrlView>, text: Seq<char>, origin_only: bool)
    ensures
        ({
            let outcome = endpoint_outcome(url, text, origin_only);
            let plain = url is Some && url->0.scheme == "https"@ && url->0.host is Some
                && url->0.username == Seq::<char>::empty() && url->0.password is None
                && url->0.query is None && url->0.fragment is None && (origin_only ==> url->0.path
                == "/"@);
            &&& outcome is Ok <==> plain
            &&& url is None ==> outcome->Err_0 is InvalidUrl
            &&& url is Some && !plain ==> outcome->Err_0 is InvalidEndpoint
            &&& plain && !origin_only ==> outcome->Ok_0 == text
            &&& plain && origin_only && url->0.port is None ==> outcome->Ok_0 == "https://"@
                + url->0.host->0
            &&& plain && origin_only && url->0.port is Some ==> outcome->Ok_0 == "https://"@
                + url->0.host->0 + (":"@ + crate::numbers::decimal_text(url->0.port->0 as nat))
        }),
{
    if url is Some {
        if url->0.username.len() == 0 {
            assert(url->0.username =~= Seq::<char>::empty());
        }
        if url->0.host is Some {
            let start = "https://"@ + url->0.host->0;
            assert(start + Seq::<char>::empty() =~= start);
        }
    }
}

/// A token of an endpoint is 16 to 128 letters, digits, hyphens and underscores.
pub proof fn law_endpoint_token_form(token: Seq<char>)
    ensures
        endpoint_token(token) <==> {
            &&& 16 <= token.len() <= 128
            &&& forall|i: int|
                0 <= i < token.len() ==> ('0' <= #[trigger] token[i] <= '9' || 'a' <= token[i]
                    <= 'z' || 'A' <= token[i] <= 'Z' || token[i] == '-' || token[i] == '_')
        },
{
    if endpoint_token(token) {
        assert forall|i: int| 0 <= i < token.len() implies ('0' <= #[trigger] token[i] <= '9'
            || 'a' <= token[i] <= 'z' || 'A' <= token[i] <= 'Z' || token[i] == '-' || token[i]
            == '_') by {
            assert(CharClass::UrlSafe.holds(token[i]));
        }
    }
}

/// Whether an entry can be taken in behind a position: it has the next one, a relay hostname and
/// the fingerprint of a key.
pub open spec fn next_entry(entry: CtEntry, position: int) -> bool {
    entry.position == position + 1 && well_formed_entry(entry)
}

/// Whether an entry has a relay hostname, the fingerprint of a key and a position that can be
/// kept.
pub open spec fn well_formed_entry(entry: CtEntry) -> bool {
    crate::protocol::valid_hostname(entry.hostname@) && crate::store::duties::key_name(
        entry.key_fingerprint@,
    ) && entry.position <= crate::store::model::MAX_GENERATION
}

/// The entries of a batch are taken in one after the other, from the first on and as far as each
/// is the next one and well-formed. Each is kept as it was given, with whether its key was
/// expected for its hostname, and moves the checkpoint by one. The batch is whole where all are
/// taken in, has a gap where one is not the next, and is refused where that one is malformed.
/// Installations, reservations and what is owed stay.
pub proof fn law_entries_are_taken_in_order(
    store: crate::store::model::StoreView,
    source: Seq<char>,
    entries: Seq<CtEntry>,
    now_ms: u64,
)
    requires
        store.ct.checkpoints.dom().contains(source),
        crate::store::duties::feed_name(source),
        store.ct.checkpoints[source].position + entries.len() <= u64::MAX,
    ensures
        ({
            let (after, end) = intake(store, source, entries, now_ms);
            let from = store.ct.checkpoints[source].position as int;
            let taken = after.ct.checkpoints[source].position - from;
            let had = store.ct.observations.len() as int;
            &&& 0 <= taken <= entries.len()
            &&& forall|i: int| 0 <= i < taken ==> next_entry(#[trigger] entries[i], from + i)
            &&& after.ct.observations.len() == had + taken
            &&& after.ct.observations.take(had) == store.ct.observations
            &&& forall|i: int|
                0 <= i < taken ==> {
                    let row = #[trigger] after.ct.observations[had + i];
                    &&& row.source == source
                    &&& row.position == from + 1 + i
                    &&& row.hostname == entries[i].hostname@
                    &&& row.fingerprint == entries[i].key_fingerprint@
                    &&& row.expected == crate::store::effects::expects(
                        store,
                        entries[i].hostname@,
                        entries[i].key_fingerprint@,
                    )
                }
            &&& end is Whole <==> taken == entries.len()
            &&& end is Gap ==> taken < entries.len() && entries[taken].position != from + taken + 1
            &&& end is Refused ==> taken < entries.len() && entries[taken].position == from + taken
                + 1 && !well_formed_entry(entries[taken])
            &&& after.installations == store.installations
            &&& after.reservations == store.reservations
            &&& after.outbox == store.outbox
            &&& after.operations == store.operations
        }),
    decreases entries.len(),
{
    let had = store.ct.observations.len() as int;
    let from = store.ct.checkpoints[source].position as int;
    let (after, end) = intake(store, source, entries, now_ms);
    crate::store::duties::law_feeds_and_keys_are_named(source);
    if entries.len() == 0 {
        assert(after.ct.observations.take(had) =~= store.ct.observations);
    } else {
        let entry = entries[0];
        crate::store::duties::law_feeds_and_keys_are_named(entry.key_fingerprint@);
        if entry.position == from + 1 && valid_entry(source, entry) {
            crate::store::effects::law_expected_is_in_the_inventory(
                store,
                entry.hostname@,
                entry.key_fingerprint@,
            );
            let next = crate::store::transparency::recorded(
                store,
                source,
                entry.position,
                entry.hostname@,
                entry.key_fingerprint@,
                now_ms,
            );
            let rest = entries.drop_first();
            law_entries_are_taken_in_order(next, source, rest, now_ms);
            let taken = after.ct.checkpoints[source].position - from;
            assert(after.ct.observations.take(had) =~= store.ct.observations) by {
                assert forall|i: int| 0 <= i < had implies after.ct.observations[i]
                    == store.ct.observations[i] by {
                    assert(after.ct.observations.take(had + 1)[i] == next.ct.observations[i]);
                }
            }
            assert(after.ct.observations[had] == next.ct.observations[had]) by {
                assert(after.ct.observations.take(had + 1)[had] == next.ct.observations[had]);
            }
            assert forall|i: int| 0 <= i < taken implies next_entry(#[trigger] entries[i], from + i)
                by {
                if i > 0 {
                    assert(rest[i - 1] == entries[i]);
                }
            }
            assert forall|i: int| 0 <= i < taken implies {
                let row = #[trigger] after.ct.observations[had + i];
                &&& row.source == source
                &&& row.position == from + 1 + i
                &&& row.hostname == entries[i].hostname@
                &&& row.fingerprint == entries[i].key_fingerprint@
                &&& row.expected == crate::store::effects::expects(
                    store,
                    entries[i].hostname@,
                    entries[i].key_fingerprint@,
                )
            } by {
                if i > 0 {
                    assert(rest[i - 1] == entries[i]);
                    let row = after.ct.observations[had + 1 + (i - 1)];
                    assert(row.hostname == rest[i - 1].hostname@);
                    lemma_expects_alike(
                        store,
                        next,
                        entries[i].hostname@,
                        entries[i].key_fingerprint@,
                    );
                }
            }
        } else {
            assert(after.ct.observations.take(had) =~= store.ct.observations);
        }
    }
}

proof fn lemma_expects_alike(
    one: crate::store::model::StoreView,
    other: crate::store::model::StoreView,
    hostname: Seq<char>,
    fingerprint: Seq<char>,
)
    requires
        one.installations == other.installations,
        one.reservations == other.reservations,
    ensures
        crate::store::effects::expects(one, hostname, fingerprint)
            == crate::store::effects::expects(other, hostname, fingerprint),
{
}

/// A round on a feed that has no name or no checkpoint is refused and changes nothing. One without
/// an answer, or with an answer of another feed or of more than a hundred entries, takes nothing
/// in; every other takes in what its entries come to, and is refused only where one of these is
/// malformed.
pub proof fn law_round_takes_what_fits(
    store: crate::store::model::StoreView,
    source: Seq<char>,
    batch: Option<CtBatch>,
    now_ms: u64,
)
    ensures
        ({
            let (after, outcome) = round_outcome(store, source, batch, now_ms);
            let named = crate::store::duties::feed_name(source);
            let followed = store.ct.checkpoints.dom().contains(source);
            let fits = batch is Some && batch->0.source@ == source && batch->0.entries@.len()
                <= 100;
            let (taken, end) = intake(store, source, batch->0.entries@, now_ms);
            &&& !named ==> after == store && outcome == Err::<(), CtError>(
                CtError::Store(StoreError::InvalidRequest),
            )
            &&& named && !followed ==> after == store && outcome == Err::<(), CtError>(
                CtError::MissingCheckpoint,
            )
            &&& named && followed && !fits ==> {
                &&& outcome is Ok
                &&& after.ct.checkpoints == store.ct.checkpoints
                &&& after.ct.observations == store.ct.observations
                &&& after.ct.alerts == store.ct.alerts
            }
            &&& named && followed && fits ==> {
                &&& outcome is Err <==> end is Refused
                &&& after.ct.observations == taken.ct.observations
                &&& after.ct.alerts == taken.ct.alerts
                &&& after.ct.checkpoints[source].position == taken.ct.checkpoints[source].position
                &&& end is Whole ==> after.ct.checkpoints[source].observed_at_ms == now_ms
            }
        }),
{
    crate::store::duties::law_feeds_and_keys_are_named(source);
}

/// A notice about an issuance names the feed, the position, the hostname and the key, one about a
/// silence the feed and its length; both carry a key of their own that is made of the feed and the
/// number of the alert.
pub proof fn law_notices_say_what_happened(
    alert: crate::store::model::AlertView,
    lag: crate::store::model::LagView,
)
    ensures
        ({
            let notice = issuance_notice(alert);
            &&& notice.kind == "unexpected_issuance"@
            &&& notice.source == alert.source
            &&& notice.key == "ct:"@ + alert.source + ":"@ + crate::numbers::decimal_text(
                alert.id as nat,
            )
            &&& notice.subject matches SubjectView::Issuance {
                position,
                hostname,
                key_fingerprint,
            } && position == alert.position && hostname == alert.hostname && key_fingerprint
                == alert.fingerprint
        }),
        ({
            let notice = lag_notice(lag);
            &&& notice.kind == "feed_lag"@
            &&& notice.source == lag.source
            &&& notice.key == "ct-lag:"@ + lag.source + ":"@ + crate::numbers::decimal_text(
                lag.id as nat,
            )
            &&& notice.subject == (SubjectView::Lag { lag_seconds: lag.lag_seconds })
        }),
{
}

} // verus!
