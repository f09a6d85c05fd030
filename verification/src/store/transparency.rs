//! Certificate transparency: expected certificates, observed ones, and the alerts about the
//! difference.

use crate::ids::Uuid;
use crate::protocol::{validate_hostname, AllocationState, CertificateMetadata};
use crate::store::model::{
    AlertRow, AuditEvent, Checkpoint, CtAlert, CtObservation, ExpectedCertificate, Installation,
    Store, StoreError, MAX_GENERATION,
};
use crate::text::{chars_of, range_in, same_text, CharClass};
use vstd::prelude::*;

verus! {

/// How long a feed may be silent before an alert is due, in milliseconds.
pub const FEED_LAG_MS: u64 = 900_000;

/// A key fingerprint: 64 hexadecimal digits.
pub open spec fn valid_fingerprint(value: Seq<char>) -> bool {
    value.len() == 64 && crate::text::all_in(value, CharClass::Hex)
}

/// The name of a feed: one to 64 letters, digits and hyphens.
pub open spec fn valid_source(source: Seq<char>) -> bool {
    1 <= source.len() <= 64 && crate::text::all_in(source, CharClass::Label)
}

/// Accepts exactly the key fingerprints.
pub fn validate_fingerprint(value: &str) -> (outcome: Result<(), StoreError>)
    ensures
        outcome == if valid_fingerprint(value@) {
            Ok::<(), StoreError>(())
        } else {
            Err(StoreError::InvalidRequest)
        },
{
    let chars: Vec<char> = chars_of(value);
    proof {
        assert(chars@.subrange(0, chars@.len() as int) =~= value@);
    }
    if chars.len() != 64 || !range_in(&chars, 0, chars.len(), CharClass::Hex) {
        return Err(StoreError::InvalidRequest);
    }
    Ok(())
}

/// Accepts exactly the names of feeds.
pub fn validate_source(source: &str) -> (outcome: Result<(), StoreError>)
    ensures
        outcome == if valid_source(source@) {
            Ok::<(), StoreError>(())
        } else {
            Err(StoreError::InvalidRequest)
        },
{
    let chars: Vec<char> = chars_of(source);
    proof {
        assert(chars@.subrange(0, chars@.len() as int) =~= source@);
    }
    if chars.len() < 1 || chars.len() > 64 || !range_in(&chars, 0, chars.len(), CharClass::Label) {
        return Err(StoreError::InvalidRequest);
    }
    Ok(())
}

/// The store with a feed that has not been read, unless it is known.
pub open spec fn with_source(
    store: crate::store::model::StoreView,
    source: Seq<char>,
    now_ms: u64,
) -> crate::store::model::StoreView {
    if store.ct.checkpoints.dom().contains(source) {
        store
    } else {
        crate::store::model::StoreView {
            ct: crate::store::model::CtView {
                checkpoints: store.ct.checkpoints.insert(
                    source,
                    Checkpoint { position: 0, observed_at_ms: now_ms },
                ),
                ..store.ct
            },
            ..store
        }
    }
}

/// The store with a changed checkpoint of a feed.
pub open spec fn with_checkpoint(
    store: crate::store::model::StoreView,
    source: Seq<char>,
    checkpoint: Checkpoint,
) -> crate::store::model::StoreView {
    crate::store::model::StoreView {
        ct: crate::store::model::CtView {
            checkpoints: store.ct.checkpoints.insert(source, checkpoint),
            ..store.ct
        },
        ..store
    }
}

/// Whether a position of a feed was observed.
pub open spec fn seen(
    ct: crate::store::model::CtView,
    i: int,
    source: Seq<char>,
    position: u64,
) -> bool {
    &&& 0 <= i < ct.observations.len()
    &&& ct.observations[i].source == source
    &&& ct.observations[i].position == position
}

/// The installation that a hostname is reserved for.
pub open spec fn owner(store: crate::store::model::StoreView, hostname: Seq<char>) -> Option<Uuid> {
    if store.reservations.dom().contains(hostname) {
        Some(store.reservations[hostname])
    } else {
        None
    }
}

/// Whether a certificate of an installation was reported as its own.
pub open spec fn listed(
    row: crate::store::model::InstallationView,
    fingerprint: Seq<char>,
) -> bool {
    exists|i: int|
        0 <= i < row.inventory.len() && (#[trigger] row.inventory[i]).fingerprint == fingerprint
}

/// Whether an issuance was expected: the hostname is reserved for an installation that has
/// reported the key as its own.
pub open spec fn is_expected(
    store: crate::store::model::StoreView,
    hostname: Seq<char>,
    fingerprint: Seq<char>,
) -> bool {
    match owner(store, hostname) {
        Some(id) => listed(store.installations[id], fingerprint),
        None => false,
    }
}

/// The store after a new position of a feed was observed: the observation is kept, an
/// unexpected one becomes an alert, and the checkpoint moves on.
pub open spec fn recorded(
    store: crate::store::model::StoreView,
    source: Seq<char>,
    position: u64,
    hostname: Seq<char>,
    fingerprint: Seq<char>,
    now_ms: u64,
) -> crate::store::model::StoreView {
    let expected = is_expected(store, hostname, fingerprint);
    let installation_id = owner(store, hostname);
    let noted = match installation_id {
        Some(id) => if expected {
            store
        } else {
            store.noted(id, None, AuditEvent::UnexpectedCt)
        },
        None => store,
    };
    (crate::store::model::StoreView {
        ct: crate::store::model::CtView {
            checkpoints: store.ct.checkpoints.insert(
                source,
                Checkpoint { position, observed_at_ms: now_ms },
            ),
            observations: store.ct.observations.push(
                crate::store::model::ObservationView {
                    source,
                    position,
                    installation_id,
                    hostname,
                    fingerprint,
                    expected,
                },
            ),
            alerts: if expected {
                store.ct.alerts
            } else {
                store.ct.alerts.push(
                    (
                        crate::store::model::AlertView {
                            id: store.ct.next_alert,
                            source,
                            position,
                            hostname,
                            fingerprint,
                        },
                        false,
                    ),
                )
            },
            next_alert: if expected {
                store.ct.next_alert
            } else {
                (store.ct.next_alert + 1) as u64
            },
            ..store.ct
        },
        ..noted
    }).advanced()
}

/// What an observation of a feed does and answers: whether the issuance was expected. Positions
/// are contiguous; an earlier one is answered as it was when it is the same, and refused when
/// it is not.
pub open spec fn is_observation(
    before: crate::store::model::StoreView,
    source: Seq<char>,
    position: u64,
    hostname: Seq<char>,
    fingerprint: Seq<char>,
    now_ms: u64,
    after: crate::store::model::StoreView,
    outcome: Result<bool, StoreError>,
) -> bool {
    if !crate::protocol::valid_hostname(hostname) || !valid_fingerprint(fingerprint)
        || !valid_source(source) || position == 0 || position > MAX_GENERATION {
        outcome == Err::<bool, StoreError>(StoreError::InvalidRequest) && after == before
    } else {
        let start = with_source(before, source, now_ms);
        let current = start.ct.checkpoints[source].position;
        if position <= current {
            &&& after == before
            &&& match outcome {
                Ok(expected) => exists|i: int|
                    #[trigger] seen(before.ct, i, source, position)
                        && before.ct.observations[i].hostname == hostname
                        && before.ct.observations[i].fingerprint == fingerprint
                        && before.ct.observations[i].expected == expected,
                Err(error) => error == StoreError::Conflict && forall|i: int|
                    #[trigger] seen(before.ct, i, source, position)
                        ==> before.ct.observations[i].hostname != hostname
                        || before.ct.observations[i].fingerprint != fingerprint,
            }
        } else if position != current + 1 {
            outcome == Err::<bool, StoreError>(StoreError::Conflict) && after == before
        } else {
            &&& outcome == Ok::<bool, StoreError>(is_expected(start, hostname, fingerprint))
            &&& after == recorded(start, source, position, hostname, fingerprint, now_ms)
        }
    }
}

/// Every position of every feed up to its checkpoint has been observed.
pub open spec fn contiguous(ct: crate::store::model::CtView) -> bool {
    forall|source: Seq<char>, position: u64|
        #![trigger position_observed(ct, source, position)]
        ct.checkpoints.dom().contains(source) && 1 <= position
            <= ct.checkpoints[source].position ==> position_observed(ct, source, position)
}

/// A position of a feed has been observed.
pub open spec fn position_observed(
    ct: crate::store::model::CtView,
    source: Seq<char>,
    position: u64,
) -> bool {
    exists|i: int| #[trigger] seen(ct, i, source, position)
}

/// Observation leaves no gap: where every position up to every checkpoint has been observed, it
/// still has after any further observation.
pub proof fn law_feed_has_no_gaps(
    before: crate::store::model::StoreView,
    source: Seq<char>,
    position: u64,
    hostname: Seq<char>,
    fingerprint: Seq<char>,
    now_ms: u64,
    after: crate::store::model::StoreView,
    outcome: Result<bool, StoreError>,
)
    requires
        contiguous(before.ct),
        is_observation(
            before,
            source,
            position,
            hostname,
            fingerprint,
            now_ms,
            after,
            outcome,
        ),
    ensures
        contiguous(after.ct),
{
    let start = with_source(before, source, now_ms);
    assert forall|name: Seq<char>, at: u64|
        #![trigger position_observed(after.ct, name, at)]
        after.ct.checkpoints.dom().contains(name) && 1 <= at
            <= after.ct.checkpoints[name].position implies position_observed(after.ct, name, at) by {
        if after == before {
            assert(position_observed(before.ct, name, at));
        } else if name == source && at == position {
            let last = start.ct.observations.len() as int;
            assert(seen(after.ct, last, source, position));
        } else {
            assert(start.ct.checkpoints[name].position >= at);
            assert(before.ct.checkpoints.dom().contains(name));
            assert(position_observed(before.ct, name, at));
            let i = choose|i: int| #[trigger] seen(before.ct, i, name, at);
            assert(seen(after.ct, i, name, at));
        }
    }
}

/// An observation that is reported again is answered as it was and changes nothing: there is no
/// second alert about it.
pub proof fn law_observation_is_idempotent(
    before: crate::store::model::StoreView,
    source: Seq<char>,
    position: u64,
    hostname: Seq<char>,
    fingerprint: Seq<char>,
    now_ms: u64,
    after: crate::store::model::StoreView,
    outcome: Result<bool, StoreError>,
    later_ms: u64,
    repeated: crate::store::model::StoreView,
    answer: Result<bool, StoreError>,
)
    requires
        after.valid(),
        outcome is Ok,
        is_observation(
            before,
            source,
            position,
            hostname,
            fingerprint,
            now_ms,
            after,
            outcome,
        ),
        is_observation(
            after,
            source,
            position,
            hostname,
            fingerprint,
            later_ms,
            repeated,
            answer,
        ),
    ensures
        repeated == after,
        answer == outcome,
{
    let start = with_source(before, source, now_ms);
    let current = start.ct.checkpoints[source].position;
    let first: int = if position <= current {
        choose|i: int| #[trigger]
            seen(before.ct, i, source, position) && before.ct.observations[i].hostname == hostname
                && before.ct.observations[i].fingerprint == fingerprint
                && before.ct.observations[i].expected == outcome->Ok_0
    } else {
        start.ct.observations.len() as int
    };
    assert(seen(after.ct, first, source, position));
    assert(after.ct.observations[first].expected == outcome->Ok_0);
    assert forall|i: int| #[trigger] seen(after.ct, i, source, position) implies i == first by {
        if i < first {
            assert(after.ct.observations[i].source != after.ct.observations[first].source
                || after.ct.observations[i].position != after.ct.observations[first].position);
        }
        if first < i {
            assert(after.ct.observations[first].source != after.ct.observations[i].source
                || after.ct.observations[first].position != after.ct.observations[i].position);
        }
    }
}

/// An issuance that is not expected is never passed over: its first observation adds exactly
/// one alert that names the feed, the position, the hostname and the key, and has not been
/// delivered.
pub proof fn law_unexpected_issuance_is_alerted(
    before: crate::store::model::StoreView,
    source: Seq<char>,
    position: u64,
    hostname: Seq<char>,
    fingerprint: Seq<char>,
    now_ms: u64,
    after: crate::store::model::StoreView,
)
    requires
        is_observation(
            before,
            source,
            position,
            hostname,
            fingerprint,
            now_ms,
            after,
            Ok(false),
        ),
        after.ct.observations != before.ct.observations,
    ensures
        after.ct.alerts.len() == before.ct.alerts.len() + 1,
        after.ct.alerts.drop_last() == before.ct.alerts,
        after.ct.alerts.last().0.source == source,
        after.ct.alerts.last().0.position == position,
        after.ct.alerts.last().0.hostname == hostname,
        after.ct.alerts.last().0.fingerprint == fingerprint,
        !after.ct.alerts.last().1,
{
    assert(after.ct.alerts.drop_last() =~= before.ct.alerts);
}

/// Whether the report of a certificate is well-formed.
pub open spec fn valid_report(certificate: CertificateMetadata) -> bool {
    &&& crate::protocol::valid_hostname(certificate.hostname@)
    &&& valid_fingerprint(certificate.key_fingerprint@)
    &&& 1 <= vstd::utf8::encode_utf8(certificate.lineage@).len() <= 128
    &&& certificate.not_after_ms > certificate.not_before_ms
}

/// What the report of a certificate does and answers: it counts for the installation that has
/// exactly this hostname and ACME account, once for each key.
pub open spec fn report_outcome(
    store: crate::store::model::StoreView,
    id: Uuid,
    certificate: CertificateMetadata,
) -> (crate::store::model::StoreView, Result<(), StoreError>) {
    if !valid_report(certificate) {
        (store, Err(StoreError::InvalidRequest))
    } else if !store.dns_ready(id) || store.installations[id].hostname != certificate.hostname@
        || store.installations[id].acme_account_uri != Some(certificate.acme_account_uri@) {
        (store, Err(StoreError::Conflict))
    } else {
        let row = store.installations[id];
        let kept = if listed(row, certificate.key_fingerprint@) {
            row
        } else {
            crate::store::model::InstallationView {
                inventory: row.inventory.push(
                    crate::store::model::CertificateView {
                        fingerprint: certificate.key_fingerprint@,
                        lineage: certificate.lineage@,
                        not_before_ms: certificate.not_before_ms,
                        not_after_ms: certificate.not_after_ms,
                    },
                ),
                ..row
            }
        };
        (
            store.with_row(id, kept).noted(id, None, AuditEvent::CertificateExpected).advanced(),
            Ok(()),
        )
    }
}

/// Whether a certificate was reported, in the row of an installation.
fn is_listed(row: &Installation, fingerprint: &str) -> (found: bool)
    ensures
        found == listed(row@, fingerprint@),
{
    let mut i: usize = 0;
    while i < row.inventory.len()
        invariant
            i <= row.inventory@.len(),
            forall|j: int|
                0 <= j < i ==> (#[trigger] row@.inventory[j]).fingerprint != fingerprint@,
        decreases row.inventory@.len() - i,
    {
        proof {
            assert(row@.inventory[i as int] == row.inventory@[i as int]@);
        }
        if same_text(row.inventory[i].fingerprint.as_str(), fingerprint) {
            return true;
        }
        i += 1;
    }
    false
}

impl Store {
    /// Begins to follow a feed.
    pub fn ensure_ct_source(&mut self, source: &str, now_ms: u64) -> (outcome: Result<
        (),
        StoreError,
    >)
        requires
            old(self).well_formed(),
        ensures
            final(self).well_formed(),
            if valid_source(source@) {
                &&& outcome == Ok::<(), StoreError>(())
                &&& final(self)@ == with_source(old(self)@, source@, now_ms)
            } else {
                &&& outcome == Err::<(), StoreError>(StoreError::InvalidRequest)
                &&& final(self)@ == old(self)@
            },
            final(self).installations == old(self).installations,
            final(self).operations == old(self).operations,
            final(self).revision == old(self).revision,
    {
        match validate_source(source) {
            Err(error) => {
                return Err(error);
            },
            Ok(()) => {},
        }
        if self.ct.checkpoints.get(source).is_none() {
            let _ = self.ct.checkpoints.insert(
                source.to_owned(),
                Checkpoint { position: 0, observed_at_ms: now_ms },
            );
        }
        Ok(())
    }

    /// How far a feed has been read.
    pub fn ct_checkpoint(&self, source: &str) -> (outcome: Result<Option<u64>, StoreError>)
        ensures
            outcome == if !valid_source(source@) {
                Err(StoreError::InvalidRequest)
            } else if self@.ct.checkpoints.dom().contains(source@) {
                Ok(Some(self@.ct.checkpoints[source@].position))
            } else {
                Ok(None)
            },
    {
        match validate_source(source) {
            Err(error) => {
                return Err(error);
            },
            Ok(()) => {},
        }
        match self.ct.checkpoints.get(source) {
            Some(checkpoint) => Ok(Some(checkpoint.position)),
            None => Ok(None),
        }
    }

    /// Takes note that a feed has answered with nothing new.
    pub fn mark_ct_feed_healthy(&mut self, source: &str, position: u64, now_ms: u64) -> (outcome:
        Result<(), StoreError>)
        requires
            old(self).well_formed(),
        ensures
            final(self).well_formed(),
            if !valid_source(source@) {
                &&& outcome == Err::<(), StoreError>(StoreError::InvalidRequest)
                &&& final(self)@ == old(self)@
            } else if old(self)@.ct.checkpoints.dom().contains(source@)
                && old(self)@.ct.checkpoints[source@].position == position {
                &&& outcome == Ok::<(), StoreError>(())
                &&& final(self)@ == with_checkpoint(
                    old(self)@,
                    source@,
                    Checkpoint { position, observed_at_ms: now_ms },
                )
            } else {
                &&& outcome == Err::<(), StoreError>(StoreError::Conflict)
                &&& final(self)@ == old(self)@
            },
    {
        match validate_source(source) {
            Err(error) => {
                return Err(error);
            },
            Ok(()) => {},
        }
        let known: bool = match self.ct.checkpoints.get(source) {
            Some(checkpoint) => checkpoint.position == position,
            None => false,
        };
        if !known {
            return Err(StoreError::Conflict);
        }
        let _ = self.ct.checkpoints.insert(
            source.to_owned(),
            Checkpoint { position, observed_at_ms: now_ms },
        );
        Ok(())
    }

    /// Takes the report of a certificate that Broker holds; its key never enters the relay.
    pub fn record_expected_certificate(&mut self, id: Uuid, certificate: &CertificateMetadata) -> (outcome:
        Result<(), StoreError>)
        requires
            old(self).well_formed(),
            old(self).has_room(1),
        ensures
            final(self).well_formed(),
            (final(self)@, outcome) == report_outcome(old(self)@, id, *certificate),
    {
        let lineage_size: usize = certificate.lineage.as_str().as_bytes().len();
        if validate_hostname(certificate.hostname.as_str()).is_err() || validate_fingerprint(
            certificate.key_fingerprint.as_str(),
        ).is_err() || lineage_size < 1 || lineage_size > 128 || certificate.not_after_ms
            <= certificate.not_before_ms {
            return Err(StoreError::InvalidRequest);
        }
        let known: bool = match self.installations.get(id) {
            Some(row) => {
                proof {
                    assert(row@ == self@.installations[id]);
                }
                let bound: bool = match &row.acme_account_uri {
                    Some(account) => same_text(
                        account.as_str(),
                        certificate.acme_account_uri.as_str(),
                    ),
                    None => false,
                };
                if row.state != AllocationState::DnsReady || !same_text(
                    row.hostname.as_str(),
                    certificate.hostname.as_str(),
                ) || !bound {
                    return Err(StoreError::Conflict);
                }
                is_listed(row, certificate.key_fingerprint.as_str())
            },
            None => {
                return Err(StoreError::Conflict);
            },
        };
        let ghost before = old(self)@.installations[id];
        let ghost target = report_outcome(old(self)@, id, *certificate).0.installations[id];
        proof {
            assert(old(self)@.installations.dom().contains(id));
            assert(before.valid());
        }
        if !known {
            match self.installations.get_mut(id) {
                Some(row) => {
                    row.inventory.push(
                        ExpectedCertificate {
                            fingerprint: certificate.key_fingerprint.clone(),
                            lineage: certificate.lineage.clone(),
                            not_before_ms: certificate.not_before_ms,
                            not_after_ms: certificate.not_after_ms,
                        },
                    );
                    proof {
                        assert(row@.inventory =~= target.inventory);
                    }
                },
                None => {},
            }
        }
        proof {
            assert forall|i: int, j: int| 0 <= i < j < target.inventory.len() implies (
            #[trigger] target.inventory[i]).fingerprint != (
            #[trigger] target.inventory[j]).fingerprint by {
                assert(target.inventory[i] == before.inventory[i]);
                if j < before.inventory.len() {
                    assert(target.inventory[j] == before.inventory[j]);
                }
            }
            assert(target.valid());
            assert(self@.installations =~= old(self)@.installations.insert(id, target));
        }
        self.note(id, None, AuditEvent::CertificateExpected);
        self.advance();
        Ok(())
    }

    /// Where a position of a feed stands among the observations.
    fn find_observation(&self, source: &str, position: u64) -> (found: Option<usize>)
        ensures
            match found {
                Some(i) => seen(self@.ct, i as int, source@, position) && i
                    < self.ct.observations@.len(),
                None => forall|i: int| !#[trigger] seen(self@.ct, i, source@, position),
            },
    {
        let mut i: usize = 0;
        while i < self.ct.observations.len()
            invariant
                i <= self.ct.observations@.len(),
                forall|j: int| 0 <= j < i ==> !#[trigger] seen(self@.ct, j, source@, position),
            decreases self.ct.observations@.len() - i,
        {
            proof {
                assert(self@.ct.observations[i as int] == self.ct.observations@[i as int]@);
            }
            if self.ct.observations[i].position == position && same_text(
                self.ct.observations[i].source.as_str(),
                source,
            ) {
                return Some(i);
            }
            i += 1;
        }
        None
    }

    /// Takes in what a feed shows at its next position: contiguous positions and validated
    /// fingerprints. Issuance that is not expected becomes a durable alert.
    pub fn observe_ct(
        &mut self,
        source: &str,
        position: u64,
        hostname: &str,
        fingerprint: &str,
        now_ms: u64,
    ) -> (outcome: Result<bool, StoreError>)
        requires
            old(self).well_formed(),
            old(self).has_room(1),
            old(self).ct.next_alert < u64::MAX,
        ensures
            final(self).well_formed(),
            is_observation(
                old(self)@,
                source@,
                position,
                hostname@,
                fingerprint@,
                now_ms,
                final(self)@,
                outcome,
            ),
    {
        if validate_hostname(hostname).is_err() || validate_fingerprint(fingerprint).is_err()
            || validate_source(source).is_err() || position == 0 || position > MAX_GENERATION {
            return Err(StoreError::InvalidRequest);
        }
        let current: u64 = match self.ct.checkpoints.get(source) {
            Some(checkpoint) => checkpoint.position,
            None => 0,
        };
        if position <= current {
            return match self.find_observation(source, position) {
                Some(i) => {
                    let earlier: &CtObservation = &self.ct.observations[i];
                    proof {
                        let rows = self@.ct.observations;
                        assert(rows[i as int] == earlier@);
                        assert forall|j: int| #[trigger]
                            seen(self@.ct, j, source@, position) implies j == i by {
                            if j < i {
                                assert(rows[j].source != rows[i as int].source || rows[j].position
                                    != rows[i as int].position);
                            }
                            if i < j {
                                assert(rows[i as int].source != rows[j].source
                                    || rows[i as int].position != rows[j].position);
                            }
                        }
                    }
                    if same_text(earlier.hostname.as_str(), hostname) && same_text(
                        earlier.fingerprint.as_str(),
                        fingerprint,
                    ) {
                        Ok(earlier.expected)
                    } else {
                        Err(StoreError::Conflict)
                    }
                },
                None => Err(StoreError::Conflict),
            };
        }
        if position - 1 != current {
            return Err(StoreError::Conflict);
        }
        let ghost start = with_source(old(self)@, source@, now_ms);
        let installation_id: Option<Uuid> = match self.reservations.get(hostname) {
            Some(id) => Some(*id),
            None => None,
        };
        let expected: bool = match installation_id {
            Some(id) => {
                proof {
                    assert(self@.reservations.dom().contains(hostname@));
                }
                match self.installations.get(id) {
                    Some(row) => {
                        proof {
                            assert(row@ == self@.installations[id]);
                        }
                        is_listed(row, fingerprint)
                    },
                    None => false,
                }
            },
            None => false,
        };
        self.ct.observations.push(
            CtObservation {
                source: source.to_owned(),
                position,
                installation_id,
                hostname: hostname.to_owned(),
                fingerprint: fingerprint.to_owned(),
                expected,
            },
        );
        if !expected {
            self.ct.alerts.push(
                AlertRow {
                    alert: CtAlert {
                        id: self.ct.next_alert,
                        source: source.to_owned(),
                        position,
                        hostname: hostname.to_owned(),
                        fingerprint: fingerprint.to_owned(),
                    },
                    delivered: false,
                },
            );
            self.ct.next_alert = self.ct.next_alert + 1;
            match installation_id {
                Some(id) => {
                    self.note(id, None, AuditEvent::UnexpectedCt);
                },
                None => {},
            }
        }
        let _ = self.ct.checkpoints.insert(
            source.to_owned(),
            Checkpoint { position, observed_at_ms: now_ms },
        );
        self.advance();
        proof {
            let target = recorded(start, source@, position, hostname@, fingerprint@, now_ms);
            assert(self@.ct.observations =~= target.ct.observations);
            assert(self@.ct.alerts =~= target.ct.alerts);
            assert(self@.ct.checkpoints =~= target.ct.checkpoints);
            assert(self@.ct.lags =~= target.ct.lags);
            assert(self@.audit =~= target.audit);
            assert(self@ =~= target);
            let before = old(self)@.ct;
            let rows = self@.ct.observations;
            let last = before.observations.len() as int;
            assert forall|i: int, j: int| 0 <= i < j < rows.len() implies (#[trigger] rows[i]).source
                != (#[trigger] rows[j]).source || rows[i].position != rows[j].position by {
                assert(rows[i] == before.observations[i]);
                if j < last {
                    assert(rows[j] == before.observations[j]);
                }
            }
            assert forall|i: int| 0 <= i < rows.len() implies self@.ct.checkpoints.dom().contains(
                (#[trigger] rows[i]).source,
            ) && rows[i].position <= self@.ct.checkpoints[rows[i].source].position by {
                if i < last {
                    assert(rows[i] == before.observations[i]);
                }
            }
        }
        Ok(expected)
    }
}

} // verus!
