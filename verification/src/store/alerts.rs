//! Alerts about certificate transparency: what is still to be delivered, and silent feeds.

use crate::store::model::{AlertRow, CtAlert, CtLagAlert, LagRow, Store, StoreError};
use crate::store::transparency::{validate_source, FEED_LAG_MS};
use crate::text::same_text;
use vstd::prelude::*;

verus! {

/// The alerts of a feed that have not been delivered, in order.
pub open spec fn undelivered(
    rows: Seq<(crate::store::model::AlertView, bool)>,
    source: Seq<char>,
) -> Seq<crate::store::model::AlertView>
    decreases rows.len(),
{
    if rows.len() == 0 {
        Seq::empty()
    } else {
        let earlier = undelivered(rows.drop_last(), source);
        if rows.last().0.source == source && !rows.last().1 {
            earlier.push(rows.last().0)
        } else {
            earlier
        }
    }
}

/// The lag alerts of a feed that have not been delivered, in order.
pub open spec fn undelivered_lags(
    rows: Seq<(crate::store::model::LagView, u64, bool)>,
    source: Seq<char>,
) -> Seq<crate::store::model::LagView>
    decreases rows.len(),
{
    if rows.len() == 0 {
        Seq::empty()
    } else {
        let earlier = undelivered_lags(rows.drop_last(), source);
        if rows.last().0.source == source && !rows.last().2 {
            earlier.push(rows.last().0)
        } else {
            earlier
        }
    }
}

/// At most the first `limit` elements.
pub open spec fn at_most<A>(rows: Seq<A>, limit: int) -> Seq<A> {
    if rows.len() <= limit {
        rows
    } else {
        rows.take(limit)
    }
}

/// More rows add alerts behind those that there are.
proof fn lemma_undelivered_prefix(
    rows: Seq<(crate::store::model::AlertView, bool)>,
    k: int,
    source: Seq<char>,
)
    requires
        0 <= k <= rows.len(),
    ensures
        undelivered(rows.take(k), source).len() <= undelivered(rows, source).len(),
        undelivered(rows, source).take(undelivered(rows.take(k), source).len() as int)
            == undelivered(rows.take(k), source),
    decreases rows.len() - k,
{
    if k < rows.len() {
        lemma_undelivered_prefix(rows, k + 1, source);
        assert(rows.take(k + 1).drop_last() =~= rows.take(k));
        let whole = undelivered(rows, source);
        let more = undelivered(rows.take(k + 1), source);
        let less = undelivered(rows.take(k), source);
        assert(more.take(less.len() as int) =~= less);
        assert(whole.take(less.len() as int) =~= whole.take(more.len() as int).take(
            less.len() as int,
        ));
    } else {
        assert(rows.take(k) =~= rows);
        assert(undelivered(rows, source).take(undelivered(rows, source).len() as int)
            =~= undelivered(rows, source));
    }
}

/// More rows add lag alerts behind those that there are.
proof fn lemma_undelivered_lags_prefix(
    rows: Seq<(crate::store::model::LagView, u64, bool)>,
    k: int,
    source: Seq<char>,
)
    requires
        0 <= k <= rows.len(),
    ensures
        undelivered_lags(rows.take(k), source).len() <= undelivered_lags(rows, source).len(),
        undelivered_lags(rows, source).take(undelivered_lags(rows.take(k), source).len() as int)
            == undelivered_lags(rows.take(k), source),
    decreases rows.len() - k,
{
    if k < rows.len() {
        lemma_undelivered_lags_prefix(rows, k + 1, source);
        assert(rows.take(k + 1).drop_last() =~= rows.take(k));
        let whole = undelivered_lags(rows, source);
        let more = undelivered_lags(rows.take(k + 1), source);
        let less = undelivered_lags(rows.take(k), source);
        assert(more.take(less.len() as int) =~= less);
        assert(whole.take(less.len() as int) =~= whole.take(more.len() as int).take(
            less.len() as int,
        ));
    } else {
        assert(rows.take(k) =~= rows);
        assert(undelivered_lags(rows, source).take(undelivered_lags(rows, source).len() as int)
            =~= undelivered_lags(rows, source));
    }
}

/// The quarter hour that a time is nearest to the start of, counted from the epoch.
pub open spec fn lag_window(now_ms: u64) -> u64 {
    ((now_ms + 450_000) / 900_000) as u64
}

/// A span of milliseconds in whole seconds, to the nearest.
pub open spec fn nearest_seconds(span_ms: int) -> int {
    if span_ms >= 0 {
        (span_ms + 500) / 1000
    } else {
        -((-span_ms + 500) / 1000)
    }
}

/// Whether a lag alert of a feed was queued for a window.
pub open spec fn lag_queued(
    rows: Seq<(crate::store::model::LagView, u64, bool)>,
    source: Seq<char>,
    window: u64,
) -> bool {
    exists|i: int|
        0 <= i < rows.len() && (#[trigger] rows[i]).0.source == source && rows[i].1 == window
}

/// The store after a look at a feed: one that has been silent for a quarter of an hour gets one
/// alert in each window.
pub open spec fn lag_noticed(
    store: crate::store::model::StoreView,
    source: Seq<char>,
    now_ms: u64,
) -> crate::store::model::StoreView {
    if store.ct.checkpoints.dom().contains(source) && store.ct.checkpoints[source].observed_at_ms
        + FEED_LAG_MS < now_ms && !lag_queued(store.ct.lags, source, lag_window(now_ms)) {
        crate::store::model::StoreView {
            ct: crate::store::model::CtView {
                lags: store.ct.lags.push(
                    (
                        crate::store::model::LagView {
                            id: store.ct.next_alert,
                            source,
                            lag_seconds: nearest_seconds(
                                now_ms - store.ct.checkpoints[source].observed_at_ms,
                            ) as u64,
                        },
                        lag_window(now_ms),
                        false,
                    ),
                ),
                next_alert: (store.ct.next_alert + 1) as u64,
                ..store.ct
            },
            ..store
        }
    } else {
        store
    }
}

/// The alerts after one of them was delivered.
pub open spec fn delivered(
    rows: Seq<(crate::store::model::AlertView, bool)>,
    id: u64,
) -> Seq<(crate::store::model::AlertView, bool)> {
    rows.map_values(
        |row: (crate::store::model::AlertView, bool)|
            if row.0.id == id {
                (row.0, true)
            } else {
                row
            },
    )
}

/// The lag alerts after one of them was delivered.
pub open spec fn lag_delivered(
    rows: Seq<(crate::store::model::LagView, u64, bool)>,
    id: u64,
) -> Seq<(crate::store::model::LagView, u64, bool)> {
    rows.map_values(
        |row: (crate::store::model::LagView, u64, bool)|
            if row.0.id == id {
                (row.0, row.1, true)
            } else {
                row
            },
    )
}

/// A feed that has been silent for more than a quarter of an hour never passes for a healthy
/// one: after a look at it there is an alert for the present window, which is still to be
/// delivered where the look has made it.
pub proof fn law_silent_feed_is_alerted(
    store: crate::store::model::StoreView,
    source: Seq<char>,
    now_ms: u64,
)
    requires
        store.ct.checkpoints.dom().contains(source),
        store.ct.checkpoints[source].observed_at_ms + FEED_LAG_MS < now_ms,
    ensures
        ({
            let rows = lag_noticed(store, source, now_ms).ct.lags;
            &&& lag_queued(rows, source, lag_window(now_ms))
            &&& !lag_queued(store.ct.lags, source, lag_window(now_ms)) ==> rows.last().0.source
                == source && rows.last().0.lag_seconds >= 900 && !rows.last().2
        }),
{
    let rows = lag_noticed(store, source, now_ms).ct.lags;
    if !lag_queued(store.ct.lags, source, lag_window(now_ms)) {
        assert(rows[rows.len() - 1].0.source == source);
    }
}

/// A silent feed is alerted about once in a window, however often it is looked at.
pub proof fn law_silence_is_alerted_once(
    store: crate::store::model::StoreView,
    source: Seq<char>,
    now_ms: u64,
    later_ms: u64,
)
    requires
        lag_window(later_ms) == lag_window(now_ms),
        lag_noticed(store, source, now_ms) != store,
    ensures
        lag_noticed(lag_noticed(store, source, now_ms), source, later_ms) == lag_noticed(
            store,
            source,
            now_ms,
        ),
{
    law_silent_feed_is_alerted(store, source, now_ms);
}

/// An alert that was delivered is not handed out again.
pub proof fn law_delivered_alert_is_not_pending(
    rows: Seq<(crate::store::model::AlertView, bool)>,
    source: Seq<char>,
    id: u64,
)
    ensures
        forall|i: int|
            0 <= i < undelivered(delivered(rows, id), source).len() ==> (
            #[trigger] undelivered(delivered(rows, id), source)[i]).id != id,
    decreases rows.len(),
{
    let marked = delivered(rows, id);
    if rows.len() > 0 {
        law_delivered_alert_is_not_pending(rows.drop_last(), source, id);
        assert(marked.drop_last() =~= delivered(rows.drop_last(), id));
        let earlier = undelivered(marked.drop_last(), source);
        let pending = undelivered(marked, source);
        assert forall|i: int| 0 <= i < pending.len() implies (#[trigger] pending[i]).id != id by {
            if i < earlier.len() {
                assert(pending[i] == earlier[i]);
            }
        }
    }
}

/// A lag alert that was delivered is not handed out again.
pub proof fn law_delivered_lag_is_not_pending(
    rows: Seq<(crate::store::model::LagView, u64, bool)>,
    source: Seq<char>,
    id: u64,
)
    ensures
        forall|i: int|
            0 <= i < undelivered_lags(lag_delivered(rows, id), source).len() ==> (
            #[trigger] undelivered_lags(lag_delivered(rows, id), source)[i]).id != id,
    decreases rows.len(),
{
    let marked = lag_delivered(rows, id);
    if rows.len() > 0 {
        law_delivered_lag_is_not_pending(rows.drop_last(), source, id);
        assert(marked.drop_last() =~= lag_delivered(rows.drop_last(), id));
        let earlier = undelivered_lags(marked.drop_last(), source);
        let pending = undelivered_lags(marked, source);
        assert forall|i: int| 0 <= i < pending.len() implies (#[trigger] pending[i]).id != id by {
            if i < earlier.len() {
                assert(pending[i] == earlier[i]);
            }
        }
    }
}

/// The alerts after several of them were delivered one after the other.
pub open spec fn all_delivered(
    rows: Seq<(crate::store::model::AlertView, bool)>,
    sent: Seq<crate::store::model::AlertView>,
) -> Seq<(crate::store::model::AlertView, bool)>
    decreases sent.len(),
{
    if sent.len() == 0 {
        rows
    } else {
        delivered(all_delivered(rows, sent.drop_last()), sent.last().id)
    }
}

/// The lag alerts after several of them were delivered one after the other.
pub open spec fn all_lags_delivered(
    rows: Seq<(crate::store::model::LagView, u64, bool)>,
    sent: Seq<crate::store::model::LagView>,
) -> Seq<(crate::store::model::LagView, u64, bool)>
    decreases sent.len(),
{
    if sent.len() == 0 {
        rows
    } else {
        lag_delivered(all_lags_delivered(rows, sent.drop_last()), sent.last().id)
    }
}

/// Delivery changes no alert but for the note that it was delivered, which it takes of every
/// one that was sent.
proof fn lemma_all_delivered(
    rows: Seq<(crate::store::model::AlertView, bool)>,
    sent: Seq<crate::store::model::AlertView>,
)
    ensures
        all_delivered(rows, sent).len() == rows.len(),
        forall|i: int|
            0 <= i < rows.len() ==> (#[trigger] all_delivered(rows, sent)[i]).0 == rows[i].0 && (
            rows[i].1 ==> all_delivered(rows, sent)[i].1) && (sent.contains(rows[i].0)
                ==> all_delivered(rows, sent)[i].1),
    decreases sent.len(),
{
    if sent.len() > 0 {
        let most = sent.drop_last();
        lemma_all_delivered(rows, most);
        assert forall|i: int| 0 <= i < rows.len() && sent.contains(rows[i].0) implies (
        #[trigger] all_delivered(rows, sent)[i]).1 by {
            let k = sent.index_of(rows[i].0);
            if k < most.len() {
                assert(most[k] == rows[i].0);
                assert(all_delivered(rows, most)[i].1);
            }
        }
    }
}

/// Delivery changes no lag alert but for the note that it was delivered, which it takes of
/// every one that was sent.
proof fn lemma_all_lags_delivered(
    rows: Seq<(crate::store::model::LagView, u64, bool)>,
    sent: Seq<crate::store::model::LagView>,
)
    ensures
        all_lags_delivered(rows, sent).len() == rows.len(),
        forall|i: int|
            0 <= i < rows.len() ==> (#[trigger] all_lags_delivered(rows, sent)[i]).0 == rows[i].0
                && all_lags_delivered(rows, sent)[i].1 == rows[i].1 && (rows[i].2
                ==> all_lags_delivered(rows, sent)[i].2) && (sent.contains(rows[i].0)
                ==> all_lags_delivered(rows, sent)[i].2),
    decreases sent.len(),
{
    if sent.len() > 0 {
        let most = sent.drop_last();
        lemma_all_lags_delivered(rows, most);
        assert forall|i: int| 0 <= i < rows.len() && sent.contains(rows[i].0) implies (
        #[trigger] all_lags_delivered(rows, sent)[i]).2 by {
            let k = sent.index_of(rows[i].0);
            if k < most.len() {
                assert(most[k] == rows[i].0);
                assert(all_lags_delivered(rows, most)[i].2);
            }
        }
    }
}

/// Every alert of a feed that has not been delivered is among the pending ones, and where there
/// is none of those, nothing is pending.
proof fn lemma_pending(rows: Seq<(crate::store::model::AlertView, bool)>, source: Seq<char>)
    ensures
        forall|i: int|
            0 <= i < rows.len() && (#[trigger] rows[i]).0.source == source && !rows[i].1
                ==> undelivered(rows, source).contains(rows[i].0),
        (forall|i: int|
            0 <= i < rows.len() && (#[trigger] rows[i]).0.source == source ==> rows[i].1)
            ==> undelivered(rows, source).len() == 0,
    decreases rows.len(),
{
    if rows.len() > 0 {
        let most = rows.drop_last();
        lemma_pending(most, source);
        let earlier = undelivered(most, source);
        let pending = undelivered(rows, source);
        assert forall|i: int|
            0 <= i < rows.len() && (#[trigger] rows[i]).0.source == source
                && !rows[i].1 implies pending.contains(rows[i].0) by {
            if i < most.len() {
                assert(most[i] == rows[i]);
                let k = earlier.index_of(rows[i].0);
                assert(pending[k] == earlier[k]);
            } else {
                assert(pending.last() == rows[i].0);
            }
        }
        if forall|i: int|
            0 <= i < rows.len() && (#[trigger] rows[i]).0.source == source ==> rows[i].1 {
            assert forall|i: int|
                0 <= i < most.len() && (#[trigger] most[i]).0.source == source implies most[i].1 by {
                assert(most[i] == rows[i]);
            }
        }
    }
}

/// Every lag alert of a feed that has not been delivered is among the pending ones, and where
/// there is none of those, nothing is pending.
proof fn lemma_pending_lags(
    rows: Seq<(crate::store::model::LagView, u64, bool)>,
    source: Seq<char>,
)
    ensures
        forall|i: int|
            0 <= i < rows.len() && (#[trigger] rows[i]).0.source == source && !rows[i].2
                ==> undelivered_lags(rows, source).contains(rows[i].0),
        (forall|i: int|
            0 <= i < rows.len() && (#[trigger] rows[i]).0.source == source ==> rows[i].2)
            ==> undelivered_lags(rows, source).len() == 0,
    decreases rows.len(),
{
    if rows.len() > 0 {
        let most = rows.drop_last();
        lemma_pending_lags(most, source);
        let earlier = undelivered_lags(most, source);
        let pending = undelivered_lags(rows, source);
        assert forall|i: int|
            0 <= i < rows.len() && (#[trigger] rows[i]).0.source == source
                && !rows[i].2 implies pending.contains(rows[i].0) by {
            if i < most.len() {
                assert(most[i] == rows[i]);
                let k = earlier.index_of(rows[i].0);
                assert(pending[k] == earlier[k]);
            } else {
                assert(pending.last() == rows[i].0);
            }
        }
        if forall|i: int|
            0 <= i < rows.len() && (#[trigger] rows[i]).0.source == source ==> rows[i].2 {
            assert forall|i: int|
                0 <= i < most.len() && (#[trigger] most[i]).0.source == source implies most[i].2 by {
                assert(most[i] == rows[i]);
            }
        }
    }
}

/// Delivering every pending alert of a feed leaves none.
pub proof fn law_delivery_leaves_no_alert(
    rows: Seq<(crate::store::model::AlertView, bool)>,
    source: Seq<char>,
)
    ensures
        undelivered(all_delivered(rows, undelivered(rows, source)), source).len() == 0,
{
    let sent = undelivered(rows, source);
    let after = all_delivered(rows, sent);
    lemma_all_delivered(rows, sent);
    lemma_pending(rows, source);
    assert forall|i: int| 0 <= i < after.len() && (#[trigger] after[i]).0.source
        == source implies after[i].1 by {
        if !rows[i].1 {
            assert(sent.contains(rows[i].0));
        }
    }
    lemma_pending(after, source);
}

/// Delivering every pending lag alert of a feed leaves none, and does not make it due again in
/// a window for which it was queued.
pub proof fn law_delivery_leaves_no_lag(
    rows: Seq<(crate::store::model::LagView, u64, bool)>,
    source: Seq<char>,
)
    ensures
        undelivered_lags(all_lags_delivered(rows, undelivered_lags(rows, source)), source).len()
            == 0,
        forall|window: u64|
            #[trigger] lag_queued(
                all_lags_delivered(rows, undelivered_lags(rows, source)),
                source,
                window,
            ) == lag_queued(rows, source, window),
{
    let sent = undelivered_lags(rows, source);
    let after = all_lags_delivered(rows, sent);
    lemma_all_lags_delivered(rows, sent);
    lemma_pending_lags(rows, source);
    assert forall|i: int| 0 <= i < after.len() && (#[trigger] after[i]).0.source
        == source implies after[i].2 by {
        if !rows[i].2 {
            assert(sent.contains(rows[i].0));
        }
    }
    lemma_pending_lags(after, source);
    assert forall|window: u64| #[trigger] lag_queued(after, source, window) == lag_queued(
        rows,
        source,
        window,
    ) by {
        if lag_queued(after, source, window) {
            let i = choose|i: int|
                0 <= i < after.len() && (#[trigger] after[i]).0.source == source && after[i].1
                    == window;
            assert(rows[i].0.source == source);
        }
        if lag_queued(rows, source, window) {
            let i = choose|i: int|
                0 <= i < rows.len() && (#[trigger] rows[i]).0.source == source && rows[i].1
                    == window;
            assert(after[i].0.source == source);
        }
    }
}

impl Store {
    /// The first alerts of a feed that have not been delivered.
    pub fn pending_ct_alerts(&self, source: &str, limit: i64) -> (outcome: Result<
        Vec<CtAlert>,
        StoreError,
    >)
        ensures
            if crate::store::transparency::valid_source(source@) && 1 <= limit <= 100 {
                outcome matches Ok(alerts) && alerts@.map_values(|alert: CtAlert| alert@)
                    == at_most(undelivered(self@.ct.alerts, source@), limit as int)
            } else {
                outcome == Err::<Vec<CtAlert>, StoreError>(StoreError::InvalidRequest)
            },
    {
        match validate_source(source) {
            Err(error) => {
                return Err(error);
            },
            Ok(()) => {},
        }
        if limit < 1 || limit > 100 {
            return Err(StoreError::InvalidRequest);
        }
        let bound: usize = limit as usize;
        let ghost rows = self@.ct.alerts;
        let mut alerts: Vec<CtAlert> = Vec::new();
        let mut i: usize = 0;
        proof {
            assert(alerts@.map_values(|alert: CtAlert| alert@) =~= undelivered(
                rows.take(0),
                source@,
            ));
        }
        while i < self.ct.alerts.len() && alerts.len() < bound
            invariant
                i <= self.ct.alerts@.len(),
                rows == self@.ct.alerts,
                alerts@.len() <= bound,
                alerts@.map_values(|alert: CtAlert| alert@) == undelivered(
                    rows.take(i as int),
                    source@,
                ),
            decreases self.ct.alerts@.len() - i,
        {
            let row: &AlertRow = &self.ct.alerts[i];
            proof {
                assert(rows[i as int] == (row.alert@, row.delivered));
                assert(rows.take(i + 1).drop_last() =~= rows.take(i as int));
                assert(rows.take(i + 1).last() == rows[i as int]);
            }
            if !row.delivered && same_text(row.alert.source.as_str(), source) {
                let ghost before = alerts@;
                alerts.push(
                    CtAlert {
                        id: row.alert.id,
                        source: row.alert.source.clone(),
                        position: row.alert.position,
                        hostname: row.alert.hostname.clone(),
                        fingerprint: row.alert.fingerprint.clone(),
                    },
                );
                proof {
                    assert(alerts@.map_values(|alert: CtAlert| alert@) =~= before.map_values(
                        |alert: CtAlert| alert@,
                    ).push(row.alert@));
                }
            }
            i += 1;
        }
        proof {
            lemma_undelivered_prefix(rows, i as int, source@);
            let whole = undelivered(rows, source@);
            let found = alerts@.map_values(|alert: CtAlert| alert@);
            if i == rows.len() {
                assert(rows.take(i as int) =~= rows);
            } else {
                assert(found =~= whole.take(limit as int));
                if whole.len() <= limit {
                    assert(whole.take(limit as int) =~= whole);
                }
            }
        }
        Ok(alerts)
    }

    /// The first lag alerts of a feed that have not been delivered.
    pub fn pending_ct_lag_alerts(&self, source: &str, limit: i64) -> (outcome: Result<
        Vec<CtLagAlert>,
        StoreError,
    >)
        ensures
            if crate::store::transparency::valid_source(source@) && 1 <= limit <= 100 {
                outcome matches Ok(alerts) && alerts@.map_values(|alert: CtLagAlert| alert@)
                    == at_most(undelivered_lags(self@.ct.lags, source@), limit as int)
            } else {
                outcome == Err::<Vec<CtLagAlert>, StoreError>(StoreError::InvalidRequest)
            },
    {
        match validate_source(source) {
            Err(error) => {
                return Err(error);
            },
            Ok(()) => {},
        }
        if limit < 1 || limit > 100 {
            return Err(StoreError::InvalidRequest);
        }
        let bound: usize = limit as usize;
        let ghost rows = self@.ct.lags;
        let mut alerts: Vec<CtLagAlert> = Vec::new();
        let mut i: usize = 0;
        proof {
            assert(alerts@.map_values(|alert: CtLagAlert| alert@) =~= undelivered_lags(
                rows.take(0),
                source@,
            ));
        }
        while i < self.ct.lags.len() && alerts.len() < bound
            invariant
                i <= self.ct.lags@.len(),
                rows == self@.ct.lags,
                alerts@.len() <= bound,
                alerts@.map_values(|alert: CtLagAlert| alert@) == undelivered_lags(
                    rows.take(i as int),
                    source@,
                ),
            decreases self.ct.lags@.len() - i,
        {
            let row: &LagRow = &self.ct.lags[i];
            proof {
                assert(rows[i as int] == (row.alert@, row.window, row.delivered));
                assert(rows.take(i + 1).drop_last() =~= rows.take(i as int));
                assert(rows.take(i + 1).last() == rows[i as int]);
            }
            if !row.delivered && same_text(row.alert.source.as_str(), source) {
                let ghost before = alerts@;
                alerts.push(
                    CtLagAlert {
                        id: row.alert.id,
                        source: row.alert.source.clone(),
                        lag_seconds: row.alert.lag_seconds,
                    },
                );
                proof {
                    assert(alerts@.map_values(|alert: CtLagAlert| alert@) =~= before.map_values(
                        |alert: CtLagAlert| alert@,
                    ).push(row.alert@));
                }
            }
            i += 1;
        }
        proof {
            lemma_undelivered_lags_prefix(rows, i as int, source@);
            let whole = undelivered_lags(rows, source@);
            let found = alerts@.map_values(|alert: CtLagAlert| alert@);
            if i == rows.len() {
                assert(rows.take(i as int) =~= rows);
            } else {
                assert(found =~= whole.take(limit as int));
                if whole.len() <= limit {
                    assert(whole.take(limit as int) =~= whole);
                }
            }
        }
        Ok(alerts)
    }

    /// Takes note that an alert was delivered.
    pub fn mark_ct_alert_delivered(&mut self, id: u64)
        requires
            old(self).well_formed(),
        ensures
            final(self).well_formed(),
            final(self)@ == (crate::store::model::StoreView {
                ct: crate::store::model::CtView {
                    alerts: delivered(old(self)@.ct.alerts, id),
                    ..old(self)@.ct
                },
                ..old(self)@
            }),
    {
        let ghost target = delivered(old(self)@.ct.alerts, id);
        let mut i: usize = 0;
        while i < self.ct.alerts.len()
            invariant
                i <= self.ct.alerts@.len() == old(self).ct.alerts@.len(),
                self.ct == (crate::store::model::CtTables {
                    alerts: self.ct.alerts,
                    ..old(self).ct
                }),
                *self == (Store { ct: self.ct, ..*old(self) }),
                target == delivered(old(self)@.ct.alerts, id),
                forall|j: int| 0 <= j < i ==> #[trigger] self@.ct.alerts[j] == target[j],
                forall|j: int|
                    i <= j < self.ct.alerts@.len() ==> self.ct.alerts@[j]
                        == old(self).ct.alerts@[j],
            decreases self.ct.alerts@.len() - i,
        {
            proof {
                assert(old(self)@.ct.alerts[i as int] == (
                    old(self).ct.alerts@[i as int].alert@,
                    old(self).ct.alerts@[i as int].delivered,
                ));
            }
            let ghost before = self@.ct.alerts;
            if self.ct.alerts[i].alert.id == id {
                self.ct.alerts[i].delivered = true;
            }
            proof {
                assert forall|j: int| 0 <= j < i + 1 implies #[trigger] self@.ct.alerts[j]
                    == target[j] by {
                    if j < i {
                        assert(self@.ct.alerts[j] == before[j]);
                    }
                }
            }
            i += 1;
        }
        proof {
            assert(self@.ct.alerts =~= target);
        }
    }

    /// Takes note that a lag alert was delivered.
    pub fn mark_ct_lag_alert_delivered(&mut self, id: u64)
        requires
            old(self).well_formed(),
        ensures
            final(self).well_formed(),
            final(self)@ == (crate::store::model::StoreView {
                ct: crate::store::model::CtView {
                    lags: lag_delivered(old(self)@.ct.lags, id),
                    ..old(self)@.ct
                },
                ..old(self)@
            }),
    {
        let ghost target = lag_delivered(old(self)@.ct.lags, id);
        let mut i: usize = 0;
        while i < self.ct.lags.len()
            invariant
                i <= self.ct.lags@.len() == old(self).ct.lags@.len(),
                self.ct == (crate::store::model::CtTables { lags: self.ct.lags, ..old(self).ct }),
                *self == (Store { ct: self.ct, ..*old(self) }),
                target == lag_delivered(old(self)@.ct.lags, id),
                forall|j: int| 0 <= j < i ==> #[trigger] self@.ct.lags[j] == target[j],
                forall|j: int|
                    i <= j < self.ct.lags@.len() ==> self.ct.lags@[j] == old(self).ct.lags@[j],
            decreases self.ct.lags@.len() - i,
        {
            proof {
                assert(old(self)@.ct.lags[i as int] == (
                    old(self).ct.lags@[i as int].alert@,
                    old(self).ct.lags@[i as int].window,
                    old(self).ct.lags@[i as int].delivered,
                ));
            }
            let ghost before = self@.ct.lags;
            if self.ct.lags[i].alert.id == id {
                self.ct.lags[i].delivered = true;
            }
            proof {
                assert forall|j: int| 0 <= j < i + 1 implies #[trigger] self@.ct.lags[j]
                    == target[j] by {
                    if j < i {
                        assert(self@.ct.lags[j] == before[j]);
                    }
                }
            }
            i += 1;
        }
        proof {
            assert(self@.ct.lags =~= target);
        }
    }

    /// Queues an alert about a feed that has been silent for too long, once in each window.
    pub fn queue_ct_lag_alert(&mut self, source: &str, now_ms: u64) -> (outcome: Result<
        (),
        StoreError,
    >)
        requires
            old(self).well_formed(),
            old(self).ct.next_alert < u64::MAX,
            now_ms + 450_000 <= u64::MAX,
        ensures
            final(self).well_formed(),
            if crate::store::transparency::valid_source(source@) {
                &&& outcome == Ok::<(), StoreError>(())
                &&& final(self)@ == lag_noticed(old(self)@, source@, now_ms)
            } else {
                &&& outcome == Err::<(), StoreError>(StoreError::InvalidRequest)
                &&& final(self)@ == old(self)@
            },
    {
        match validate_source(source) {
            Err(error) => {
                return Err(error);
            },
            Ok(()) => {},
        }
        let observed_at_ms: u64 = match self.ct.checkpoints.get(source) {
            Some(checkpoint) => checkpoint.observed_at_ms,
            None => {
                return Ok(());
            },
        };
        if now_ms <= observed_at_ms || now_ms - observed_at_ms <= FEED_LAG_MS {
            return Ok(());
        }
        let window: u64 = (now_ms + 450_000) / 900_000;
        let mut i: usize = 0;
        while i < self.ct.lags.len()
            invariant
                i <= self.ct.lags@.len(),
                *self == *old(self),
                self.well_formed(),
                window == lag_window(now_ms),
                crate::store::transparency::valid_source(source@),
                forall|j: int|
                    0 <= j < i ==> !((#[trigger] self@.ct.lags[j]).0.source == source@
                        && self@.ct.lags[j].1 == window),
            decreases self.ct.lags@.len() - i,
        {
            proof {
                assert(self@.ct.lags[i as int] == (
                    self.ct.lags@[i as int].alert@,
                    self.ct.lags@[i as int].window,
                    self.ct.lags@[i as int].delivered,
                ));
            }
            if self.ct.lags[i].window == window && same_text(
                self.ct.lags[i].alert.source.as_str(),
                source,
            ) {
                proof {
                    assert(lag_queued(self@.ct.lags, source@, window));
                }
                return Ok(());
            }
            i += 1;
        }
        let lag_ms: u64 = now_ms - observed_at_ms;
        let lag_seconds: u64 = lag_ms / 1000 + if lag_ms % 1000 >= 500 {
            1
        } else {
            0
        };
        self.ct.lags.push(
            LagRow {
                alert: CtLagAlert { id: self.ct.next_alert, source: source.to_owned(), lag_seconds },
                window,
                delivered: false,
            },
        );
        self.ct.next_alert = self.ct.next_alert + 1;
        proof {
            assert(lag_seconds == nearest_seconds(lag_ms as int));
            assert(self@.ct.lags =~= lag_noticed(old(self)@, source@, now_ms).ct.lags);
        }
        Ok(())
    }

    /// How many seconds ago a feed has answered.
    pub fn ct_feed_lag_seconds(&self, source: &str, now_ms: u64) -> (lag: Option<i64>)
        requires
            now_ms <= i64::MAX,
        ensures
            lag is Some == self@.ct.checkpoints.dom().contains(source@),
            lag matches Some(seconds) ==> seconds == nearest_seconds(
                now_ms - self@.ct.checkpoints[source@].observed_at_ms,
            ),
    {
        match self.ct.checkpoints.get(source) {
            Some(checkpoint) => {
                let observed_at_ms: u64 = checkpoint.observed_at_ms;
                if now_ms >= observed_at_ms {
                    let span: u64 = now_ms - observed_at_ms;
                    let seconds: u64 = span / 1000 + if span % 1000 >= 500 {
                        1
                    } else {
                        0
                    };
                    Some(seconds as i64)
                } else {
                    let span: u64 = observed_at_ms - now_ms;
                    let seconds: u64 = span / 1000 + if span % 1000 >= 500 {
                        1
                    } else {
                        0
                    };
                    Some(-(seconds as i64))
                }
            },
            None => None,
        }
    }
}

} // verus!
