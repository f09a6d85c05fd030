//! Bootstrap challenges and single-use nonces.

use crate::ids::Uuid;
use crate::address::IpAddress;
use crate::store::model::{Bootstrap, Store, StoreError, UsedNonce};
use crate::text::same_text;
use vstd::prelude::*;

verus! {

/// How long a bootstrap challenge can be used, and how long it counts, in milliseconds.
pub const BOOTSTRAP_WINDOW_MS: u64 = 60_000;

/// How many bootstrap challenges one source gets in a window.
pub const BOOTSTRAP_PER_SOURCE: usize = 10;

/// How many bootstrap challenges all sources together get in a window.
pub const BOOTSTRAP_GLOBAL: usize = 100;

/// How long a used nonce is remembered, in milliseconds.
pub const NONCE_LIFETIME_MS: u64 = 300_000;

/// Whether a bootstrap challenge was given out in the running window, to the source where one
/// is named.
pub open spec fn counts(
    row: crate::store::model::BootstrapView,
    source: Option<IpAddress>,
    now_ms: u64,
) -> bool {
    row.created_at_ms + BOOTSTRAP_WINDOW_MS > now_ms && (source is None || source == Some(
        row.source,
    ))
}

/// How many bootstrap challenges were given out in the running window, to the source where one
/// is named.
pub open spec fn recent(
    rows: Seq<crate::store::model::BootstrapView>,
    source: Option<IpAddress>,
    now_ms: u64,
) -> nat
    decreases rows.len(),
{
    if rows.len() == 0 {
        0
    } else {
        recent(rows.drop_last(), source, now_ms) + if counts(rows.last(), source, now_ms) {
            1nat
        } else {
            0
        }
    }
}

/// Whether a bootstrap nonce was given out.
pub open spec fn nonce_known(
    rows: Seq<crate::store::model::BootstrapView>,
    nonce: Seq<char>,
) -> bool {
    exists|i: int| 0 <= i < rows.len() && (#[trigger] rows[i]).nonce == nonce
}

/// What a request for a bootstrap challenge does and answers.
pub open spec fn bootstrap_outcome(
    store: crate::store::model::StoreView,
    nonce: Seq<char>,
    source: IpAddress,
    now_ms: u64,
) -> (crate::store::model::StoreView, Result<bool, StoreError>) {
    if recent(store.bootstraps, Some(source), now_ms) >= BOOTSTRAP_PER_SOURCE || recent(
        store.bootstraps,
        None,
        now_ms,
    ) >= BOOTSTRAP_GLOBAL {
        (store, Ok(false))
    } else if nonce_known(store.bootstraps, nonce) {
        (store, Err(StoreError::Unavailable))
    } else {
        (
            crate::store::model::StoreView {
                bootstraps: store.bootstraps.push(
                    crate::store::model::BootstrapView {
                        nonce,
                        source,
                        created_at_ms: now_ms,
                        expires_at_ms: (now_ms + BOOTSTRAP_WINDOW_MS) as u64,
                    },
                ),
                ..store
            },
            Ok(true),
        )
    }
}

/// Whether a bootstrap challenge can be used by a source.
pub open spec fn usable(
    row: crate::store::model::BootstrapView,
    nonce: Seq<char>,
    source: IpAddress,
    now_ms: u64,
) -> bool {
    row.nonce == nonce && row.source == source && row.expires_at_ms > now_ms
}

/// What the use of a bootstrap challenge does, and whether there was one to use.
pub open spec fn bootstrap_used(
    store: crate::store::model::StoreView,
    nonce: Seq<char>,
    source: IpAddress,
    now_ms: u64,
) -> (crate::store::model::StoreView, bool) {
    if exists|i: int|
        0 <= i < store.bootstraps.len() && usable(
            #[trigger] store.bootstraps[i],
            nonce,
            source,
            now_ms,
        ) {
        let at = choose|i: int|
            0 <= i < store.bootstraps.len() && usable(
                #[trigger] store.bootstraps[i],
                nonce,
                source,
                now_ms,
            );
        (
            crate::store::model::StoreView { bootstraps: store.bootstraps.remove(at), ..store },
            true,
        )
    } else {
        (store, false)
    }
}

/// Whether an installation has used a nonce.
pub open spec fn nonce_used(
    rows: Seq<crate::store::model::NonceView>,
    id: Uuid,
    nonce: Seq<char>,
) -> bool {
    exists|i: int|
        0 <= i < rows.len() && (#[trigger] rows[i]).installation_id == id && rows[i].nonce == nonce
}

/// What the use of a nonce does, and whether it is the first.
pub open spec fn nonce_outcome(
    store: crate::store::model::StoreView,
    id: Uuid,
    nonce: Seq<char>,
    now_ms: u64,
) -> (crate::store::model::StoreView, bool) {
    if 16 <= vstd::utf8::encode_utf8(nonce).len() <= 128 && !nonce_used(store.nonces, id, nonce) {
        (
            crate::store::model::StoreView {
                nonces: store.nonces.push(
                    crate::store::model::NonceView {
                        installation_id: id,
                        nonce,
                        expires_at_ms: (now_ms + NONCE_LIFETIME_MS) as u64,
                    },
                ),
                ..store
            },
            true,
        )
    } else {
        (store, false)
    }
}

/// A nonce that was used is refused from then on, for the same installation.
pub proof fn law_nonce_is_single_use(
    store: crate::store::model::StoreView,
    id: Uuid,
    nonce: Seq<char>,
    first_ms: u64,
    later_ms: u64,
)
    ensures
        !nonce_outcome(nonce_outcome(store, id, nonce, first_ms).0, id, nonce, later_ms).1,
{
    let after = nonce_outcome(store, id, nonce, first_ms).0;
    if nonce_outcome(store, id, nonce, first_ms).1 {
        let last = store.nonces.len() as int;
        assert(after.nonces[last].installation_id == id && after.nonces[last].nonce == nonce);
    }
}

/// A bootstrap challenge works for the source that it was given to, before it expires, and once.
pub proof fn law_bootstrap_is_single_use(
    store: crate::store::model::StoreView,
    nonce: Seq<char>,
    source: IpAddress,
    other: IpAddress,
    now_ms: u64,
    use_ms: u64,
    later_ms: u64,
)
    requires
        bootstrap_outcome(store, nonce, source, now_ms).1 == Ok::<bool, StoreError>(true),
        use_ms < now_ms + BOOTSTRAP_WINDOW_MS <= u64::MAX,
        other != source,
    ensures
        ({
            let given = bootstrap_outcome(store, nonce, source, now_ms).0;
            let used = bootstrap_used(given, nonce, source, use_ms);
            &&& used.1
            &&& !bootstrap_used(used.0, nonce, source, later_ms).1
            &&& !bootstrap_used(given, nonce, other, use_ms).1
        }),
{
    let given = bootstrap_outcome(store, nonce, source, now_ms).0;
    let last = store.bootstraps.len() as int;
    assert(usable(given.bootstraps[last], nonce, source, use_ms));
    let at = choose|i: int|
        0 <= i < given.bootstraps.len() && usable(
            #[trigger] given.bootstraps[i],
            nonce,
            source,
            use_ms,
        );
    if at != last {
        assert(given.bootstraps[at] == store.bootstraps[at]);
        assert(false);
    }
    let used = bootstrap_used(given, nonce, source, use_ms).0;
    assert(used.bootstraps =~= store.bootstraps);
    assert forall|i: int| 0 <= i < given.bootstraps.len() implies !usable(
        #[trigger] given.bootstraps[i],
        nonce,
        other,
        use_ms,
    ) by {
        if i < last {
            assert(given.bootstraps[i] == store.bootstraps[i]);
        }
    }
}

/// A bootstrap challenge that is given out leaves the running window within both of its bounds.
pub proof fn law_bootstrap_is_bounded(
    store: crate::store::model::StoreView,
    nonce: Seq<char>,
    source: IpAddress,
    now_ms: u64,
)
    requires
        bootstrap_outcome(store, nonce, source, now_ms).1 == Ok::<bool, StoreError>(true),
    ensures
        recent(bootstrap_outcome(store, nonce, source, now_ms).0.bootstraps, Some(source), now_ms)
            <= BOOTSTRAP_PER_SOURCE,
        recent(bootstrap_outcome(store, nonce, source, now_ms).0.bootstraps, None, now_ms)
            <= BOOTSTRAP_GLOBAL,
{
    let after = bootstrap_outcome(store, nonce, source, now_ms).0.bootstraps;
    assert(after.drop_last() =~= store.bootstraps);
}

impl Store {
    /// How many bootstrap challenges were given out in the running window.
    fn count_recent(&self, source: Option<IpAddress>, now_ms: u64) -> (count: usize)
        ensures
            count == recent(self@.bootstraps, source, now_ms),
    {
        let ghost rows = self@.bootstraps;
        let mut count: usize = 0;
        let mut i: usize = 0;
        while i < self.bootstraps.len()
            invariant
                i <= self.bootstraps@.len(),
                rows == self@.bootstraps,
                count <= i,
                count == recent(rows.take(i as int), source, now_ms),
            decreases self.bootstraps@.len() - i,
        {
            let row: &Bootstrap = &self.bootstraps[i];
            let fresh: bool = now_ms < row.created_at_ms || now_ms - row.created_at_ms
                < BOOTSTRAP_WINDOW_MS;
            let named: bool = match source {
                Some(wanted) => wanted == row.source,
                None => true,
            };
            proof {
                assert(rows[i as int] == row@);
                assert(rows.take(i + 1).drop_last() =~= rows.take(i as int));
                assert(rows.take(i + 1).last() == rows[i as int]);
            }
            if fresh && named {
                count += 1;
            }
            i += 1;
        }
        proof {
            assert(rows.take(rows.len() as int) =~= rows);
        }
        count
    }

    /// Where a bootstrap nonce stands.
    fn find_bootstrap(&self, nonce: &str) -> (found: Option<usize>)
        ensures
            found is Some == nonce_known(self@.bootstraps, nonce@),
            found matches Some(i) ==> i < self.bootstraps@.len() && self@.bootstraps[i as int].nonce
                == nonce@,
    {
        let mut i: usize = 0;
        while i < self.bootstraps.len()
            invariant
                i <= self.bootstraps@.len(),
                forall|j: int| 0 <= j < i ==> (#[trigger] self@.bootstraps[j]).nonce != nonce@,
            decreases self.bootstraps@.len() - i,
        {
            proof {
                assert(self@.bootstraps[i as int] == self.bootstraps@[i as int]@);
            }
            if same_text(self.bootstraps[i].nonce.as_str(), nonce) {
                return Some(i);
            }
            i += 1;
        }
        None
    }

    /// Gives out a bootstrap challenge, unless the source or all sources together have had as
    /// many as they may in the running minute.
    pub fn create_bootstrap_challenge(&mut self, nonce: &str, source: IpAddress, now_ms: u64) -> (outcome:
        Result<bool, StoreError>)
        requires
            old(self).well_formed(),
            now_ms + BOOTSTRAP_WINDOW_MS <= u64::MAX,
        ensures
            final(self).well_formed(),
            (final(self)@, outcome) == bootstrap_outcome(old(self)@, nonce@, source, now_ms),
    {
        if self.count_recent(Some(source), now_ms) >= BOOTSTRAP_PER_SOURCE || self.count_recent(
            None,
            now_ms,
        ) >= BOOTSTRAP_GLOBAL {
            return Ok(false);
        }
        if self.find_bootstrap(nonce).is_some() {
            return Err(StoreError::Unavailable);
        }
        self.bootstraps.push(
            Bootstrap {
                nonce: nonce.to_owned(),
                source,
                created_at_ms: now_ms,
                expires_at_ms: now_ms + BOOTSTRAP_WINDOW_MS,
            },
        );
        proof {
            let target = bootstrap_outcome(old(self)@, nonce@, source, now_ms).0;
            assert(self@.bootstraps =~= target.bootstraps);
            let before = old(self)@.bootstraps;
            assert forall|i: int, j: int| 0 <= i < j < target.bootstraps.len() implies (
            #[trigger] target.bootstraps[i]).nonce != (#[trigger] target.bootstraps[j]).nonce by {
                assert(target.bootstraps[i] == before[i]);
                if j < before.len() {
                    assert(target.bootstraps[j] == before[j]);
                }
            }
        }
        Ok(true)
    }

    /// Uses a bootstrap challenge up: it works once, for the source that it was given to, and
    /// before it expires.
    pub fn consume_bootstrap_challenge(&mut self, nonce: &str, source: IpAddress, now_ms: u64) -> (used:
        bool)
        requires
            old(self).well_formed(),
        ensures
            final(self).well_formed(),
            (final(self)@, used) == bootstrap_used(old(self)@, nonce@, source, now_ms),
            final(self).next_job == old(self).next_job,
            final(self).revision == old(self).revision,
    {
        let at: usize = match self.find_bootstrap(nonce) {
            Some(i) => i,
            None => {
                return false;
            },
        };
        let row: &Bootstrap = &self.bootstraps[at];
        let ghost rows = self@.bootstraps;
        proof {
            assert(rows[at as int] == row@);
        }
        if row.source != source || row.expires_at_ms <= now_ms {
            proof {
                assert forall|i: int| 0 <= i < rows.len() implies !usable(
                    #[trigger] rows[i],
                    nonce@,
                    source,
                    now_ms,
                ) by {
                    if i < at {
                        assert(rows[i].nonce != rows[at as int].nonce);
                    }
                    if at < i {
                        assert(rows[at as int].nonce != rows[i].nonce);
                    }
                }
            }
            return false;
        }
        let _ = self.bootstraps.remove(at);
        proof {
            assert(usable(rows[at as int], nonce@, source, now_ms));
            assert(self@.bootstraps =~= rows.remove(at as int));
            let after = self@.bootstraps;
            let chosen = choose|i: int|
                0 <= i < rows.len() && usable(#[trigger] rows[i], nonce@, source, now_ms);
            if chosen < at {
                assert(rows[chosen].nonce != rows[at as int].nonce);
            }
            if at < chosen {
                assert(rows[at as int].nonce != rows[chosen].nonce);
            }
            assert(self@ =~= bootstrap_used(old(self)@, nonce@, source, now_ms).0);
            assert forall|i: int, j: int| 0 <= i < j < after.len() implies (
            #[trigger] after[i]).nonce != (#[trigger] after[j]).nonce by {
                let bi = if i < at { i } else { i + 1 };
                let bj = if j < at { j } else { j + 1 };
                assert(after[i] == rows[bi] && after[j] == rows[bj]);
            }
        }
        true
    }

    /// Uses a nonce of an installation up and tells whether this is the first use.
    pub fn consume_nonce(&mut self, id: Uuid, nonce: &str, now_ms: u64) -> (first: bool)
        requires
            old(self).well_formed(),
            now_ms + NONCE_LIFETIME_MS <= u64::MAX,
        ensures
            final(self).well_formed(),
            (final(self)@, first) == nonce_outcome(old(self)@, id, nonce@, now_ms),
            final(self).next_job == old(self).next_job,
            final(self).revision == old(self).revision,
    {
        let size: usize = nonce.as_bytes().len();
        if size < 16 || size > 128 {
            return false;
        }
        let mut i: usize = 0;
        while i < self.nonces.len()
            invariant
                i <= self.nonces@.len(),
                *self == *old(self),
                self.well_formed(),
                now_ms + NONCE_LIFETIME_MS <= u64::MAX,
                forall|j: int|
                    0 <= j < i ==> !((#[trigger] self@.nonces[j]).installation_id == id
                        && self@.nonces[j].nonce == nonce@),
            decreases self.nonces@.len() - i,
        {
            proof {
                assert(self@.nonces[i as int] == self.nonces@[i as int]@);
            }
            if self.nonces[i].installation_id == id && same_text(
                self.nonces[i].nonce.as_str(),
                nonce,
            ) {
                return false;
            }
            i += 1;
        }
        self.nonces.push(
            UsedNonce {
                installation_id: id,
                nonce: nonce.to_owned(),
                expires_at_ms: now_ms + NONCE_LIFETIME_MS,
            },
        );
        proof {
            assert(self@.nonces =~= nonce_outcome(old(self)@, id, nonce@, now_ms).0.nonces);
        }
        true
    }
}

} // verus!
