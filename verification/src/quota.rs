//! Admission of browser connections: how many handshakes a source may start in a minute.

use crate::address::IpAddress;
use std::collections::HashMap;
use vstd::prelude::*;

verus! {

broadcast use vstd::std_specs::hash::group_hash_axioms;

/// How long a counting window lasts, in nanoseconds.
pub const QUOTA_WINDOW_NS: u64 = 60_000_000_000;

/// How many handshakes all sources together may start in a window.
pub const GLOBAL_QUOTA: u32 = 5_000;

/// How many handshakes one source may start in a window.
pub const SOURCE_QUOTA: u32 = 120;

/// What a quota has counted: when its window began, how many handshakes it admitted in it, and
/// how many of them from each source.
#[verifier::ext_equal]
pub struct QuotaView {
    pub start_ns: u64,
    pub total: nat,
    pub counts: Map<IpAddress, nat>,
}

impl QuotaView {
    /// The handshakes admitted from a source.
    pub open spec fn count(self, source: IpAddress) -> nat {
        if self.counts.dom().contains(source) {
            self.counts[source]
        } else {
            0
        }
    }

    /// The state in which a handshake at a given time is counted: a window that is over gives
    /// way to an empty one.
    pub open spec fn current(self, now_ns: u64) -> QuotaView {
        if now_ns - self.start_ns >= QUOTA_WINDOW_NS {
            QuotaView { start_ns: now_ns, total: 0, counts: Map::empty() }
        } else {
            self
        }
    }

    /// Whether a handshake from a source is admitted.
    pub open spec fn admits(self, source: IpAddress) -> bool {
        self.total < GLOBAL_QUOTA && self.count(source) < SOURCE_QUOTA
    }

    /// The state after a handshake: the window it falls in, with one more admitted where the
    /// bounds allow.
    pub open spec fn after(self, source: IpAddress, now_ns: u64) -> QuotaView {
        let state = self.current(now_ns);
        if state.admits(source) {
            QuotaView {
                start_ns: state.start_ns,
                total: state.total + 1,
                counts: state.counts.insert(source, state.count(source) + 1),
            }
        } else {
            state
        }
    }

    /// Neither bound is exceeded.
    pub open spec fn within_bounds(self) -> bool {
        &&& self.total <= GLOBAL_QUOTA
        &&& forall|source: IpAddress| #[trigger] self.count(source) <= SOURCE_QUOTA
    }

    /// The state after handshakes from several sources at one time.
    pub open spec fn after_all(self, sources: Seq<IpAddress>, now_ns: u64) -> QuotaView
        decreases sources.len(),
    {
        if sources.len() == 0 {
            self
        } else {
            self.after_all(sources.drop_last(), now_ns).after(sources.last(), now_ns)
        }
    }
}

/// No sequence of handshakes takes a quota beyond its global or its per-source bound.
pub proof fn law_quota_never_exceeded(state: QuotaView, sources: Seq<IpAddress>, now_ns: u64)
    requires
        state.within_bounds(),
    ensures
        state.after_all(sources, now_ns).within_bounds(),
    decreases sources.len(),
{
    if sources.len() > 0 {
        law_quota_never_exceeded(state, sources.drop_last(), now_ns);
        let before = state.after_all(sources.drop_last(), now_ns);
        let after = before.after(sources.last(), now_ns);
        assert forall|source: IpAddress| #[trigger] after.count(source) <= SOURCE_QUOTA by {
            assert(before.count(source) <= SOURCE_QUOTA);
        }
    }
}

/// A handshake is refused only where one of the bounds is reached in its window, and the next
/// window admits every source again.
pub proof fn law_refusal_means_bound_reached(state: QuotaView, source: IpAddress, now_ns: u64)
    requires
        state.within_bounds(),
    ensures
        !state.current(now_ns).admits(source) ==> state.current(now_ns).total == GLOBAL_QUOTA
            || state.current(now_ns).count(source) == SOURCE_QUOTA,
        now_ns - state.start_ns >= QUOTA_WINDOW_NS ==> state.current(now_ns).admits(source),
{
    assert(state.count(source) <= SOURCE_QUOTA);
}

/// Counts handshakes in windows of a minute.
pub struct IngressQuota {
    start_ns: u64,
    total: u32,
    v4: HashMap<u32, u32>,
    v6: HashMap<u128, u32>,
}

impl View for IngressQuota {
    type V = QuotaView;

    closed spec fn view(&self) -> QuotaView {
        QuotaView {
            start_ns: self.start_ns,
            total: self.total as nat,
            counts: Map::new(
                |source: IpAddress|
                    match source {
                        IpAddress::V4(bits) => self.v4@.dom().contains(bits),
                        IpAddress::V6(bits) => self.v6@.dom().contains(bits),
                    },
                |source: IpAddress|
                    match source {
                        IpAddress::V4(bits) => self.v4@[bits] as nat,
                        IpAddress::V6(bits) => self.v6@[bits] as nat,
                    },
            ),
        }
    }
}

impl IngressQuota {
    /// A quota that has admitted nothing in a window beginning now.
    pub fn new(now_ns: u64) -> (quota: Self)
        ensures
            quota@ == (QuotaView { start_ns: now_ns, total: 0, counts: Map::empty() }),
    {
        let quota = IngressQuota { start_ns: now_ns, total: 0, v4: HashMap::new(), v6: HashMap::new() };
        proof {
            assert(quota@.counts =~= Map::<IpAddress, nat>::empty());
        }
        quota
    }

    /// The handshakes admitted from a source in the running window.
    fn counted(&self, source: IpAddress) -> (count: u32)
        ensures
            count == self@.count(source),
    {
        match source {
            IpAddress::V4(bits) => match self.v4.get(&bits) {
                Some(count) => *count,
                None => 0,
            },
            IpAddress::V6(bits) => match self.v6.get(&bits) {
                Some(count) => *count,
                None => 0,
            },
        }
    }

    /// Admits a handshake from a source, or refuses it where a bound is reached.
    pub fn allow_at(&mut self, source: IpAddress, now_ns: u64) -> (allowed: bool)
        ensures
            allowed == old(self)@.current(now_ns).admits(source),
            final(self)@ == old(self)@.after(source, now_ns),
    {
        if now_ns.saturating_sub(self.start_ns) >= QUOTA_WINDOW_NS {
            self.start_ns = now_ns;
            self.total = 0;
            self.v4.clear();
            self.v6.clear();
            proof {
                assert(self@.counts =~= Map::<IpAddress, nat>::empty());
            }
        }
        proof {
            assert(self@ == old(self)@.current(now_ns));
        }
        let count: u32 = self.counted(source);
        if self.total >= GLOBAL_QUOTA || count >= SOURCE_QUOTA {
            return false;
        }
        let ghost before = self@;
        self.total = self.total + 1;
        match source {
            IpAddress::V4(bits) => {
                self.v4.insert(bits, count + 1);
            },
            IpAddress::V6(bits) => {
                self.v6.insert(bits, count + 1);
            },
        }
        proof {
            assert(self@.counts =~= before.counts.insert(source, before.count(source) + 1));
        }
        true
    }
}

/// A handshake is let in exactly where fewer than 5000 of all sources and fewer than 120 of its
/// own were in the running minute. It then counts once, for its source and for all; the counts of
/// other sources stay. A minute that is over counts no more.
pub proof fn law_handshake_is_counted(state: QuotaView, source: IpAddress, now_ns: u64)
    ensures
        ({
            let over = now_ns - state.start_ns >= 60_000_000_000;
            let total = if over {
                0
            } else {
                state.total
            };
            let counted = |one: IpAddress|
                if over || !state.counts.dom().contains(one) {
                    0nat
                } else {
                    state.counts[one]
                };
            let allowed = state.current(now_ns).admits(source);
            let after = state.after(source, now_ns);
            let more: nat = if allowed {
                1
            } else {
                0
            };
            &&& allowed <==> total < 5_000 && counted(source) < 120
            &&& after.total == total + more
            &&& after.count(source) == counted(source) + more
            &&& forall|one: IpAddress|
                one != source ==> #[trigger] after.count(one) == counted(one)
            &&& after.start_ns == if over {
                now_ns
            } else {
                state.start_ns
            }
        }),
{
}

} // verus!
