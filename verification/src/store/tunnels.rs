//! Tunnel leases: which gateway may serve an installation, and under which generation.

use crate::ids::Uuid;
use crate::protocol::AllocationState;
use crate::store::model::{AuditEvent, Store, StoreError, TunnelLease, MAX_GENERATION};
use crate::text::same_text;
use vstd::prelude::*;

verus! {

/// How long a heartbeat keeps a lease, in milliseconds.
pub const LEASE_RENEWAL_MS: u64 = 45_000;

/// An installation whose lease has been claimed under a new generation.
pub open spec fn claimed_row(
    row: crate::store::model::InstallationView,
    gateway_id: Seq<char>,
    expires_at_ms: u64,
) -> crate::store::model::InstallationView {
    let generation = (row.generation + 1) as u64;
    crate::store::model::InstallationView {
        generation,
        lease: Some(crate::store::model::LeaseView { generation, gateway_id, expires_at_ms }),
        ..row
    }
}

/// What the claim of a lease does and answers: only the gateway of the shard that the
/// installation is placed on can claim, and only once the records are published.
pub open spec fn claim_outcome(
    store: crate::store::model::StoreView,
    id: Uuid,
    gateway_id: Seq<char>,
    ttl_seconds: i32,
    now_ms: u64,
) -> (crate::store::model::StoreView, Result<u64, StoreError>) {
    if gateway_id.len() == 0 || !(5 <= ttl_seconds <= 60) {
        (store, Err(StoreError::InvalidRequest))
    } else if !store.dns_ready(id) || store.installations[id].placement != gateway_id {
        (store, Err(StoreError::Conflict))
    } else if store.installations[id].generation == MAX_GENERATION {
        (store, Err(StoreError::Unavailable))
    } else {
        let row = claimed_row(
            store.installations[id],
            gateway_id,
            (now_ms + 1000 * ttl_seconds) as u64,
        );
        (
            store.with_row(id, row).noted(id, None, AuditEvent::TunnelClaimed).advanced(),
            Ok(row.generation),
        )
    }
}

/// Whether a gateway holds the current lease of an installation under a generation.
pub open spec fn lease_is_current(
    store: crate::store::model::StoreView,
    id: Uuid,
    gateway_id: Seq<char>,
    generation: u64,
    now_ms: u64,
) -> bool {
    &&& store.installations.dom().contains(id)
    &&& store.installations[id].lease matches Some(lease)
    &&& lease.gateway_id == gateway_id
    &&& lease.generation == generation
    &&& lease.expires_at_ms > now_ms
}

/// The store after a heartbeat: a current lease is extended, and nothing else changes.
pub open spec fn kept_alive(
    store: crate::store::model::StoreView,
    id: Uuid,
    gateway_id: Seq<char>,
    generation: u64,
    now_ms: u64,
) -> crate::store::model::StoreView {
    if lease_is_current(store, id, gateway_id, generation, now_ms) {
        store.with_row(
            id,
            crate::store::model::InstallationView {
                lease: Some(
                    crate::store::model::LeaseView {
                        expires_at_ms: (now_ms + LEASE_RENEWAL_MS) as u64,
                        ..store.installations[id].lease->0
                    },
                ),
                ..store.installations[id]
            },
        )
    } else {
        store
    }
}

impl Store {
    /// Claims the lease of an installation for a gateway. Every claim moves the generation on,
    /// so an earlier lease is fenced.
    pub fn claim_tunnel(&mut self, id: Uuid, gateway_id: &str, ttl_seconds: i32, now_ms: u64) -> (outcome:
        Result<u64, StoreError>)
        requires
            old(self).well_formed(),
            old(self).has_room(1),
            now_ms + 60_000 <= u64::MAX,
        ensures
            final(self).well_formed(),
            (final(self)@, outcome) == claim_outcome(
                old(self)@,
                id,
                gateway_id@,
                ttl_seconds,
                now_ms,
            ),
    {
        if gateway_id.is_empty() || ttl_seconds < 5 || ttl_seconds > 60 {
            return Err(StoreError::InvalidRequest);
        }
        match self.installations.get(id) {
            Some(row) => {
                if row.state != AllocationState::DnsReady || !same_text(
                    row.placement.as_str(),
                    gateway_id,
                ) {
                    return Err(StoreError::Conflict);
                }
                if row.generation >= MAX_GENERATION {
                    return Err(StoreError::Unavailable);
                }
            },
            None => {
                return Err(StoreError::Conflict);
            },
        }
        let expires: u64 = now_ms + 1000 * ttl_seconds as u64;
        let ghost view = claimed_row(old(self)@.installations[id], gateway_id@, expires);
        let mut generation: u64 = 0;
        match self.installations.get_mut(id) {
            Some(row) => {
                row.generation = row.generation + 1;
                generation = row.generation;
                row.lease = Some(
                    TunnelLease {
                        generation: row.generation,
                        gateway_id: gateway_id.to_owned(),
                        expires_at_ms: expires,
                    },
                );
            },
            None => {},
        }
        proof {
            assert(old(self)@.installations.dom().contains(id));
            assert(view.valid());
            assert(self@.installations =~= old(self)@.installations.insert(id, view));
        }
        self.note(id, None, AuditEvent::TunnelClaimed);
        self.advance();
        Ok(generation)
    }

    /// Whether a gateway holds the current lease of an installation under a generation.
    pub fn tunnel_is_current(&self, id: Uuid, gateway_id: &str, generation: u64, now_ms: u64) -> (current:
        bool)
        requires
            self.well_formed(),
        ensures
            current == lease_is_current(self@, id, gateway_id@, generation, now_ms),
    {
        match self.installations.get(id) {
            Some(row) => match &row.lease {
                Some(lease) => same_text(lease.gateway_id.as_str(), gateway_id) && lease.generation
                    == generation && lease.expires_at_ms > now_ms,
                None => false,
            },
            None => false,
        }
    }

    /// Extends the current lease of a gateway; a lease that has been fenced or has run out is
    /// not revived.
    pub fn renew_tunnel(&mut self, id: Uuid, gateway_id: &str, generation: u64, now_ms: u64) -> (renewed:
        bool)
        requires
            old(self).well_formed(),
            now_ms + LEASE_RENEWAL_MS <= u64::MAX,
        ensures
            final(self).well_formed(),
            renewed == lease_is_current(old(self)@, id, gateway_id@, generation, now_ms),
            final(self)@ == kept_alive(old(self)@, id, gateway_id@, generation, now_ms),
    {
        if !self.tunnel_is_current(id, gateway_id, generation, now_ms) {
            return false;
        }
        let ghost view = kept_alive(
            old(self)@,
            id,
            gateway_id@,
            generation,
            now_ms,
        ).installations[id];
        match self.installations.get_mut(id) {
            Some(row) => {
                row.lease = Some(
                    TunnelLease {
                        generation,
                        gateway_id: gateway_id.to_owned(),
                        expires_at_ms: now_ms + LEASE_RENEWAL_MS,
                    },
                );
            },
            None => {},
        }
        proof {
            assert(old(self)@.installations.dom().contains(id));
            assert(view.valid());
            assert(self@.installations =~= old(self)@.installations.insert(id, view));
        }
        true
    }
}

} // verus!
