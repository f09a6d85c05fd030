//! Installations: allocation, naming, placement and retirement.

use crate::encoding::{label_of, random_bytes, sha256_digest};
use crate::ids::Uuid;
use crate::protocol::{Allocation, AllocationState, WIRE_VERSION};
use crate::store::model::{
    same_32, AuditEvent, Installation, JobKind, Operation, OperationKind, Store, StoreError,
    MAX_GENERATION,
};
use crate::text::{chars_of, has_prefix, joined, range_in, same_text, CharClass};
use vstd::prelude::*;

verus! {

/// How long an allocation may wait for its DNS records, in milliseconds.
pub const PENDING_LIFETIME_MS: u64 = 86_400_000;

/// The name of a shard: one to 64 letters, digits and hyphens.
pub open spec fn valid_placement(placement: Seq<char>) -> bool {
    1 <= placement.len() <= 64 && crate::text::all_in(placement, CharClass::Label)
}

/// Whether a text names a shard.
pub fn placement_is_valid(placement: &str) -> (valid: bool)
    ensures
        valid == valid_placement(placement@),
{
    let chars: Vec<char> = chars_of(placement);
    proof {
        assert(chars@.subrange(0, chars@.len() as int) =~= placement@);
    }
    chars.len() >= 1 && chars.len() <= 64 && range_in(&chars, 0, chars.len(), CharClass::Label)
}

/// The hostname for random bytes: their label in the relay zone.
pub open spec fn hostname_for(random: Seq<u8>) -> Seq<char> {
    crate::encoding::label_text(random) + ".relay.bloom.directory"@
}

/// The hostname for 128 random bits is a relay hostname.
pub proof fn law_assigned_hostname_is_valid(random: Seq<u8>)
    requires
        random.len() == 16,
    ensures
        crate::protocol::valid_hostname(hostname_for(random)),
{
    crate::encoding::lemma_label_text(random);
    let label = crate::encoding::label_text(random);
    let name = hostname_for(random);
    assert(name.take(26) =~= label);
    assert(name.skip(26) =~= ".relay.bloom.directory"@);
}

/// Whether an allocation describes an installation.
pub open spec fn describes(
    allocation: Allocation,
    id: Uuid,
    row: crate::store::model::InstallationView,
) -> bool {
    &&& allocation.version == WIRE_VERSION
    &&& allocation.installation_id == id
    &&& allocation.hostname@ == row.hostname
    &&& allocation.placement@ == row.placement
    &&& allocation.state == row.state
}

/// A new installation.
pub open spec fn fresh_row(
    random: Seq<u8>,
    admin_public_key: Seq<u8>,
    placement: Seq<char>,
    now_ms: u64,
) -> crate::store::model::InstallationView {
    crate::store::model::InstallationView {
        hostname: hostname_for(random),
        admin_public_key,
        placement,
        state: AllocationState::PendingDns,
        generation: 0,
        acme_account_uri: None,
        created_at_ms: now_ms,
        credentials: Seq::empty(),
        lease: None,
        challenges: Seq::empty(),
        inventory: Seq::empty(),
    }
}

/// The digest of an operation that has none of its own.
pub open spec fn no_digest() -> Seq<u8> {
    Seq::new(32, |i: int| 0u8)
}

/// An operation without a receipt.
pub open spec fn plain_operation(
    id: Uuid,
    kind: OperationKind,
    digest: Seq<u8>,
    now_ms: u64,
) -> crate::store::model::OperationView {
    crate::store::model::OperationView {
        installation_id: id,
        kind,
        request_digest: digest,
        generation: 0,
        expires_at_ms: 0,
        created_at_ms: now_ms,
    }
}

/// What a request for a hostname does, and the installation it answers with. `fresh` and
/// `random` are the identifier and the label bits that a new installation gets.
pub open spec fn allocate_outcome(
    store: crate::store::model::StoreView,
    operation_id: Uuid,
    admin_public_key: Seq<u8>,
    placement: Seq<char>,
    fresh: Uuid,
    random: Seq<u8>,
    now_ms: u64,
) -> (crate::store::model::StoreView, Result<Uuid, StoreError>) {
    if !valid_placement(placement) {
        (store, Err(StoreError::InvalidRequest))
    } else if store.operations.dom().contains(operation_id) {
        let id = store.operations[operation_id].installation_id;
        let row = store.installations[id];
        if row.admin_public_key == admin_public_key && row.placement == placement {
            (store, Ok(id))
        } else {
            (store, Err(StoreError::Conflict))
        }
    } else if store.installations.dom().contains(fresh) || store.reservations.dom().contains(
        hostname_for(random),
    ) {
        (store, Err(StoreError::Unavailable))
    } else {
        let row = fresh_row(random, admin_public_key, placement, now_ms);
        (
            (crate::store::model::StoreView {
                installations: store.installations.insert(fresh, row),
                order: store.order.push(fresh),
                reservations: store.reservations.insert(row.hostname, fresh),
                ..store
            }).with_operation(
                operation_id,
                plain_operation(fresh, OperationKind::Allocate, no_digest(), now_ms),
            ).queued(fresh, JobKind::PublishName, now_ms).noted(
                fresh,
                Some(operation_id),
                AuditEvent::Allocated,
            ).advanced(),
            Ok(fresh),
        )
    }
}

/// An installation that has been given up: its generation has moved on and its lease is gone.
pub open spec fn retired_row(
    row: crate::store::model::InstallationView,
) -> crate::store::model::InstallationView {
    crate::store::model::InstallationView {
        state: AllocationState::Retired,
        generation: (row.generation + 1) as u64,
        lease: None,
        ..row
    }
}

/// What a request to give an installation up does and answers.
pub open spec fn retire_outcome(
    store: crate::store::model::StoreView,
    id: Uuid,
    operation_id: Uuid,
    now_ms: u64,
) -> (crate::store::model::StoreView, Result<(), StoreError>) {
    if store.operations.dom().contains(operation_id) {
        let earlier = store.operations[operation_id];
        if earlier.installation_id == id && earlier.kind == OperationKind::Retire {
            (store, Ok(()))
        } else {
            (store, Err(StoreError::Conflict))
        }
    } else if !store.active(id) {
        (store, Ok(()))
    } else if store.installations[id].generation == MAX_GENERATION {
        (store, Err(StoreError::Unavailable))
    } else {
        (
            store.with_row(id, retired_row(store.installations[id])).with_operation(
                operation_id,
                plain_operation(id, OperationKind::Retire, no_digest(), now_ms),
            ).queued(id, JobKind::RemoveRecords, now_ms).noted(
                id,
                Some(operation_id),
                AuditEvent::Retired,
            ).advanced(),
            Ok(()),
        )
    }
}

/// An installation that has moved to another shard: its generation has moved on and its lease
/// is gone; the hostname stays.
pub open spec fn relocated_row(
    row: crate::store::model::InstallationView,
    placement: Seq<char>,
) -> crate::store::model::InstallationView {
    crate::store::model::InstallationView {
        placement,
        generation: (row.generation + 1) as u64,
        lease: None,
        ..row
    }
}

/// What is digested of a request to move an installation.
pub open spec fn relocate_message(placement: Seq<char>) -> Seq<u8> {
    vstd::utf8::encode_utf8("bloom-relay/relocate/v1\0"@ + placement)
}

/// What a request to move an installation does and answers. `digest` identifies the request for
/// retries.
pub open spec fn relocate_outcome(
    store: crate::store::model::StoreView,
    id: Uuid,
    operation_id: Uuid,
    placement: Seq<char>,
    digest: Seq<u8>,
    now_ms: u64,
) -> (crate::store::model::StoreView, Result<(), StoreError>) {
    if !valid_placement(placement) {
        (store, Err(StoreError::InvalidRequest))
    } else if store.operations.dom().contains(operation_id) {
        let earlier = store.operations[operation_id];
        if earlier.installation_id == id && earlier.kind == OperationKind::Relocate
            && earlier.request_digest == digest {
            (store, Ok(()))
        } else {
            (store, Err(StoreError::Conflict))
        }
    } else if !store.active(id) {
        (store, Err(StoreError::Conflict))
    } else if store.installations[id].generation == MAX_GENERATION {
        (store, Err(StoreError::Unavailable))
    } else {
        (
            store.with_row(id, relocated_row(store.installations[id], placement)).with_operation(
                operation_id,
                plain_operation(id, OperationKind::Relocate, digest, now_ms),
            ).queued(id, JobKind::PublishName, now_ms).noted(
                id,
                Some(operation_id),
                AuditEvent::Relocated,
            ).advanced(),
            Ok(()),
        )
    }
}

/// An ACME account URI that an installation can be bound to: a production account.
pub open spec fn bindable_account(uri: Seq<char>) -> bool {
    let prefix = "https://acme-v02.api.letsencrypt.org/acme/acct/"@;
    &&& crate::text::starts_with(uri, prefix)
    &&& crate::text::all_in(uri.skip(prefix.len() as int), CharClass::Digit)
}

/// Whether a text is an ACME account URI that an installation can be bound to.
pub fn account_is_bindable(uri: &str) -> (bindable: bool)
    ensures
        bindable == bindable_account(uri@),
{
    let chars: Vec<char> = chars_of(uri);
    let prefix: Vec<char> = chars_of("https://acme-v02.api.letsencrypt.org/acme/acct/");
    if !has_prefix(&chars, &prefix) {
        return false;
    }
    proof {
        assert(chars@.skip(prefix@.len() as int) =~= chars@.subrange(
            prefix@.len() as int,
            chars@.len() as int,
        ));
    }
    range_in(&chars, prefix.len(), chars.len(), CharClass::Digit)
}

/// What a request to bind an ACME account does and answers.
pub open spec fn bind_outcome(
    store: crate::store::model::StoreView,
    id: Uuid,
    uri: Seq<char>,
    now_ms: u64,
) -> (crate::store::model::StoreView, Result<(), StoreError>) {
    if !bindable_account(uri) {
        (store, Err(StoreError::InvalidRequest))
    } else if !store.active(id) {
        (store, Err(StoreError::Conflict))
    } else {
        (
            store.with_row(
                id,
                crate::store::model::InstallationView {
                    acme_account_uri: Some(uri),
                    ..store.installations[id]
                },
            ).queued(id, JobKind::PublishName, now_ms).noted(
                id,
                None,
                AuditEvent::AcmeAccountBound,
            ).advanced(),
            Ok(()),
        )
    }
}

/// The store once the records of an installation have been observed: a pending installation
/// with an account becomes ready, and nothing else changes.
pub open spec fn readied(
    store: crate::store::model::StoreView,
    id: Uuid,
) -> crate::store::model::StoreView {
    if store.installations.dom().contains(id) && store.installations[id].state
        == AllocationState::PendingDns && store.installations[id].acme_account_uri is Some {
        store.with_row(
            id,
            crate::store::model::InstallationView {
                state: AllocationState::DnsReady,
                ..store.installations[id]
            },
        ).noted(id, None, AuditEvent::DnsReady).advanced()
    } else {
        store
    }
}

/// An allocation that has waited for its records for too long.
pub open spec fn overdue(
    store: crate::store::model::StoreView,
    id: Uuid,
    now_ms: u64,
) -> bool {
    &&& store.installations.dom().contains(id)
    &&& store.installations[id].state == AllocationState::PendingDns
    &&& store.installations[id].created_at_ms + PENDING_LIFETIME_MS <= now_ms
    &&& store.installations[id].generation < MAX_GENERATION
}

/// The store after an overdue allocation has been given up.
pub open spec fn expired(
    store: crate::store::model::StoreView,
    id: Uuid,
    now_ms: u64,
) -> crate::store::model::StoreView {
    store.with_row(id, retired_row(store.installations[id])).queued(
        id,
        JobKind::RemoveRecords,
        now_ms,
    ).noted(id, None, AuditEvent::PendingExpired).advanced()
}

/// The store after the first `count` installations have been looked at and the overdue ones
/// among them given up, at most `limit` of them; and how many that were.
pub open spec fn swept(
    store: crate::store::model::StoreView,
    count: nat,
    limit: nat,
    now_ms: u64,
) -> (crate::store::model::StoreView, nat)
    decreases count,
{
    if count == 0 {
        (store, 0)
    } else {
        let (before, given_up) = swept(store, (count - 1) as nat, limit, now_ms);
        let id = store.order[count - 1];
        if given_up < limit && overdue(before, id, now_ms) {
            (expired(before, id, now_ms), given_up + 1)
        } else {
            (before, given_up)
        }
    }
}

impl Store {
    /// Describes an installation.
    fn describe(&self, id: Uuid) -> (allocation: Option<Allocation>)
        requires
            self.installations.well_formed(),
        ensures
            allocation is Some == self@.installations.dom().contains(id),
            allocation matches Some(found) ==> describes(found, id, self@.installations[id]),
    {
        match self.installations.get(id) {
            Some(row) => Some(
                Allocation {
                    version: WIRE_VERSION,
                    installation_id: id,
                    hostname: row.hostname.clone(),
                    placement: row.placement.clone(),
                    state: row.state,
                },
            ),
            None => None,
        }
    }

    /// How far an allocation has come.
    pub fn allocation_status(&self, id: Uuid) -> (allocation: Option<Allocation>)
        requires
            self.well_formed(),
        ensures
            allocation is Some == self@.installations.dom().contains(id),
            allocation matches Some(found) ==> describes(found, id, self@.installations[id]),
    {
        self.describe(id)
    }

    /// The admin key of an installation that is not retired.
    pub fn admin_public_key(&self, id: Uuid) -> (key: Option<[u8; 32]>)
        requires
            self.well_formed(),
        ensures
            key is Some == self@.active(id),
            key matches Some(found) ==> found@ == self@.installations[id].admin_public_key,
    {
        match self.installations.get(id) {
            Some(row) => {
                if row.state == AllocationState::Retired {
                    None
                } else {
                    Some(row.admin_public_key)
                }
            },
            None => None,
        }
    }

    /// The admin key of an installation, retired or not.
    pub fn recorded_admin_key(&self, id: Uuid) -> (key: Option<[u8; 32]>)
        requires
            self.well_formed(),
        ensures
            key is Some == self@.installations.dom().contains(id),
            key matches Some(found) ==> found@ == self@.installations[id].admin_public_key,
    {
        match self.installations.get(id) {
            Some(row) => Some(row.admin_public_key),
            None => None,
        }
    }

    /// The hostname of an installation whose records are published.
    pub fn hostname(&self, id: Uuid) -> (name: Option<String>)
        requires
            self.well_formed(),
        ensures
            name is Some == self@.dns_ready(id),
            name matches Some(found) ==> found@ == self@.installations[id].hostname,
    {
        match self.installations.get(id) {
            Some(row) => {
                if row.state == AllocationState::DnsReady {
                    Some(row.hostname.clone())
                } else {
                    None
                }
            },
            None => None,
        }
    }

    /// The hostname of a retired installation.
    pub fn retired_hostname(&self, id: Uuid) -> (name: Option<String>)
        requires
            self.well_formed(),
        ensures
            name is Some == (self@.installations.dom().contains(id) && self@.installations[id].state
                == AllocationState::Retired),
            name matches Some(found) ==> found@ == self@.installations[id].hostname,
    {
        match self.installations.get(id) {
            Some(row) => {
                if row.state == AllocationState::Retired {
                    Some(row.hostname.clone())
                } else {
                    None
                }
            },
            None => None,
        }
    }

    /// The hostname, the ACME account and the shard of an installation that has an account and
    /// is not retired.
    pub fn dns_identity(&self, id: Uuid) -> (identity: Option<(String, String, String)>)
        requires
            self.well_formed(),
        ensures
            identity is Some == (self@.active(id) && self@.installations[id].acme_account_uri
                is Some),
            identity matches Some((hostname, account, placement)) ==> hostname@
                == self@.installations[id].hostname && Some(account@)
                == self@.installations[id].acme_account_uri && placement@
                == self@.installations[id].placement,
    {
        match self.installations.get(id) {
            Some(row) => {
                if row.state == AllocationState::Retired {
                    return None;
                }
                match &row.acme_account_uri {
                    Some(account) => Some(
                        (row.hostname.clone(), account.clone(), row.placement.clone()),
                    ),
                    None => None,
                }
            },
            None => None,
        }
    }

    /// Gives an installation a hostname that is kept for it for ever. The same operation gets
    /// the same answer again.
    pub fn allocate_with(
        &mut self,
        operation_id: Uuid,
        admin_public_key: &[u8; 32],
        placement: &str,
        fresh: Uuid,
        random: &Vec<u8>,
        now_ms: u64,
    ) -> (outcome: Result<Allocation, StoreError>)
        requires
            old(self).well_formed(),
            old(self).has_room(1),
            random@.len() == 16,
        ensures
            final(self).well_formed(),
            ({
                let (store, answer) = allocate_outcome(
                    old(self)@,
                    operation_id,
                    admin_public_key@,
                    placement@,
                    fresh,
                    random@,
                    now_ms,
                );
                &&& final(self)@ == store
                &&& match answer {
                    Ok(id) => outcome matches Ok(allocation) && describes(
                        allocation,
                        id,
                        store.installations[id],
                    ),
                    Err(error) => outcome == Err::<Allocation, StoreError>(error),
                }
            }),
    {
        if !placement_is_valid(placement) {
            return Err(StoreError::InvalidRequest);
        }
        if let Some(earlier) = self.operation(operation_id) {
            proof {
                assert(self@.operations.dom().contains(operation_id));
            }
            let same: bool = match self.installations.get(earlier.installation_id) {
                Some(row) => same_32(&row.admin_public_key, admin_public_key) && same_text(
                    row.placement.as_str(),
                    placement,
                ),
                None => false,
            };
            if !same {
                return Err(StoreError::Conflict);
            }
            return match self.describe(earlier.installation_id) {
                Some(allocation) => Ok(allocation),
                None => Err(StoreError::Conflict),
            };
        }
        let hostname: String = joined(label_of(random.as_slice()).as_str(), ".relay.bloom.directory");
        if self.installations.get(fresh).is_some() || self.reservations.get(
            hostname.as_str(),
        ).is_some() {
            return Err(StoreError::Unavailable);
        }
        let row = Installation {
            hostname: hostname.clone(),
            admin_public_key: *admin_public_key,
            placement: placement.to_owned(),
            state: AllocationState::PendingDns,
            generation: 0,
            acme_account_uri: None,
            created_at_ms: now_ms,
            credentials: Vec::new(),
            lease: None,
            challenges: Vec::new(),
            inventory: Vec::new(),
        };
        let ghost view = fresh_row(random@, admin_public_key@, placement@, now_ms);
        proof {
            assert(row@ =~= view);
            law_assigned_hostname_is_valid(random@);
        }
        self.installations.add_row(fresh, row);
        let _ = self.reservations.insert(hostname, fresh);
        proof {
            assert(self@.installations =~= old(self)@.installations.insert(fresh, view));
        }
        let digest: [u8; 32] = [0u8; 32];
        proof {
            assert(digest@ =~= no_digest());
        }
        self.record(
            operation_id,
            Operation {
                installation_id: fresh,
                kind: OperationKind::Allocate,
                request_digest: digest,
                generation: 0,
                expires_at_ms: 0,
                created_at_ms: now_ms,
            },
        );
        self.enqueue(fresh, JobKind::PublishName, now_ms);
        self.note(fresh, Some(operation_id), AuditEvent::Allocated);
        self.advance();
        match self.describe(fresh) {
            Some(allocation) => Ok(allocation),
            None => Err(StoreError::Unavailable),
        }
    }

    /// Gives an installation a random hostname. Whatever is drawn, an earlier operation gets
    /// its answer again and changes nothing, and a new installation has a valid hostname that
    /// nobody had before.
    pub fn allocate(
        &mut self,
        operation_id: Uuid,
        admin_public_key: &[u8; 32],
        placement: &str,
        now_ms: u64,
    ) -> (outcome: Result<Allocation, StoreError>)
        requires
            old(self).well_formed(),
            old(self).has_room(1),
        ensures
            final(self).well_formed(),
            exists|fresh: Uuid, random: Seq<u8>|
                #![trigger allocate_outcome(
                    old(self)@,
                    operation_id,
                    admin_public_key@,
                    placement@,
                    fresh,
                    random,
                    now_ms,
                )]
                {
                    let (store, answer) = allocate_outcome(
                        old(self)@,
                        operation_id,
                        admin_public_key@,
                        placement@,
                        fresh,
                        random,
                        now_ms,
                    );
                    &&& crate::ids::is_version_4(fresh.bits)
                    &&& random.len() == 16
                    &&& final(self)@ == store
                    &&& match answer {
                        Ok(id) => outcome matches Ok(allocation) && describes(
                            allocation,
                            id,
                            store.installations[id],
                        ),
                        Err(error) => outcome == Err::<Allocation, StoreError>(error),
                    }
                },
    {
        let fresh: Uuid = Uuid::new_v4();
        let random: Vec<u8> = random_bytes(16);
        self.allocate_with(operation_id, admin_public_key, placement, fresh, &random, now_ms)
    }

    /// Gives an installation up. The same operation may be repeated; an operation that was
    /// something else is refused.
    pub fn retire(&mut self, id: Uuid, operation_id: Uuid, now_ms: u64) -> (outcome: Result<
        (),
        StoreError,
    >)
        requires
            old(self).well_formed(),
            old(self).has_room(1),
        ensures
            final(self).well_formed(),
            (final(self)@, outcome) == retire_outcome(old(self)@, id, operation_id, now_ms),
    {
        if let Some(earlier) = self.operation(operation_id) {
            return if earlier.installation_id == id && earlier.kind == OperationKind::Retire {
                Ok(())
            } else {
                Err(StoreError::Conflict)
            };
        }
        match self.installations.get(id) {
            Some(row) => {
                if row.state == AllocationState::Retired {
                    return Ok(());
                }
                if row.generation >= MAX_GENERATION {
                    return Err(StoreError::Unavailable);
                }
            },
            None => {
                return Ok(());
            },
        }
        self.give_up(id);
        let digest: [u8; 32] = [0u8; 32];
        proof {
            assert(digest@ =~= no_digest());
        }
        self.record(
            operation_id,
            Operation {
                installation_id: id,
                kind: OperationKind::Retire,
                request_digest: digest,
                generation: 0,
                expires_at_ms: 0,
                created_at_ms: now_ms,
            },
        );
        self.enqueue(id, JobKind::RemoveRecords, now_ms);
        self.note(id, Some(operation_id), AuditEvent::Retired);
        self.advance();
        Ok(())
    }

    /// Marks an installation retired.
    fn give_up(&mut self, id: Uuid)
        requires
            old(self).well_formed(),
            old(self)@.installations.dom().contains(id),
            old(self)@.installations[id].generation < MAX_GENERATION,
        ensures
            final(self).well_formed(),
            final(self)@ == old(self)@.with_row(id, retired_row(old(self)@.installations[id])),
            final(self).next_job == old(self).next_job,
            final(self).revision == old(self).revision,
    {
        let ghost view = retired_row(old(self)@.installations[id]);
        match self.installations.get_mut(id) {
            Some(row) => {
                row.state = AllocationState::Retired;
                row.generation = row.generation + 1;
                row.lease = None;
            },
            None => {},
        }
        proof {
            assert(old(self)@.installations.dom().contains(id));
            assert(view.valid());
            assert(self@.installations =~= old(self)@.installations.insert(id, view));
        }
    }

    /// Moves an installation under a request digest.
    pub fn relocate_digested(
        &mut self,
        id: Uuid,
        operation_id: Uuid,
        placement: &str,
        digest: &[u8; 32],
        now_ms: u64,
    ) -> (outcome: Result<(), StoreError>)
        requires
            old(self).well_formed(),
            old(self).has_room(1),
        ensures
            final(self).well_formed(),
            (final(self)@, outcome) == relocate_outcome(
                old(self)@,
                id,
                operation_id,
                placement@,
                digest@,
                now_ms,
            ),
    {
        if !placement_is_valid(placement) {
            return Err(StoreError::InvalidRequest);
        }
        if let Some(earlier) = self.operation(operation_id) {
            return if earlier.installation_id == id && earlier.kind == OperationKind::Relocate
                && same_32(&earlier.request_digest, digest) {
                Ok(())
            } else {
                Err(StoreError::Conflict)
            };
        }
        match self.installations.get(id) {
            Some(row) => {
                if row.state == AllocationState::Retired {
                    return Err(StoreError::Conflict);
                }
                if row.generation >= MAX_GENERATION {
                    return Err(StoreError::Unavailable);
                }
            },
            None => {
                return Err(StoreError::Conflict);
            },
        }
        let ghost view = relocated_row(old(self)@.installations[id], placement@);
        match self.installations.get_mut(id) {
            Some(row) => {
                row.placement = placement.to_owned();
                row.generation = row.generation + 1;
                row.lease = None;
            },
            None => {},
        }
        proof {
            assert(old(self)@.installations.dom().contains(id));
            assert(view.valid());
            assert(self@.installations =~= old(self)@.installations.insert(id, view));
        }
        self.record(
            operation_id,
            Operation {
                installation_id: id,
                kind: OperationKind::Relocate,
                request_digest: *digest,
                generation: 0,
                expires_at_ms: 0,
                created_at_ms: now_ms,
            },
        );
        self.enqueue(id, JobKind::PublishName, now_ms);
        self.note(id, Some(operation_id), AuditEvent::Relocated);
        self.advance();
        Ok(())
    }

    /// Moves an installation to another shard: the hostname stays, the tunnel is fenced, and
    /// the new addresses are queued for publication. The same operation may be repeated for the
    /// same shard.
    pub fn relocate(&mut self, id: Uuid, operation_id: Uuid, placement: &str, now_ms: u64) -> (outcome:
        Result<(), StoreError>)
        requires
            old(self).well_formed(),
            old(self).has_room(1),
        ensures
            final(self).well_formed(),
            (final(self)@, outcome) == relocate_outcome(
                old(self)@,
                id,
                operation_id,
                placement@,
                crate::encoding::sha256(relocate_message(placement@)),
                now_ms,
            ),
    {
        let message: String = joined("bloom-relay/relocate/v1\0", placement);
        let digest: [u8; 32] = sha256_digest(message.as_str().as_bytes());
        self.relocate_digested(id, operation_id, placement, &digest, now_ms)
    }

    /// Binds an ACME account, so that the CAA records can name it.
    pub fn register_acme_account(&mut self, id: Uuid, account_uri: &str, now_ms: u64) -> (outcome:
        Result<(), StoreError>)
        requires
            old(self).well_formed(),
            old(self).has_room(1),
        ensures
            final(self).well_formed(),
            (final(self)@, outcome) == bind_outcome(old(self)@, id, account_uri@, now_ms),
    {
        if !account_is_bindable(account_uri) {
            return Err(StoreError::InvalidRequest);
        }
        match self.installations.get(id) {
            Some(row) => {
                if row.state == AllocationState::Retired {
                    return Err(StoreError::Conflict);
                }
            },
            None => {
                return Err(StoreError::Conflict);
            },
        }
        let ghost view = crate::store::model::InstallationView {
            acme_account_uri: Some(account_uri@),
            ..old(self)@.installations[id]
        };
        match self.installations.get_mut(id) {
            Some(row) => {
                row.acme_account_uri = Some(account_uri.to_owned());
            },
            None => {},
        }
        proof {
            assert(old(self)@.installations.dom().contains(id));
            assert(view.valid());
            assert(self@.installations =~= old(self)@.installations.insert(id, view));
        }
        self.enqueue(id, JobKind::PublishName, now_ms);
        self.note(id, None, AuditEvent::AcmeAccountBound);
        self.advance();
        Ok(())
    }

    /// Takes note that the records of an installation have been observed.
    pub fn mark_dns_ready(&mut self, id: Uuid)
        requires
            old(self).well_formed(),
            old(self).has_room(1),
        ensures
            final(self).well_formed(),
            final(self)@ == readied(old(self)@, id),
    {
        let due: bool = match self.installations.get(id) {
            Some(row) => row.state == AllocationState::PendingDns && row.acme_account_uri.is_some(),
            None => false,
        };
        if !due {
            return;
        }
        let ghost view = crate::store::model::InstallationView {
            state: AllocationState::DnsReady,
            ..old(self)@.installations[id]
        };
        match self.installations.get_mut(id) {
            Some(row) => {
                row.state = AllocationState::DnsReady;
            },
            None => {},
        }
        proof {
            assert(old(self)@.installations.dom().contains(id));
            assert(view.valid());
            assert(self@.installations =~= old(self)@.installations.insert(id, view));
        }
        self.note(id, None, AuditEvent::DnsReady);
        self.advance();
    }

    /// Gives up allocations that have waited for their records for a day, in the order in which
    /// they came and at most `limit` of them. Their hostnames stay reserved.
    pub fn expire_pending_allocations(&mut self, limit: u64, now_ms: u64) -> (given_up: u64)
        requires
            old(self).well_formed(),
            old(self).has_room(limit as int),
        ensures
            final(self).well_formed(),
            (final(self)@, given_up as nat) == swept(
                old(self)@,
                old(self)@.order.len(),
                limit as nat,
                now_ms,
            ),
    {
        let mut given_up: u64 = 0;
        let mut i: usize = 0;
        let total: usize = self.installations.len();
        while i < total
            invariant
                i <= total == old(self)@.order.len(),
                self.well_formed(),
                self@.order == old(self)@.order,
                given_up <= limit,
                old(self).has_room(limit as int),
                self.next_job == old(self).next_job + given_up,
                self.revision == old(self).revision + given_up,
                (self@, given_up as nat) == swept(old(self)@, i as nat, limit as nat, now_ms),
            decreases total - i,
        {
            let id: Uuid = self.installations.key_at(i);
            let due: bool = match self.installations.get(id) {
                Some(row) => row.state == AllocationState::PendingDns && now_ms
                    >= PENDING_LIFETIME_MS && row.created_at_ms <= now_ms - PENDING_LIFETIME_MS
                    && row.generation < MAX_GENERATION,
                None => false,
            };
            proof {
                assert(due == overdue(self@, id, now_ms));
            }
            if given_up < limit && due {
                self.give_up(id);
                self.enqueue(id, JobKind::RemoveRecords, now_ms);
                self.note(id, None, AuditEvent::PendingExpired);
                self.advance();
                given_up += 1;
            }
            i += 1;
        }
        given_up
    }
}

} // verus!
