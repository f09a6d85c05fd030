//! The DNS worker: what it does for a job of the outbox, and when the job is done.
//!
//! A job is begun with the rows of its installation. The worker carries the action out, has it
//! observed, and settles the job with what was seen. A job that fails or is not seen yet stays
//! in the outbox and is due again later.

use crate::dns::{Address, NameRecords, TxtLease};
use crate::ids::Uuid;
use crate::protocol::ChallengeLease;
use crate::store::model::{JobKind, OutboxJob, Store};
use crate::text::same_text;
use vstd::prelude::*;

verus! {

/// What a worker does for a job.
#[derive(Debug, PartialEq, Eq)]
pub enum WorkerAction {
    /// Publish a name, and see whether it is visible.
    PublishName(NameRecords),
    /// Publish a DNS-01 answer, and see whether it is visible.
    CreateTxt(TxtLease),
    /// Remove a DNS-01 answer, and see whether it is gone.
    DeleteTxt(TxtLease),
    /// Remove what serves a name, and see whether it is gone.
    RetireName(String),
    /// Nothing is left to do.
    Done,
    /// The job is not for this worker, or not yet.
    Wait,
}

/// Whether two lists hold the same addresses.
pub open spec fn same_addresses(left: Seq<Address>, right: Seq<Address>) -> bool {
    &&& left.len() == right.len()
    &&& forall|i: int|
        0 <= i < left.len() ==> (#[trigger] left[i]).ip == right[i].ip && left[i].text@
            == right[i].text@
}

/// Whether records are those of an installation with the addresses of the ingress.
pub open spec fn records_for(
    records: NameRecords,
    row: crate::store::model::InstallationView,
    ingress: Seq<Address>,
) -> bool {
    &&& records.hostname@ == row.hostname
    &&& Some(records.acme_account_uri@) == row.acme_account_uri
    &&& same_addresses(records.addresses@, ingress)
}

/// Whether a lease is the one of an installation.
pub open spec fn lease_for(
    lease: TxtLease,
    row: crate::store::model::InstallationView,
    lease_id: Uuid,
    answer: crate::store::model::ChallengeView,
) -> bool {
    &&& lease.hostname@ == row.hostname
    &&& lease.lease_id@ == lease_id.spec_text()
    &&& lease.value@ == answer.txt_value
    &&& lease.expires_at_ms == answer.expires_at_ms
}

/// Whether an installation is to have records: it has an account and is not retired.
pub open spec fn has_identity(store: crate::store::model::StoreView, id: Uuid) -> bool {
    store.active(id) && store.installations[id].acme_account_uri is Some
}

/// Whether an action is the one for a job.
pub open spec fn is_action(
    action: WorkerAction,
    store: crate::store::model::StoreView,
    placement: Seq<char>,
    ingress: Seq<Address>,
    job: OutboxJob,
    now_ms: u64,
) -> bool {
    let id = job.installation_id;
    let row = store.installations[id];
    match job.kind {
        JobKind::PublishName => if !has_identity(store, id) {
            action == WorkerAction::Done
        } else if row.placement != placement {
            action == WorkerAction::Wait
        } else {
            action matches WorkerAction::PublishName(records) && records_for(
                records,
                row,
                ingress,
            )
        },
        JobKind::PublishTxt(lease_id) => if !has_identity(store, id) {
            action == WorkerAction::Done
        } else if row.placement != placement {
            action == WorkerAction::Wait
        } else {
            match crate::store::challenges::job_lease(store, id, lease_id, false, now_ms) {
                None => action == WorkerAction::Done,
                Some(answer) => action matches WorkerAction::CreateTxt(lease) && lease_for(
                    lease,
                    row,
                    lease_id,
                    answer,
                ),
            }
        },
        JobKind::RemoveTxt(lease_id) => if !has_identity(store, id) {
            action == WorkerAction::Done
        } else if row.placement != placement {
            action == WorkerAction::Wait
        } else {
            match crate::store::challenges::job_lease(store, id, lease_id, true, now_ms) {
                None => action == WorkerAction::Done,
                Some(answer) => action matches WorkerAction::DeleteTxt(lease) && lease_for(
                    lease,
                    row,
                    lease_id,
                    answer,
                ),
            }
        },
        JobKind::RemoveRecords => if store.installations.dom().contains(id) && row.state
            == crate::protocol::AllocationState::Retired {
            action matches WorkerAction::RetireName(hostname) && hostname@ == row.hostname
        } else {
            action == WorkerAction::Done
        },
    }
}

/// Copies a list of addresses.
fn copy_addresses(addresses: &Vec<Address>) -> (copy: Vec<Address>)
    ensures
        same_addresses(copy@, addresses@),
{
    let mut copy: Vec<Address> = Vec::new();
    let mut i: usize = 0;
    while i < addresses.len()
        invariant
            i <= addresses@.len(),
            same_addresses(copy@, addresses@.take(i as int)),
        decreases addresses@.len() - i,
    {
        copy.push(Address { ip: addresses[i].ip, text: addresses[i].text.clone() });
        i += 1;
    }
    proof {
        assert(addresses@.take(i as int) =~= addresses@);
    }
    copy
}

/// Makes the lease of an installation out of what was recorded.
fn txt_lease(hostname: String, lease_id: Uuid, recorded: ChallengeLease) -> (lease: TxtLease)
    ensures
        lease.hostname@ == hostname@,
        lease.lease_id@ == lease_id.spec_text(),
        lease.value@ == recorded.txt_value@,
        lease.expires_at_ms == recorded.expires_at_ms,
{
    TxtLease {
        hostname,
        lease_id: lease_id.to_text(),
        value: recorded.txt_value,
        expires_at_ms: recorded.expires_at_ms,
    }
}

/// Begins a job: says what has to be done for it.
pub fn begin_job(
    store: &Store,
    placement: &str,
    ingress: &Vec<Address>,
    job: &OutboxJob,
    now_ms: u64,
) -> (action: WorkerAction)
    requires
        store.well_formed(),
    ensures
        is_action(action, store@, placement@, ingress@, *job, now_ms),
{
    let id: Uuid = job.installation_id;
    if job.kind == JobKind::RemoveRecords {
        return match store.retired_hostname(id) {
            Some(hostname) => WorkerAction::RetireName(hostname),
            None => WorkerAction::Done,
        };
    }
    let (hostname, account, home): (String, String, String) = match store.dns_identity(id) {
        Some(identity) => identity,
        None => {
            return WorkerAction::Done;
        },
    };
    if !same_text(home.as_str(), placement) {
        return WorkerAction::Wait;
    }
    match job.kind {
        JobKind::PublishName => WorkerAction::PublishName(
            NameRecords {
                hostname,
                addresses: copy_addresses(ingress),
                acme_account_uri: account,
            },
        ),
        JobKind::PublishTxt(lease_id) => match store.challenge_for_job(
            id,
            lease_id,
            false,
            now_ms,
        ) {
            Some(recorded) => WorkerAction::CreateTxt(txt_lease(hostname, lease_id, recorded)),
            None => WorkerAction::Done,
        },
        JobKind::RemoveTxt(lease_id) => match store.challenge_for_job(
            id,
            lease_id,
            true,
            now_ms,
        ) {
            Some(recorded) => WorkerAction::DeleteTxt(txt_lease(hostname, lease_id, recorded)),
            None => WorkerAction::Done,
        },
        JobKind::RemoveRecords => WorkerAction::Wait,
    }
}

/// What the end of an action does and answers: whether the job is done. `seen` says whether
/// the change was observed.
pub open spec fn settle_outcome(
    store: crate::store::model::StoreView,
    job: OutboxJob,
    seen: bool,
    now_ms: u64,
) -> (crate::store::model::StoreView, bool) {
    if !seen {
        (store, false)
    } else {
        match job.kind {
            JobKind::PublishName => (
                crate::store::identity::readied(store, job.installation_id),
                true,
            ),
            JobKind::PublishTxt(lease_id) => (
                crate::store::challenges::challenge_readied(
                    store,
                    job.installation_id,
                    lease_id,
                    now_ms,
                ),
                true,
            ),
            _ => (store, true),
        }
    }
}

/// Settles a job after its action was carried out and looked for. Nothing counts as ready
/// before it was observed.
pub fn settle_job(store: &mut Store, job: &OutboxJob, seen: bool, now_ms: u64) -> (done: bool)
    requires
        old(store).well_formed(),
        old(store).has_room(1),
    ensures
        final(store).well_formed(),
        (final(store)@, done) == settle_outcome(old(store)@, *job, seen, now_ms),
{
    if !seen {
        return false;
    }
    match job.kind {
        JobKind::PublishName => {
            store.mark_dns_ready(job.installation_id);
        },
        JobKind::PublishTxt(lease_id) => {
            store.mark_challenge_ready(job.installation_id, lease_id, now_ms);
        },
        _ => {},
    }
    true
}

/// An installation becomes ready, and an answer too, only after the change was observed.
pub proof fn law_nothing_is_ready_unseen(
    store: crate::store::model::StoreView,
    job: OutboxJob,
    now_ms: u64,
)
    ensures
        settle_outcome(store, job, false, now_ms) == (store, false),
{
}

/// A worker never publishes for an installation of another shard, nor for one that is retired.
pub proof fn law_work_stays_on_its_shard(
    action: WorkerAction,
    store: crate::store::model::StoreView,
    placement: Seq<char>,
    ingress: Seq<Address>,
    job: OutboxJob,
    now_ms: u64,
)
    requires
        is_action(action, store, placement, ingress, job, now_ms),
        action is PublishName || action is CreateTxt || action is DeleteTxt,
    ensures
        store.active(job.installation_id),
        store.installations[job.installation_id].placement == placement,
{
}

/// What is published or removed is of the hostname that the installation was assigned.
pub proof fn law_work_is_on_assigned_hostname(
    action: WorkerAction,
    store: crate::store::model::StoreView,
    placement: Seq<char>,
    ingress: Seq<Address>,
    job: OutboxJob,
    now_ms: u64,
)
    requires
        is_action(action, store, placement, ingress, job, now_ms),
    ensures
        ({
            let hostname = store.installations[job.installation_id].hostname;
            match action {
                WorkerAction::PublishName(records) => records.hostname@ == hostname,
                WorkerAction::CreateTxt(lease) => lease.hostname@ == hostname,
                WorkerAction::DeleteTxt(lease) => lease.hostname@ == hostname,
                WorkerAction::RetireName(name) => name@ == hostname,
                _ => true,
            }
        }),
{
}

/// Whether an installation has a name to serve: it is there, not retired, and has an account.
pub open spec fn served(store: crate::store::model::StoreView, id: Uuid) -> bool {
    crate::store::effects::known(store, id) && !(store.installations[id].state is Retired)
        && store.installations[id].acme_account_uri is Some
}

/// A name that is to be published is published with the hostname and the account of the
/// installation and the addresses of the shard, all of them in order, where the installation is
/// placed there; elsewhere it waits, and without a name to serve nothing is left to do.
pub proof fn law_name_is_published_on_its_shard(
    action: WorkerAction,
    store: crate::store::model::StoreView,
    placement: Seq<char>,
    ingress: Seq<Address>,
    job: OutboxJob,
    now_ms: u64,
)
    requires
        is_action(action, store, placement, ingress, job, now_ms),
        job.kind is PublishName,
    ensures
        ({
            let id = job.installation_id;
            let row = store.installations[id];
            let here = row.placement == placement;
            &&& action is Done <==> !served(store, id)
            &&& action is Wait <==> served(store, id) && !here
            &&& action is PublishName <==> served(store, id) && here
            &&& action matches WorkerAction::PublishName(records) ==> {
                &&& records.hostname@ == row.hostname
                &&& Some(records.acme_account_uri@) == row.acme_account_uri
                &&& records.addresses@.len() == ingress.len()
                &&& forall|i: int|
                    0 <= i < ingress.len() ==> (#[trigger] records.addresses@[i]).ip
                        == ingress[i].ip && records.addresses@[i].text@ == ingress[i].text@
            }
        }),
{
}

/// A name that is to be removed is removed exactly where the installation is retired.
pub proof fn law_only_retired_names_are_removed(
    action: WorkerAction,
    store: crate::store::model::StoreView,
    placement: Seq<char>,
    ingress: Seq<Address>,
    job: OutboxJob,
    now_ms: u64,
)
    requires
        is_action(action, store, placement, ingress, job, now_ms),
        job.kind is RemoveRecords,
    ensures
        ({
            let id = job.installation_id;
            let retired = crate::store::effects::known(store, id)
                && store.installations[id].state is Retired;
            &&& action is RetireName <==> retired
            &&& action is Done <==> !retired
            &&& action matches WorkerAction::RetireName(hostname) ==> hostname@
                == store.installations[id].hostname
        }),
{
}

/// A DNS-01 answer is published while it stands, and removed while no other stands, on the shard
/// of the installation, with its hostname, identifier, value and end; otherwise nothing is left
/// to do.
pub proof fn law_answer_is_worked_on_its_shard(
    action: WorkerAction,
    store: crate::store::model::StoreView,
    placement: Seq<char>,
    ingress: Seq<Address>,
    job: OutboxJob,
    now_ms: u64,
    lease_id: Uuid,
    i: int,
)
    requires
        store.valid(),
        is_action(action, store, placement, ingress, job, now_ms),
        job.kind == JobKind::PublishTxt(lease_id) || job.kind == JobKind::RemoveTxt(lease_id),
        served(store, job.installation_id),
        crate::store::duties::answer_at(store.installations[job.installation_id], i, lease_id),
    ensures
        ({
            let row = store.installations[job.installation_id];
            let answer = row.challenges[i];
            let here = row.placement == placement;
            let removal = job.kind is RemoveTxt;
            let due = if removal {
                !crate::store::duties::another_stands(row, lease_id, now_ms)
            } else {
                !answer.deleted && answer.expires_at_ms > now_ms
            };
            let exact = |lease: TxtLease|
                {
                    &&& lease.hostname@ == row.hostname
                    &&& lease.lease_id@ == lease_id.spec_text()
                    &&& lease.value@ == answer.txt_value
                    &&& lease.expires_at_ms == answer.expires_at_ms
                };
            &&& action is Wait <==> !here
            &&& action is Done <==> here && !due
            &&& action is CreateTxt <==> here && due && !removal
            &&& action is DeleteTxt <==> here && due && removal
            &&& action matches WorkerAction::CreateTxt(lease) ==> exact(lease)
            &&& action matches WorkerAction::DeleteTxt(lease) ==> exact(lease)
        }),
{
    crate::store::duties::law_job_is_about_its_answer(
        store,
        job.installation_id,
        lease_id,
        job.kind is RemoveTxt,
        now_ms,
        i,
    );
}

/// Work is done exactly where it was seen. What was seen makes a published name ready, or a
/// published answer, and a removal changes nothing.
pub proof fn law_seen_work_is_settled(
    store: crate::store::model::StoreView,
    job: OutboxJob,
    seen: bool,
    now_ms: u64,
)
    ensures
        ({
            let id = job.installation_id;
            let row = store.installations[id];
            let (after, done) = settle_outcome(store, job, seen, now_ms);
            &&& done == seen
            &&& !seen || job.kind is RemoveRecords || job.kind is RemoveTxt ==> after == store
            &&& seen && job.kind is PublishName && crate::store::effects::stands(
                store,
                id,
                crate::protocol::AllocationState::PendingDns,
            ) && row.acme_account_uri is Some ==> after.installations[id] == (
            crate::store::model::InstallationView {
                state: crate::protocol::AllocationState::DnsReady,
                ..row
            })
            &&& seen && job.kind is PublishName && crate::store::effects::known(store, id) && !(
            row.state is PendingDns) ==> after == store
            &&& job.kind matches JobKind::PublishTxt(lease_id) ==> after == if seen {
                crate::store::challenges::challenge_readied(store, id, lease_id, now_ms)
            } else {
                store
            }
        }),
{
    crate::store::effects::law_observed_name_is_ready(store, job.installation_id);
}

} // verus!
