//! Enrollment: bootstrap challenges, and the hostname that a signed request is given.

use crate::canonical::{canonical_json, JsonDocument};
use crate::control_api::{
    invalid, quota_exceeded, refuse_conflict, replayed, unauthorized, unavailable, ApiError,
};
use crate::encoding::{base64url_encode, base64url_read, random_bytes, sha256_hex};
use crate::ids::Uuid;
use crate::protocol::{
    array_32, AllocateRequest, Allocation, AllocationReceipt, BootstrapChallenge, Scope,
    SignedRequest, VerifyingKey, WIRE_VERSION,
};
use crate::address::IpAddress;
use crate::store::model::Store;
use crate::text::same_text;
use vstd::prelude::*;

verus! {

/// How long a bootstrap challenge is good for, in milliseconds.
pub const CHALLENGE_WINDOW_MS: u64 = 60_000;

/// What the request for a bootstrap challenge under a nonce does and answers.
pub open spec fn is_challenge(
    before: crate::store::model::StoreView,
    after: crate::store::model::StoreView,
    nonce: Seq<char>,
    source: IpAddress,
    now_ms: u64,
    outcome: Result<BootstrapChallenge, ApiError>,
) -> bool {
    let (store, answer) = crate::store::admission::bootstrap_outcome(
        before,
        nonce,
        source,
        now_ms,
    );
    &&& after == store
    &&& match answer {
        Err(_) => outcome == Err::<BootstrapChallenge, ApiError>(
            crate::control_api::unavailable_error(),
        ),
        Ok(false) => outcome == Err::<BootstrapChallenge, ApiError>(
            crate::control_api::quota_error(),
        ),
        Ok(true) => outcome matches Ok(challenge) && challenge.version == WIRE_VERSION
            && challenge.nonce@ == nonce && challenge.expires_at_ms == now_ms
            + CHALLENGE_WINDOW_MS,
    }
}

/// Gives a bootstrap challenge out under a nonce.
pub fn challenge_with(store: &mut Store, nonce: String, source: IpAddress, now_ms: u64) -> (outcome:
    Result<BootstrapChallenge, ApiError>)
    requires
        old(store).well_formed(),
        now_ms + CHALLENGE_WINDOW_MS <= u64::MAX,
    ensures
        final(store).well_formed(),
        is_challenge(old(store)@, final(store)@, nonce@, source, now_ms, outcome),
{
    match store.create_bootstrap_challenge(nonce.as_str(), source, now_ms) {
        Err(_) => Err(unavailable()),
        Ok(granted) => {
            if !granted {
                return Err(quota_exceeded());
            }
            Ok(
                BootstrapChallenge {
                    version: WIRE_VERSION,
                    nonce,
                    expires_at_ms: now_ms + CHALLENGE_WINDOW_MS,
                },
            )
        },
    }
}

/// Gives a bootstrap challenge out; its nonce is 32 random bytes.
pub fn challenge(store: &mut Store, source: IpAddress, now_ms: u64) -> (outcome: Result<
    BootstrapChallenge,
    ApiError,
>)
    requires
        old(store).well_formed(),
        now_ms + CHALLENGE_WINDOW_MS <= u64::MAX,
    ensures
        final(store).well_formed(),
        exists|drawn: Seq<u8>|
            drawn.len() == 32 && is_challenge(
                old(store)@,
                final(store)@,
                #[trigger] crate::encoding::base64url(drawn),
                source,
                now_ms,
                outcome,
            ),
{
    let drawn: Vec<u8> = random_bytes(32);
    let nonce: String = base64url_encode(drawn.as_slice());
    let outcome = challenge_with(store, nonce, source, now_ms);
    proof {
        assert(is_challenge(
            old(store)@,
            store@,
            crate::encoding::base64url(drawn@),
            source,
            now_ms,
            outcome,
        ));
    }
    outcome
}

/// The admin key that a request for a hostname names.
pub open spec fn named_key(text: Seq<char>) -> Option<Seq<u8>> {
    match crate::encoding::base64url_bytes(text) {
        Some(bytes) => if bytes.len() == 32 && crate::encoding::ed25519_point(bytes) {
            Some(bytes)
        } else {
            None
        },
        None => None,
    }
}

/// The verdict on a request for a hostname before its nonce is looked at, and the admin key
/// that it proves.
pub open spec fn enroll_verdict(
    request: SignedRequest<AllocateRequest>,
    audience: Seq<char>,
    now_ms: u64,
) -> Result<Seq<u8>, ApiError> {
    match named_key(request.body.admin_public_key@) {
        None => Err(crate::control_api::invalid_error()),
        Some(key) => if request.claims.installation_id.bits != 0 || request.claims.operation_id
            != request.body.operation_id || request.claims.nonce@
            != request.body.bootstrap_nonce@ {
            Err(crate::control_api::unauthorized_error())
        } else {
            match request.claims.spec_verify(
                crate::canonical::jcs(request.body.spec_document()),
                request.signature@,
                key,
                Scope::SurfaceAdmin,
                audience,
                now_ms,
            ) {
                Err(_) => Err(crate::control_api::unauthorized_error()),
                Ok(_) => Ok(key),
            }
        },
    }
}

/// The bytes of a key that was proved.
pub open spec fn key_result(outcome: Result<[u8; 32], ApiError>) -> Result<Seq<u8>, ApiError> {
    match outcome {
        Ok(key) => Ok(key@),
        Err(error) => Err(error),
    }
}

/// Checks a request for a hostname up to its nonce.
pub fn check_enrollment(
    request: &SignedRequest<AllocateRequest>,
    audience: &str,
    now_ms: u64,
) -> (outcome: Result<[u8; 32], ApiError>)
    ensures
        key_result(outcome) == enroll_verdict(*request, audience@, now_ms),
{
    let bytes: Vec<u8> = match base64url_read(request.body.admin_public_key.as_str()) {
        Some(bytes) => bytes,
        None => {
            return Err(invalid());
        },
    };
    if bytes.len() != 32 {
        return Err(invalid());
    }
    let key: [u8; 32] = array_32(&bytes);
    let point: VerifyingKey = match VerifyingKey::from_bytes(&key) {
        Some(point) => point,
        None => {
            return Err(invalid());
        },
    };
    let document: JsonDocument = request.body.document();
    let body: Vec<u8> = canonical_json(&document);
    if request.claims.installation_id != Uuid::nil() || request.claims.operation_id
        != request.body.operation_id || !same_text(
        request.claims.nonce.as_str(),
        request.body.bootstrap_nonce.as_str(),
    ) {
        return Err(unauthorized());
    }
    if request.claims.verify(
        body.as_slice(),
        request.signature.as_str(),
        &point,
        Scope::SurfaceAdmin,
        audience,
        now_ms,
    ).is_err() {
        return Err(unauthorized());
    }
    Ok(key)
}

/// Whether a receipt says what it has to of an installation.
pub open spec fn receipt_states(
    receipt: AllocationReceipt,
    id: Uuid,
    row: crate::store::model::InstallationView,
    operation_id: Uuid,
    admin_public_key: Seq<u8>,
    now_ms: u64,
) -> bool {
    &&& crate::store::identity::describes(receipt.allocation, id, row)
    &&& receipt.operation_id == operation_id
    &&& receipt.admin_key_sha256@ == crate::encoding::hex_text(
        crate::encoding::sha256(admin_public_key),
    )
    &&& receipt.issued_at_ms == now_ms
}

/// Whether the answer is the signed form of a receipt, or tells that a receipt in another
/// version cannot be signed.
pub open spec fn answers_with(
    draft: AllocationReceipt,
    seed: Seq<u8>,
    outcome: Result<AllocationReceipt, ApiError>,
) -> bool {
    match draft.spec_signed_bytes() {
        Err(_) => outcome == Err::<AllocationReceipt, ApiError>(
            crate::control_api::unavailable_error(),
        ),
        Ok(bytes) => outcome matches Ok(receipt) && receipt.same_content(draft)
            && receipt.signature@ == crate::encoding::base64url(
            crate::encoding::ed25519_signature(seed, bytes),
        ),
    }
}

/// What a request for a hostname does and answers. `fresh` and `random` are the identifier and
/// the label bits that a new installation gets.
pub open spec fn is_enrollment(
    before: crate::store::model::StoreView,
    after: crate::store::model::StoreView,
    request: SignedRequest<AllocateRequest>,
    source: IpAddress,
    seed: Seq<u8>,
    audience: Seq<char>,
    placement: Seq<char>,
    fresh: Uuid,
    random: Seq<u8>,
    now_ms: u64,
    outcome: Result<AllocationReceipt, ApiError>,
) -> bool {
    match enroll_verdict(request, audience, now_ms) {
        Err(error) => after == before && outcome == Err::<AllocationReceipt, ApiError>(error),
        Ok(key) => {
            let (used, first) = crate::store::admission::bootstrap_used(
                before,
                request.body.bootstrap_nonce@,
                source,
                now_ms,
            );
            if !first {
                &&& after == used
                &&& outcome == Err::<AllocationReceipt, ApiError>(
                    crate::control_api::replayed_error(),
                )
            } else {
                let operation_id = request.body.operation_id;
                let (store, answer) = crate::store::identity::allocate_outcome(
                    used,
                    operation_id,
                    key,
                    placement,
                    fresh,
                    random,
                    now_ms,
                );
                &&& after == store
                &&& match answer {
                    Err(error) => outcome == Err::<AllocationReceipt, ApiError>(
                        crate::control_api::conflict_refusal(error),
                    ),
                    Ok(id) => exists|draft: AllocationReceipt|
                        #[trigger] receipt_states(
                            draft,
                            id,
                            store.installations[id],
                            operation_id,
                            key,
                            now_ms,
                        ) && answers_with(draft, seed, outcome),
                }
            }
        },
    }
}

/// Writes and signs the receipt of an allocation. Whoever asked for it accepts it: the receipt
/// passes for the operation and the admin key at the time of its issue.
pub fn issue_receipt(
    allocation: Allocation,
    operation_id: Uuid,
    admin_public_key: &[u8; 32],
    seed: &[u8; 32],
    now_ms: u64,
) -> (outcome: Result<AllocationReceipt, ApiError>)
    requires
        crate::protocol::valid_hostname(allocation.hostname@),
    ensures
        exists|draft: AllocationReceipt|
            {
                &&& draft.allocation == allocation
                &&& draft.operation_id == operation_id
                &&& draft.admin_key_sha256@ == crate::encoding::hex_text(
                    crate::encoding::sha256(admin_public_key@),
                )
                &&& draft.issued_at_ms == now_ms
                &&& #[trigger] answers_with(draft, seed@, outcome)
            },
        outcome matches Ok(receipt) ==> receipt.spec_verify(
            crate::encoding::ed25519_public(seed@),
            operation_id,
            admin_public_key@,
            now_ms,
        ) is Ok,
{
    let draft = AllocationReceipt {
        allocation,
        operation_id,
        admin_key_sha256: sha256_hex(admin_public_key.as_slice()),
        issued_at_ms: now_ms,
        signature: String::new(),
    };
    let ghost written = draft;
    let outcome: Result<AllocationReceipt, ApiError> = match draft.sign(seed) {
        Ok(receipt) => {
            proof {
                assert(receipt.spec_verify(
                    crate::encoding::ed25519_public(seed@),
                    operation_id,
                    admin_public_key@,
                    now_ms,
                ) == receipt.spec_precheck(
                    operation_id,
                    crate::encoding::hex_text(crate::encoding::sha256(admin_public_key@)),
                    now_ms,
                ));
            }
            Ok(receipt)
        },
        Err(_) => Err(unavailable()),
    };
    proof {
        assert(answers_with(written, seed@, outcome));
    }
    outcome
}

/// Gives a hostname to whoever proves the possession of an admin key with a bootstrap
/// challenge of their own, under a given identifier and label bits.
pub fn enroll_with(
    store: &mut Store,
    request: &SignedRequest<AllocateRequest>,
    source: IpAddress,
    seed: &[u8; 32],
    audience: &str,
    placement: &str,
    fresh: Uuid,
    random: &Vec<u8>,
    now_ms: u64,
) -> (outcome: Result<AllocationReceipt, ApiError>)
    requires
        old(store).well_formed(),
        old(store).has_room(1),
        random@.len() == 16,
    ensures
        final(store).well_formed(),
        is_enrollment(
            old(store)@,
            final(store)@,
            *request,
            source,
            seed@,
            audience@,
            placement@,
            fresh,
            random@,
            now_ms,
            outcome,
        ),
        outcome matches Ok(receipt) ==> receipt.spec_verify(
            crate::encoding::ed25519_public(seed@),
            request.body.operation_id,
            enroll_verdict(*request, audience@, now_ms)->Ok_0,
            now_ms,
        ) is Ok,
{
    let key: [u8; 32] = match check_enrollment(request, audience, now_ms) {
        Ok(key) => key,
        Err(error) => {
            return Err(error);
        },
    };
    if !store.consume_bootstrap_challenge(request.body.bootstrap_nonce.as_str(), source, now_ms) {
        return Err(replayed());
    }
    let operation_id: Uuid = request.body.operation_id;
    let allocation: Allocation = match store.allocate_with(
        operation_id,
        &key,
        placement,
        fresh,
        random,
        now_ms,
    ) {
        Ok(allocation) => allocation,
        Err(error) => {
            return Err(refuse_conflict(error));
        },
    };
    let ghost id = allocation.installation_id;
    proof {
        assert(store@.installations.dom().contains(id));
    }
    let outcome: Result<AllocationReceipt, ApiError> = issue_receipt(
        allocation,
        operation_id,
        &key,
        seed,
        now_ms,
    );
    proof {
        let draft = choose|draft: AllocationReceipt|
            {
                &&& draft.allocation == allocation
                &&& draft.operation_id == operation_id
                &&& draft.admin_key_sha256@ == crate::encoding::hex_text(
                    crate::encoding::sha256(key@),
                )
                &&& draft.issued_at_ms == now_ms
                &&& #[trigger] answers_with(draft, seed@, outcome)
            };
        assert(receipt_states(
            draft,
            id,
            store@.installations[id],
            operation_id,
            key@,
            now_ms,
        ));
    }
    outcome
}

/// Gives a random hostname to whoever proves the possession of an admin key with a bootstrap
/// challenge of their own.
pub fn enroll(
    store: &mut Store,
    request: &SignedRequest<AllocateRequest>,
    source: IpAddress,
    seed: &[u8; 32],
    audience: &str,
    placement: &str,
    now_ms: u64,
) -> (outcome: Result<AllocationReceipt, ApiError>)
    requires
        old(store).well_formed(),
        old(store).has_room(1),
    ensures
        final(store).well_formed(),
        exists|fresh: Uuid, random: Seq<u8>|
            crate::ids::is_version_4(fresh.bits) && random.len() == 16 && #[trigger] is_enrollment(
                old(store)@,
                final(store)@,
                *request,
                source,
                seed@,
                audience@,
                placement@,
                fresh,
                random,
                now_ms,
                outcome,
            ),
        outcome matches Ok(receipt) ==> receipt.spec_verify(
            crate::encoding::ed25519_public(seed@),
            request.body.operation_id,
            enroll_verdict(*request, audience@, now_ms)->Ok_0,
            now_ms,
        ) is Ok,
{
    let fresh: Uuid = Uuid::new_v4();
    let random: Vec<u8> = random_bytes(16);
    enroll_with(store, request, source, seed, audience, placement, fresh, &random, now_ms)
}

/// The control service takes up to its nonce what the client builds for a bootstrap challenge:
/// the admin key is proved where it accepts the signature and the deadline is not over.
pub proof fn law_enrollment_request_is_admitted(
    request: SignedRequest<AllocateRequest>,
    challenge: BootstrapChallenge,
    admin_public_key: Seq<u8>,
    operation_id: Uuid,
    body: Seq<u8>,
    signature: Seq<u8>,
    deadline_ms: u64,
    now_ms: u64,
)
    requires
        admin_public_key.len() == 32,
        crate::encoding::ed25519_point(admin_public_key),
        crate::admin_client::asks_for_hostname(
            request.body,
            challenge,
            admin_public_key,
            operation_id,
        ),
        crate::canonical::jcs(request.body.spec_document()) == body,
        crate::admin_client::admin_claims(
            request.claims,
            Uuid { bits: 0 },
            operation_id,
            challenge.nonce@,
            deadline_ms,
            body,
        ),
        crate::encoding::ed25519_accepts(
            admin_public_key,
            request.claims.spec_signing_bytes()->Ok_0,
            signature,
        ),
        signature.len() == 64,
        request.signature@ == crate::encoding::base64url(signature),
        body.len() <= crate::protocol::MAX_CONTROL_BODY,
        now_ms < deadline_ms <= now_ms + crate::protocol::MAX_CLAIM_LIFETIME_MS,
    ensures
        enroll_verdict(request, "relay-control.bloom.directory"@, now_ms) == Ok::<
            Seq<u8>,
            ApiError,
        >(admin_public_key),
{
    crate::encoding::law_base64url_round_trip(admin_public_key);
    crate::admin_client::law_admin_request_is_accepted(
        request.claims,
        Uuid { bits: 0 },
        operation_id,
        challenge.nonce@,
        deadline_ms,
        body,
        admin_public_key,
        signature,
        now_ms,
    );
}

/// A bootstrap challenge is answered with its nonce and holds for a minute; a source that had its
/// share is told to wait, and nothing is given out.
pub proof fn law_challenge_is_answered(
    before: crate::store::model::StoreView,
    after: crate::store::model::StoreView,
    nonce: Seq<char>,
    source: IpAddress,
    now_ms: u64,
    outcome: Result<BootstrapChallenge, ApiError>,
)
    requires
        now_ms + 60_000 <= u64::MAX,
        is_challenge(before, after, nonce, source, now_ms, outcome),
    ensures
        ({
            let room = before.bootstraps.filter(
                crate::store::duties::of_source_and_minute(source, now_ms),
            ).len() < 10 && before.bootstraps.filter(
                crate::store::duties::of_last_minute(now_ms),
            ).len() < 100;
            let taken = exists|i: int|
                0 <= i < before.bootstraps.len() && (#[trigger] before.bootstraps[i]).nonce
                    == nonce;
            &&& outcome is Ok <==> room && !taken
            &&& !room ==> outcome->Err_0.status == 429
            &&& room && taken ==> outcome->Err_0.status == 503
            &&& outcome is Err ==> after == before
            &&& outcome matches Ok(challenge) ==> {
                &&& challenge.version == 1
                &&& challenge.nonce@ == nonce
                &&& challenge.expires_at_ms == now_ms + 60_000
                &&& after.bootstraps.len() == before.bootstraps.len() + 1
                &&& after.bootstraps.last().nonce == nonce
                &&& after.bootstraps.last().source == source
                &&& after.bootstraps.last().expires_at_ms == challenge.expires_at_ms
            }
        }),
{
    crate::store::duties::law_bootstrap_is_given_out(before, nonce, source, now_ms);
}

/// An enrolment is let in exactly where it names a key of 32 bytes that it comes from, no
/// installation, and in its claims the operation and the nonce of its body. One that names no key
/// is malformed, and any other is refused.
pub proof fn law_enrolment_comes_from_its_key(
    request: SignedRequest<AllocateRequest>,
    audience: Seq<char>,
    now_ms: u64,
)
    ensures
        ({
            let named = crate::encoding::base64url_bytes(request.body.admin_public_key@);
            let answer = enroll_verdict(request, audience, now_ms);
            let a_key = named is Some && named->0.len() == 32 && crate::encoding::ed25519_point(
                named->0,
            );
            &&& answer is Ok <==> a_key && request.claims.installation_id.bits == 0
                && request.claims.operation_id == request.body.operation_id
                && request.claims.nonce@ == request.body.bootstrap_nonce@
                && crate::control_api::comes_from(
                named->0,
                request.claims,
                request.body.spec_document(),
                request.signature@,
                audience,
                now_ms,
            )
            &&& answer matches Ok(key) ==> Some(key) == named
            &&& answer matches Err(error) ==> error.status == if a_key {
                401u16
            } else {
                400u16
            }
        }),
{
}

/// Whether a source holds a bootstrap challenge that is not over.
pub open spec fn holds_challenge(
    store: crate::store::model::StoreView,
    nonce: Seq<char>,
    source: IpAddress,
    now_ms: u64,
) -> bool {
    exists|i: int|
        0 <= i < store.bootstraps.len() && (#[trigger] store.bootstraps[i]).nonce == nonce
            && store.bootstraps[i].source == source && store.bootstraps[i].expires_at_ms > now_ms
}

/// An enrolment that is let in uses up the bootstrap challenge that it names, once, and makes an
/// installation with its key where the drawn identifier and hostname are free; the receipt states
/// that installation, the operation and the digest of the key, at the time of its issue. Without
/// such a challenge, or not let in, it has no effect.
pub proof fn law_enrolment_makes_an_installation(
    before: crate::store::model::StoreView,
    after: crate::store::model::StoreView,
    request: SignedRequest<AllocateRequest>,
    source: IpAddress,
    seed: Seq<u8>,
    audience: Seq<char>,
    placement: Seq<char>,
    fresh: Uuid,
    random: Seq<u8>,
    now_ms: u64,
    outcome: Result<AllocationReceipt, ApiError>,
)
    requires
        before.valid(),
        random.len() == 16,
        !before.operations.dom().contains(request.body.operation_id),
        is_enrollment(
            before,
            after,
            request,
            source,
            seed,
            audience,
            placement,
            fresh,
            random,
            now_ms,
            outcome,
        ),
    ensures
        ({
            let verdict = enroll_verdict(request, audience, now_ms);
            let nonce = request.body.bootstrap_nonce@;
            let held = holds_challenge(before, nonce, source, now_ms);
            let hostname = crate::encoding::label_text(random) + ".relay.bloom.directory"@;
            let free = crate::store::effects::shard_name(placement)
                && !crate::store::effects::known(before, fresh)
                && !before.reservations.dom().contains(hostname);
            &&& verdict is Err ==> outcome == Err::<AllocationReceipt, ApiError>(verdict->Err_0)
                && after == before
            &&& verdict is Ok && !held ==> outcome is Err && outcome->Err_0.status == 410 && after
                == before
            &&& verdict is Ok && held ==> {
                &&& !holds_challenge(after, nonce, source, now_ms)
                &&& after.bootstraps.len() == before.bootstraps.len() - 1
            }
            &&& verdict is Ok && held && !free ==> outcome is Err && outcome->Err_0.status == 503
                && after.installations == before.installations
            &&& verdict is Ok && held && free ==> {
                let row = after.installations[fresh];
                &&& outcome is Ok
                &&& after.installations == before.installations.insert(fresh, row)
                &&& after.reservations == before.reservations.insert(hostname, fresh)
                &&& row.hostname == hostname
                &&& row.admin_public_key == verdict->Ok_0
                &&& row.placement == placement
                &&& row.state is PendingDns
                &&& outcome->Ok_0.allocation.version == 1
                &&& outcome->Ok_0.allocation.installation_id == fresh
                &&& outcome->Ok_0.allocation.hostname@ == hostname
                &&& outcome->Ok_0.allocation.placement@ == placement
                &&& outcome->Ok_0.allocation.state is PendingDns
                &&& outcome->Ok_0.operation_id == request.body.operation_id
                &&& outcome->Ok_0.admin_key_sha256@ == crate::encoding::hex_text(
                    crate::encoding::sha256(verdict->Ok_0),
                )
                &&& outcome->Ok_0.issued_at_ms == now_ms
            }
        }),
{
    let verdict = enroll_verdict(request, audience, now_ms);
    let nonce = request.body.bootstrap_nonce@;
    let (used, first) = crate::store::admission::bootstrap_used(before, nonce, source, now_ms);
    if verdict is Ok {
        if holds_challenge(before, nonce, source, now_ms) {
            let i = choose|i: int|
                0 <= i < before.bootstraps.len() && (#[trigger] before.bootstraps[i]).nonce
                    == nonce && before.bootstraps[i].source == source
                    && before.bootstraps[i].expires_at_ms > now_ms;
            crate::store::duties::law_bootstrap_is_used_up(before, nonce, source, now_ms, i);
            crate::store::effects::law_allocation_makes_an_installation(
                used,
                request.body.operation_id,
                verdict->Ok_0,
                placement,
                fresh,
                random,
                now_ms,
            );
            let rows = before.bootstraps;
            assert forall|k: int| 0 <= k < rows.remove(i).len() implies (
            #[trigger] rows.remove(i)[k]).nonce != nonce by {
                if k < i {
                    assert(rows.remove(i)[k] == rows[k]);
                    assert(rows[k].nonce != rows[i].nonce);
                } else {
                    assert(rows.remove(i)[k] == rows[k + 1]);
                    assert(rows[i].nonce != rows[k + 1].nonce);
                }
            }
            assert(after.bootstraps == rows.remove(i));
        } else {
            assert forall|i: int| 0 <= i < before.bootstraps.len() implies !(
            crate::store::admission::usable(
                #[trigger] before.bootstraps[i],
                nonce,
                source,
                now_ms,
            )) by {}
        }
    }
}

/// A receipt of this version is signed by the relay over what it states, and states what its draft
/// did; a draft of another version is never signed.
pub proof fn law_receipt_is_signed_over_its_draft(
    draft: AllocationReceipt,
    seed: Seq<u8>,
    outcome: Result<AllocationReceipt, ApiError>,
)
    requires
        answers_with(draft, seed, outcome),
    ensures
        outcome is Ok <==> draft.allocation.version == 1,
        outcome matches Err(error) ==> error.status == 503 && error.retryable,
        outcome matches Ok(receipt) ==> {
            &&& receipt.allocation == draft.allocation
            &&& receipt.operation_id == draft.operation_id
            &&& receipt.admin_key_sha256@ == draft.admin_key_sha256@
            &&& receipt.issued_at_ms == draft.issued_at_ms
            &&& receipt.signature@ == crate::encoding::base64url(
                crate::encoding::ed25519_signature(
                    seed,
                    vstd::utf8::encode_utf8("bloom-relay/allocation-receipt/v1\0"@)
                        + crate::canonical::jcs(draft.spec_document()),
                ),
            )
        },
{
}

} // verus!
