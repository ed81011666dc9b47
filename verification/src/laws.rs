//! What holds of the registry across its operations.

use vstd::prelude::*;
use crate::access_control::{add_issuer_outcome, admin_authorized, initialize_outcome,
    remove_issuer_outcome, revoke_certificate_outcome, transfer_admin_outcome};
use crate::authority::{resolution, LookupView};
use crate::certificate::{CertificateView, MetadataView};
use crate::contract::RegistryView;
use crate::error::Error;
use crate::identity::InvocationView;
use crate::host::sha256;
use crate::issuance::{batch_issue_certificates_outcome, batch_upto, id_preimage,
    issue_certificate_outcome, issued_certificate, lemma_caller_named,
    lemma_nonce_separates_preimages, BatchView};
use crate::status::{AuthorityStatus, VerificationStatus};
use crate::index::{lemma_push_fresh, lemma_without_contains, lemma_without_no_duplicates};
use crate::store_view::{lemma_issued_consistent, lemma_owner_changed_consistent, lemma_record_at,
    lemma_revoked_consistent, page, position_of, StoreView};
use crate::transfer::transfer_certificate_outcome;
use crate::verification::{expiry_valid, signature_valid, verification_report};

verus! {

/// A certificate that was issued can be read back under the identifier that
/// the issuance returned: its fields are the inputs, its issuer is the
/// caller, its issuance date is the ledger's time, and it is not revoked.
/// The counter has grown by one.
pub proof fn law_issue_then_get(
    before: RegistryView,
    invocation: InvocationView,
    owner: Seq<u8>,
    metadata: MetadataView,
    expiration_date: Option<u64>,
    signature: Seq<u8>,
)
    requires
        before.well_formed(),
        issue_certificate_outcome(
            before,
            invocation,
            owner,
            metadata,
            expiration_date,
            signature,
        ).0 is Ok,
    ensures
        ({
            let (answer, after) = issue_certificate_outcome(
                before,
                invocation,
                owner,
                metadata,
                expiration_date,
                signature,
            );
            let id = answer->Ok_0;
            &&& after.well_formed()
            &&& after.store.holds(id)
            &&& after.store.record(id) == (CertificateView {
                id,
                owner,
                issuer: invocation.caller,
                metadata,
                issuance_date: invocation.timestamp,
                expiration_date,
                revoked: false,
                signature,
            })
            &&& after.certificate_count() == before.certificate_count() + 1
            &&& after.store.owner_index[owner].contains(id)
            &&& after.store.issuer_index[invocation.caller].contains(id)
        }),
{
    lemma_caller_named(before, invocation);
    let certificate = issued_certificate(
        invocation,
        owner,
        metadata,
        expiration_date,
        signature,
        0,
    );
    lemma_issued_consistent(before.store, certificate);
}

/// Issuing again with the same owner, issuer and metadata at the same
/// logical time and sequence is refused with `AlreadyExists`, whatever the
/// expiration date and the signature are, and changes nothing.
pub proof fn law_reissue_rejected(
    before: RegistryView,
    invocation: InvocationView,
    owner: Seq<u8>,
    metadata: MetadataView,
    expiration_date: Option<u64>,
    signature: Seq<u8>,
    second_expiration_date: Option<u64>,
    second_signature: Seq<u8>,
)
    requires
        before.well_formed(),
        issue_certificate_outcome(
            before,
            invocation,
            owner,
            metadata,
            expiration_date,
            signature,
        ).0 is Ok,
    ensures
        ({
            let after = issue_certificate_outcome(
                before,
                invocation,
                owner,
                metadata,
                expiration_date,
                signature,
            ).1;
            issue_certificate_outcome(
                after,
                invocation,
                owner,
                metadata,
                second_expiration_date,
                second_signature,
            ) == (Err::<Seq<u8>, Error>(Error::AlreadyExists), after)
        }),
{
    law_issue_then_get(before, invocation, owner, metadata, expiration_date, signature);
}

/// What holds of a batch as far as it went without refusal.
pub open spec fn batch_progress(
    store: StoreView,
    invocation: InvocationView,
    batch: BatchView,
    n: nat,
) -> bool {
    let (reached, ids) = batch_upto(store, invocation, batch, n)->Ok_0;
    &&& reached.consistent()
    &&& ids.len() == n
    &&& reached.certificates.len() == store.certificates.len() + n
    &&& reached.certificates.len() <= u32::MAX
    &&& ids.no_duplicates()
    &&& forall|id: Seq<u8>| #[trigger] reached.holds(id) <==> store.holds(id) || ids.contains(id)
    &&& forall|id: Seq<u8>| #[trigger] ids.contains(id) ==> !store.holds(id)
    &&& forall|id: Seq<u8>| #[trigger]
        store.holds(id) ==> reached.record(id) == store.record(id)
    &&& forall|i: int|
        0 <= i < n ==> reached.record(#[trigger] ids[i]) == batch.certificate_at(
            invocation,
            i as nat,
        )
}

/// Every item of a batch that went through left its certificate in the
/// store under an identifier of its own, and touched no other certificate.
pub proof fn lemma_batch_progress(
    store: StoreView,
    invocation: InvocationView,
    batch: BatchView,
    n: nat,
)
    requires
        store.consistent(),
        store.certificates.len() <= u32::MAX,
        invocation.caller.len() > 0,
        batch_upto(store, invocation, batch, n) is Ok,
    ensures
        batch_progress(store, invocation, batch, n),
    decreases n,
{
    reveal(batch_upto);
    if n == 0 {
        let ids = Seq::<Seq<u8>>::empty();
        assert forall|id: Seq<u8>| #[trigger] ids.contains(id) implies !store.holds(id) by {}
    } else {
        let i = (n - 1) as nat;
        lemma_batch_progress(store, invocation, batch, i);
        let (earlier, ids) = batch_upto(store, invocation, batch, i)->Ok_0;
        let certificate = batch.certificate_at(invocation, i);
        let (reached, all) = batch_upto(store, invocation, batch, n)->Ok_0;
        assert(batch.refusal_at(earlier, invocation, i) is None);
        assert(reached == earlier.with_issued(certificate));
        assert(all == ids.push(certificate.id));
        lemma_issued_consistent(earlier, certificate);
        assert(!ids.contains(certificate.id)) by {
            if ids.contains(certificate.id) {
                assert(earlier.holds(certificate.id));
            }
        }
        assert forall|a: int, b: int| 0 <= a < all.len() && 0 <= b < all.len()
            && a != b implies all[a]
            != all[b] by {
            if a < ids.len() && b < ids.len() {
            } else if a < ids.len() {
                assert(ids.contains(ids[a]));
            } else {
                assert(ids.contains(ids[b]));
            }
        }
        assert forall|id: Seq<u8>| #[trigger] all.contains(id) <==> ids.contains(id) || id
            == certificate.id by {
            if ids.contains(id) {
                let k = choose|k: int| 0 <= k < ids.len() && ids[k] == id;
                assert(all[k] == id);
            }
            if id == certificate.id {
                assert(all[ids.len() as int] == id);
            }
            if all.contains(id) {
                let k = choose|k: int| 0 <= k < all.len() && all[k] == id;
                if k < ids.len() {
                    assert(ids[k] == id);
                }
            }
        }
        assert forall|id: Seq<u8>| #[trigger] reached.holds(id) <==> store.holds(id)
            || all.contains(id) by {
            assert(earlier.holds(id) <==> store.holds(id) || ids.contains(id));
            assert(all.contains(id) <==> ids.contains(id) || id == certificate.id);
            if reached.holds(id) && id != certificate.id {
                let k = choose|k: int|
                    0 <= k < reached.certificates.len() && (#[trigger] reached.certificates[k]).id
                        == id;
                assert(earlier.certificates[k].id == id);
            }
        }
        assert forall|id: Seq<u8>| #[trigger] all.contains(id) implies !store.holds(id) by {
            assert(all.contains(id) <==> ids.contains(id) || id == certificate.id);
            assert(earlier.holds(certificate.id) <==> store.holds(certificate.id) || ids.contains(
                certificate.id,
            ));
        }
        assert forall|id: Seq<u8>| #[trigger] store.holds(id) implies reached.record(id)
            == store.record(id) by {
            assert(earlier.holds(id) <==> store.holds(id) || ids.contains(id));
        }
        assert forall|k: int| 0 <= k < n implies reached.record(#[trigger] all[k])
            == batch.certificate_at(invocation, k as nat) by {
            if k < i {
                assert(ids.contains(ids[k]));
                assert(earlier.holds(ids[k]) <==> store.holds(ids[k]) || ids.contains(ids[k]));
            }
        }
    }
}

/// A batch that succeeds returns one identifier per item, in order, and no
/// identifier twice; none of them was in use before; each finds the
/// certificate of its item, issued with the item's position as nonce; and
/// the counter has grown by the number of items.
pub proof fn law_batch_ids_distinct(
    before: RegistryView,
    invocation: InvocationView,
    batch: BatchView,
)
    requires
        before.well_formed(),
        batch_issue_certificates_outcome(before, invocation, batch).0 is Ok,
    ensures
        ({
            let (answer, after) = batch_issue_certificates_outcome(before, invocation, batch);
            let ids = answer->Ok_0;
            &&& after.well_formed()
            &&& ids.len() == batch.owners.len()
            &&& ids.no_duplicates()
            &&& forall|i: int| 0 <= i < ids.len() ==> !before.store.holds(#[trigger] ids[i])
            &&& forall|i: int|
                0 <= i < ids.len() ==> after.store.holds(#[trigger] ids[i]) && after.store.record(
                    ids[i],
                ) == batch.certificate_at(invocation, i as nat) && ids[i] == batch.certificate_at(
                    invocation,
                    i as nat,
                ).id
            &&& after.certificate_count() == before.certificate_count() + batch.owners.len()
        }),
{
    lemma_caller_named(before, invocation);
    lemma_batch_progress(before.store, invocation, batch, batch.owners.len());
    let (reached, ids) = batch_upto(before.store, invocation, batch, batch.owners.len())->Ok_0;
    assert forall|i: int| 0 <= i < ids.len() implies !before.store.holds(#[trigger] ids[i])
        && reached.holds(ids[i]) && reached.record(ids[i]).id == ids[i] by {
        assert(ids.contains(ids[i]));
        assert(reached.holds(ids[i]) <==> before.store.holds(ids[i]) || ids.contains(ids[i]));
        lemma_record_at(reached.certificates, position_of(reached.certificates, ids[i]));
    }
}

/// The items of a batch are issued with their positions as nonces, which
/// increase from item to item; so no two items of a batch give the same
/// input to the hash, even where their owners and metadata are the same.
pub proof fn law_batch_items_hash_apart(
    invocation: InvocationView,
    batch: BatchView,
    i: nat,
    j: nat,
)
    requires
        i < j <= u32::MAX,
    ensures
        id_preimage(
            batch.owners[i as int],
            invocation.caller,
            batch.metadatas[i as int],
            invocation.timestamp,
            invocation.sequence,
            i as u32,
        ) != id_preimage(
            batch.owners[j as int],
            invocation.caller,
            batch.metadatas[j as int],
            invocation.timestamp,
            invocation.sequence,
            j as u32,
        ),
        batch.certificate_at(invocation, i).id == sha256(
            id_preimage(
                batch.owners[i as int],
                invocation.caller,
                batch.metadatas[i as int],
                invocation.timestamp,
                invocation.sequence,
                i as u32,
            ),
        ),
{
    lemma_nonce_separates_preimages(
        batch.owners[i as int],
        invocation.caller,
        batch.metadatas[i as int],
        invocation.timestamp,
        invocation.sequence,
        i as u32,
        batch.owners[j as int],
        invocation.caller,
        batch.metadatas[j as int],
        invocation.timestamp,
        invocation.sequence,
        j as u32,
    );
}

/// A batch that is refused changes nothing.
pub proof fn law_batch_all_or_nothing(
    before: RegistryView,
    invocation: InvocationView,
    batch: BatchView,
)
    requires
        batch_issue_certificates_outcome(before, invocation, batch).0 is Err,
    ensures
        batch_issue_certificates_outcome(before, invocation, batch).1 == before,
{
}

/// A revoked certificate is not transferred: the answer is `Ok(false)`,
/// whoever authorized the call, and the registry, the certificate's owner
/// with it, stays as it was.
pub proof fn law_revoked_not_transferred(
    before: RegistryView,
    invocation: InvocationView,
    id: Seq<u8>,
    new_owner: Seq<u8>,
)
    requires
        before.store.holds(id),
        before.store.record(id).revoked,
    ensures
        transfer_certificate_outcome(before, invocation, id, new_owner) == (
            Ok::<bool, Error>(false),
            before,
        ),
{
}

/// The transfer of a certificate that is not revoked needs the
/// authorization of the present owner and of the new one: where either is
/// missing it fails with `Unauthorized` and changes nothing. Where both are
/// given it succeeds: the certificate belongs to the new owner, whose list
/// ends with its identifier, and the list of the old owner, if that is
/// another party, holds it no more.
pub proof fn law_transfer_needs_both(
    before: RegistryView,
    invocation: InvocationView,
    id: Seq<u8>,
    new_owner: Seq<u8>,
)
    requires
        before.well_formed(),
        before.store.holds(id),
        !before.store.record(id).revoked,
        new_owner.len() > 0,
    ensures
        ({
            let old_owner = before.store.record(id).owner;
            let (answer, after) = transfer_certificate_outcome(before, invocation, id, new_owner);
            if invocation.authorized_by(old_owner) && invocation.authorized_by(new_owner) {
                &&& answer == Ok::<bool, Error>(true)
                &&& after.well_formed()
                &&& after.store.holds(id)
                &&& after.store.record(id) == (CertificateView {
                    owner: new_owner,
                    ..before.store.record(id)
                })
                &&& after.store.owner_index[new_owner].contains(id)
                &&& after.store.owner_index[new_owner].last() == id
                &&& old_owner != new_owner ==> !after.store.owner_index[old_owner].contains(id)
            } else {
                answer == Err::<bool, Error>(Error::Unauthorized) && after == before
            }
        }),
{
    lemma_owner_changed_consistent(before.store, id, new_owner);
}

/// A listing shows the page of the party's list that starts at `start` and
/// has at most `limit` entries, in the order of the list; a `start` at or
/// past the end of the list shows nothing.
pub proof fn law_listing_is_a_page(
    store: StoreView,
    ids: Seq<Seq<u8>>,
    start: u32,
    limit: u32,
)
    ensures
        start >= ids.len() ==> store.listing(ids, start, limit).len() == 0,
        start < ids.len() ==> store.listing(ids, start, limit).len() == (if start + limit
            <= ids.len() {
            limit as int
        } else {
            ids.len() - start
        }),
        forall|k: int|
            0 <= k < store.listing(ids, start, limit).len() ==> #[trigger] store.listing(
                ids,
                start,
                limit,
            )[k] == store.record(ids[start + k]),
{
    assert forall|k: int| 0 <= k < store.listing(ids, start, limit).len() implies #[trigger]
        store.listing(ids, start, limit)[k] == store.record(ids[start + k]) by {
        assert(page(ids, start, limit)[k] == ids[start + k]);
    }
}

/// Listing twice with the same arguments, with no write in between, shows
/// the same certificates in the same order: what a listing shows depends on
/// the store and the arguments alone.
pub proof fn law_listing_repeats(
    store: StoreView,
    owner: Seq<u8>,
    start: u32,
    limit: u32,
    first: Seq<CertificateView>,
    second: Seq<CertificateView>,
)
    requires
        first == store.listing(store.owner_index[owner], start, limit),
        second == store.listing(store.owner_index[owner], start, limit),
    ensures
        first == second,
{
}

/// A revoked certificate is reported as `Revoked`, whatever its signature,
/// its expiration and the authority's answers are.
pub proof fn law_revoked_verdict(
    certificate: CertificateView,
    scope: Seq<char>,
    lookup: LookupView,
    now: u64,
)
    requires
        certificate.revoked,
    ensures
        verification_report(certificate, scope, lookup, now).status == VerificationStatus::Revoked,
{
}

/// A certificate that is neither revoked nor expired, whose signature is
/// valid under the key that the information lookup gave, and whose issuer
/// that lookup reports as active and allowed to sign its type, is reported
/// as `Valid`, with all three checks true.
pub proof fn law_valid_verdict(
    certificate: CertificateView,
    scope: Seq<char>,
    lookup: LookupView,
    now: u64,
)
    requires
        !certificate.revoked,
        expiry_valid(certificate, now),
        lookup.info is Some,
        lookup.info->Some_0.status == AuthorityStatus::Active,
        lookup.info->Some_0.allowed_cert_types.contains(certificate.metadata.achievement_type),
        signature_valid(certificate, scope, lookup.info->Some_0.public_key),
    ensures
        verification_report(certificate, scope, lookup, now).status == VerificationStatus::Valid,
        verification_report(certificate, scope, lookup, now).signature_valid,
        verification_report(certificate, scope, lookup, now).expiry_valid,
        verification_report(certificate, scope, lookup, now).authority_valid,
{
}

/// A certificate that is not revoked and whose authority reports no
/// suspension is reported as `Expired` once `now` is past its expiration,
/// with the expiry check false.
pub proof fn law_expired_verdict(
    certificate: CertificateView,
    scope: Seq<char>,
    lookup: LookupView,
    now: u64,
)
    requires
        !certificate.revoked,
        !(resolution(lookup) is Ok && resolution(lookup)->Ok_0.suspended),
        certificate.expiration_date is Some,
        now > certificate.expiration_date->Some_0,
    ensures
        verification_report(certificate, scope, lookup, now).status == VerificationStatus::Expired,
        !verification_report(certificate, scope, lookup, now).expiry_valid,
{
}

/// Where no lookup strategy succeeds, the signature check and the
/// authority check are false, and the report still tells of revocation and
/// expiry.
pub proof fn law_unreachable_registry_degrades(
    certificate: CertificateView,
    scope: Seq<char>,
    lookup: LookupView,
    now: u64,
)
    requires
        resolution(lookup) is Err,
    ensures
        !verification_report(certificate, scope, lookup, now).signature_valid,
        !verification_report(certificate, scope, lookup, now).authority_valid,
        verification_report(certificate, scope, lookup, now).expiry_valid == expiry_valid(
            certificate,
            now,
        ),
        verification_report(certificate, scope, lookup, now).status == (if certificate.revoked {
            VerificationStatus::Revoked
        } else if !expiry_valid(certificate, now) {
            VerificationStatus::Expired
        } else {
            VerificationStatus::Invalid
        }),
{
}

/// Who runs the registry changes by the administrator's action alone:
/// without the administrator's authorization no administrator is replaced
/// and no issuer is added or removed, and issuing, transferring and revoking
/// leave the administrator and the issuers as they were.
pub proof fn law_access_changes_by_admin_only(
    before: RegistryView,
    invocation: InvocationView,
    party: Seq<u8>,
    id: Seq<u8>,
    owner: Seq<u8>,
    metadata: MetadataView,
    expiration_date: Option<u64>,
    signature: Seq<u8>,
    batch: BatchView,
)
    ensures
        !admin_authorized(before.access, invocation) ==> transfer_admin_outcome(
            before,
            invocation,
            party,
        ) == (Err::<bool, Error>(Error::Unauthorized), before) && add_issuer_outcome(
            before,
            invocation,
            party,
        ) == (Err::<bool, Error>(Error::Unauthorized), before) && remove_issuer_outcome(
            before,
            invocation,
            party,
        ) == (Err::<bool, Error>(Error::Unauthorized), before),
        issue_certificate_outcome(
            before,
            invocation,
            owner,
            metadata,
            expiration_date,
            signature,
        ).1.access == before.access,
        batch_issue_certificates_outcome(before, invocation, batch).1.access == before.access,
        transfer_certificate_outcome(before, invocation, id, party).1.access == before.access,
        revoke_certificate_outcome(before, invocation, id).1.access == before.access,
{
}

/// Adding an issuer makes it one, removing it ends that, unless it is the
/// administrator, who may always issue; adding one that is listed and
/// removing one that is not change nothing and answer `Ok(false)`. The
/// issuers stay well formed.
pub proof fn law_issuers_follow_the_admin(
    before: RegistryView,
    invocation: InvocationView,
    issuer: Seq<u8>,
)
    requires
        before.access.well_formed(),
        admin_authorized(before.access, invocation),
        issuer.len() > 0,
    ensures
        add_issuer_outcome(before, invocation, issuer).1.access.is_issuer(issuer),
        add_issuer_outcome(before, invocation, issuer).1.access.well_formed(),
        before.access.issuers.contains(issuer) ==> add_issuer_outcome(before, invocation, issuer)
            == (Ok::<bool, Error>(false), before),
        !remove_issuer_outcome(before, invocation, issuer).1.access.issuers.contains(issuer),
        remove_issuer_outcome(before, invocation, issuer).1.access.well_formed(),
        remove_issuer_outcome(before, invocation, issuer).1.access.is_issuer(issuer)
            == (before.access.admin == Some(issuer)),
        !before.access.issuers.contains(issuer) ==> remove_issuer_outcome(
            before,
            invocation,
            issuer,
        ) == (Ok::<bool, Error>(false), before),
{
    let listed = before.access.issuers;
    if listed.contains(issuer) {
        lemma_without_contains(listed, issuer, issuer);
        lemma_without_no_duplicates(listed, issuer);
        let rest = crate::index::without(listed, issuer);
        assert forall|i: int| 0 <= i < rest.len() implies (#[trigger] rest[i]).len() > 0 by {
            lemma_without_contains(listed, issuer, rest[i]);
            assert(rest.contains(rest[i]));
            let k = choose|k: int| 0 <= k < listed.len() && listed[k] == rest[i];
            assert(listed[k].len() > 0);
        }
    } else {
        lemma_push_fresh(listed, issuer);
        assert(listed.push(issuer)[listed.len() as int] == issuer);
    }
}

/// In a well-formed registry the indices mirror the certificates: a
/// party's owner list holds exactly the identifiers of the certificates it
/// owns now, its issuer list those of the certificates it issued, each
/// once, and no certificate is owned or issued by the empty identity.
pub proof fn law_indices_mirror_certificates(registry: RegistryView, party: Seq<u8>, id: Seq<u8>)
    requires
        registry.well_formed(),
    ensures
        registry.store.owner_index[party].contains(id) <==> registry.store.holds(id)
            && registry.store.record(id).owner == party,
        registry.store.issuer_index[party].contains(id) <==> registry.store.holds(id)
            && registry.store.record(id).issuer == party,
        registry.store.owner_index[party].no_duplicates(),
        registry.store.issuer_index[party].no_duplicates(),
        registry.store.holds(id) ==> registry.store.record(id).id == id && registry.store.record(
            id,
        ).owner.len() > 0 && registry.store.record(id).issuer.len() > 0,
{
    if registry.store.holds(id) {
        let i = position_of(registry.store.certificates, id);
        assert(registry.store.certificates[i].owner.len() > 0);
    }
}

/// Every operation leaves a well-formed registry well formed, whether it
/// succeeds or is refused.
pub proof fn law_operations_keep_well_formed(
    before: RegistryView,
    invocation: InvocationView,
    party: Seq<u8>,
    id: Seq<u8>,
    owner: Seq<u8>,
    metadata: MetadataView,
    expiration_date: Option<u64>,
    signature: Seq<u8>,
    batch: BatchView,
)
    requires
        before.well_formed(),
    ensures
        initialize_outcome(before, party).1.well_formed(),
        transfer_admin_outcome(before, invocation, party).1.well_formed(),
        add_issuer_outcome(before, invocation, party).1.well_formed(),
        remove_issuer_outcome(before, invocation, party).1.well_formed(),
        revoke_certificate_outcome(before, invocation, id).1.well_formed(),
        issue_certificate_outcome(
            before,
            invocation,
            owner,
            metadata,
            expiration_date,
            signature,
        ).1.well_formed(),
        batch_issue_certificates_outcome(before, invocation, batch).1.well_formed(),
        transfer_certificate_outcome(before, invocation, id, party).1.well_formed(),
{
    if admin_authorized(before.access, invocation) && party.len() > 0 {
        law_issuers_follow_the_admin(before, invocation, party);
    }
    if revoke_certificate_outcome(before, invocation, id).0 == Ok::<bool, Error>(true) {
        lemma_revoked_consistent(before.store, id);
    }
    if issue_certificate_outcome(
        before,
        invocation,
        owner,
        metadata,
        expiration_date,
        signature,
    ).0 is Ok {
        law_issue_then_get(before, invocation, owner, metadata, expiration_date, signature);
    }
    if batch_issue_certificates_outcome(before, invocation, batch).0 is Ok {
        law_batch_ids_distinct(before, invocation, batch);
    }
    if transfer_certificate_outcome(before, invocation, id, party).0 == Ok::<bool, Error>(true) {
        law_transfer_needs_both(before, invocation, id, party);
    }
}

/// Revocation is for good: once a certificate is revoked, no issuance,
/// transfer or revocation brings it back, and none of them changes the
/// identifier, the issuer, the issuance date or the signature of a stored
/// certificate.
pub proof fn law_revocation_is_permanent(
    before: RegistryView,
    invocation: InvocationView,
    id: Seq<u8>,
    owner: Seq<u8>,
    metadata: MetadataView,
    expiration_date: Option<u64>,
    signature: Seq<u8>,
    batch: BatchView,
    other: Seq<u8>,
    new_owner: Seq<u8>,
)
    requires
        before.well_formed(),
        before.store.holds(id),
    ensures
        stays(
            before.store,
            issue_certificate_outcome(
                before,
                invocation,
                owner,
                metadata,
                expiration_date,
                signature,
            ).1.store,
            id,
        ),
        stays(
            before.store,
            batch_issue_certificates_outcome(before, invocation, batch).1.store,
            id,
        ),
        stays(
            before.store,
            transfer_certificate_outcome(before, invocation, other, new_owner).1.store,
            id,
        ),
        stays(before.store, revoke_certificate_outcome(before, invocation, other).1.store, id),
{
    let issued = issue_certificate_outcome(
        before,
        invocation,
        owner,
        metadata,
        expiration_date,
        signature,
    );
    if issued.0 is Ok {
        lemma_caller_named(before, invocation);
        lemma_issued_consistent(
            before.store,
            issued_certificate(invocation, owner, metadata, expiration_date, signature, 0),
        );
    }
    let batched = batch_issue_certificates_outcome(before, invocation, batch);
    if batched.0 is Ok {
        lemma_caller_named(before, invocation);
        lemma_batch_progress(before.store, invocation, batch, batch.owners.len());
        let (reached, ids) = batch_upto(
            before.store,
            invocation,
            batch,
            batch.owners.len(),
        )->Ok_0;
        assert(reached.holds(id) <==> before.store.holds(id) || ids.contains(id));
    }
    let transferred = transfer_certificate_outcome(before, invocation, other, new_owner);
    if transferred.0 == Ok::<bool, Error>(true) {
        lemma_owner_changed_consistent(before.store, other, new_owner);
    }
    let revoked = revoke_certificate_outcome(before, invocation, other);
    if revoked.0 == Ok::<bool, Error>(true) {
        lemma_revoked_consistent(before.store, other);
    }
}

/// The certificate under `id` is still stored, under the same identifier
/// and with the same issuer, issuance date, metadata, expiration and
/// signature, and is revoked if it was.
pub open spec fn stays(before: StoreView, after: StoreView, id: Seq<u8>) -> bool {
    &&& after.holds(id)
    &&& after.record(id).id == before.record(id).id
    &&& after.record(id).issuer == before.record(id).issuer
    &&& after.record(id).issuance_date == before.record(id).issuance_date
    &&& after.record(id).metadata == before.record(id).metadata
    &&& after.record(id).expiration_date == before.record(id).expiration_date
    &&& after.record(id).signature == before.record(id).signature
    &&& before.record(id).revoked ==> after.record(id).revoked
}

} // verus!
