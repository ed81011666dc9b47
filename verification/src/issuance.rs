//! Issuing certificates, one at a time or in a batch, and deriving their identifiers.

use vstd::prelude::*;
use vstd::utf8::encode_utf8;
use crate::access_control::{issuer_authorized, require_issuer};
use crate::bytes::{be32, be64, lemma_be32_injective, push_all, push_be32, push_be64};
use crate::certificate::{Certificate, CertificateId, CertificateMetadata, CertificateView,
    MetadataView};
use crate::contract::{CertificationContract, Event, EventView, RegistryView};
use crate::error::Error;
use crate::host::{host_sha256, host_text_xdr, sha256, text_xdr, MAX_HASH_INPUT, MAX_TEXT_BYTES};
use crate::identity::{identity_views, Identity, Invocation, InvocationView};
use crate::index::{copy_ids, id_views};
use crate::store::{CertificateStore};
use crate::store_view::{StoreView};

verus! {

/// Whether a text is short enough to be serialized.
pub open spec fn text_fits(text: Seq<char>) -> bool {
    encode_utf8(text).len() <= MAX_TEXT_BYTES
}

/// What is hashed into a certificate's identifier: owner, issuer, the
/// serialized title, description and achievement type, the timestamp in
/// eight bytes, the ledger sequence in four and the nonce in four, in this
/// order.
pub open spec fn id_preimage(
    owner: Seq<u8>,
    issuer: Seq<u8>,
    metadata: MetadataView,
    timestamp: u64,
    sequence: u32,
    nonce: u32,
) -> Seq<u8> {
    owner + issuer + text_xdr(metadata.title) + text_xdr(metadata.description) + text_xdr(
        metadata.achievement_type,
    ) + be64(timestamp) + be32(sequence) + be32(nonce)
}

/// Whether an identifier can be computed for these inputs: the three
/// texts fit, and what is hashed is no longer than `MAX_HASH_INPUT`.
pub open spec fn hashable(owner: Seq<u8>, issuer: Seq<u8>, metadata: MetadataView) -> bool {
    &&& text_fits(metadata.title)
    &&& text_fits(metadata.description)
    &&& text_fits(metadata.achievement_type)
    &&& owner.len() + issuer.len() + text_xdr(metadata.title).len() + text_xdr(
        metadata.description,
    ).len() + text_xdr(metadata.achievement_type).len() + 16 <= MAX_HASH_INPUT
}

/// The identifier of the certificate issued with these inputs.
pub open spec fn certificate_id(
    owner: Seq<u8>,
    issuer: Seq<u8>,
    metadata: MetadataView,
    timestamp: u64,
    sequence: u32,
    nonce: u32,
) -> Seq<u8> {
    sha256(id_preimage(owner, issuer, metadata, timestamp, sequence, nonce))
}

/// What is hashed ends with the nonce, so two different nonces never give
/// the same input to the hash, whatever the other inputs are.
pub proof fn lemma_nonce_separates_preimages(
    owner_a: Seq<u8>,
    issuer_a: Seq<u8>,
    metadata_a: MetadataView,
    timestamp_a: u64,
    sequence_a: u32,
    nonce_a: u32,
    owner_b: Seq<u8>,
    issuer_b: Seq<u8>,
    metadata_b: MetadataView,
    timestamp_b: u64,
    sequence_b: u32,
    nonce_b: u32,
)
    requires
        nonce_a != nonce_b,
    ensures
        id_preimage(owner_a, issuer_a, metadata_a, timestamp_a, sequence_a, nonce_a)
            != id_preimage(owner_b, issuer_b, metadata_b, timestamp_b, sequence_b, nonce_b),
{
    let a = id_preimage(owner_a, issuer_a, metadata_a, timestamp_a, sequence_a, nonce_a);
    let b = id_preimage(owner_b, issuer_b, metadata_b, timestamp_b, sequence_b, nonce_b);
    if a == b {
        assert(a.subrange(a.len() - 4, a.len() as int) =~= be32(nonce_a));
        assert(b.subrange(b.len() - 4, b.len() as int) =~= be32(nonce_b));
        lemma_be32_injective(nonce_a, nonce_b);
    }
}

/// The identifier for a certificate of `owner` issued by `issuer` with
/// `metadata` at the given logical time, sequence and nonce; `InvalidInput`
/// where the inputs are too long to be hashed.
pub fn generate_certificate_id(
    owner: &Identity,
    issuer: &Identity,
    metadata: &CertificateMetadata,
    timestamp: u64,
    sequence: u32,
    nonce: u32,
) -> (id: Result<CertificateId, Error>)
    ensures
        match id {
            Ok(id) => hashable(owner@, issuer@, metadata@) && id@ == certificate_id(
                owner@,
                issuer@,
                metadata@,
                timestamp,
                sequence,
                nonce,
            ),
            Err(e) => !hashable(owner@, issuer@, metadata@) && e == Error::InvalidInput,
        },
{
    let title = metadata.title.as_str();
    let description = metadata.description.as_str();
    let achievement_type = metadata.achievement_type.as_str();
    if title.as_bytes().len() > MAX_TEXT_BYTES || description.as_bytes().len() > MAX_TEXT_BYTES
        || achievement_type.as_bytes().len() > MAX_TEXT_BYTES {
        return Err(Error::InvalidInput);
    }
    let title_bytes = host_text_xdr(title);
    let description_bytes = host_text_xdr(description);
    let type_bytes = host_text_xdr(achievement_type);
    if owner.0.len() > MAX_HASH_INPUT || issuer.0.len() > MAX_HASH_INPUT || title_bytes.len()
        > MAX_HASH_INPUT || description_bytes.len() > MAX_HASH_INPUT || type_bytes.len()
        > MAX_HASH_INPUT {
        return Err(Error::InvalidInput);
    }
    let total: usize = owner.0.len() + issuer.0.len() + title_bytes.len()
        + description_bytes.len() + type_bytes.len() + 16;
    if total > MAX_HASH_INPUT {
        return Err(Error::InvalidInput);
    }
    let mut data: Vec<u8> = Vec::new();
    push_all(&mut data, &owner.0);
    push_all(&mut data, &issuer.0);
    push_all(&mut data, &title_bytes);
    push_all(&mut data, &description_bytes);
    push_all(&mut data, &type_bytes);
    push_be64(&mut data, timestamp);
    push_be32(&mut data, sequence);
    push_be32(&mut data, nonce);
    assert(data@ =~= id_preimage(owner@, issuer@, metadata@, timestamp, sequence, nonce));
    Ok(CertificateId(host_sha256(&data)))
}

/// The certificate that an issuance with these inputs creates.
pub open spec fn issued_certificate(
    invocation: InvocationView,
    owner: Seq<u8>,
    metadata: MetadataView,
    expiration_date: Option<u64>,
    signature: Seq<u8>,
    nonce: u32,
) -> CertificateView {
    CertificateView {
        id: certificate_id(
            owner,
            invocation.caller,
            metadata,
            invocation.timestamp,
            invocation.sequence,
            nonce,
        ),
        owner,
        issuer: invocation.caller,
        metadata,
        issuance_date: invocation.timestamp,
        expiration_date,
        revoked: false,
        signature,
    }
}

/// Why a certificate for `owner` cannot be issued into `store`, if it
/// cannot: the owner is empty or has not authorized the call, the inputs
/// cannot be hashed, the identifier is taken, or the store is full.
pub open spec fn issue_refusal(
    store: StoreView,
    invocation: InvocationView,
    owner: Seq<u8>,
    metadata: MetadataView,
    nonce: u32,
) -> Option<Error> {
    if owner.len() == 0 {
        Some(Error::InvalidInput)
    } else if !invocation.authorized_by(owner) {
        Some(Error::Unauthorized)
    } else if !hashable(owner, invocation.caller, metadata) {
        Some(Error::InvalidInput)
    } else if store.holds(
        certificate_id(
            owner,
            invocation.caller,
            metadata,
            invocation.timestamp,
            invocation.sequence,
            nonce,
        ),
    ) {
        Some(Error::AlreadyExists)
    } else if store.certificates.len() >= u32::MAX {
        Some(Error::CapacityExceeded)
    } else {
        None
    }
}

/// What `issue_certificate` answers and leaves behind.
pub open spec fn issue_certificate_outcome(
    before: RegistryView,
    invocation: InvocationView,
    owner: Seq<u8>,
    metadata: MetadataView,
    expiration_date: Option<u64>,
    signature: Seq<u8>,
) -> (Result<Seq<u8>, Error>, RegistryView) {
    if !issuer_authorized(before.access, invocation) {
        (Err(Error::Unauthorized), before)
    } else if let Some(e) = issue_refusal(before.store, invocation, owner, metadata, 0) {
        (Err(e), before)
    } else {
        let certificate = issued_certificate(
            invocation,
            owner,
            metadata,
            expiration_date,
            signature,
            0,
        );
        (
            Ok(certificate.id),
            RegistryView { store: before.store.with_issued(certificate), ..before }.notify(
                EventView::CertificateIssued {
                    id: certificate.id,
                    owner,
                    issuer: invocation.caller,
                },
                invocation.timestamp,
            ),
        )
    }
}

/// Issues one certificate into `store` for an issuer already checked.
fn issue_item(
    store: &mut CertificateStore,
    invocation: &Invocation,
    owner: &Identity,
    metadata: &CertificateMetadata,
    expiration_date: Option<u64>,
    signature: &[u8; 64],
    nonce: u32,
) -> (id: Result<CertificateId, Error>)
    requires
        old(store).wf(),
        invocation@.caller.len() > 0,
    ensures
        final(store).wf(),
        match id {
            Ok(id) => issue_refusal(old(store)@, invocation@, owner@, metadata@, nonce) is None
                && id@ == issued_certificate(
                invocation@,
                owner@,
                metadata@,
                expiration_date,
                signature@,
                nonce,
            ).id && final(store)@ == old(store)@.with_issued(
                issued_certificate(
                    invocation@,
                    owner@,
                    metadata@,
                    expiration_date,
                    signature@,
                    nonce,
                ),
            ),
            Err(e) => issue_refusal(old(store)@, invocation@, owner@, metadata@, nonce) == Some(
                e,
            ) && final(store)@ == old(store)@,
        },
{
    if owner.is_empty() {
        return Err(Error::InvalidInput);
    }
    if !invocation.authorized_by(owner) {
        return Err(Error::Unauthorized);
    }
    let id = match generate_certificate_id(
        owner,
        &invocation.caller,
        metadata,
        invocation.timestamp,
        invocation.sequence,
        nonce,
    ) {
        Ok(id) => id,
        Err(e) => {
            return Err(e);
        },
    };
    let certificate = Certificate {
        id,
        owner: owner.clone(),
        issuer: invocation.caller.clone(),
        metadata: metadata.clone(),
        issuance_date: invocation.timestamp,
        expiration_date,
        revoked: false,
        signature: *signature,
    };
    match store.put(certificate) {
        Ok(()) => Ok(id),
        Err(e) => Err(e),
    }
}

/// Issues a certificate to `owner`. The caller must be an authenticated
/// issuer and `owner` must have authorized the call. The certificate is not
/// revoked, carries the caller as issuer and the ledger's time as issuance
/// date, and is filed under its owner and its issuer.
pub fn issue_certificate(
    registry: &mut CertificationContract,
    invocation: &Invocation,
    owner: Identity,
    metadata: CertificateMetadata,
    expiration_date: Option<u64>,
    signature: [u8; 64],
) -> (id: Result<CertificateId, Error>)
    requires
        old(registry).wf(),
    ensures
        final(registry).wf(),
        match id {
            Ok(id) => (Ok::<Seq<u8>, Error>(id@), final(registry)@) == issue_certificate_outcome(
                old(registry)@,
                invocation@,
                owner@,
                metadata@,
                expiration_date,
                signature@,
            ),
            Err(e) => (Err::<Seq<u8>, Error>(e), final(registry)@) == issue_certificate_outcome(
                old(registry)@,
                invocation@,
                owner@,
                metadata@,
                expiration_date,
                signature@,
            ),
        },
{
    let issuer = match require_issuer(registry, invocation) {
        Ok(issuer) => issuer,
        Err(e) => {
            return Err(e);
        },
    };
    proof {
        lemma_caller_named(registry@, invocation@);
    }
    match issue_item(
        &mut registry.store,
        invocation,
        &owner,
        &metadata,
        expiration_date,
        &signature,
        0,
    ) {
        Ok(id) => {
            let event = Event::CertificateIssued { id, owner, issuer };
            registry.emit(event, invocation.timestamp);
            Ok(id)
        },
        Err(e) => Err(e),
    }
}

/// The views of a sequence of metadata, in order.
pub open spec fn metadata_views(metadatas: Seq<CertificateMetadata>) -> Seq<MetadataView> {
    metadatas.map_values(|metadata: CertificateMetadata| metadata@)
}

/// The views of a sequence of signatures, in order.
pub open spec fn signature_views(signatures: Seq<[u8; 64]>) -> Seq<Seq<u8>> {
    signatures.map_values(|signature: [u8; 64]| signature@)
}

/// The four sequences of a batch as contracts see them.
pub struct BatchView {
    pub owners: Seq<Seq<u8>>,
    pub metadatas: Seq<MetadataView>,
    pub expiration_dates: Seq<Option<u64>>,
    pub signatures: Seq<Seq<u8>>,
}

impl BatchView {
    /// Whether the four sequences have one length.
    pub open spec fn aligned(self) -> bool {
        self.metadatas.len() == self.owners.len() && self.expiration_dates.len()
            == self.owners.len() && self.signatures.len() == self.owners.len()
    }

    /// Why item `i` cannot be issued into `store`, if it cannot.
    pub open spec fn refusal_at(self, store: StoreView, invocation: InvocationView, i: nat)
        -> Option<Error> {
        issue_refusal(store, invocation, self.owners[i as int], self.metadatas[i as int], i as u32)
    }

    /// The certificate that item `i` creates: it is issued with nonce `i`.
    pub open spec fn certificate_at(self, invocation: InvocationView, i: nat) -> CertificateView {
        issued_certificate(
            invocation,
            self.owners[i as int],
            self.metadatas[i as int],
            self.expiration_dates[i as int],
            self.signatures[i as int],
            i as u32,
        )
    }
}

/// The store and the identifiers after the first `n` items of a batch were
/// issued in order; the first refusal, if an item is refused.
#[verifier::opaque]
pub open spec fn batch_upto(
    store: StoreView,
    invocation: InvocationView,
    batch: BatchView,
    n: nat,
) -> Result<(StoreView, Seq<Seq<u8>>), Error>
    decreases n,
{
    if n == 0 {
        Ok((store, Seq::empty()))
    } else {
        let i = (n - 1) as nat;
        match batch_upto(store, invocation, batch, i) {
            Err(e) => Err(e),
            Ok((reached, ids)) => match batch.refusal_at(reached, invocation, i) {
                Some(e) => Err(e),
                None => Ok(
                    (
                        reached.with_issued(batch.certificate_at(invocation, i)),
                        ids.push(batch.certificate_at(invocation, i).id),
                    ),
                ),
            },
        }
    }
}

/// Once an item of a batch is refused, the batch is refused with that
/// item's error, however many items follow.
pub proof fn lemma_batch_refusal_stays(
    store: StoreView,
    invocation: InvocationView,
    batch: BatchView,
    m: nat,
    n: nat,
)
    requires
        m <= n,
        batch_upto(store, invocation, batch, m) is Err,
    ensures
        batch_upto(store, invocation, batch, n) == batch_upto(store, invocation, batch, m),
    decreases n,
{
    reveal(batch_upto);
    if m < n {
        lemma_batch_refusal_stays(store, invocation, batch, m, (n - 1) as nat);
    }
}

/// What `batch_issue_certificates` answers and leaves behind: all items
/// issued in order, or nothing changed.
pub open spec fn batch_issue_certificates_outcome(
    before: RegistryView,
    invocation: InvocationView,
    batch: BatchView,
) -> (Result<Seq<Seq<u8>>, Error>, RegistryView) {
    if !issuer_authorized(before.access, invocation) {
        (Err(Error::Unauthorized), before)
    } else if !batch.aligned() {
        (Err(Error::InvalidInput), before)
    } else {
        match batch_upto(before.store, invocation, batch, batch.owners.len()) {
            Err(e) => (Err(e), before),
            Ok((store, ids)) => (
                Ok(ids),
                RegistryView { store, ..before }.notify(
                    EventView::CertificatesBatchIssued { ids, issuer: invocation.caller },
                    invocation.timestamp,
                ),
            ),
        }
    }
}

/// The four sequences of a batch, seen together.
pub open spec fn batch_view(
    owners: Seq<Identity>,
    metadatas: Seq<CertificateMetadata>,
    expiration_dates: Seq<Option<u64>>,
    signatures: Seq<[u8; 64]>,
) -> BatchView {
    BatchView {
        owners: identity_views(owners),
        metadatas: metadata_views(metadatas),
        expiration_dates,
        signatures: signature_views(signatures),
    }
}

/// Issues item `i` of a batch into the store that the items before it
/// have left.
fn issue_next(
    work: &mut CertificateStore,
    ids: &mut Vec<CertificateId>,
    invocation: &Invocation,
    owners: &Vec<Identity>,
    metadatas: &Vec<CertificateMetadata>,
    expiration_dates: &Vec<Option<u64>>,
    signatures: &Vec<[u8; 64]>,
    i: usize,
    Ghost(start): Ghost<StoreView>,
) -> (done: Result<(), Error>)
    requires
        old(work).wf(),
        invocation@.caller.len() > 0,
        i < owners@.len(),
        batch_view(owners@, metadatas@, expiration_dates@, signatures@).aligned(),
        old(work)@.certificates.len() == start.certificates.len() + i,
        batch_upto(
            start,
            invocation@,
            batch_view(owners@, metadatas@, expiration_dates@, signatures@),
            i as nat,
        ) == Ok::<(StoreView, Seq<Seq<u8>>), Error>((old(work)@, id_views(old(ids)@))),
    ensures
        final(work).wf(),
        match done {
            Ok(()) => final(work)@.certificates.len() == start.certificates.len() + i + 1
                && batch_upto(
                start,
                invocation@,
                batch_view(owners@, metadatas@, expiration_dates@, signatures@),
                (i + 1) as nat,
            ) == Ok::<(StoreView, Seq<Seq<u8>>), Error>((final(work)@, id_views(final(ids)@))),
            Err(e) => batch_upto(
                start,
                invocation@,
                batch_view(owners@, metadatas@, expiration_dates@, signatures@),
                (i + 1) as nat,
            ) == Err::<(StoreView, Seq<Seq<u8>>), Error>(e),
        },
{
    proof {
        work.lemma_wf();
        reveal(batch_upto);
    }
    let ghost batch = batch_view(owners@, metadatas@, expiration_dates@, signatures@);
    let ghost issued = id_views(ids@);
    assert(batch.owners[i as int] == owners@[i as int]@);
    assert(batch.metadatas[i as int] == metadatas@[i as int]@);
    assert(batch.signatures[i as int] == signatures@[i as int]@);
    match issue_item(
        work,
        invocation,
        &owners[i],
        &metadatas[i],
        expiration_dates[i],
        &signatures[i],
        i as u32,
    ) {
        Ok(id) => {
            ids.push(id);
            assert(id_views(ids@) =~= issued.push(id@));
            Ok(())
        },
        Err(e) => Err(e),
    }
}

/// Issues one certificate per position of the four sequences, in order,
/// item `i` with nonce `i`, each owner authorizing its own item. The
/// sequences must have one length, else `InvalidInput`. Either every item
/// is issued, or the registry is left as it was and the first refusal is
/// returned.
pub fn batch_issue_certificates(
    registry: &mut CertificationContract,
    invocation: &Invocation,
    owners: Vec<Identity>,
    metadatas: Vec<CertificateMetadata>,
    expiration_dates: Vec<Option<u64>>,
    signatures: Vec<[u8; 64]>,
) -> (ids: Result<Vec<CertificateId>, Error>)
    requires
        old(registry).wf(),
    ensures
        final(registry).wf(),
        match ids {
            Ok(ids) => (Ok::<Seq<Seq<u8>>, Error>(id_views(ids@)), final(registry)@)
                == batch_issue_certificates_outcome(
                old(registry)@,
                invocation@,
                batch_view(owners@, metadatas@, expiration_dates@, signatures@),
            ),
            Err(e) => (Err::<Seq<Seq<u8>>, Error>(e), final(registry)@)
                == batch_issue_certificates_outcome(
                old(registry)@,
                invocation@,
                batch_view(owners@, metadatas@, expiration_dates@, signatures@),
            ),
        },
{
    let issuer = match require_issuer(registry, invocation) {
        Ok(issuer) => issuer,
        Err(e) => {
            return Err(e);
        },
    };
    let count = owners.len();
    if metadatas.len() != count || expiration_dates.len() != count || signatures.len() != count {
        return Err(Error::InvalidInput);
    }
    proof {
        lemma_caller_named(registry@, invocation@);
    }
    let ghost start = registry@.store;
    let ghost batch = batch_view(owners@, metadatas@, expiration_dates@, signatures@);
    let mut work = registry.store.clone();
    let mut ids: Vec<CertificateId> = Vec::new();
    assert(batch_upto(start, invocation@, batch, 0) == Ok::<(StoreView, Seq<Seq<u8>>), Error>(
        (work@, id_views(ids@)),
    )) by {
        reveal(batch_upto);
        assert(id_views(ids@) =~= Seq::<Seq<u8>>::empty());
    }
    let mut i: usize = 0;
    while i < count
        invariant
            i <= count,
            count == owners@.len(),
            batch == batch_view(owners@, metadatas@, expiration_dates@, signatures@),
            batch.aligned(),
            registry.wf(),
            registry@ == old(registry)@,
            start == registry@.store,
            issuer_authorized(registry@.access, invocation@),
            invocation@.caller.len() > 0,
            work.wf(),
            work@.certificates.len() == start.certificates.len() + i,
            batch_upto(start, invocation@, batch, i as nat) == Ok::<
                (StoreView, Seq<Seq<u8>>),
                Error,
            >((work@, id_views(ids@))),
        decreases count - i,
    {
        match issue_next(
            &mut work,
            &mut ids,
            invocation,
            &owners,
            &metadatas,
            &expiration_dates,
            &signatures,
            i,
            Ghost(start),
        ) {
            Ok(()) => {},
            Err(e) => {
                proof {
                    lemma_batch_refusal_stays(
                        start,
                        invocation@,
                        batch,
                        (i + 1) as nat,
                        count as nat,
                    );
                }
                return Err(e);
            },
        }
        i += 1;
    }
    registry.store = work;
    let event = Event::CertificatesBatchIssued { ids: copy_ids(&ids), issuer };
    registry.emit(event, invocation.timestamp);
    Ok(ids)
}

/// Whoever may issue is not the empty identity.
pub proof fn lemma_caller_named(registry: RegistryView, invocation: InvocationView)
    requires
        registry.access.well_formed(),
        issuer_authorized(registry.access, invocation),
    ensures
        invocation.caller.len() > 0,
{
    if registry.access.admin != Some(invocation.caller) {
        let i = choose|i: int|
            0 <= i < registry.access.issuers.len() && registry.access.issuers[i]
                == invocation.caller;
        assert(registry.access.issuers[i].len() > 0);
    }
}

/// How many certificates have been issued.
pub fn get_certificate_count(registry: &CertificationContract) -> (count: u32)
    requires
        registry.wf(),
    ensures
        count == registry@.certificate_count(),
{
    registry.store.len()
}

/// The identifiers of the certificates that `owner` holds, in the order in
/// which they came to it.
pub fn get_owner_certificates(registry: &CertificationContract, owner: &Identity) -> (ids: Vec<
    CertificateId,
>)
    requires
        registry.wf(),
    ensures
        id_views(ids@) == registry@.store.owner_index[owner@],
{
    registry.store.owner_certificates(owner)
}

} // verus!
