//! The certificate store as contracts see it: what it holds, what keeps it
//! consistent, and how issuing, transferring and revoking change it.

use vstd::prelude::*;
use crate::certificate::{Certificate, CertificateView};
use crate::error::Error;
use crate::index::{distinct_keys, entry_of, has_entry, index_of_entries, lemma_listed_at,
    lemma_push_fresh, lemma_without_contains, lemma_without_no_duplicates, listed, without,
    Entries};

verus! {

/// Whether a certificate with identifier `id` is among `certificates`.
pub open spec fn holds(certificates: Seq<CertificateView>, id: Seq<u8>) -> bool {
    exists|i: int| 0 <= i < certificates.len() && (#[trigger] certificates[i]).id == id
}

/// Where the certificate with identifier `id` stands among `certificates`.
pub open spec fn position_of(certificates: Seq<CertificateView>, id: Seq<u8>) -> int {
    choose|i: int| 0 <= i < certificates.len() && (#[trigger] certificates[i]).id == id
}

/// The certificate with identifier `id` among `certificates`.
pub open spec fn record(certificates: Seq<CertificateView>, id: Seq<u8>) -> CertificateView {
    certificates[position_of(certificates, id)]
}

/// No two of `certificates` share an identifier.
pub open spec fn unique_ids(certificates: Seq<CertificateView>) -> bool {
    forall|i: int, j: int|
        0 <= i < certificates.len() && 0 <= j < certificates.len() && i != j ==> (
        #[trigger] certificates[i]).id != (#[trigger] certificates[j]).id
}

/// The part of `ids` that a listing from `start` with at most `limit`
/// entries shows: positions `start` up to `start + limit`, as far as they
/// exist.
pub open spec fn page(ids: Seq<Seq<u8>>, start: u32, limit: u32) -> Seq<Seq<u8>> {
    if start >= ids.len() {
        Seq::empty()
    } else if start + limit >= ids.len() {
        ids.subrange(start as int, ids.len() as int)
    } else {
        ids.subrange(start as int, start + limit)
    }
}

/// The views of a sequence of certificates, in order.
pub open spec fn certificate_views(certificates: Seq<Certificate>) -> Seq<CertificateView> {
    certificates.map_values(|certificate: Certificate| certificate@)
}

/// The store as contracts see it: the certificates in the order of their
/// issuance, and for every party the identifiers it owns and those it
/// issued, each list in the order of filing.
pub struct StoreView {
    pub certificates: Seq<CertificateView>,
    pub owner_index: Map<Seq<u8>, Seq<Seq<u8>>>,
    pub issuer_index: Map<Seq<u8>, Seq<Seq<u8>>>,
}

impl StoreView {
    /// The store that holds no certificate: every party's two lists are
    /// empty.
    pub open spec fn empty() -> StoreView {
        StoreView {
            certificates: Seq::empty(),
            owner_index: Map::total(|party: Seq<u8>| Seq::<Seq<u8>>::empty()),
            issuer_index: Map::total(|party: Seq<u8>| Seq::<Seq<u8>>::empty()),
        }
    }

    /// Whether a certificate is stored under `id`.
    pub open spec fn holds(self, id: Seq<u8>) -> bool {
        holds(self.certificates, id)
    }

    /// The certificate stored under `id`.
    pub open spec fn record(self, id: Seq<u8>) -> CertificateView {
        record(self.certificates, id)
    }

    /// What holds of the store at all times: identifiers are unique; no
    /// certificate is owned or issued by the empty identity; a party's owner
    /// list holds exactly the identifiers of the certificates it owns now,
    /// and its issuer list those of the certificates it issued, each once.
    pub open spec fn consistent(self) -> bool {
        &&& unique_ids(self.certificates)
        &&& forall|i: int|
            0 <= i < self.certificates.len() ==> (#[trigger] self.certificates[i]).owner.len() > 0
                && self.certificates[i].issuer.len() > 0
        &&& forall|party: Seq<u8>| #[trigger] self.owner_index.dom().contains(party)
        &&& forall|party: Seq<u8>| #[trigger] self.issuer_index.dom().contains(party)
        &&& forall|party: Seq<u8>, id: Seq<u8>| #[trigger]
            self.owner_index[party].contains(id) <==> self.holds(id) && self.record(id).owner
                == party
        &&& forall|party: Seq<u8>, id: Seq<u8>| #[trigger]
            self.issuer_index[party].contains(id) <==> self.holds(id) && self.record(id).issuer
                == party
        &&& forall|party: Seq<u8>| (#[trigger] self.owner_index[party]).no_duplicates()
        &&& forall|party: Seq<u8>| (#[trigger] self.issuer_index[party]).no_duplicates()
    }

    /// The store after `certificate` was added and filed under its owner
    /// and its issuer.
    pub open spec fn with_issued(self, certificate: CertificateView) -> StoreView {
        StoreView {
            certificates: self.certificates.push(certificate),
            owner_index: self.owner_index.insert(
                certificate.owner,
                self.owner_index[certificate.owner].push(certificate.id),
            ),
            issuer_index: self.issuer_index.insert(
                certificate.issuer,
                self.issuer_index[certificate.issuer].push(certificate.id),
            ),
        }
    }

    /// The store after the certificate under `id` went to `new_owner`: the
    /// identifier leaves the old owner's list and is appended to the new
    /// owner's.
    pub open spec fn with_owner(self, id: Seq<u8>, new_owner: Seq<u8>) -> StoreView {
        let p = position_of(self.certificates, id);
        let before = self.certificates[p];
        let taken = self.owner_index.insert(
            before.owner,
            without(self.owner_index[before.owner], id),
        );
        StoreView {
            certificates: self.certificates.update(
                p,
                CertificateView { owner: new_owner, ..before },
            ),
            owner_index: taken.insert(new_owner, taken[new_owner].push(id)),
            issuer_index: self.issuer_index,
        }
    }

    /// The store after the certificate under `id` was revoked.
    pub open spec fn with_revoked(self, id: Seq<u8>) -> StoreView {
        let p = position_of(self.certificates, id);
        StoreView {
            certificates: self.certificates.update(
                p,
                CertificateView { revoked: true, ..self.certificates[p] },
            ),
            ..self
        }
    }

    /// The certificates that a listing of `ids` from `start` with at most
    /// `limit` entries returns.
    pub open spec fn listing(self, ids: Seq<Seq<u8>>, start: u32, limit: u32) -> Seq<
        CertificateView,
    > {
        page(ids, start, limit).map_values(|id: Seq<u8>| self.record(id))
    }
}

/// With unique identifiers, the certificate at a position is the one that
/// its identifier finds.
pub proof fn lemma_record_at(certificates: Seq<CertificateView>, i: int)
    requires
        unique_ids(certificates),
        0 <= i < certificates.len(),
    ensures
        holds(certificates, certificates[i].id),
        position_of(certificates, certificates[i].id) == i,
        record(certificates, certificates[i].id) == certificates[i],
{
    assert(certificates[i].id == certificates[i].id);
}

/// Changing a certificate but not its identifier changes what that
/// identifier finds, and nothing else.
pub proof fn lemma_record_after_update(
    certificates: Seq<CertificateView>,
    p: int,
    changed: CertificateView,
    id: Seq<u8>,
)
    requires
        unique_ids(certificates),
        0 <= p < certificates.len(),
        changed.id == certificates[p].id,
    ensures
        unique_ids(certificates.update(p, changed)),
        holds(certificates.update(p, changed), id) == holds(certificates, id),
        holds(certificates, id) ==> record(certificates.update(p, changed), id) == (if id
            == changed.id {
            changed
        } else {
            record(certificates, id)
        }),
{
    let after = certificates.update(p, changed);
    assert forall|i: int, j: int|
        0 <= i < after.len() && 0 <= j < after.len() && i != j implies (#[trigger] after[i]).id != (
    #[trigger] after[j]).id by {
        assert(after[i].id == certificates[i].id);
        assert(after[j].id == certificates[j].id);
    }
    if holds(certificates, id) {
        let i = position_of(certificates, id);
        assert(after[i].id == id);
        lemma_record_at(after, i);
        lemma_record_at(certificates, i);
    }
    if holds(after, id) {
        let i = position_of(after, id);
        assert(certificates[i].id == id);
    }
}

/// Adding a certificate under a fresh identifier keeps the store consistent.
pub proof fn lemma_issued_consistent(store: StoreView, certificate: CertificateView)
    requires
        store.consistent(),
        !store.holds(certificate.id),
        certificate.owner.len() > 0,
        certificate.issuer.len() > 0,
    ensures
        store.with_issued(certificate).consistent(),
        store.with_issued(certificate).holds(certificate.id),
        store.with_issued(certificate).record(certificate.id) == certificate,
        forall|id: Seq<u8>|
            store.holds(id) ==> store.with_issued(certificate).holds(id) && store.with_issued(
                certificate,
            ).record(id) == store.record(id),
{
    let after = store.with_issued(certificate);
    let old_certs = store.certificates;
    let new_certs = after.certificates;
    let last = old_certs.len() as int;
    assert forall|i: int, j: int|
        0 <= i < new_certs.len() && 0 <= j < new_certs.len() && i != j implies (
    #[trigger] new_certs[i]).id != (#[trigger] new_certs[j]).id by {
        if i < last && j < last {
            assert(old_certs[i].id != old_certs[j].id);
        } else if i < last {
            assert(old_certs[i].id != certificate.id);
        } else {
            assert(old_certs[j].id != certificate.id);
        }
    }
    lemma_record_at(new_certs, last);
    assert forall|id: Seq<u8>| store.holds(id) implies after.holds(id) && after.record(id)
        == store.record(id) by {
        let i = position_of(old_certs, id);
        assert(new_certs[i] == old_certs[i]);
        lemma_record_at(new_certs, i);
        lemma_record_at(old_certs, i);
    }
    assert forall|id: Seq<u8>| after.holds(id) implies store.holds(id) || id
        == certificate.id by {
        let i = position_of(new_certs, id);
        if i < last {
            assert(old_certs[i].id == id);
        }
    }
    assert forall|i: int| 0 <= i < new_certs.len() implies (#[trigger] new_certs[i]).owner.len()
        > 0 && new_certs[i].issuer.len() > 0 by {
        if i < last {
            assert(old_certs[i].owner.len() > 0);
        }
    }
    assert forall|party: Seq<u8>, id: Seq<u8>| #[trigger]
        after.owner_index[party].contains(id) <==> after.holds(id) && after.record(id).owner
            == party by {
        lemma_filed_after_push(
            store.owner_index,
            certificate.owner,
            certificate.id,
            party,
            id,
        );
        assert(store.owner_index[party].contains(id) <==> store.holds(id) && store.record(
            id,
        ).owner == party);
    }
    assert forall|party: Seq<u8>, id: Seq<u8>| #[trigger]
        after.issuer_index[party].contains(id) <==> after.holds(id) && after.record(id).issuer
            == party by {
        lemma_filed_after_push(
            store.issuer_index,
            certificate.issuer,
            certificate.id,
            party,
            id,
        );
        assert(store.issuer_index[party].contains(id) <==> store.holds(id) && store.record(
            id,
        ).issuer == party);
    }
    assert forall|party: Seq<u8>| (#[trigger] after.owner_index[party]).no_duplicates() by {
        assert(store.owner_index[party].no_duplicates());
        assert(store.owner_index[certificate.owner].contains(certificate.id) <==> store.holds(
            certificate.id,
        ) && store.record(certificate.id).owner == certificate.owner);
        lemma_push_fresh(store.owner_index[certificate.owner], certificate.id);
    }
    assert forall|party: Seq<u8>| (#[trigger] after.issuer_index[party]).no_duplicates() by {
        assert(store.issuer_index[party].no_duplicates());
        assert(store.issuer_index[certificate.issuer].contains(certificate.id) <==> store.holds(
            certificate.id,
        ) && store.record(certificate.id).issuer == certificate.issuer);
        lemma_push_fresh(store.issuer_index[certificate.issuer], certificate.id);
    }
    assert forall|party: Seq<u8>| #[trigger] after.owner_index.dom().contains(party) by {
        assert(store.owner_index.dom().contains(party));
    }
    assert forall|party: Seq<u8>| #[trigger] after.issuer_index.dom().contains(party) by {
        assert(store.issuer_index.dom().contains(party));
    }
}

/// What a list holds after an identifier was appended to the list of `key`.
proof fn lemma_filed_after_push(
    index: Map<Seq<u8>, Seq<Seq<u8>>>,
    key: Seq<u8>,
    pushed: Seq<u8>,
    party: Seq<u8>,
    id: Seq<u8>,
)
    ensures
        index.insert(key, index[key].push(pushed))[party].contains(id) <==> index[party].contains(
            id,
        ) || (party == key && id == pushed),
{
    let list = index[key];
    let longer = list.push(pushed);
    if party == key {
        if list.contains(id) {
            let i = choose|i: int| 0 <= i < list.len() && list[i] == id;
            assert(longer[i] == id);
        }
        if id == pushed {
            assert(longer[list.len() as int] == id);
        }
        if longer.contains(id) {
            let i = choose|i: int| 0 <= i < longer.len() && longer[i] == id;
            if i < list.len() {
                assert(list[i] == id);
            }
        }
    }
}

/// Handing a stored certificate to a new owner keeps the store consistent.
pub proof fn lemma_owner_changed_consistent(store: StoreView, id: Seq<u8>, new_owner: Seq<u8>)
    requires
        store.consistent(),
        store.holds(id),
        new_owner.len() > 0,
    ensures
        store.with_owner(id, new_owner).consistent(),
        store.with_owner(id, new_owner).holds(id),
        store.with_owner(id, new_owner).record(id) == (CertificateView {
            owner: new_owner,
            ..store.record(id)
        }),
        forall|other: Seq<u8>|
            other != id ==> store.with_owner(id, new_owner).holds(other) == store.holds(other) && (
            store.holds(other) ==> store.with_owner(id, new_owner).record(other) == store.record(
                other,
            )),
        store.with_owner(id, new_owner).owner_index[new_owner].contains(id),
        store.record(id).owner != new_owner ==> !store.with_owner(
            id,
            new_owner,
        ).owner_index[store.record(id).owner].contains(id),
{
    let after = store.with_owner(id, new_owner);
    let p = position_of(store.certificates, id);
    let before = store.certificates[p];
    let changed = CertificateView { owner: new_owner, ..before };
    let old_owner = before.owner;
    let taken = store.owner_index.insert(old_owner, without(store.owner_index[old_owner], id));
    assert forall|other: Seq<u8>|
        after.holds(other) == store.holds(other) && (store.holds(other) ==> after.record(other)
            == (if other == id {
            changed
        } else {
            store.record(other)
        })) by {
        lemma_record_after_update(store.certificates, p, changed, other);
    }
    lemma_record_after_update(store.certificates, p, changed, id);
    assert forall|i: int| 0 <= i < after.certificates.len() implies (
    #[trigger] after.certificates[i]).owner.len() > 0 && after.certificates[i].issuer.len()
        > 0 by {
        assert(store.certificates[i].owner.len() > 0);
    }
    assert forall|party: Seq<u8>, x: Seq<u8>| #[trigger]
        taken[party].contains(x) <==> store.owner_index[party].contains(x) && !(party == old_owner
            && x == id) by {
        if party == old_owner {
            lemma_without_contains(store.owner_index[old_owner], id, x);
        }
    }
    assert forall|party: Seq<u8>| (#[trigger] taken[party]).no_duplicates() by {
        assert(store.owner_index[party].no_duplicates());
        if party == old_owner {
            lemma_without_no_duplicates(store.owner_index[old_owner], id);
        }
    }
    assert(!taken[new_owner].contains(id)) by {
        assert(taken[new_owner].contains(id) <==> store.owner_index[new_owner].contains(id) && !(
        new_owner == old_owner && id == id));
        assert(store.owner_index[new_owner].contains(id) <==> store.holds(id) && store.record(
            id,
        ).owner == new_owner);
    }
    assert forall|party: Seq<u8>, x: Seq<u8>| #[trigger]
        after.owner_index[party].contains(x) <==> after.holds(x) && after.record(x).owner
            == party by {
        lemma_filed_after_push(taken, new_owner, id, party, x);
        assert(taken[party].contains(x) <==> store.owner_index[party].contains(x) && !(party
            == old_owner && x == id));
        assert(store.owner_index[party].contains(x) <==> store.holds(x) && store.record(x).owner
            == party);
    }
    assert forall|party: Seq<u8>| (#[trigger] after.owner_index[party]).no_duplicates() by {
        assert(taken[party].no_duplicates());
        lemma_push_fresh(taken[new_owner], id);
    }
    assert forall|party: Seq<u8>, x: Seq<u8>| #[trigger]
        after.issuer_index[party].contains(x) <==> after.holds(x) && after.record(x).issuer
            == party by {
        assert(store.issuer_index[party].contains(x) <==> store.holds(x) && store.record(
            x,
        ).issuer == party);
    }
    assert forall|party: Seq<u8>| #[trigger] after.owner_index.dom().contains(party) by {
        assert(store.owner_index.dom().contains(party));
    }
    lemma_filed_after_push(taken, new_owner, id, new_owner, id);
    if old_owner != new_owner {
        lemma_filed_after_push(taken, new_owner, id, old_owner, id);
        assert(taken[old_owner].contains(id) <==> store.owner_index[old_owner].contains(id) && !(
        old_owner == old_owner && id == id));
    }
}

/// Revoking a stored certificate keeps the store consistent.
pub proof fn lemma_revoked_consistent(store: StoreView, id: Seq<u8>)
    requires
        store.consistent(),
        store.holds(id),
    ensures
        store.with_revoked(id).consistent(),
        store.with_revoked(id).holds(id),
        store.with_revoked(id).record(id) == (CertificateView {
            revoked: true,
            ..store.record(id)
        }),
        forall|other: Seq<u8>|
            other != id ==> store.with_revoked(id).holds(other) == store.holds(other) && (
            store.holds(other) ==> store.with_revoked(id).record(other) == store.record(other)),
{
    let after = store.with_revoked(id);
    let p = position_of(store.certificates, id);
    let changed = CertificateView { revoked: true, ..store.certificates[p] };
    assert forall|other: Seq<u8>|
        after.holds(other) == store.holds(other) && (store.holds(other) ==> after.record(other)
            == (if other == id {
            changed
        } else {
            store.record(other)
        })) by {
        lemma_record_after_update(store.certificates, p, changed, other);
    }
    lemma_record_after_update(store.certificates, p, changed, id);
    assert forall|i: int| 0 <= i < after.certificates.len() implies (
    #[trigger] after.certificates[i]).owner.len() > 0 && after.certificates[i].issuer.len()
        > 0 by {
        assert(store.certificates[i].owner.len() > 0);
    }
    assert forall|party: Seq<u8>, x: Seq<u8>| #[trigger]
        after.owner_index[party].contains(x) <==> after.holds(x) && after.record(x).owner
            == party by {
        assert(store.owner_index[party].contains(x) <==> store.holds(x) && store.record(x).owner
            == party);
    }
    assert forall|party: Seq<u8>, x: Seq<u8>| #[trigger]
        after.issuer_index[party].contains(x) <==> after.holds(x) && after.record(x).issuer
            == party by {
        assert(store.issuer_index[party].contains(x) <==> store.holds(x) && store.record(
            x,
        ).issuer == party);
    }
}

/// A party's list is no longer than the store: each of its identifiers
/// belongs to a certificate of its own.
pub proof fn lemma_list_bounded(store: StoreView, party: Seq<u8>)
    requires
        store.consistent(),
    ensures
        store.owner_index[party].len() <= store.certificates.len(),
        store.issuer_index[party].len() <= store.certificates.len(),
{
    let stored = store.certificates.map_values(|certificate: CertificateView| certificate.id);
    stored.lemma_cardinality_of_set();
    vstd::seq_lib::seq_to_set_is_finite(stored);
    let owned = store.owner_index[party];
    let issued = store.issuer_index[party];
    owned.unique_seq_to_set();
    issued.unique_seq_to_set();
    assert forall|id: Seq<u8>| owned.to_set().contains(id) implies stored.to_set().contains(
        id,
    ) by {
        assert(store.owner_index[party].contains(id));
        let i = position_of(store.certificates, id);
        assert(stored[i] == id);
    }
    assert forall|id: Seq<u8>| issued.to_set().contains(id) implies stored.to_set().contains(
        id,
    ) by {
        assert(store.issuer_index[party].contains(id));
        let i = position_of(store.certificates, id);
        assert(stored[i] == id);
    }
    vstd::set_lib::lemma_len_subset(owned.to_set(), stored.to_set());
    vstd::set_lib::lemma_len_subset(issued.to_set(), stored.to_set());
}

/// The party under which a certificate is filed: its owner in the index of
/// owners, its issuer in the index of issuers.
pub open spec fn party_of(certificate: CertificateView, owners: bool) -> Seq<u8> {
    if owners {
        certificate.owner
    } else {
        certificate.issuer
    }
}

/// No certificate is owned or issued by the empty identity.
pub open spec fn parties_named(certificates: Seq<CertificateView>) -> bool {
    forall|i: int|
        0 <= i < certificates.len() ==> (#[trigger] certificates[i]).owner.len() > 0
            && certificates[i].issuer.len() > 0
}

/// Every identifier of the entry belongs to a stored certificate of the
/// entry's party, and the entry names no identifier twice.
pub open spec fn entry_sound(
    certificates: Seq<CertificateView>,
    entry: (Seq<u8>, Seq<Seq<u8>>),
    owners: bool,
) -> bool {
    &&& entry.1.no_duplicates()
    &&& forall|k: int|
        0 <= k < entry.1.len() ==> holds(certificates, #[trigger] entry.1[k]) && party_of(
            record(certificates, entry.1[k]),
            owners,
        ) == entry.0
}

/// Every entry is sound.
pub open spec fn entries_sound(certificates: Seq<CertificateView>, entries: Entries, owners: bool)
    -> bool {
    forall|e: int|
        0 <= e < entries.len() ==> entry_sound(certificates, #[trigger] entries[e], owners)
}

/// Every certificate is filed under its party.
pub open spec fn entries_complete(
    certificates: Seq<CertificateView>,
    entries: Entries,
    owners: bool,
) -> bool {
    forall|i: int|
        0 <= i < certificates.len() ==> listed(
            entries,
            party_of(#[trigger] certificates[i], owners),
        ).contains(certificates[i].id)
}

/// The store that certificates and the entries of the two indices stand
/// for.
pub open spec fn rebuilt(
    certificates: Seq<CertificateView>,
    owner_entries: Entries,
    issuer_entries: Entries,
) -> StoreView {
    StoreView {
        certificates,
        owner_index: index_of_entries(owner_entries),
        issuer_index: index_of_entries(issuer_entries),
    }
}

/// Whether certificates and entries stand for a store: no party has two
/// entries in an index, the store they stand for is consistent, and it
/// holds no more certificates than can be counted.
pub open spec fn restorable(
    certificates: Seq<CertificateView>,
    owner_entries: Entries,
    issuer_entries: Entries,
) -> bool {
    &&& distinct_keys(owner_entries)
    &&& distinct_keys(issuer_entries)
    &&& rebuilt(certificates, owner_entries, issuer_entries).consistent()
    &&& certificates.len() <= u32::MAX
}

/// What the entries of one index must be like for the store to be
/// consistent.
proof fn lemma_index_consistent(
    certificates: Seq<CertificateView>,
    entries: Entries,
    owners: bool,
)
    requires
        distinct_keys(entries),
        unique_ids(certificates),
    ensures
        (entries_sound(certificates, entries, owners) && entries_complete(
            certificates,
            entries,
            owners,
        )) <==> ((forall|party: Seq<u8>, id: Seq<u8>| #[trigger]
            index_of_entries(entries)[party].contains(id) <==> holds(certificates, id)
                && party_of(record(certificates, id), owners) == party) && (forall|party: Seq<u8>|
            (#[trigger] index_of_entries(entries)[party]).no_duplicates())),
{
    let index = index_of_entries(entries);
    if entries_sound(certificates, entries, owners) && entries_complete(
        certificates,
        entries,
        owners,
    ) {
        assert forall|party: Seq<u8>, id: Seq<u8>| #[trigger]
            index[party].contains(id) <==> holds(certificates, id) && party_of(
                record(certificates, id),
                owners,
            ) == party by {
            if index[party].contains(id) {
                let e = entry_of(entries, party);
                assert(entry_sound(certificates, entries[e], owners));
                let k = choose|k: int| 0 <= k < entries[e].1.len() && entries[e].1[k] == id;
                assert(holds(certificates, entries[e].1[k]));
            }
            if holds(certificates, id) && party_of(record(certificates, id), owners) == party {
                let i = position_of(certificates, id);
                assert(listed(entries, party_of(certificates[i], owners)).contains(
                    certificates[i].id,
                ));
            }
        }
        assert forall|party: Seq<u8>| (#[trigger] index[party]).no_duplicates() by {
            if has_entry(entries, party) {
                let e = entry_of(entries, party);
                assert(entry_sound(certificates, entries[e], owners));
            }
        }
    }
    if (forall|party: Seq<u8>, id: Seq<u8>| #[trigger]
        index[party].contains(id) <==> holds(certificates, id) && party_of(
            record(certificates, id),
            owners,
        ) == party) && (forall|party: Seq<u8>| (#[trigger] index[party]).no_duplicates()) {
        assert forall|e: int| 0 <= e < entries.len() implies entry_sound(
            certificates,
            #[trigger] entries[e],
            owners,
        ) by {
            lemma_listed_at(entries, e);
            assert(index[entries[e].0] == entries[e].1);
            assert(index[entries[e].0].no_duplicates());
            assert forall|k: int| 0 <= k < entries[e].1.len() implies holds(
                certificates,
                #[trigger] entries[e].1[k],
            ) && party_of(record(certificates, entries[e].1[k]), owners) == entries[e].0 by {
                assert(index[entries[e].0].contains(entries[e].1[k]));
            }
        }
        assert forall|i: int| 0 <= i < certificates.len() implies listed(
            entries,
            party_of(#[trigger] certificates[i], owners),
        ).contains(certificates[i].id) by {
            lemma_record_at(certificates, i);
            let party = party_of(certificates[i], owners);
            assert(index[party].contains(certificates[i].id));
        }
    }
}

/// Certificates and entries stand for a consistent store exactly where
/// identifiers are unique, parties are named, and each index files every
/// certificate under its party, once, and nothing else.
pub proof fn lemma_restorable(
    certificates: Seq<CertificateView>,
    owner_entries: Entries,
    issuer_entries: Entries,
)
    requires
        distinct_keys(owner_entries),
        distinct_keys(issuer_entries),
    ensures
        rebuilt(certificates, owner_entries, issuer_entries).consistent() <==> (unique_ids(
            certificates,
        ) && parties_named(certificates) && entries_sound(certificates, owner_entries, true)
            && entries_complete(certificates, owner_entries, true) && entries_sound(
            certificates,
            issuer_entries,
            false,
        ) && entries_complete(certificates, issuer_entries, false)),
{
    let store = rebuilt(certificates, owner_entries, issuer_entries);
    let owned = index_of_entries(owner_entries);
    let issued = index_of_entries(issuer_entries);
    if unique_ids(certificates) {
        lemma_index_consistent(certificates, owner_entries, true);
        lemma_index_consistent(certificates, issuer_entries, false);
        if store.consistent() {
            assert forall|party: Seq<u8>, id: Seq<u8>| #[trigger]
                owned[party].contains(id) <==> holds(certificates, id) && party_of(
                    record(certificates, id),
                    true,
                ) == party by {
                assert(store.owner_index[party].contains(id) <==> store.holds(id) && store.record(
                    id,
                ).owner == party);
            }
            assert forall|party: Seq<u8>, id: Seq<u8>| #[trigger]
                issued[party].contains(id) <==> holds(certificates, id) && party_of(
                    record(certificates, id),
                    false,
                ) == party by {
                assert(store.issuer_index[party].contains(id) <==> store.holds(id)
                    && store.record(id).issuer == party);
            }
            assert forall|party: Seq<u8>| (#[trigger] owned[party]).no_duplicates() by {
                assert(store.owner_index[party].no_duplicates());
            }
            assert forall|party: Seq<u8>| (#[trigger] issued[party]).no_duplicates() by {
                assert(store.issuer_index[party].no_duplicates());
            }
        }
        if parties_named(certificates) && entries_sound(certificates, owner_entries, true)
            && entries_complete(certificates, owner_entries, true) && entries_sound(
            certificates,
            issuer_entries,
            false,
        ) && entries_complete(certificates, issuer_entries, false) {
            assert forall|party: Seq<u8>, id: Seq<u8>| #[trigger]
                store.owner_index[party].contains(id) <==> store.holds(id) && store.record(
                    id,
                ).owner == party by {
                assert(owned[party].contains(id) <==> holds(certificates, id) && party_of(
                    record(certificates, id),
                    true,
                ) == party);
            }
            assert forall|party: Seq<u8>, id: Seq<u8>| #[trigger]
                store.issuer_index[party].contains(id) <==> store.holds(id) && store.record(
                    id,
                ).issuer == party by {
                assert(issued[party].contains(id) <==> holds(certificates, id) && party_of(
                    record(certificates, id),
                    false,
                ) == party);
            }
            assert forall|party: Seq<u8>| (#[trigger] store.owner_index[party]).no_duplicates() by {
                assert(owned[party].no_duplicates());
            }
            assert forall|party: Seq<u8>| (
            #[trigger] store.issuer_index[party]).no_duplicates() by {
                assert(issued[party].no_duplicates());
            }
            assert forall|party: Seq<u8>| #[trigger] store.owner_index.dom().contains(party) by {}
            assert forall|party: Seq<u8>| #[trigger] store.issuer_index.dom().contains(party) by {}
        }
    }
}

/// Why the store refuses to take `certificate`, if it does.
pub open spec fn put_refusal(store: StoreView, certificate: CertificateView) -> Option<Error> {
    if certificate.owner.len() == 0 || certificate.issuer.len() == 0 {
        Some(Error::InvalidInput)
    } else if store.holds(certificate.id) {
        Some(Error::AlreadyExists)
    } else if store.certificates.len() >= u32::MAX {
        Some(Error::CapacityExceeded)
    } else {
        None
    }
}

} // verus!
