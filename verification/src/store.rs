//! The certificate store: certificates by identifier, with the lists of what each
//! party owns and what each party issued.

use vstd::prelude::*;
use crate::certificate::{Certificate, CertificateId};
use crate::error::Error;
use crate::identity::Identity;
use crate::index::{distinct_keys, entry_views, id_views, index_of_entries, listed,
    CertificateIndex, Entries, IndexEntry};
use crate::store_view::{StoreView, certificate_views, entries_complete, entries_sound,
    entry_sound, holds, lemma_issued_consistent, lemma_list_bounded,
    lemma_owner_changed_consistent, lemma_record_at, lemma_restorable, lemma_revoked_consistent,
    page, parties_named, party_of, position_of, put_refusal, rebuilt, record, restorable,
    unique_ids};

verus! {

/// Whether no two certificates share an identifier.
fn ids_unique(certificates: &Vec<Certificate>) -> (unique: bool)
    ensures
        unique == unique_ids(certificate_views(certificates@)),
{
    let ghost views = certificate_views(certificates@);
    let mut i: usize = 0;
    while i < certificates.len()
        invariant
            i <= certificates.len(),
            views == certificate_views(certificates@),
            forall|a: int, b: int|
                0 <= a < i && 0 <= b < i && a != b ==> (#[trigger] views[a]).id != (
                #[trigger] views[b]).id,
        decreases certificates.len() - i,
    {
        let mut j: usize = 0;
        while j < i
            invariant
                j <= i < certificates.len(),
                views == certificate_views(certificates@),
                forall|b: int| 0 <= b < j ==> (#[trigger] views[b]).id != views[i as int].id,
            decreases i - j,
        {
            if certificates[j].id.same_as(&certificates[i].id) {
                assert(views[j as int].id == views[i as int].id);
                return false;
            }
            j += 1;
        }
        i += 1;
    }
    true
}

/// Whether every certificate names its owner and its issuer.
fn all_named(certificates: &Vec<Certificate>) -> (named: bool)
    ensures
        named == parties_named(certificate_views(certificates@)),
{
    let ghost views = certificate_views(certificates@);
    let mut i: usize = 0;
    while i < certificates.len()
        invariant
            i <= certificates.len(),
            views == certificate_views(certificates@),
            forall|a: int|
                0 <= a < i ==> (#[trigger] views[a]).owner.len() > 0 && views[a].issuer.len() > 0,
        decreases certificates.len() - i,
    {
        if certificates[i].owner.is_empty() || certificates[i].issuer.is_empty() {
            assert(views[i as int].owner.len() == 0 || views[i as int].issuer.len() == 0);
            return false;
        }
        i += 1;
    }
    true
}

/// Where the certificate with identifier `id` stands.
fn locate(certificates: &Vec<Certificate>, id: &CertificateId) -> (slot: Option<usize>)
    requires
        unique_ids(certificate_views(certificates@)),
    ensures
        match slot {
            Some(p) => holds(certificate_views(certificates@), id@) && p == position_of(
                certificate_views(certificates@),
                id@,
            ) && p < certificates@.len(),
            None => !holds(certificate_views(certificates@), id@),
        },
{
    let ghost views = certificate_views(certificates@);
    let mut i: usize = 0;
    while i < certificates.len()
        invariant
            i <= certificates.len(),
            views == certificate_views(certificates@),
            unique_ids(views),
            forall|j: int| 0 <= j < i ==> (#[trigger] views[j]).id != id@,
        decreases certificates.len() - i,
    {
        if certificates[i].id.same_as(id) {
            proof {
                lemma_record_at(views, i as int);
            }
            return Some(i);
        }
        i += 1;
    }
    None
}

/// Whether a list names no identifier twice.
fn ids_distinct(ids: &Vec<CertificateId>) -> (distinct: bool)
    ensures
        distinct == id_views(ids@).no_duplicates(),
{
    let ghost views = id_views(ids@);
    let mut i: usize = 0;
    while i < ids.len()
        invariant
            i <= ids.len(),
            views == id_views(ids@),
            forall|a: int, b: int| 0 <= a < i && 0 <= b < i && a != b ==> views[a] != views[b],
        decreases ids.len() - i,
    {
        let mut j: usize = 0;
        while j < i
            invariant
                j <= i < ids.len(),
                views == id_views(ids@),
                forall|b: int| 0 <= b < j ==> views[b] != views[i as int],
            decreases i - j,
        {
            if ids[j].same_as(&ids[i]) {
                assert(views[j as int] == views[i as int]);
                return false;
            }
            j += 1;
        }
        i += 1;
    }
    true
}

/// Whether an entry names certificates of its party only, each once.
fn entry_is_sound(certificates: &Vec<Certificate>, entry: &IndexEntry, owners: bool) -> (sound:
    bool)
    requires
        unique_ids(certificate_views(certificates@)),
    ensures
        sound == entry_sound(certificate_views(certificates@), entry@, owners),
{
    let ghost views = certificate_views(certificates@);
    if !ids_distinct(&entry.ids) {
        return false;
    }
    let mut k: usize = 0;
    while k < entry.ids.len()
        invariant
            k <= entry.ids.len(),
            views == certificate_views(certificates@),
            unique_ids(views),
            forall|a: int|
                0 <= a < k ==> holds(views, #[trigger] entry@.1[a]) && party_of(
                    record(views, entry@.1[a]),
                    owners,
                ) == entry@.0,
        decreases entry.ids.len() - k,
    {
        assert(entry@.1[k as int] == entry.ids@[k as int]@);
        match locate(certificates, &entry.ids[k]) {
            None => {
                return false;
            },
            Some(p) => {
                let party = if owners {
                    &certificates[p].owner
                } else {
                    &certificates[p].issuer
                };
                if !party.same_as(&entry.key) {
                    return false;
                }
            },
        }
        k += 1;
    }
    true
}

/// Whether every entry names certificates of its party only, each once.
fn entries_are_sound(certificates: &Vec<Certificate>, entries: &Vec<IndexEntry>, owners: bool)
    -> (sound: bool)
    requires
        unique_ids(certificate_views(certificates@)),
    ensures
        sound == entries_sound(certificate_views(certificates@), entry_views(entries@), owners),
{
    let ghost views = certificate_views(certificates@);
    let mut e: usize = 0;
    while e < entries.len()
        invariant
            e <= entries.len(),
            views == certificate_views(certificates@),
            unique_ids(views),
            forall|a: int|
                0 <= a < e ==> entry_sound(views, #[trigger] entry_views(entries@)[a], owners),
        decreases entries.len() - e,
    {
        if !entry_is_sound(certificates, &entries[e], owners) {
            assert(!entry_sound(views, entry_views(entries@)[e as int], owners));
            return false;
        }
        e += 1;
    }
    true
}

/// Whether every certificate is filed under its party.
fn all_filed(
    certificates: &Vec<Certificate>,
    index: &CertificateIndex,
    owners: bool,
    Ghost(entries): Ghost<Entries>,
) -> (filed: bool)
    requires
        index.wf(),
        index@ == index_of_entries(entries),
    ensures
        filed == entries_complete(certificate_views(certificates@), entries, owners),
{
    let ghost views = certificate_views(certificates@);
    let mut i: usize = 0;
    while i < certificates.len()
        invariant
            i <= certificates.len(),
            views == certificate_views(certificates@),
            index.wf(),
            index@ == index_of_entries(entries),
            forall|a: int|
                0 <= a < i ==> listed(entries, party_of(#[trigger] views[a], owners)).contains(
                    views[a].id,
                ),
        decreases certificates.len() - i,
    {
        let party = if owners {
            &certificates[i].owner
        } else {
            &certificates[i].issuer
        };
        if !index.lists(party, &certificates[i].id) {
            assert(!listed(entries, party_of(views[i as int], owners)).contains(
                views[i as int].id,
            ));
            return false;
        }
        i += 1;
    }
    true
}

/// The certificates of the registry, with the lists of what each party
/// owns and what each party issued.
#[derive(Debug)]
pub struct CertificateStore {
    certificates: Vec<Certificate>,
    owners: CertificateIndex,
    issuers: CertificateIndex,
}

impl View for CertificateStore {
    type V = StoreView;

    closed spec fn view(&self) -> StoreView {
        StoreView {
            certificates: certificate_views(self.certificates@),
            owner_index: self.owners@,
            issuer_index: self.issuers@,
        }
    }
}

impl Clone for CertificateStore {
    fn clone(&self) -> (copy: Self)
        ensures
            copy@ == self@,
            copy.wf() == self.wf(),
    {
        let mut certificates: Vec<Certificate> = Vec::new();
        let mut i: usize = 0;
        while i < self.certificates.len()
            invariant
                i <= self.certificates.len(),
                certificates@.len() == i,
                forall|j: int|
                    0 <= j < i ==> (#[trigger] certificates@[j])@ == self.certificates@[j]@,
            decreases self.certificates.len() - i,
        {
            certificates.push(self.certificates[i].clone());
            i += 1;
        }
        assert(certificate_views(certificates@) =~= certificate_views(self.certificates@));
        CertificateStore {
            certificates,
            owners: self.owners.clone(),
            issuers: self.issuers.clone(),
        }
    }
}

impl CertificateStore {
    /// What every store upholds.
    pub closed spec fn wf(&self) -> bool {
        &&& self.owners.wf()
        &&& self.issuers.wf()
        &&& self@.consistent()
        &&& self.certificates@.len() <= u32::MAX
    }

    /// A well-formed store is consistent and holds at most `u32::MAX`
    /// certificates.
    pub proof fn lemma_wf(&self)
        requires
            self.wf(),
        ensures
            self@.consistent(),
            self@.certificates.len() <= u32::MAX,
    {
    }

    /// The empty store: it holds no certificate, and every party's owner
    /// list and issuer list are empty.
    pub fn new() -> (store: CertificateStore)
        ensures
            store.wf(),
            store@ == StoreView::empty(),
    {
        let store = CertificateStore {
            certificates: Vec::new(),
            owners: CertificateIndex::new(),
            issuers: CertificateIndex::new(),
        };
        proof {
            assert(store@.certificates =~= Seq::empty());
            assert(store@.owner_index =~= StoreView::empty().owner_index);
            assert(store@.issuer_index =~= StoreView::empty().issuer_index);
            store.owners.lemma_total();
            store.issuers.lemma_total();
            assert forall|party: Seq<u8>, id: Seq<u8>| #[trigger]
                store@.owner_index[party].contains(id) <==> store@.holds(id) && store@.record(
                    id,
                ).owner == party by {
                assert(store@.owner_index[party].len() == 0);
            }
            assert forall|party: Seq<u8>, id: Seq<u8>| #[trigger]
                store@.issuer_index[party].contains(id) <==> store@.holds(id) && store@.record(
                    id,
                ).issuer == party by {
                assert(store@.issuer_index[party].len() == 0);
            }
        }
        store
    }

    /// The store that certificates and the entries of the two indices
    /// stand for; `InvalidInput` where they stand for none.
    pub fn restore(
        certificates: Vec<Certificate>,
        owner_entries: Vec<IndexEntry>,
        issuer_entries: Vec<IndexEntry>,
    ) -> (store: Result<CertificateStore, Error>)
        ensures
            match store {
                Ok(store) => restorable(
                    certificate_views(certificates@),
                    entry_views(owner_entries@),
                    entry_views(issuer_entries@),
                ) && store.wf() && store@ == rebuilt(
                    certificate_views(certificates@),
                    entry_views(owner_entries@),
                    entry_views(issuer_entries@),
                ),
                Err(e) => !restorable(
                    certificate_views(certificates@),
                    entry_views(owner_entries@),
                    entry_views(issuer_entries@),
                ) && e == Error::InvalidInput,
            },
    {
        let ghost views = certificate_views(certificates@);
        let ghost owned = entry_views(owner_entries@);
        let ghost issued = entry_views(issuer_entries@);
        proof {
            if distinct_keys(owned) && distinct_keys(issued) {
                lemma_restorable(views, owned, issued);
            }
        }
        if certificates.len() > u32::MAX as usize {
            return Err(Error::InvalidInput);
        }
        if !ids_unique(&certificates) || !all_named(&certificates) {
            return Err(Error::InvalidInput);
        }
        if !entries_are_sound(&certificates, &owner_entries, true) || !entries_are_sound(
            &certificates,
            &issuer_entries,
            false,
        ) {
            return Err(Error::InvalidInput);
        }
        let owners = match CertificateIndex::from_entries(owner_entries) {
            Some(index) => index,
            None => {
                return Err(Error::InvalidInput);
            },
        };
        let issuers = match CertificateIndex::from_entries(issuer_entries) {
            Some(index) => index,
            None => {
                return Err(Error::InvalidInput);
            },
        };
        if !all_filed(&certificates, &owners, true, Ghost(owned)) || !all_filed(
            &certificates,
            &issuers,
            false,
            Ghost(issued),
        ) {
            return Err(Error::InvalidInput);
        }
        Ok(CertificateStore { certificates, owners, issuers })
    }

    /// The certificates, in the order of their issuance.
    pub fn certificates(&self) -> (certificates: Vec<Certificate>)
        ensures
            certificate_views(certificates@) == self@.certificates,
    {
        let copy = self.clone();
        copy.certificates
    }

    /// The entries of the index of owners, one for each party that has
    /// any.
    pub fn owner_entries(&self) -> (entries: Vec<IndexEntry>)
        requires
            self.wf(),
        ensures
            distinct_keys(entry_views(entries@)),
            self@.owner_index == index_of_entries(entry_views(entries@)),
    {
        self.owners.entries()
    }

    /// The entries of the index of issuers, one for each party that has
    /// any.
    pub fn issuer_entries(&self) -> (entries: Vec<IndexEntry>)
        requires
            self.wf(),
        ensures
            distinct_keys(entry_views(entries@)),
            self@.issuer_index == index_of_entries(entry_views(entries@)),
    {
        self.issuers.entries()
    }

    /// How many certificates are stored.
    pub fn len(&self) -> (n: u32)
        requires
            self.wf(),
        ensures
            n == self@.certificates.len(),
    {
        self.certificates.len() as u32
    }

    fn find(&self, id: &CertificateId) -> (slot: Option<usize>)
        requires
            self.wf(),
        ensures
            match slot {
                Some(p) => self@.holds(id@) && p == position_of(self@.certificates, id@) && p
                    < self.certificates@.len() && self.certificates@[p as int]@ == self@.record(
                    id@,
                ),
                None => !self@.holds(id@),
            },
    {
        locate(&self.certificates, id)
    }

    /// Whether a certificate is stored under `id`.
    pub fn contains(&self, id: &CertificateId) -> (found: bool)
        requires
            self.wf(),
        ensures
            found == self@.holds(id@),
    {
        self.find(id).is_some()
    }

    /// The certificate stored under `id`; `NotFound` where there is none.
    pub fn get(&self, id: &CertificateId) -> (found: Result<Certificate, Error>)
        requires
            self.wf(),
        ensures
            match found {
                Ok(certificate) => self@.holds(id@) && certificate@ == self@.record(id@),
                Err(e) => !self@.holds(id@) && e == Error::NotFound,
            },
    {
        match self.find(id) {
            Some(p) => Ok(self.certificates[p].clone()),
            None => Err(Error::NotFound),
        }
    }

    /// Stores `certificate` under its identifier and files it under its
    /// owner and its issuer. Nothing is overwritten: an identifier already in
    /// use is refused with `AlreadyExists`, an empty owner or issuer with
    /// `InvalidInput`, a full store with `CapacityExceeded`.
    pub fn put(&mut self, certificate: Certificate) -> (done: Result<(), Error>)
        requires
            old(self).wf(),
        ensures
            final(self).wf(),
            match done {
                Ok(()) => put_refusal(old(self)@, certificate@).is_none()
                    && final(self)@ == old(self)@.with_issued(certificate@),
                Err(e) => put_refusal(old(self)@, certificate@) == Some(e)
                    && final(self)@ == old(self)@,
            },
    {
        if certificate.owner.is_empty() || certificate.issuer.is_empty() {
            return Err(Error::InvalidInput);
        }
        if self.contains(&certificate.id) {
            return Err(Error::AlreadyExists);
        }
        if self.certificates.len() >= u32::MAX as usize {
            return Err(Error::CapacityExceeded);
        }
        proof {
            lemma_issued_consistent(self@, certificate@);
        }
        self.owners.append(&certificate.owner, certificate.id);
        self.issuers.append(&certificate.issuer, certificate.id);
        let ghost added = certificate@;
        self.certificates.push(certificate);
        assert(self@.certificates =~= old(self)@.certificates.push(added));
        Ok(())
    }

    /// Hands the certificate under `id` to `new_owner`: the identifier
    /// leaves the old owner's list and is appended to the new owner's.
    /// `NotFound` where nothing is stored under `id`, `InvalidInput` where
    /// `new_owner` is empty.
    pub fn reassign(&mut self, id: &CertificateId, new_owner: &Identity) -> (done: Result<
        (),
        Error,
    >)
        requires
            old(self).wf(),
        ensures
            final(self).wf(),
            match done {
                Ok(()) => old(self)@.holds(id@) && new_owner@.len() > 0
                    && final(self)@ == old(self)@.with_owner(id@, new_owner@),
                Err(e) => final(self)@ == old(self)@ && e == (if old(self)@.holds(id@) {
                    Error::InvalidInput
                } else {
                    Error::NotFound
                }) && (!old(self)@.holds(id@) || new_owner@.len() == 0),
            },
    {
        match self.find(id) {
            None => Err(Error::NotFound),
            Some(p) => {
                if new_owner.is_empty() {
                    return Err(Error::InvalidInput);
                }
                proof {
                    lemma_owner_changed_consistent(self@, id@, new_owner@);
                }
                let mut changed = self.certificates[p].clone();
                let old_owner = changed.owner;
                changed.owner = new_owner.clone();
                self.owners.remove(&old_owner, id);
                self.owners.append(new_owner, *id);
                let ghost changed_view = changed@;
                self.certificates.set(p, changed);
                assert(self@.certificates =~= old(self)@.certificates.update(
                    p as int,
                    changed_view,
                ));
                Ok(())
            },
        }
    }

    /// Marks the certificate under `id` as revoked. `Ok(true)` where this
    /// call revoked it, `Ok(false)` where it was revoked already, `NotFound`
    /// where nothing is stored under `id`.
    pub fn revoke(&mut self, id: &CertificateId) -> (done: Result<bool, Error>)
        requires
            old(self).wf(),
        ensures
            final(self).wf(),
            match done {
                Ok(changed) => old(self)@.holds(id@) && changed == !old(self)@.record(id@).revoked
                    && final(self)@ == (if changed {
                    old(self)@.with_revoked(id@)
                } else {
                    old(self)@
                }),
                Err(e) => !old(self)@.holds(id@) && e == Error::NotFound
                    && final(self)@ == old(self)@,
            },
    {
        match self.find(id) {
            None => Err(Error::NotFound),
            Some(p) => {
                if self.certificates[p].revoked {
                    return Ok(false);
                }
                proof {
                    lemma_revoked_consistent(self@, id@);
                }
                let mut changed = self.certificates[p].clone();
                changed.revoked = true;
                let ghost changed_view = changed@;
                self.certificates.set(p, changed);
                assert(self@.certificates =~= old(self)@.certificates.update(
                    p as int,
                    changed_view,
                ));
                Ok(true)
            },
        }
    }

    /// The identifiers of the certificates that `owner` holds, in the order
    /// in which they came to it.
    pub fn owner_certificates(&self, owner: &Identity) -> (ids: Vec<CertificateId>)
        requires
            self.wf(),
        ensures
            id_views(ids@) == self@.owner_index[owner@],
    {
        self.owners.get(owner)
    }

    /// The identifiers of the certificates that `issuer` issued, oldest
    /// first.
    pub fn issuer_certificates(&self, issuer: &Identity) -> (ids: Vec<CertificateId>)
        requires
            self.wf(),
        ensures
            id_views(ids@) == self@.issuer_index[issuer@],
    {
        self.issuers.get(issuer)
    }

    /// How many certificates `owner` holds.
    pub fn count_by_owner(&self, owner: &Identity) -> (n: u32)
        requires
            self.wf(),
        ensures
            n == self@.owner_index[owner@].len(),
    {
        proof {
            lemma_list_bounded(self@, owner@);
        }
        self.owners.count(owner) as u32
    }

    /// How many certificates `issuer` issued.
    pub fn count_by_issuer(&self, issuer: &Identity) -> (n: u32)
        requires
            self.wf(),
        ensures
            n == self@.issuer_index[issuer@].len(),
    {
        proof {
            lemma_list_bounded(self@, issuer@);
        }
        self.issuers.count(issuer) as u32
    }

    fn resolve(&self, ids: &Vec<CertificateId>, start: u32, limit: u32) -> (found: Vec<
        Certificate,
    >)
        requires
            self.wf(),
            forall|i: int| 0 <= i < ids@.len() ==> self@.holds(#[trigger] ids@[i]@),
        ensures
            certificate_views(found@) == self@.listing(id_views(ids@), start, limit),
    {
        let mut found: Vec<Certificate> = Vec::new();
        let ghost shown = page(id_views(ids@), start, limit);
        if start as usize >= ids.len() {
            assert(certificate_views(found@) =~= self@.listing(id_views(ids@), start, limit));
            return found;
        }
        let first: usize = start as usize;
        let room: usize = ids.len() - first;
        let end: usize = if limit as usize >= room {
            ids.len()
        } else {
            first + limit as usize
        };
        assert(shown == id_views(ids@).subrange(first as int, end as int));
        let mut i: usize = first;
        while i < end
            invariant
                self.wf(),
                first <= i <= end <= ids@.len(),
                shown == id_views(ids@).subrange(first as int, end as int),
                forall|k: int| 0 <= k < ids@.len() ==> self@.holds(#[trigger] ids@[k]@),
                found@.len() == i - first,
                forall|k: int|
                    0 <= k < i - first ==> (#[trigger] found@[k])@ == self@.record(shown[k]),
            decreases end - i,
        {
            assert(self@.holds(ids@[i as int]@));
            match self.find(&ids[i]) {
                Some(p) => {
                    found.push(self.certificates[p].clone());
                },
                None => {},
            }
            i += 1;
        }
        assert(certificate_views(found@) =~= self@.listing(id_views(ids@), start, limit));
        found
    }

    /// The certificates that `owner` holds, from position `start` of its
    /// list, at most `limit` of them, in the order of the list. A `start`
    /// past the end gives the empty list.
    pub fn list_by_owner(&self, owner: &Identity, start: u32, limit: u32) -> (found: Vec<
        Certificate,
    >)
        requires
            self.wf(),
        ensures
            certificate_views(found@) == self@.listing(self@.owner_index[owner@], start, limit),
    {
        let ids = self.owners.get(owner);
        proof {
            assert forall|i: int| 0 <= i < ids@.len() implies self@.holds(#[trigger] ids@[i]@) by {
                assert(id_views(ids@)[i] == ids@[i]@);
                assert(self@.owner_index[owner@].contains(ids@[i]@));
            }
        }
        self.resolve(&ids, start, limit)
    }

    /// The certificates that `issuer` issued, from position `start` of its
    /// list, at most `limit` of them, in the order of the list. A `start`
    /// past the end gives the empty list.
    pub fn list_by_issuer(&self, issuer: &Identity, start: u32, limit: u32) -> (found: Vec<
        Certificate,
    >)
        requires
            self.wf(),
        ensures
            certificate_views(found@) == self@.listing(self@.issuer_index[issuer@], start, limit),
    {
        let ids = self.issuers.get(issuer);
        proof {
            assert forall|i: int| 0 <= i < ids@.len() implies self@.holds(#[trigger] ids@[i]@) by {
                assert(id_views(ids@)[i] == ids@[i]@);
                assert(self@.issuer_index[issuer@].contains(ids@[i]@));
            }
        }
        self.resolve(&ids, start, limit)
    }
}

} // verus!
