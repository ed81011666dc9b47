//! Writing the registry down and reading it back.

use vstd::prelude::*;
use crate::access_control::get_issuers;
use crate::certificate::{Certificate, CertificateView};
use crate::contract::{AccessControl, AccessView, CertificationContract, RegistryView};
use crate::error::Error;
use crate::identity::{identity_views, Identity};
use crate::index::{entry_views, Entries, IndexEntry};
use crate::store::{CertificateStore};
use crate::store_view::{certificate_views, rebuilt, restorable};

verus! {

/// The registry as it is written down between calls: the administrator,
/// the issuers, the certificates in the order of their issuance, and the
/// entries of the two indices.
#[derive(Debug, PartialEq, Eq)]
pub struct RegistrySnapshot {
    pub admin: Option<Identity>,
    pub issuers: Vec<Identity>,
    pub certificates: Vec<Certificate>,
    pub owner_index: Vec<IndexEntry>,
    pub issuer_index: Vec<IndexEntry>,
}

/// A snapshot as contracts see it.
pub struct SnapshotView {
    pub access: AccessView,
    pub certificates: Seq<CertificateView>,
    pub owner_index: Entries,
    pub issuer_index: Entries,
}

impl SnapshotView {
    /// Whether the snapshot stands for a registry.
    pub open spec fn valid(self) -> bool {
        self.access.well_formed() && restorable(
            self.certificates,
            self.owner_index,
            self.issuer_index,
        )
    }

    /// The registry that the snapshot stands for, with no notification
    /// waiting.
    pub open spec fn registry(self) -> RegistryView {
        RegistryView {
            access: self.access,
            store: rebuilt(self.certificates, self.owner_index, self.issuer_index),
            events: Seq::empty(),
        }
    }
}

impl View for RegistrySnapshot {
    type V = SnapshotView;

    open spec fn view(&self) -> SnapshotView {
        SnapshotView {
            access: AccessView {
                admin: match self.admin {
                    Some(admin) => Some(admin@),
                    None => None,
                },
                issuers: identity_views(self.issuers@),
            },
            certificates: certificate_views(self.certificates@),
            owner_index: entry_views(self.owner_index@),
            issuer_index: entry_views(self.issuer_index@),
        }
    }
}

/// Whether access control as written down is well formed.
fn access_well_formed(admin: &Option<Identity>, issuers: &Vec<Identity>) -> (ok: bool)
    ensures
        ok == (AccessView {
            admin: match *admin {
                Some(admin) => Some(admin@),
                None => None,
            },
            issuers: identity_views(issuers@),
        }).well_formed(),
{
    let ghost views = identity_views(issuers@);
    match admin {
        Some(admin) => {
            if admin.is_empty() {
                return false;
            }
        },
        None => {
            if issuers.len() > 0 {
                return false;
            }
        },
    }
    let mut i: usize = 0;
    while i < issuers.len()
        invariant
            i <= issuers.len(),
            views == identity_views(issuers@),
            forall|a: int| 0 <= a < i ==> (#[trigger] views[a]).len() > 0,
            forall|a: int, b: int| 0 <= a < i && 0 <= b < i && a != b ==> views[a] != views[b],
        decreases issuers.len() - i,
    {
        if issuers[i].is_empty() {
            assert(views[i as int].len() == 0);
            return false;
        }
        let mut j: usize = 0;
        while j < i
            invariant
                j <= i < issuers.len(),
                views == identity_views(issuers@),
                forall|b: int| 0 <= b < j ==> views[b] != views[i as int],
            decreases i - j,
        {
            if issuers[j].same_as(&issuers[i]) {
                assert(views[j as int] == views[i as int]);
                return false;
            }
            j += 1;
        }
        i += 1;
    }
    true
}

impl CertificationContract {
    /// Writes the registry down. Notifications are not part of it: collect
    /// them first.
    pub fn snapshot(&self) -> (snapshot: RegistrySnapshot)
        requires
            self.wf(),
        ensures
            snapshot@.valid(),
            snapshot@.registry() == (RegistryView { events: Seq::empty(), ..self@ }),
    {
        let admin = match &self.access.admin {
            Some(admin) => Some(admin.clone()),
            None => None,
        };
        let snapshot = RegistrySnapshot {
            admin,
            issuers: get_issuers(self),
            certificates: self.store.certificates(),
            owner_index: self.store.owner_entries(),
            issuer_index: self.store.issuer_entries(),
        };
        proof {
            self.store.lemma_wf();
        }
        snapshot
    }

    /// The registry that `snapshot` stands for, with no notification
    /// waiting; `InvalidInput` where it stands for none.
    pub fn restore(snapshot: RegistrySnapshot) -> (registry: Result<CertificationContract, Error>)
        ensures
            match registry {
                Ok(registry) => snapshot@.valid() && registry.wf() && registry@
                    == snapshot@.registry(),
                Err(e) => !snapshot@.valid() && e == Error::InvalidInput,
            },
    {
        if !access_well_formed(&snapshot.admin, &snapshot.issuers) {
            return Err(Error::InvalidInput);
        }
        let store = match CertificateStore::restore(
            snapshot.certificates,
            snapshot.owner_index,
            snapshot.issuer_index,
        ) {
            Ok(store) => store,
            Err(e) => {
                return Err(e);
            },
        };
        let registry = CertificationContract {
            access: AccessControl { admin: snapshot.admin, issuers: snapshot.issuers },
            store,
            events: Vec::new(),
        };
        assert(registry@.events =~= Seq::empty());
        Ok(registry)
    }
}

} // verus!
