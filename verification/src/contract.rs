//! The registry's state, its notifications and the audit records they amount to.

use vstd::prelude::*;
use crate::bytes::{copy_bytes, push_digest};
use crate::certificate::CertificateId;
use crate::identity::{identity_views, Identity};
use crate::index::id_views;
use crate::store::{CertificateStore};
use crate::store_view::{StoreView};

verus! {

/// Who runs the registry: one administrator, once it is initialized, and
/// the issuers that the administrator has added.
#[derive(Debug)]
pub struct AccessControl {
    pub(crate) admin: Option<Identity>,
    pub(crate) issuers: Vec<Identity>,
}

/// Access control as contracts see it.
pub struct AccessView {
    pub admin: Option<Seq<u8>>,
    pub issuers: Seq<Seq<u8>>,
}

impl AccessView {
    /// Whether `who` may issue: the administrator and every added issuer.
    pub open spec fn is_issuer(self, who: Seq<u8>) -> bool {
        self.admin == Some(who) || self.issuers.contains(who)
    }

    /// What holds of access control at all times: nobody is an issuer
    /// before there is an administrator, no issuer is listed twice, and
    /// neither the administrator nor an issuer is the empty identity.
    pub open spec fn well_formed(self) -> bool {
        &&& self.admin is None ==> self.issuers.len() == 0
        &&& self.admin matches Some(admin) ==> admin.len() > 0
        &&& self.issuers.no_duplicates()
        &&& forall|i: int| 0 <= i < self.issuers.len() ==> (#[trigger] self.issuers[i]).len() > 0
    }
}

impl AccessControl {
    /// Access control as contracts see it.
    pub open(crate) spec fn view(&self) -> AccessView {
        AccessView {
            admin: match self.admin {
                Some(admin) => Some(admin@),
                None => None,
            },
            issuers: identity_views(self.issuers@),
        }
    }
}

/// What the registry tells the outside world of a change.
#[derive(Debug, PartialEq, Eq)]
pub enum Event {
    AdminTransferred { old_admin: Identity, new_admin: Identity },
    IssuerAdded { admin: Identity, issuer: Identity },
    IssuerRemoved { admin: Identity, issuer: Identity },
    CertificateIssued { id: CertificateId, owner: Identity, issuer: Identity },
    CertificatesBatchIssued { ids: Vec<CertificateId>, issuer: Identity },
    CertificateTransferred { id: CertificateId, old_owner: Identity, new_owner: Identity },
    CertificateRevoked { id: CertificateId, issuer: Identity, caller: Identity },
}

/// A notification as contracts see it.
pub enum EventView {
    AdminTransferred { old_admin: Seq<u8>, new_admin: Seq<u8> },
    IssuerAdded { admin: Seq<u8>, issuer: Seq<u8> },
    IssuerRemoved { admin: Seq<u8>, issuer: Seq<u8> },
    CertificateIssued { id: Seq<u8>, owner: Seq<u8>, issuer: Seq<u8> },
    CertificatesBatchIssued { ids: Seq<Seq<u8>>, issuer: Seq<u8> },
    CertificateTransferred { id: Seq<u8>, old_owner: Seq<u8>, new_owner: Seq<u8> },
    CertificateRevoked { id: Seq<u8>, issuer: Seq<u8>, caller: Seq<u8> },
}

impl View for Event {
    type V = EventView;

    open spec fn view(&self) -> EventView {
        match *self {
            Event::AdminTransferred { old_admin, new_admin } => EventView::AdminTransferred {
                old_admin: old_admin@,
                new_admin: new_admin@,
            },
            Event::IssuerAdded { admin, issuer } => EventView::IssuerAdded {
                admin: admin@,
                issuer: issuer@,
            },
            Event::IssuerRemoved { admin, issuer } => EventView::IssuerRemoved {
                admin: admin@,
                issuer: issuer@,
            },
            Event::CertificateIssued { id, owner, issuer } => EventView::CertificateIssued {
                id: id@,
                owner: owner@,
                issuer: issuer@,
            },
            Event::CertificatesBatchIssued { ids, issuer } => EventView::CertificatesBatchIssued {
                ids: id_views(ids@),
                issuer: issuer@,
            },
            Event::CertificateTransferred {
                id,
                old_owner,
                new_owner,
            } => EventView::CertificateTransferred {
                id: id@,
                old_owner: old_owner@,
                new_owner: new_owner@,
            },
            Event::CertificateRevoked { id, issuer, caller } => EventView::CertificateRevoked {
                id: id@,
                issuer: issuer@,
                caller: caller@,
            },
        }
    }
}

/// What an audit record is about.
#[derive(Clone, Copy, Debug, PartialEq, Eq, Structural)]
pub enum Operation {
    AdminTransfer,
    IssuerAddition,
    IssuerRemoval,
    Issuance,
    Transfer,
    Revocation,
}

/// One record for the audit log: what was done, to whom or to which
/// certificate, by whom, and when.
#[derive(Debug, PartialEq, Eq)]
pub struct AuditRecord {
    pub operation: Operation,
    /// The identifier of the certificate, or the serialization of the
    /// party, that the operation was about.
    pub subject_id: Vec<u8>,
    pub actor_id: Identity,
    pub timestamp: u64,
}

/// An audit record as contracts see it.
pub struct AuditRecordView {
    pub operation: Operation,
    pub subject_id: Seq<u8>,
    pub actor_id: Seq<u8>,
    pub timestamp: u64,
}

impl View for AuditRecord {
    type V = AuditRecordView;

    open spec fn view(&self) -> AuditRecordView {
        AuditRecordView {
            operation: self.operation,
            subject_id: self.subject_id@,
            actor_id: self.actor_id@,
            timestamp: self.timestamp,
        }
    }
}

/// The views of a sequence of audit records, in order.
pub open spec fn audit_views(records: Seq<AuditRecord>) -> Seq<AuditRecordView> {
    records.map_values(|record: AuditRecord| record@)
}

/// A notification with the ledger's time at which it was made.
#[derive(Debug, PartialEq, Eq)]
pub struct Notification {
    pub event: Event,
    pub timestamp: u64,
}

/// A timed notification as contracts see it.
pub struct NotificationView {
    pub event: EventView,
    pub timestamp: u64,
}

impl View for Notification {
    type V = NotificationView;

    open spec fn view(&self) -> NotificationView {
        NotificationView { event: self.event@, timestamp: self.timestamp }
    }
}

impl NotificationView {
    /// The audit records that the notification amounts to: one, or one for
    /// each certificate of a batch.
    pub open spec fn audit_records(self) -> Seq<AuditRecordView> {
        let timestamp = self.timestamp;
        match self.event {
            EventView::AdminTransferred { old_admin, new_admin } => seq![
                AuditRecordView {
                    operation: Operation::AdminTransfer,
                    subject_id: new_admin,
                    actor_id: old_admin,
                    timestamp,
                },
            ],
            EventView::IssuerAdded { admin, issuer } => seq![
                AuditRecordView {
                    operation: Operation::IssuerAddition,
                    subject_id: issuer,
                    actor_id: admin,
                    timestamp,
                },
            ],
            EventView::IssuerRemoved { admin, issuer } => seq![
                AuditRecordView {
                    operation: Operation::IssuerRemoval,
                    subject_id: issuer,
                    actor_id: admin,
                    timestamp,
                },
            ],
            EventView::CertificateIssued { id, owner, issuer } => seq![
                AuditRecordView {
                    operation: Operation::Issuance,
                    subject_id: id,
                    actor_id: issuer,
                    timestamp,
                },
            ],
            EventView::CertificatesBatchIssued { ids, issuer } => ids.map_values(
                |id: Seq<u8>|
                    AuditRecordView {
                        operation: Operation::Issuance,
                        subject_id: id,
                        actor_id: issuer,
                        timestamp,
                    },
            ),
            EventView::CertificateTransferred { id, old_owner, new_owner } => seq![
                AuditRecordView {
                    operation: Operation::Transfer,
                    subject_id: id,
                    actor_id: old_owner,
                    timestamp,
                },
            ],
            EventView::CertificateRevoked { id, issuer, caller } => seq![
                AuditRecordView {
                    operation: Operation::Revocation,
                    subject_id: id,
                    actor_id: caller,
                    timestamp,
                },
            ],
        }
    }
}

/// One audit record in a list.
fn one_record(operation: Operation, subject_id: Vec<u8>, actor_id: &Identity, timestamp: u64) -> (
    records: Vec<AuditRecord>)
    ensures
        audit_views(records@) == seq![
            AuditRecordView {
                operation,
                subject_id: subject_id@,
                actor_id: actor_id@,
                timestamp,
            },
        ],
{
    let mut records: Vec<AuditRecord> = Vec::new();
    let ghost subject = subject_id@;
    records.push(AuditRecord { operation, subject_id, actor_id: actor_id.clone(), timestamp });
    assert(audit_views(records@) =~= seq![
        AuditRecordView { operation, subject_id: subject, actor_id: actor_id@, timestamp },
    ]);
    records
}

/// The bytes of a certificate's identifier.
fn id_bytes(id: &CertificateId) -> (bytes: Vec<u8>)
    ensures
        bytes@ == id@,
{
    let mut bytes: Vec<u8> = Vec::new();
    push_digest(&mut bytes, &id.0);
    assert(bytes@ =~= id@);
    bytes
}

impl Notification {
    /// The audit records that the notification amounts to.
    pub fn audit_records(&self) -> (records: Vec<AuditRecord>)
        ensures
            audit_views(records@) == self@.audit_records(),
    {
        let timestamp = self.timestamp;
        match &self.event {
            Event::AdminTransferred { old_admin, new_admin } => one_record(
                Operation::AdminTransfer,
                copy_bytes(&new_admin.0),
                old_admin,
                timestamp,
            ),
            Event::IssuerAdded { admin, issuer } => one_record(
                Operation::IssuerAddition,
                copy_bytes(&issuer.0),
                admin,
                timestamp,
            ),
            Event::IssuerRemoved { admin, issuer } => one_record(
                Operation::IssuerRemoval,
                copy_bytes(&issuer.0),
                admin,
                timestamp,
            ),
            Event::CertificateIssued { id, owner, issuer } => one_record(
                Operation::Issuance,
                id_bytes(id),
                issuer,
                timestamp,
            ),
            Event::CertificatesBatchIssued { ids, issuer } => {
                let mut records: Vec<AuditRecord> = Vec::new();
                let mut i: usize = 0;
                while i < ids.len()
                    invariant
                        i <= ids.len(),
                        records@.len() == i,
                        forall|k: int|
                            0 <= k < i ==> (#[trigger] records@[k])@ == (AuditRecordView {
                                operation: Operation::Issuance,
                                subject_id: ids@[k]@,
                                actor_id: issuer@,
                                timestamp,
                            }),
                    decreases ids.len() - i,
                {
                    records.push(
                        AuditRecord {
                            operation: Operation::Issuance,
                            subject_id: id_bytes(&ids[i]),
                            actor_id: issuer.clone(),
                            timestamp,
                        },
                    );
                    i += 1;
                }
                assert(audit_views(records@) =~= self@.audit_records());
                records
            },
            Event::CertificateTransferred { id, old_owner, new_owner } => one_record(
                Operation::Transfer,
                id_bytes(id),
                old_owner,
                timestamp,
            ),
            Event::CertificateRevoked { id, issuer, caller } => one_record(
                Operation::Revocation,
                id_bytes(id),
                caller,
                timestamp,
            ),
        }
    }
}

/// The views of a sequence of notifications, in order.
pub open spec fn event_views(events: Seq<Notification>) -> Seq<NotificationView> {
    events.map_values(|notification: Notification| notification@)
}

/// The registry: access control, the certificates with their indices, and
/// the notifications that have not been collected yet.
#[derive(Debug)]
pub struct CertificationContract {
    pub(crate) access: AccessControl,
    pub(crate) store: CertificateStore,
    pub(crate) events: Vec<Notification>,
}

/// The registry as contracts see it.
pub struct RegistryView {
    pub access: AccessView,
    pub store: StoreView,
    pub events: Seq<NotificationView>,
}

impl RegistryView {
    /// The registry before anything was done to it: no administrator, no
    /// issuers, no certificates, no notifications.
    pub open spec fn empty() -> RegistryView {
        RegistryView {
            access: AccessView { admin: None, issuers: Seq::empty() },
            store: StoreView::empty(),
            events: Seq::empty(),
        }
    }

    /// How many certificates have been issued.
    pub open spec fn certificate_count(self) -> nat {
        self.store.certificates.len()
    }

    /// The registry with one more notification, made at `timestamp`.
    pub open spec fn notify(self, event: EventView, timestamp: u64) -> RegistryView {
        RegistryView { events: self.events.push(NotificationView { event, timestamp }), ..self }
    }

    /// What holds of the registry at all times.
    pub open spec fn well_formed(self) -> bool {
        &&& self.access.well_formed()
        &&& self.store.consistent()
        &&& self.store.certificates.len() <= u32::MAX
    }
}

impl CertificationContract {
    /// The registry as contracts see it.
    pub open(crate) spec fn view(&self) -> RegistryView {
        RegistryView {
            access: self.access@,
            store: self.store@,
            events: event_views(self.events@),
        }
    }

    /// What every registry upholds.
    pub open(crate) spec fn wf(&self) -> bool {
        &&& self.store.wf()
        &&& self@.access.well_formed()
    }

    /// A well-formed registry has a well-formed view.
    pub proof fn lemma_wf(&self)
        requires
            self.wf(),
        ensures
            self@.well_formed(),
    {
        self.store.lemma_wf();
    }

    /// A registry without administrator, issuers, certificates or
    /// notifications; every party's owner list and issuer list are empty.
    pub fn new() -> (registry: CertificationContract)
        ensures
            registry.wf(),
            registry@ == RegistryView::empty(),
    {
        let registry = CertificationContract {
            access: AccessControl { admin: None, issuers: Vec::new() },
            store: CertificateStore::new(),
            events: Vec::new(),
        };
        assert(registry@.access.issuers =~= Seq::empty());
        assert(registry@.events =~= Seq::empty());
        registry
    }

    /// Records `event` as made at `timestamp`.
    pub(crate) fn emit(&mut self, event: Event, timestamp: u64)
        ensures
            final(self)@ == old(self)@.notify(event@, timestamp),
            final(self).wf() == old(self).wf(),
    {
        let ghost told = event@;
        self.events.push(Notification { event, timestamp });
        assert(event_views(self.events@) =~= old(self)@.events.push(
            NotificationView { event: told, timestamp },
        ));
    }

    /// Hands out the notifications gathered since the last call, oldest
    /// first, and leaves none behind.
    pub fn take_events(&mut self) -> (events: Vec<Notification>)
        requires
            old(self).wf(),
        ensures
            final(self).wf(),
            event_views(events@) == old(self)@.events,
            final(self)@ == (RegistryView { events: Seq::empty(), ..old(self)@ }),
    {
        let mut events: Vec<Notification> = Vec::new();
        std::mem::swap(&mut events, &mut self.events);
        assert(event_views(self.events@) =~= Seq::empty());
        events
    }
}

} // verus!
