//! The administrator and the issuers: who may change the registry.

use vstd::prelude::*;
use crate::certificate::CertificateId;
use crate::contract::{AccessView, CertificationContract, Event, EventView,
    RegistryView};
use crate::error::Error;
use crate::identity::{contains_identity, identity_views, Identity, Invocation, InvocationView};
use crate::index::{lemma_push_fresh, lemma_without_contains, lemma_without_no_duplicates, without};

verus! {

/// Whether the call carries the administrator's authorization. Without an
/// administrator nobody can give it.
pub open spec fn admin_authorized(access: AccessView, invocation: InvocationView) -> bool {
    access.admin matches Some(admin) && invocation.authorized_by(admin)
}

/// Whether the caller of `invocation` is authenticated and may issue.
pub open spec fn issuer_authorized(access: AccessView, invocation: InvocationView) -> bool {
    invocation.authorized_by(invocation.caller) && access.is_issuer(invocation.caller)
}

/// What `initialize` answers and leaves behind.
pub open spec fn initialize_outcome(before: RegistryView, admin: Seq<u8>) -> (
    Result<(), Error>,
    RegistryView,
) {
    if before.access.admin is Some {
        (Err(Error::AlreadyInitialized), before)
    } else if admin.len() == 0 {
        (Err(Error::InvalidInput), before)
    } else {
        (
            Ok(()),
            RegistryView {
                access: AccessView { admin: Some(admin), issuers: Seq::empty() },
                ..before
            },
        )
    }
}

/// What `transfer_admin` answers and leaves behind.
pub open spec fn transfer_admin_outcome(
    before: RegistryView,
    invocation: InvocationView,
    new_admin: Seq<u8>,
) -> (Result<bool, Error>, RegistryView) {
    if !admin_authorized(before.access, invocation) {
        (Err(Error::Unauthorized), before)
    } else if new_admin.len() == 0 {
        (Err(Error::InvalidInput), before)
    } else {
        (
            Ok(true),
            RegistryView {
                access: AccessView { admin: Some(new_admin), ..before.access },
                ..before
            }.notify(
                EventView::AdminTransferred {
                    old_admin: before.access.admin->Some_0,
                    new_admin,
                },
                invocation.timestamp,
            ),
        )
    }
}

/// What `add_issuer` answers and leaves behind.
pub open spec fn add_issuer_outcome(
    before: RegistryView,
    invocation: InvocationView,
    issuer: Seq<u8>,
) -> (Result<bool, Error>, RegistryView) {
    if !admin_authorized(before.access, invocation) {
        (Err(Error::Unauthorized), before)
    } else if issuer.len() == 0 {
        (Err(Error::InvalidInput), before)
    } else if before.access.issuers.contains(issuer) {
        (Ok(false), before)
    } else {
        (
            Ok(true),
            RegistryView {
                access: AccessView {
                    issuers: before.access.issuers.push(issuer),
                    ..before.access
                },
                ..before
            }.notify(
                EventView::IssuerAdded { admin: before.access.admin->Some_0, issuer },
                invocation.timestamp,
            ),
        )
    }
}

/// What `remove_issuer` answers and leaves behind.
pub open spec fn remove_issuer_outcome(
    before: RegistryView,
    invocation: InvocationView,
    issuer: Seq<u8>,
) -> (Result<bool, Error>, RegistryView) {
    if !admin_authorized(before.access, invocation) {
        (Err(Error::Unauthorized), before)
    } else if !before.access.issuers.contains(issuer) {
        (Ok(false), before)
    } else {
        (
            Ok(true),
            RegistryView {
                access: AccessView {
                    issuers: without(before.access.issuers, issuer),
                    ..before.access
                },
                ..before
            }.notify(
                EventView::IssuerRemoved { admin: before.access.admin->Some_0, issuer },
                invocation.timestamp,
            ),
        )
    }
}

/// What `revoke_certificate` answers and leaves behind.
pub open spec fn revoke_certificate_outcome(
    before: RegistryView,
    invocation: InvocationView,
    id: Seq<u8>,
) -> (Result<bool, Error>, RegistryView) {
    if !issuer_authorized(before.access, invocation) {
        (Err(Error::Unauthorized), before)
    } else if !before.store.holds(id) {
        (Err(Error::NotFound), before)
    } else if before.store.record(id).revoked {
        (Ok(false), before)
    } else {
        (
            Ok(true),
            RegistryView { store: before.store.with_revoked(id), ..before }.notify(
                EventView::CertificateRevoked {
                    id,
                    issuer: before.store.record(id).issuer,
                    caller: invocation.caller,
                },
                invocation.timestamp,
            ),
        )
    }
}

/// Makes `admin` the administrator of a registry that has none, with no
/// issuers. A second call fails with `AlreadyInitialized`, an empty `admin`
/// with `InvalidInput`.
pub fn initialize(registry: &mut CertificationContract, admin: &Identity) -> (done: Result<
    (),
    Error,
>)
    requires
        old(registry).wf(),
    ensures
        final(registry).wf(),
        (done, final(registry)@) == initialize_outcome(old(registry)@, admin@),
{
    if registry.access.admin.is_some() {
        return Err(Error::AlreadyInitialized);
    }
    if admin.is_empty() {
        return Err(Error::InvalidInput);
    }
    registry.access.admin = Some(admin.clone());
    registry.access.issuers = Vec::new();
    assert(registry@.access.issuers =~= Seq::empty());
    Ok(())
}

/// Whether the registry has an administrator.
pub fn is_initialized(registry: &CertificationContract) -> (yes: bool)
    ensures
        yes == registry@.access.admin is Some,
{
    registry.access.admin.is_some()
}

/// The administrator; `NotInitialized` where there is none yet.
pub fn get_admin(registry: &CertificationContract) -> (admin: Result<Identity, Error>)
    ensures
        match admin {
            Ok(identity) => registry@.access.admin == Some(identity@),
            Err(e) => registry@.access.admin is None && e == Error::NotInitialized,
        },
{
    match &registry.access.admin {
        Some(admin) => Ok(admin.clone()),
        None => Err(Error::NotInitialized),
    }
}

/// The administrator, where the call carries its authorization.
fn authorized_admin(registry: &CertificationContract, invocation: &Invocation) -> (admin: Option<
    Identity,
>)
    ensures
        admin is Some == admin_authorized(registry@.access, invocation@),
        admin matches Some(identity) ==> registry@.access.admin == Some(identity@),
{
    match &registry.access.admin {
        Some(admin) => {
            if invocation.authorized_by(admin) {
                Some(admin.clone())
            } else {
                None
            }
        },
        None => None,
    }
}

/// Hands the administrator's role to `new_admin`. The call must carry the
/// present administrator's authorization, else it fails with
/// `Unauthorized`; an empty `new_admin` fails with `InvalidInput`.
pub fn transfer_admin(
    registry: &mut CertificationContract,
    invocation: &Invocation,
    new_admin: &Identity,
) -> (done: Result<bool, Error>)
    requires
        old(registry).wf(),
    ensures
        final(registry).wf(),
        (done, final(registry)@) == transfer_admin_outcome(
            old(registry)@,
            invocation@,
            new_admin@,
        ),
{
    match authorized_admin(registry, invocation) {
        None => Err(Error::Unauthorized),
        Some(old_admin) => {
            if new_admin.is_empty() {
                return Err(Error::InvalidInput);
            }
            registry.access.admin = Some(new_admin.clone());
            let event = Event::AdminTransferred { old_admin, new_admin: new_admin.clone() };
            registry.emit(event, invocation.timestamp);
            Ok(true)
        },
    }
}

/// Adds `issuer` to the issuers, for the administrator. `Ok(false)` where
/// it is one already.
pub fn add_issuer(
    registry: &mut CertificationContract,
    invocation: &Invocation,
    issuer: &Identity,
) -> (done: Result<bool, Error>)
    requires
        old(registry).wf(),
    ensures
        final(registry).wf(),
        (done, final(registry)@) == add_issuer_outcome(old(registry)@, invocation@, issuer@),
{
    match authorized_admin(registry, invocation) {
        None => Err(Error::Unauthorized),
        Some(admin) => {
            if issuer.is_empty() {
                return Err(Error::InvalidInput);
            }
            if contains_identity(&registry.access.issuers, issuer) {
                return Ok(false);
            }
            proof {
                lemma_push_fresh(old(registry)@.access.issuers, issuer@);
            }
            registry.access.issuers.push(issuer.clone());
            assert(registry@.access.issuers =~= old(registry)@.access.issuers.push(issuer@));
            let event = Event::IssuerAdded { admin, issuer: issuer.clone() };
            registry.emit(event, invocation.timestamp);
            Ok(true)
        },
    }
}

/// Takes `issuer` from the issuers, for the administrator. `Ok(false)`
/// where it is none.
pub fn remove_issuer(
    registry: &mut CertificationContract,
    invocation: &Invocation,
    issuer: &Identity,
) -> (done: Result<bool, Error>)
    requires
        old(registry).wf(),
    ensures
        final(registry).wf(),
        (done, final(registry)@) == remove_issuer_outcome(old(registry)@, invocation@, issuer@),
{
    match authorized_admin(registry, invocation) {
        None => Err(Error::Unauthorized),
        Some(admin) => {
            let ghost listed = old(registry)@.access.issuers;
            let mut kept: Vec<Identity> = Vec::new();
            let mut found = false;
            let mut i: usize = 0;
            while i < registry.access.issuers.len()
                invariant
                    i <= registry.access.issuers.len(),
                    identity_views(registry.access.issuers@) == listed,
                    identity_views(kept@) == without(listed.subrange(0, i as int), issuer@),
                    found == listed.subrange(0, i as int).contains(issuer@),
                decreases registry.access.issuers.len() - i,
            {
                let ghost prefix = listed.subrange(0, i as int);
                let ghost longer = listed.subrange(0, i + 1);
                assert(longer.drop_last() =~= prefix);
                assert(longer.last() == registry.access.issuers@[i as int]@);
                assert(longer.contains(issuer@) <==> prefix.contains(issuer@) || longer.last()
                    == issuer@) by {
                    if prefix.contains(issuer@) {
                        let j = choose|j: int| 0 <= j < prefix.len() && prefix[j] == issuer@;
                        assert(longer[j] == issuer@);
                    }
                    if longer.contains(issuer@) {
                        let j = choose|j: int| 0 <= j < longer.len() && longer[j] == issuer@;
                        if j < prefix.len() {
                            assert(prefix[j] == issuer@);
                        }
                    }
                }
                if registry.access.issuers[i].same_as(issuer) {
                    found = true;
                } else {
                    kept.push(registry.access.issuers[i].clone());
                    assert(identity_views(kept@) =~= without(prefix, issuer@).push(
                        longer.last(),
                    ));
                }
                i += 1;
            }
            assert(listed.subrange(0, listed.len() as int) =~= listed);
            if !found {
                return Ok(false);
            }
            proof {
                lemma_without_no_duplicates(listed, issuer@);
                let rest = without(listed, issuer@);
                assert forall|j: int| 0 <= j < rest.len() implies (#[trigger] rest[j]).len()
                    > 0 by {
                    lemma_without_contains(listed, issuer@, rest[j]);
                    assert(rest.contains(rest[j]));
                    let k = choose|k: int| 0 <= k < listed.len() && listed[k] == rest[j];
                    assert(listed[k].len() > 0);
                }
            }
            registry.access.issuers = kept;
            let event = Event::IssuerRemoved { admin, issuer: issuer.clone() };
            registry.emit(event, invocation.timestamp);
            Ok(true)
        },
    }
}

/// Whether `address` may issue: the administrator and every added issuer.
pub fn is_issuer(registry: &CertificationContract, address: &Identity) -> (yes: bool)
    ensures
        yes == registry@.access.is_issuer(address@),
{
    match &registry.access.admin {
        Some(admin) => {
            if admin.same_as(address) {
                return true;
            }
        },
        None => {},
    }
    contains_identity(&registry.access.issuers, address)
}

/// The issuers that the administrator has added, oldest first.
pub fn get_issuers(registry: &CertificationContract) -> (issuers: Vec<Identity>)
    ensures
        identity_views(issuers@) == registry@.access.issuers,
{
    let mut issuers: Vec<Identity> = Vec::new();
    let mut i: usize = 0;
    while i < registry.access.issuers.len()
        invariant
            i <= registry.access.issuers.len(),
            issuers@.len() == i,
            forall|j: int| 0 <= j < i ==> (#[trigger] issuers@[j])@ == registry.access.issuers@[j]@,
        decreases registry.access.issuers.len() - i,
    {
        issuers.push(registry.access.issuers[i].clone());
        i += 1;
    }
    assert(identity_views(issuers@) =~= registry@.access.issuers);
    issuers
}

/// The caller, where it is authenticated and may issue; `Unauthorized`
/// otherwise.
pub fn require_issuer(registry: &CertificationContract, invocation: &Invocation) -> (issuer:
    Result<Identity, Error>)
    ensures
        match issuer {
            Ok(identity) => issuer_authorized(registry@.access, invocation@) && identity@
                == invocation@.caller,
            Err(e) => !issuer_authorized(registry@.access, invocation@) && e
                == Error::Unauthorized,
        },
{
    if invocation.authorized_by(&invocation.caller) && is_issuer(registry, &invocation.caller) {
        Ok(invocation.caller.clone())
    } else {
        Err(Error::Unauthorized)
    }
}

/// Revokes the certificate under `certificate_id`, for an issuer.
/// `Ok(false)` where it was revoked already; a revoked certificate stays
/// revoked.
pub fn revoke_certificate(
    registry: &mut CertificationContract,
    invocation: &Invocation,
    certificate_id: &CertificateId,
) -> (done: Result<bool, Error>)
    requires
        old(registry).wf(),
    ensures
        final(registry).wf(),
        (done, final(registry)@) == revoke_certificate_outcome(
            old(registry)@,
            invocation@,
            certificate_id@,
        ),
{
    let caller = match require_issuer(registry, invocation) {
        Ok(caller) => caller,
        Err(e) => {
            return Err(e);
        },
    };
    let certificate = match registry.store.get(certificate_id) {
        Ok(certificate) => certificate,
        Err(e) => {
            return Err(e);
        },
    };
    match registry.store.revoke(certificate_id) {
        Ok(true) => {
            let event = Event::CertificateRevoked {
                id: *certificate_id,
                issuer: certificate.issuer,
                caller,
            };
            registry.emit(event, invocation.timestamp);
            Ok(true)
        },
        Ok(false) => Ok(false),
        Err(e) => Err(e),
    }
}

} // verus!
