//! Handing a certificate to a new owner.

use vstd::prelude::*;
use crate::certificate::CertificateId;
use crate::contract::{CertificationContract, Event, EventView, RegistryView};
use crate::error::Error;
use crate::identity::{Identity, Invocation, InvocationView};

verus! {

/// What `transfer_certificate` answers and leaves behind. A revoked
/// certificate is not transferred, and that is no error: the answer is
/// `Ok(false)`.
pub open spec fn transfer_certificate_outcome(
    before: RegistryView,
    invocation: InvocationView,
    id: Seq<u8>,
    new_owner: Seq<u8>,
) -> (Result<bool, Error>, RegistryView) {
    if !before.store.holds(id) {
        (Err(Error::NotFound), before)
    } else if before.store.record(id).revoked {
        (Ok(false), before)
    } else if new_owner.len() == 0 {
        (Err(Error::InvalidInput), before)
    } else if !invocation.authorized_by(before.store.record(id).owner)
        || !invocation.authorized_by(new_owner) {
        (Err(Error::Unauthorized), before)
    } else {
        (
            Ok(true),
            RegistryView { store: before.store.with_owner(id, new_owner), ..before }.notify(
                EventView::CertificateTransferred {
                    id,
                    old_owner: before.store.record(id).owner,
                    new_owner,
                },
                invocation.timestamp,
            ),
        )
    }
}

/// Hands the certificate under `certificate_id` to `new_owner`. Both the
/// present owner and `new_owner` must have authorized the call. The
/// identifier leaves the old owner's list and is appended to the new
/// owner's.
pub fn transfer_certificate(
    registry: &mut CertificationContract,
    invocation: &Invocation,
    certificate_id: &CertificateId,
    new_owner: &Identity,
) -> (done: Result<bool, Error>)
    requires
        old(registry).wf(),
    ensures
        final(registry).wf(),
        (done, final(registry)@) == transfer_certificate_outcome(
            old(registry)@,
            invocation@,
            certificate_id@,
            new_owner@,
        ),
{
    let certificate = match registry.store.get(certificate_id) {
        Ok(certificate) => certificate,
        Err(e) => {
            return Err(e);
        },
    };
    if certificate.revoked {
        return Ok(false);
    }
    if new_owner.is_empty() {
        return Err(Error::InvalidInput);
    }
    if !invocation.authorized_by(&certificate.owner) || !invocation.authorized_by(new_owner) {
        return Err(Error::Unauthorized);
    }
    match registry.store.reassign(certificate_id, new_owner) {
        Ok(()) => {
            let event = Event::CertificateTransferred {
                id: *certificate_id,
                old_owner: certificate.owner,
                new_owner: new_owner.clone(),
            };
            registry.emit(event, invocation.timestamp);
            Ok(true)
        },
        Err(e) => Err(e),
    }
}

} // verus!
