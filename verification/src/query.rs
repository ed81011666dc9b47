//! Reading certificates, by identifier, by owner and by issuer.

use vstd::prelude::*;
use crate::certificate::{Certificate, CertificateId};
use crate::contract::CertificationContract;
use crate::error::Error;
use crate::identity::Identity;
use crate::index::id_views;
use crate::store_view::certificate_views;

verus! {

/// The certificate under `certificate_id`; `NotFound` where there is none.
pub fn get_certificate(registry: &CertificationContract, certificate_id: &CertificateId) -> (found:
    Result<Certificate, Error>)
    requires
        registry.wf(),
    ensures
        match found {
            Ok(certificate) => registry@.store.holds(certificate_id@) && certificate@
                == registry@.store.record(certificate_id@),
            Err(e) => !registry@.store.holds(certificate_id@) && e == Error::NotFound,
        },
{
    registry.store.get(certificate_id)
}

/// The certificates that `owner` holds, from position `start_index` of its
/// list, at most `limit` of them, in the order in which they came to it. A
/// `start_index` past the end gives the empty list.
pub fn list_certificates_by_owner(
    registry: &CertificationContract,
    owner: &Identity,
    start_index: u32,
    limit: u32,
) -> (found: Vec<Certificate>)
    requires
        registry.wf(),
    ensures
        certificate_views(found@) == registry@.store.listing(
            registry@.store.owner_index[owner@],
            start_index,
            limit,
        ),
{
    registry.store.list_by_owner(owner, start_index, limit)
}

/// The certificates that `issuer` issued, from position `start_index` of
/// its list, at most `limit` of them, oldest first. A `start_index` past the
/// end gives the empty list.
pub fn list_certificates_by_issuer(
    registry: &CertificationContract,
    issuer: &Identity,
    start_index: u32,
    limit: u32,
) -> (found: Vec<Certificate>)
    requires
        registry.wf(),
    ensures
        certificate_views(found@) == registry@.store.listing(
            registry@.store.issuer_index[issuer@],
            start_index,
            limit,
        ),
{
    registry.store.list_by_issuer(issuer, start_index, limit)
}

/// The identifiers of the certificates that `issuer` issued, oldest first.
pub fn get_issuer_certificates(registry: &CertificationContract, issuer: &Identity) -> (ids: Vec<
    CertificateId,
>)
    requires
        registry.wf(),
    ensures
        id_views(ids@) == registry@.store.issuer_index[issuer@],
{
    registry.store.issuer_certificates(issuer)
}

/// How many certificates `owner` holds.
pub fn count_certificates_by_owner(registry: &CertificationContract, owner: &Identity) -> (count:
    u32)
    requires
        registry.wf(),
    ensures
        count == registry@.store.owner_index[owner@].len(),
{
    registry.store.count_by_owner(owner)
}

/// How many certificates `issuer` issued.
pub fn count_certificates_by_issuer(registry: &CertificationContract, issuer: &Identity) -> (count:
    u32)
    requires
        registry.wf(),
    ensures
        count == registry@.store.issuer_index[issuer@].len(),
{
    registry.store.count_by_issuer(issuer)
}

} // verus!
