//! The registry's operations as methods.

use vstd::prelude::*;
use crate::access_control;
use crate::access_control::{add_issuer_outcome, initialize_outcome, remove_issuer_outcome,
    revoke_certificate_outcome, transfer_admin_outcome};
use crate::certificate::{Certificate, CertificateId, CertificateMetadata};
use crate::contract::CertificationContract;
use crate::error::Error;
use crate::identity::{identity_views, Identity, Invocation};
use crate::index::id_views;
use crate::issuance;
use crate::issuance::{batch_issue_certificates_outcome, batch_view, issue_certificate_outcome};
use crate::query;
use crate::store_view::certificate_views;
use crate::transfer;
use crate::transfer::transfer_certificate_outcome;
use crate::verification;
use crate::verification::verify_certificate_signature_outcome;

verus! {

impl CertificationContract {
    /// Makes `admin` the administrator of a registry that has none.
    pub fn initialize(&mut self, admin: Identity) -> (done: Result<bool, Error>)
        requires
            old(self).wf(),
        ensures
            final(self).wf(),
            match done {
                Ok(yes) => yes && (Ok::<(), Error>(()), final(self)@) == initialize_outcome(
                    old(self)@,
                    admin@,
                ),
                Err(e) => (Err::<(), Error>(e), final(self)@) == initialize_outcome(
                    old(self)@,
                    admin@,
                ),
            },
    {
        match access_control::initialize(self, &admin) {
            Ok(()) => Ok(true),
            Err(e) => Err(e),
        }
    }

    /// The administrator; `NotInitialized` where there is none yet.
    pub fn get_admin(&self) -> (admin: Result<Identity, Error>)
        ensures
            match admin {
                Ok(identity) => self@.access.admin == Some(identity@),
                Err(e) => self@.access.admin is None && e == Error::NotInitialized,
            },
    {
        access_control::get_admin(self)
    }

    /// Hands the administrator's role to `new_admin`, for the present
    /// administrator.
    pub fn transfer_admin(&mut self, invocation: &Invocation, new_admin: Identity) -> (done:
        Result<bool, Error>)
        requires
            old(self).wf(),
        ensures
            final(self).wf(),
            (done, final(self)@) == transfer_admin_outcome(old(self)@, invocation@, new_admin@),
    {
        access_control::transfer_admin(self, invocation, &new_admin)
    }

    /// Adds `issuer` to the issuers, for the administrator.
    pub fn add_issuer(&mut self, invocation: &Invocation, issuer: Identity) -> (done: Result<
        bool,
        Error,
    >)
        requires
            old(self).wf(),
        ensures
            final(self).wf(),
            (done, final(self)@) == add_issuer_outcome(old(self)@, invocation@, issuer@),
    {
        access_control::add_issuer(self, invocation, &issuer)
    }

    /// Takes `issuer` from the issuers, for the administrator.
    pub fn remove_issuer(&mut self, invocation: &Invocation, issuer: Identity) -> (done: Result<
        bool,
        Error,
    >)
        requires
            old(self).wf(),
        ensures
            final(self).wf(),
            (done, final(self)@) == remove_issuer_outcome(old(self)@, invocation@, issuer@),
    {
        access_control::remove_issuer(self, invocation, &issuer)
    }

    /// Whether `address` may issue.
    pub fn is_issuer(&self, address: Identity) -> (yes: bool)
        ensures
            yes == self@.access.is_issuer(address@),
    {
        access_control::is_issuer(self, &address)
    }

    /// The issuers that the administrator has added, oldest first.
    pub fn get_issuers(&self) -> (issuers: Vec<Identity>)
        ensures
            identity_views(issuers@) == self@.access.issuers,
    {
        access_control::get_issuers(self)
    }

    /// Issues a certificate to `owner`, for an issuer and with the owner's
    /// authorization.
    pub fn issue_certificate(
        &mut self,
        invocation: &Invocation,
        owner: Identity,
        metadata: CertificateMetadata,
        expiration_date: Option<u64>,
        signature: [u8; 64],
    ) -> (id: Result<CertificateId, Error>)
        requires
            old(self).wf(),
        ensures
            final(self).wf(),
            match id {
                Ok(id) => (Ok::<Seq<u8>, Error>(id@), final(self)@) == issue_certificate_outcome(
                    old(self)@,
                    invocation@,
                    owner@,
                    metadata@,
                    expiration_date,
                    signature@,
                ),
                Err(e) => (Err::<Seq<u8>, Error>(e), final(self)@) == issue_certificate_outcome(
                    old(self)@,
                    invocation@,
                    owner@,
                    metadata@,
                    expiration_date,
                    signature@,
                ),
            },
    {
        issuance::issue_certificate(self, invocation, owner, metadata, expiration_date, signature)
    }

    /// Issues one certificate per position of the four sequences, all or
    /// none.
    pub fn batch_issue_certificates(
        &mut self,
        invocation: &Invocation,
        owners: Vec<Identity>,
        metadatas: Vec<CertificateMetadata>,
        expiration_dates: Vec<Option<u64>>,
        signatures: Vec<[u8; 64]>,
    ) -> (ids: Result<Vec<CertificateId>, Error>)
        requires
            old(self).wf(),
        ensures
            final(self).wf(),
            match ids {
                Ok(ids) => (Ok::<Seq<Seq<u8>>, Error>(id_views(ids@)), final(self)@)
                    == batch_issue_certificates_outcome(
                    old(self)@,
                    invocation@,
                    batch_view(owners@, metadatas@, expiration_dates@, signatures@),
                ),
                Err(e) => (Err::<Seq<Seq<u8>>, Error>(e), final(self)@)
                    == batch_issue_certificates_outcome(
                    old(self)@,
                    invocation@,
                    batch_view(owners@, metadatas@, expiration_dates@, signatures@),
                ),
            },
    {
        issuance::batch_issue_certificates(
            self,
            invocation,
            owners,
            metadatas,
            expiration_dates,
            signatures,
        )
    }

    /// How many certificates have been issued.
    pub fn get_certificate_count(&self) -> (count: u32)
        requires
            self.wf(),
        ensures
            count == self@.certificate_count(),
    {
        issuance::get_certificate_count(self)
    }

    /// The certificate under `certificate_id`; `NotFound` where there is
    /// none.
    pub fn get_certificate(&self, certificate_id: CertificateId) -> (found: Result<
        Certificate,
        Error,
    >)
        requires
            self.wf(),
        ensures
            match found {
                Ok(certificate) => self@.store.holds(certificate_id@) && certificate@
                    == self@.store.record(certificate_id@),
                Err(e) => !self@.store.holds(certificate_id@) && e == Error::NotFound,
            },
    {
        query::get_certificate(self, &certificate_id)
    }

    /// One page of the certificates that `owner` holds.
    pub fn list_certificates_by_owner(&self, owner: Identity, start_index: u32, limit: u32) -> (
        found: Vec<Certificate>)
        requires
            self.wf(),
        ensures
            certificate_views(found@) == self@.store.listing(
                self@.store.owner_index[owner@],
                start_index,
                limit,
            ),
    {
        query::list_certificates_by_owner(self, &owner, start_index, limit)
    }

    /// One page of the certificates that `issuer` issued.
    pub fn list_certificates_by_issuer(&self, issuer: Identity, start_index: u32, limit: u32) -> (
        found: Vec<Certificate>)
        requires
            self.wf(),
        ensures
            certificate_views(found@) == self@.store.listing(
                self@.store.issuer_index[issuer@],
                start_index,
                limit,
            ),
    {
        query::list_certificates_by_issuer(self, &issuer, start_index, limit)
    }

    /// How many certificates `owner` holds.
    pub fn count_certificates_by_owner(&self, owner: Identity) -> (count: u32)
        requires
            self.wf(),
        ensures
            count == self@.store.owner_index[owner@].len(),
    {
        query::count_certificates_by_owner(self, &owner)
    }

    /// How many certificates `issuer` issued.
    pub fn count_certificates_by_issuer(&self, issuer: Identity) -> (count: u32)
        requires
            self.wf(),
        ensures
            count == self@.store.issuer_index[issuer@].len(),
    {
        query::count_certificates_by_issuer(self, &issuer)
    }

    /// Hands the certificate under `certificate_id` to `new_owner`, with
    /// the authorization of both the present and the new owner.
    pub fn transfer_certificate(
        &mut self,
        invocation: &Invocation,
        certificate_id: CertificateId,
        new_owner: Identity,
    ) -> (done: Result<bool, Error>)
        requires
            old(self).wf(),
        ensures
            final(self).wf(),
            (done, final(self)@) == transfer_certificate_outcome(
                old(self)@,
                invocation@,
                certificate_id@,
                new_owner@,
            ),
    {
        transfer::transfer_certificate(self, invocation, &certificate_id, &new_owner)
    }

    /// Whether the certificate under `certificate_id` is neither revoked
    /// nor expired at `now` and carries a valid signature under
    /// `public_key`.
    pub fn verify_certificate_signature(
        &self,
        certificate_id: CertificateId,
        scope: &str,
        public_key: &[u8; 32],
        now: u64,
    ) -> (valid: Result<bool, Error>)
        requires
            self.wf(),
        ensures
            match valid {
                Ok(valid) => self@.store.holds(certificate_id@) && valid
                    == verify_certificate_signature_outcome(
                    self@.store.record(certificate_id@),
                    scope@,
                    public_key@,
                    now,
                ),
                Err(e) => !self@.store.holds(certificate_id@) && e == Error::NotFound,
            },
    {
        verification::verify_certificate_signature(self, &certificate_id, scope, public_key, now)
    }

    /// Revokes the certificate under `certificate_id`, for an issuer.
    pub fn revoke_certificate(&mut self, invocation: &Invocation, certificate_id: CertificateId)
        -> (done: Result<bool, Error>)
        requires
            old(self).wf(),
        ensures
            final(self).wf(),
            (done, final(self)@) == revoke_certificate_outcome(
                old(self)@,
                invocation@,
                certificate_id@,
            ),
    {
        access_control::revoke_certificate(self, invocation, &certificate_id)
    }
}

} // verus!
