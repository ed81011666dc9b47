//! The references that the verification engine is set up with, and what it reads
//! through them.

use vstd::prelude::*;
use crate::authority::{contains_text, resolution, resolve_authority, AuthorityLookup, LookupView};
use crate::certificate::{Certificate, CertificateId};
use crate::contract::CertificationContract;
use crate::error::Error;
use crate::identity::Identity;

verus! {

/// What the verification engine keeps: its administrator and the
/// references to the two registries it reads.
#[derive(Debug)]
pub struct VerificationStorage {
    pub admin: Option<Identity>,
    pub certification_contract_id: Option<Identity>,
    pub authority_contract_id: Option<Identity>,
}

/// The engine's references as contracts see them.
pub struct VerificationSetup {
    pub admin: Option<Seq<u8>>,
    pub certification_contract_id: Option<Seq<u8>>,
    pub authority_contract_id: Option<Seq<u8>>,
}

/// The view of a reference that may be missing.
pub open spec fn reference_view(reference: Option<Identity>) -> Option<Seq<u8>> {
    match reference {
        Some(identity) => Some(identity@),
        None => None,
    }
}

impl View for VerificationStorage {
    type V = VerificationSetup;

    open spec fn view(&self) -> VerificationSetup {
        VerificationSetup {
            admin: reference_view(self.admin),
            certification_contract_id: reference_view(self.certification_contract_id),
            authority_contract_id: reference_view(self.authority_contract_id),
        }
    }
}

/// A copy of a reference, or the error given where it is missing.
fn reference(held: &Option<Identity>, missing: Error) -> (found: Result<Identity, Error>)
    ensures
        match found {
            Ok(identity) => reference_view(*held) == Some(identity@),
            Err(e) => *held is None && e == missing,
        },
{
    match held {
        Some(identity) => Ok(identity.clone()),
        None => Err(missing),
    }
}

impl VerificationStorage {
    /// Storage with nothing set.
    pub fn new() -> (storage: VerificationStorage)
        ensures
            storage@.admin is None,
            storage@.certification_contract_id is None,
            storage@.authority_contract_id is None,
    {
        VerificationStorage {
            admin: None,
            certification_contract_id: None,
            authority_contract_id: None,
        }
    }

    /// Whether the administrator is set.
    pub fn is_initialized(&self) -> (yes: bool)
        ensures
            yes == self@.admin is Some,
    {
        self.admin.is_some()
    }

    /// The administrator; `NotInitialized` where none is set.
    pub fn get_admin(&self) -> (admin: Result<Identity, Error>)
        ensures
            match admin {
                Ok(identity) => self@.admin == Some(identity@),
                Err(e) => self@.admin is None && e == Error::NotInitialized,
            },
    {
        reference(&self.admin, Error::NotInitialized)
    }

    /// Sets the administrator, once.
    pub fn set_admin(&mut self, admin: Identity) -> (done: Result<(), Error>)
        ensures
            match done {
                Ok(()) => old(self)@.admin is None && final(self)@ == (VerificationSetup {
                    admin: Some(admin@),
                    ..old(self)@
                }),
                Err(e) => old(self)@.admin is Some && e == Error::AlreadyInitialized
                    && final(self)@ == old(self)@,
            },
    {
        if self.admin.is_some() {
            return Err(Error::AlreadyInitialized);
        }
        self.admin = Some(admin);
        Ok(())
    }

    /// The reference to the authority registry; `NotFound` where none is
    /// set.
    pub fn get_authority_contract_id(&self) -> (id: Result<Identity, Error>)
        ensures
            match id {
                Ok(identity) => self@.authority_contract_id == Some(identity@),
                Err(e) => self@.authority_contract_id is None && e == Error::NotFound,
            },
    {
        reference(&self.authority_contract_id, Error::NotFound)
    }

    /// Sets the reference to the authority registry.
    pub fn set_authority_contract_id(&mut self, contract_id: Identity) -> (done: Result<(), Error>)
        ensures
            done is Ok,
            final(self)@ == (VerificationSetup {
                authority_contract_id: Some(contract_id@),
                ..old(self)@
            }),
    {
        self.authority_contract_id = Some(contract_id);
        Ok(())
    }

    /// The reference to the certificate registry; `NotFound` where none is
    /// set.
    pub fn get_certification_contract_id(&self) -> (id: Result<Identity, Error>)
        ensures
            match id {
                Ok(identity) => self@.certification_contract_id == Some(identity@),
                Err(e) => self@.certification_contract_id is None && e == Error::NotFound,
            },
    {
        reference(&self.certification_contract_id, Error::NotFound)
    }

    /// Sets the reference to the certificate registry.
    pub fn set_certification_contract_id(&mut self, contract_id: Identity) -> (done: Result<
        (),
        Error,
    >)
        ensures
            done is Ok,
            final(self)@ == (VerificationSetup {
                certification_contract_id: Some(contract_id@),
                ..old(self)@
            }),
    {
        self.certification_contract_id = Some(contract_id);
        Ok(())
    }

    /// The certificate under `cert_id` in `registry`; `NotFound` where
    /// there is none.
    pub fn get_certification(registry: &CertificationContract, cert_id: &CertificateId) -> (found:
        Result<Certificate, Error>)
        requires
            registry.wf(),
        ensures
            match found {
                Ok(certificate) => registry@.store.holds(cert_id@) && certificate@
                    == registry@.store.record(cert_id@),
                Err(e) => !registry@.store.holds(cert_id@) && e == Error::NotFound,
            },
    {
        registry.store.get(cert_id)
    }

    /// Whether `registry` holds a certificate under `cert_id`.
    pub fn certification_exists(registry: &CertificationContract, cert_id: &CertificateId) -> (
        exists: bool)
        requires
            registry.wf(),
        ensures
            exists == registry@.store.holds(cert_id@),
    {
        registry.store.contains(cert_id)
    }

    /// The issuer's public key, from the first strategy that succeeds;
    /// `ExternalServiceError` where none gave a key.
    pub fn get_authority_public_key(lookup: &AuthorityLookup) -> (key: Result<[u8; 32], Error>)
        ensures
            match key {
                Ok(key) => resolved_key(lookup@) == Some(key@),
                Err(e) => resolved_key(lookup@) is None && e == Error::ExternalServiceError,
            },
    {
        match resolve_authority(lookup) {
            Ok(authority) => match authority.public_key {
                Some(key) => Ok(key),
                None => Err(Error::ExternalServiceError),
            },
            Err(e) => Err(e),
        }
    }

    /// Whether the authority is active and may sign certificates of
    /// `cert_type`, from the first strategy that succeeds;
    /// `ExternalServiceError` where none did.
    pub fn validate_authority_for_cert_type(lookup: &AuthorityLookup, cert_type: &str) -> (valid:
        Result<bool, Error>)
        ensures
            match valid {
                Ok(valid) => resolution(lookup@) is Ok && valid == resolution(
                    lookup@,
                )->Ok_0.allows(cert_type@),
                Err(e) => resolution(lookup@) is Err && e == Error::ExternalServiceError,
            },
    {
        match resolve_authority(lookup) {
            Ok(authority) => Ok(
                authority.active && contains_text(&authority.allowed_cert_types, cert_type),
            ),
            Err(e) => Err(e),
        }
    }
}

/// The issuer's public key, where a strategy succeeded and gave one.
pub open spec fn resolved_key(lookup: LookupView) -> Option<Seq<u8>> {
    match resolution(lookup) {
        Ok(authority) => authority.public_key,
        Err(_) => None,
    }
}

} // verus!
