//! Verifying a certificate: the signed message, the three checks, and the report.

use vstd::prelude::*;
use crate::authority::{contains_text, resolution, resolve_authority, AuthorityLookup, LookupView};
use crate::bytes::{be64, push_all, push_be64, push_digest};
use crate::certificate::{Certificate, CertificateId, CertificateView};
use crate::contract::CertificationContract;
use crate::crypto::{hash_evidence, verify_signature};
use crate::error::Error;
use crate::host::{ed25519_accepts, host_text_xdr, sha256, text_xdr, MAX_HASH_INPUT,
    MAX_TEXT_BYTES};
use crate::identity::Identity;
use crate::verification_storage::{resolved_key, VerificationSetup, VerificationStorage};
use crate::issuance::text_fits;
use crate::status::{certification_status, classify, derive_status, verification_status,
    CertificationStatus, VerificationStatus};

verus! {

/// The eight-byte encoding of the expiration date, where there is one.
pub open spec fn expiration_bytes(expiration_date: Option<u64>) -> Seq<u8> {
    match expiration_date {
        Some(expiration) => be64(expiration),
        None => Seq::empty(),
    }
}

/// The message that a certificate's signature covers: identifier, owner,
/// issuer, the serialized title, description and achievement type, the
/// issuance date in eight bytes, the expiration date in eight bytes where
/// there is one, and the serialized scope, in this order.
pub open spec fn certification_message(certificate: CertificateView, scope: Seq<char>) -> Seq<u8> {
    certificate.id + certificate.owner + certificate.issuer + text_xdr(certificate.metadata.title)
        + text_xdr(certificate.metadata.description) + text_xdr(
        certificate.metadata.achievement_type,
    ) + be64(certificate.issuance_date) + expiration_bytes(certificate.expiration_date) + text_xdr(
        scope,
    )
}

/// Whether the message of `certificate` can be built: its three texts and
/// the scope are short enough to be serialized.
pub open spec fn serializable(certificate: CertificateView, scope: Seq<char>) -> bool {
    &&& text_fits(certificate.metadata.title)
    &&& text_fits(certificate.metadata.description)
    &&& text_fits(certificate.metadata.achievement_type)
    &&& text_fits(scope)
}

/// Whether the message of `certificate` can be built and hashed.
pub open spec fn signable(certificate: CertificateView, scope: Seq<char>) -> bool {
    serializable(certificate, scope) && certification_message(certificate, scope).len()
        <= MAX_HASH_INPUT
}

/// The digest that is signed: the SHA-256 digest of the message.
pub open spec fn message_digest(certificate: CertificateView, scope: Seq<char>) -> Seq<u8> {
    sha256(certification_message(certificate, scope))
}

/// The signature check: the message can be built and hashed, and the
/// certificate's signature is one of its digest under `public_key`.
pub open spec fn signature_valid(
    certificate: CertificateView,
    scope: Seq<char>,
    public_key: Seq<u8>,
) -> bool {
    signable(certificate, scope) && ed25519_accepts(
        public_key,
        message_digest(certificate, scope),
        certificate.signature,
    )
}

/// The expiry check: no expiration is set, or `now` is not past it.
pub open spec fn expiry_valid(certificate: CertificateView, now: u64) -> bool {
    match certificate.expiration_date {
        Some(expiration) => now <= expiration,
        None => true,
    }
}

/// Builds the message that the signature of `certificate` covers;
/// `InvalidInput` where a text is too long to be serialized.
pub fn create_certification_message(certificate: &Certificate, scope: &str) -> (message: Result<
    Vec<u8>,
    Error,
>)
    ensures
        match message {
            Ok(bytes) => serializable(certificate@, scope@) && bytes@ == certification_message(
                certificate@,
                scope@,
            ),
            Err(e) => !serializable(certificate@, scope@) && e == Error::InvalidInput,
        },
{
    let title = certificate.metadata.title.as_str();
    let description = certificate.metadata.description.as_str();
    let achievement_type = certificate.metadata.achievement_type.as_str();
    if title.as_bytes().len() > MAX_TEXT_BYTES || description.as_bytes().len() > MAX_TEXT_BYTES
        || achievement_type.as_bytes().len() > MAX_TEXT_BYTES || scope.as_bytes().len()
        > MAX_TEXT_BYTES {
        return Err(Error::InvalidInput);
    }
    let mut message: Vec<u8> = Vec::new();
    push_digest(&mut message, &certificate.id.0);
    push_all(&mut message, &certificate.owner.0);
    push_all(&mut message, &certificate.issuer.0);
    push_all(&mut message, &host_text_xdr(title));
    push_all(&mut message, &host_text_xdr(description));
    push_all(&mut message, &host_text_xdr(achievement_type));
    push_be64(&mut message, certificate.issuance_date);
    match certificate.expiration_date {
        Some(expiration) => {
            push_be64(&mut message, expiration);
        },
        None => {},
    }
    push_all(&mut message, &host_text_xdr(scope));
    assert(message@ =~= certification_message(certificate@, scope@));
    Ok(message)
}

/// The digest that the signature of `certificate` covers; `InvalidInput`
/// where the message cannot be built or is too long to be hashed.
pub fn digest_certification_message(certificate: &Certificate, scope: &str) -> (digest: Result<
    [u8; 32],
    Error,
>)
    ensures
        match digest {
            Ok(d) => signable(certificate@, scope@) && d@ == message_digest(certificate@, scope@),
            Err(e) => !signable(certificate@, scope@) && e == Error::InvalidInput,
        },
{
    let message = match create_certification_message(certificate, scope) {
        Ok(message) => message,
        Err(e) => {
            return Err(e);
        },
    };
    match hash_evidence(&message) {
        Some(digest) => Ok(digest),
        None => Err(Error::InvalidInput),
    }
}

/// Whether the signature of `certificate` is one of its message's digest
/// under `public_key`. A message that cannot be built or hashed has no
/// valid signature.
pub fn check_signature(certificate: &Certificate, scope: &str, public_key: &[u8; 32]) -> (valid:
    bool)
    ensures
        valid == signature_valid(certificate@, scope@, public_key@),
{
    match digest_certification_message(certificate, scope) {
        Ok(digest) => verify_signature(public_key, &digest, &certificate.signature),
        Err(_) => false,
    }
}

/// Whether `certificate` has not expired at `now`.
pub fn check_expiry(certificate: &Certificate, now: u64) -> (valid: bool)
    ensures
        valid == expiry_valid(certificate@, now),
{
    match certificate.expiration_date {
        Some(expiration) => now <= expiration,
        None => true,
    }
}

/// What `verify_certificate_signature` answers.
pub open spec fn verify_certificate_signature_outcome(
    certificate: CertificateView,
    scope: Seq<char>,
    public_key: Seq<u8>,
    now: u64,
) -> bool {
    !certificate.revoked && expiry_valid(certificate, now) && signature_valid(
        certificate,
        scope,
        public_key,
    )
}

/// Whether the certificate under `certificate_id` is neither revoked nor
/// expired at `now` and carries a valid signature under `public_key`.
/// `NotFound` where there is no such certificate.
pub fn verify_certificate_signature(
    registry: &CertificationContract,
    certificate_id: &CertificateId,
    scope: &str,
    public_key: &[u8; 32],
    now: u64,
) -> (valid: Result<bool, Error>)
    requires
        registry.wf(),
    ensures
        match valid {
            Ok(valid) => registry@.store.holds(certificate_id@) && valid
                == verify_certificate_signature_outcome(
                registry@.store.record(certificate_id@),
                scope@,
                public_key@,
                now,
            ),
            Err(e) => !registry@.store.holds(certificate_id@) && e == Error::NotFound,
        },
{
    let certificate = match registry.store.get(certificate_id) {
        Ok(certificate) => certificate,
        Err(e) => {
            return Err(e);
        },
    };
    if certificate.revoked {
        return Ok(false);
    }
    if !check_expiry(&certificate, now) {
        return Ok(false);
    }
    Ok(check_signature(&certificate, scope, public_key))
}

/// The outcome of verifying one certificate: the three checks, the verdict
/// derived from them, and when the verification was made.
#[derive(Debug, PartialEq, Eq)]
pub struct VerificationReport {
    pub cert_id: CertificateId,
    pub cert_type: String,
    pub authority_id: Identity,
    pub entity_id: Identity,
    pub issue_date: u64,
    pub expiry_date: Option<u64>,
    pub signature_valid: bool,
    pub expiry_valid: bool,
    pub authority_valid: bool,
    pub status: VerificationStatus,
    pub verification_timestamp: u64,
}

/// A report as contracts see it.
pub struct ReportView {
    pub cert_id: Seq<u8>,
    pub cert_type: Seq<char>,
    pub authority_id: Seq<u8>,
    pub entity_id: Seq<u8>,
    pub issue_date: u64,
    pub expiry_date: Option<u64>,
    pub signature_valid: bool,
    pub expiry_valid: bool,
    pub authority_valid: bool,
    pub status: VerificationStatus,
    pub verification_timestamp: u64,
}

impl View for VerificationReport {
    type V = ReportView;

    open spec fn view(&self) -> ReportView {
        ReportView {
            cert_id: self.cert_id@,
            cert_type: self.cert_type@,
            authority_id: self.authority_id@,
            entity_id: self.entity_id@,
            issue_date: self.issue_date,
            expiry_date: self.expiry_date,
            signature_valid: self.signature_valid,
            expiry_valid: self.expiry_valid,
            authority_valid: self.authority_valid,
            status: self.status,
            verification_timestamp: self.verification_timestamp,
        }
    }
}

/// The signature check of a report: a strategy succeeded and gave a public
/// key under which the signature is valid. Without a key the check fails.
pub open spec fn reported_signature(
    certificate: CertificateView,
    scope: Seq<char>,
    lookup: LookupView,
) -> bool {
    resolved_key(lookup) matches Some(key) && signature_valid(certificate, scope, key)
}

/// The authority check of a report: a strategy succeeded, and the authority
/// is active and may sign certificates of this type. Without an answer the
/// check fails.
pub open spec fn reported_authority(certificate: CertificateView, lookup: LookupView) -> bool {
    resolution(lookup) matches Ok(authority) && authority.allows(
        certificate.metadata.achievement_type,
    )
}

/// Whether the authority reports a suspension.
pub open spec fn reported_suspension(lookup: LookupView) -> bool {
    resolution(lookup) matches Ok(authority) && authority.suspended
}

/// The report on `certificate` at `now`, given what the lookups returned.
pub open spec fn verification_report(
    certificate: CertificateView,
    scope: Seq<char>,
    lookup: LookupView,
    now: u64,
) -> ReportView {
    ReportView {
        cert_id: certificate.id,
        cert_type: certificate.metadata.achievement_type,
        authority_id: certificate.issuer,
        entity_id: certificate.owner,
        issue_date: certificate.issuance_date,
        expiry_date: certificate.expiration_date,
        signature_valid: reported_signature(certificate, scope, lookup),
        expiry_valid: expiry_valid(certificate, now),
        authority_valid: reported_authority(certificate, lookup),
        status: verification_status(
            certificate.revoked,
            reported_suspension(lookup),
            reported_signature(certificate, scope, lookup),
            expiry_valid(certificate, now),
            reported_authority(certificate, lookup),
        ),
        verification_timestamp: now,
    }
}

/// Verifies `certificate` at `now`. A lookup that failed makes the check
/// that needed it fail; the report is made all the same.
pub fn build_report(certificate: &Certificate, scope: &str, lookup: &AuthorityLookup, now: u64) -> (
    report: VerificationReport)
    ensures
        report@ == verification_report(certificate@, scope@, lookup@, now),
{
    let expiry_valid = check_expiry(certificate, now);
    let mut signature_valid = false;
    let mut authority_valid = false;
    let mut suspended = false;
    match resolve_authority(lookup) {
        Ok(authority) => {
            match &authority.public_key {
                Some(key) => {
                    signature_valid = check_signature(certificate, scope, key);
                },
                None => {},
            }
            authority_valid = authority.active && contains_text(
                &authority.allowed_cert_types,
                certificate.metadata.achievement_type.as_str(),
            );
            suspended = authority.suspended;
        },
        Err(_) => {},
    }
    VerificationReport {
        cert_id: certificate.id,
        cert_type: certificate.metadata.achievement_type.clone(),
        authority_id: certificate.issuer.clone(),
        entity_id: certificate.owner.clone(),
        issue_date: certificate.issuance_date,
        expiry_date: certificate.expiration_date,
        signature_valid,
        expiry_valid,
        authority_valid,
        status: derive_status(
            certificate.revoked,
            suspended,
            signature_valid,
            expiry_valid,
            authority_valid,
        ),
        verification_timestamp: now,
    }
}

/// The verification engine, with the references it is set up with.
#[derive(Debug)]
pub struct VerificationContract {
    pub storage: VerificationStorage,
}

impl View for VerificationContract {
    type V = VerificationSetup;

    open spec fn view(&self) -> VerificationSetup {
        self.storage@
    }
}

/// What `verify_by_id` answers for a certificate.
pub open spec fn verify_by_id_outcome(certificate: CertificateView, lookup: LookupView, now: u64)
    -> Option<Error> {
    match certification_status(
        certificate.revoked,
        reported_suspension(lookup),
        expiry_valid(certificate, now),
    ) {
        CertificationStatus::Active => None,
        CertificationStatus::Revoked => Some(Error::CertificationRevoked),
        CertificationStatus::Suspended => Some(Error::CertificationSuspended),
        CertificationStatus::Expired => Some(Error::CertificationExpired),
    }
}

/// Passes a certificate that is active at `now`; names its state where it
/// is revoked, suspended or expired, in this precedence.
pub fn require_active(certificate: &Certificate, lookup: &AuthorityLookup, now: u64) -> (done:
    Result<(), Error>)
    ensures
        match done {
            Ok(()) => verify_by_id_outcome(certificate@, lookup@, now) is None,
            Err(e) => verify_by_id_outcome(certificate@, lookup@, now) == Some(e),
        },
{
    let suspended = match resolve_authority(lookup) {
        Ok(authority) => authority.suspended,
        Err(_) => false,
    };
    match classify(certificate.revoked, suspended, check_expiry(certificate, now)) {
        CertificationStatus::Active => Ok(()),
        CertificationStatus::Revoked => Err(Error::CertificationRevoked),
        CertificationStatus::Suspended => Err(Error::CertificationSuspended),
        CertificationStatus::Expired => Err(Error::CertificationExpired),
    }
}

/// The signature check on `certificate` against the public key that the
/// lookups gave; `ExternalServiceError` where no strategy gave a key.
pub fn check_authentic(certificate: &Certificate, scope: &str, lookup: &AuthorityLookup) -> (valid:
    Result<bool, Error>)
    ensures
        match valid {
            Ok(valid) => resolved_key(lookup@) is Some && valid == signature_valid(
                certificate@,
                scope@,
                resolved_key(lookup@)->Some_0,
            ),
            Err(e) => e == Error::ExternalServiceError && resolved_key(lookup@) is None,
        },
{
    match VerificationStorage::get_authority_public_key(lookup) {
        Ok(key) => Ok(check_signature(certificate, scope, &key)),
        Err(e) => Err(e),
    }
}

/// The authority check on `certificate`: whether its issuer is active and
/// may sign certificates of its type; `ExternalServiceError` where no
/// strategy succeeded.
pub fn check_authority(certificate: &Certificate, lookup: &AuthorityLookup) -> (valid: Result<
    bool,
    Error,
>)
    ensures
        match valid {
            Ok(valid) => resolution(lookup@) is Ok && valid == reported_authority(
                certificate@,
                lookup@,
            ),
            Err(e) => e == Error::ExternalServiceError && resolution(lookup@) is Err,
        },
{
    VerificationStorage::validate_authority_for_cert_type(
        lookup,
        certificate.metadata.achievement_type.as_str(),
    )
}

impl VerificationContract {
    /// An engine that has not been set up.
    pub fn new() -> (engine: VerificationContract)
        ensures
            engine@.admin is None,
            engine@.certification_contract_id is None,
            engine@.authority_contract_id is None,
    {
        VerificationContract { storage: VerificationStorage::new() }
    }

    /// Sets the engine up, once: a second call fails with
    /// `AlreadyInitialized` and changes nothing.
    pub fn initialize(
        &mut self,
        admin: Identity,
        certification_contract_id: Identity,
        authority_contract_id: Identity,
    ) -> (done: Result<(), Error>)
        ensures
            match done {
                Ok(()) => old(self)@.admin is None && final(self)@ == (VerificationSetup {
                    admin: Some(admin@),
                    certification_contract_id: Some(certification_contract_id@),
                    authority_contract_id: Some(authority_contract_id@),
                }),
                Err(e) => old(self)@.admin is Some && e == Error::AlreadyInitialized
                    && final(self)@ == old(self)@,
            },
    {
        if self.storage.is_initialized() {
            return Err(Error::AlreadyInitialized);
        }
        self.storage.admin = Some(admin);
        self.storage.certification_contract_id = Some(certification_contract_id);
        self.storage.authority_contract_id = Some(authority_contract_id);
        Ok(())
    }

    /// The certificate under `cert_id` where it is active at `now`; the
    /// error that names its state where it is revoked, suspended or
    /// expired, in this precedence; `NotFound` where there is none.
    pub fn verify_by_id(
        registry: &CertificationContract,
        cert_id: &CertificateId,
        lookup: &AuthorityLookup,
        now: u64,
    ) -> (found: Result<Certificate, Error>)
        requires
            registry.wf(),
        ensures
            match found {
                Ok(certificate) => registry@.store.holds(cert_id@) && certificate@
                    == registry@.store.record(cert_id@) && verify_by_id_outcome(
                    certificate@,
                    lookup@,
                    now,
                ) is None,
                Err(e) => if registry@.store.holds(cert_id@) {
                    verify_by_id_outcome(registry@.store.record(cert_id@), lookup@, now) == Some(e)
                } else {
                    e == Error::NotFound
                },
            },
    {
        let certificate = match registry.store.get(cert_id) {
            Ok(certificate) => certificate,
            Err(e) => {
                return Err(e);
            },
        };
        match require_active(&certificate, lookup, now) {
            Ok(()) => Ok(certificate),
            Err(e) => Err(e),
        }
    }

    /// The signature check on the certificate under `cert_id`, against the
    /// public key that the lookups gave. `NotFound` where there is no such
    /// certificate, `ExternalServiceError` where no strategy gave a key.
    pub fn check_authentic_signature(
        registry: &CertificationContract,
        cert_id: &CertificateId,
        scope: &str,
        lookup: &AuthorityLookup,
    ) -> (valid: Result<bool, Error>)
        requires
            registry.wf(),
        ensures
            match valid {
                Ok(valid) => registry@.store.holds(cert_id@) && resolved_key(lookup@) is Some
                    && valid == signature_valid(
                    registry@.store.record(cert_id@),
                    scope@,
                    resolved_key(lookup@)->Some_0,
                ),
                Err(e) => if !registry@.store.holds(cert_id@) {
                    e == Error::NotFound
                } else {
                    e == Error::ExternalServiceError && resolved_key(lookup@) is None
                },
            },
    {
        let certificate = match registry.store.get(cert_id) {
            Ok(certificate) => certificate,
            Err(e) => {
                return Err(e);
            },
        };
        check_authentic(&certificate, scope, lookup)
    }

    /// The expiry check on the certificate under `cert_id`; `NotFound`
    /// where there is no such certificate.
    pub fn validate_expiry_date(
        registry: &CertificationContract,
        cert_id: &CertificateId,
        now: u64,
    ) -> (valid: Result<bool, Error>)
        requires
            registry.wf(),
        ensures
            match valid {
                Ok(valid) => registry@.store.holds(cert_id@) && valid == expiry_valid(
                    registry@.store.record(cert_id@),
                    now,
                ),
                Err(e) => !registry@.store.holds(cert_id@) && e == Error::NotFound,
            },
    {
        match registry.store.get(cert_id) {
            Ok(certificate) => Ok(check_expiry(&certificate, now)),
            Err(e) => Err(e),
        }
    }

    /// The authority check on the certificate under `cert_id`: whether its
    /// issuer is active and may sign certificates of its type. `NotFound`
    /// where there is no such certificate, `ExternalServiceError` where no
    /// strategy succeeded.
    pub fn validate_authority(
        registry: &CertificationContract,
        cert_id: &CertificateId,
        lookup: &AuthorityLookup,
    ) -> (valid: Result<bool, Error>)
        requires
            registry.wf(),
        ensures
            match valid {
                Ok(valid) => registry@.store.holds(cert_id@) && resolution(lookup@) is Ok && valid
                    == reported_authority(registry@.store.record(cert_id@), lookup@),
                Err(e) => if !registry@.store.holds(cert_id@) {
                    e == Error::NotFound
                } else {
                    e == Error::ExternalServiceError && resolution(lookup@) is Err
                },
            },
    {
        let certificate = match registry.store.get(cert_id) {
            Ok(certificate) => certificate,
            Err(e) => {
                return Err(e);
            },
        };
        check_authority(&certificate, lookup)
    }

    /// The report on the certificate under `cert_id` at `now`; `NotFound`
    /// where there is no such certificate. Nothing is changed.
    pub fn generate_verification_report(
        registry: &CertificationContract,
        cert_id: &CertificateId,
        scope: &str,
        lookup: &AuthorityLookup,
        now: u64,
    ) -> (report: Result<VerificationReport, Error>)
        requires
            registry.wf(),
        ensures
            match report {
                Ok(report) => registry@.store.holds(cert_id@) && report@ == verification_report(
                    registry@.store.record(cert_id@),
                    scope@,
                    lookup@,
                    now,
                ),
                Err(e) => !registry@.store.holds(cert_id@) && e == Error::NotFound,
            },
    {
        match registry.store.get(cert_id) {
            Ok(certificate) => Ok(build_report(&certificate, scope, lookup, now)),
            Err(e) => Err(e),
        }
    }
}

} // verus!
