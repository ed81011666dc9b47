//! The states of authorities and certificates, the verdicts of a verification, and
//! the precedence among them.

use vstd::prelude::*;

verus! {

/// What the authority registry reports of an authority.
#[derive(Clone, Copy, Debug, PartialEq, Eq, Structural)]
pub enum AuthorityStatus {
    /// The authority may sign certificates.
    Active,
    /// The authority has been deactivated.
    Inactive,
    /// The authority reports a suspension.
    Suspended,
}

/// Where a certificate stands in its life, its signature aside.
#[derive(Clone, Copy, Debug, PartialEq, Eq, Structural)]
pub enum CertificationStatus {
    Active,
    Revoked,
    Suspended,
    Expired,
}

/// The verdict of a verification.
#[derive(Clone, Copy, Debug, PartialEq, Eq, Structural)]
pub enum VerificationStatus {
    Valid,
    Invalid,
    Expired,
    Revoked,
    Suspended,
}

/// Where a certificate stands, by precedence: revoked before suspended
/// before expired.
pub open spec fn certification_status(revoked: bool, suspended: bool, expiry_valid: bool)
    -> CertificationStatus {
    if revoked {
        CertificationStatus::Revoked
    } else if suspended {
        CertificationStatus::Suspended
    } else if !expiry_valid {
        CertificationStatus::Expired
    } else {
        CertificationStatus::Active
    }
}

/// The verdict, by precedence: revoked, then suspended, then expired; a
/// certificate that is none of these is valid where its signature and its
/// authority both check, and invalid otherwise.
pub open spec fn verification_status(
    revoked: bool,
    suspended: bool,
    signature_valid: bool,
    expiry_valid: bool,
    authority_valid: bool,
) -> VerificationStatus {
    match certification_status(revoked, suspended, expiry_valid) {
        CertificationStatus::Revoked => VerificationStatus::Revoked,
        CertificationStatus::Suspended => VerificationStatus::Suspended,
        CertificationStatus::Expired => VerificationStatus::Expired,
        CertificationStatus::Active => if signature_valid && authority_valid {
            VerificationStatus::Valid
        } else {
            VerificationStatus::Invalid
        },
    }
}

/// Computes `certification_status`.
pub fn classify(revoked: bool, suspended: bool, expiry_valid: bool) -> (status:
    CertificationStatus)
    ensures
        status == certification_status(revoked, suspended, expiry_valid),
{
    if revoked {
        CertificationStatus::Revoked
    } else if suspended {
        CertificationStatus::Suspended
    } else if !expiry_valid {
        CertificationStatus::Expired
    } else {
        CertificationStatus::Active
    }
}

/// Computes `verification_status`.
pub fn derive_status(
    revoked: bool,
    suspended: bool,
    signature_valid: bool,
    expiry_valid: bool,
    authority_valid: bool,
) -> (status: VerificationStatus)
    ensures
        status == verification_status(
            revoked,
            suspended,
            signature_valid,
            expiry_valid,
            authority_valid,
        ),
{
    match classify(revoked, suspended, expiry_valid) {
        CertificationStatus::Revoked => VerificationStatus::Revoked,
        CertificationStatus::Suspended => VerificationStatus::Suspended,
        CertificationStatus::Expired => VerificationStatus::Expired,
        CertificationStatus::Active => if signature_valid && authority_valid {
            VerificationStatus::Valid
        } else {
            VerificationStatus::Invalid
        },
    }
}

} // verus!
