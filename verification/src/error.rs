//! Why an operation is refused.

use vstd::prelude::*;

verus! {

/// Why an operation of the registry was refused.
#[derive(Clone, Copy, Debug, PartialEq, Eq, Structural)]
pub enum Error {
    /// The registry already has an administrator.
    AlreadyInitialized,
    /// The registry has no administrator yet.
    NotInitialized,
    /// No certificate or authority is stored under the given reference.
    NotFound,
    /// A certificate with the same identifier is already stored.
    AlreadyExists,
    /// A required authorization is missing, or the caller lacks the role.
    Unauthorized,
    /// The input is malformed: sequences of different lengths, an empty
    /// required field, or a field over the size limit.
    InvalidInput,
    /// A counter cannot grow any further.
    CapacityExceeded,
    /// The named field cannot be changed.
    InvalidField,
    /// The entry is not in a state that allows the change.
    InvalidStatus,
    /// Every lookup strategy against the authority registry failed.
    ExternalServiceError,
    /// The certificate is past its expiration.
    CertificationExpired,
    /// The certificate has been revoked.
    CertificationRevoked,
    /// The certificate's authority reports a suspension.
    CertificationSuspended,
}

} // verus!
