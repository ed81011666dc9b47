//! Who may do what with the verification engine.

use vstd::prelude::*;
use crate::crypto::{hash_evidence, verify_signature};
use crate::error::Error;
use crate::host::{ed25519_accepts, sha256, MAX_HASH_INPUT};
use crate::identity::{Identity, Invocation, InvocationView};
use crate::verification_storage::{VerificationSetup, VerificationStorage};

verus! {

/// Who may do what with the verification engine.
#[derive(Debug)]
pub struct AuthHandler {
    pub storage: VerificationStorage,
}

impl View for AuthHandler {
    type V = VerificationSetup;

    open spec fn view(&self) -> VerificationSetup {
        self.storage@
    }
}

/// Whether `party` makes the call and has authorized it.
pub open spec fn invoked_by(invocation: InvocationView, party: Seq<u8>) -> bool {
    invocation.authorized_by(party) && invocation.caller == party
}

impl AuthHandler {
    /// The handler over `storage`.
    pub fn new(storage: VerificationStorage) -> (handler: AuthHandler)
        ensures
            handler@ == storage@,
    {
        AuthHandler { storage }
    }

    /// `NotInitialized` where the engine has no administrator.
    pub fn require_initialized(&self) -> (done: Result<(), Error>)
        ensures
            match done {
                Ok(()) => self@.admin is Some,
                Err(e) => self@.admin is None && e == Error::NotInitialized,
            },
    {
        if !self.storage.is_initialized() {
            return Err(Error::NotInitialized);
        }
        Ok(())
    }

    /// The administrator; `NotInitialized` where there is none.
    pub fn get_admin(&self) -> (admin: Result<Identity, Error>)
        ensures
            match admin {
                Ok(identity) => self@.admin == Some(identity@),
                Err(e) => self@.admin is None && e == Error::NotInitialized,
            },
    {
        self.storage.get_admin()
    }

    /// Whether `address` is the administrator.
    pub fn is_admin(&self, address: &Identity) -> (yes: Result<bool, Error>)
        ensures
            match yes {
                Ok(yes) => self@.admin is Some && yes == (self@.admin == Some(address@)),
                Err(e) => self@.admin is None && e == Error::NotInitialized,
            },
    {
        match self.get_admin() {
            Ok(admin) => Ok(admin.same_as(address)),
            Err(e) => Err(e),
        }
    }

    /// Whether the caller is the administrator.
    pub fn is_invoker_admin(&self, invocation: &Invocation) -> (yes: Result<bool, Error>)
        ensures
            match yes {
                Ok(yes) => self@.admin is Some && yes == (self@.admin == Some(
                    invocation@.caller,
                )),
                Err(e) => self@.admin is None && e == Error::NotInitialized,
            },
    {
        self.is_admin(&invocation.caller)
    }

    /// `Unauthorized` where the caller is not the administrator.
    pub fn require_admin(&self, invocation: &Invocation) -> (done: Result<(), Error>)
        ensures
            match done {
                Ok(()) => self@.admin == Some(invocation@.caller),
                Err(e) => if self@.admin is None {
                    e == Error::NotInitialized
                } else {
                    e == Error::Unauthorized && self@.admin != Some(invocation@.caller)
                },
            },
    {
        match self.is_invoker_admin(invocation) {
            Ok(true) => Ok(()),
            Ok(false) => Err(Error::Unauthorized),
            Err(e) => Err(e),
        }
    }

    /// `Unauthorized` unless the authority makes the call and has
    /// authorized it.
    pub fn require_authority(&self, invocation: &Invocation, authority_id: &Identity) -> (done:
        Result<(), Error>)
        ensures
            match done {
                Ok(()) => invoked_by(invocation@, authority_id@),
                Err(e) => !invoked_by(invocation@, authority_id@) && e == Error::Unauthorized,
            },
    {
        if invocation.authorized_by(authority_id) && invocation.caller.same_as(authority_id) {
            Ok(())
        } else {
            Err(Error::Unauthorized)
        }
    }

    /// `Unauthorized` unless the entity makes the call and has authorized
    /// it.
    pub fn require_entity(&self, invocation: &Invocation, entity_id: &Identity) -> (done: Result<
        (),
        Error,
    >)
        ensures
            match done {
                Ok(()) => invoked_by(invocation@, entity_id@),
                Err(e) => !invoked_by(invocation@, entity_id@) && e == Error::Unauthorized,
            },
    {
        if invocation.authorized_by(entity_id) && invocation.caller.same_as(entity_id) {
            Ok(())
        } else {
            Err(Error::Unauthorized)
        }
    }

    /// Passes where the caller is the administrator, or is the authority
    /// and has authorized the call.
    pub fn require_admin_or_authority(&self, invocation: &Invocation, authority_id: &Identity) -> (
        done: Result<(), Error>)
        ensures
            match done {
                Ok(()) => self@.admin == Some(invocation@.caller) || (self@.admin is Some
                    && invoked_by(invocation@, authority_id@)),
                Err(e) => if self@.admin is None {
                    e == Error::NotInitialized
                } else {
                    e == Error::Unauthorized && self@.admin != Some(invocation@.caller)
                        && !invoked_by(invocation@, authority_id@)
                },
            },
    {
        match self.is_admin(&invocation.caller) {
            Ok(true) => Ok(()),
            Ok(false) => self.require_authority(invocation, authority_id),
            Err(e) => Err(e),
        }
    }

    /// Whether `signature` is a signature of the SHA-256 digest of
    /// `message` under `public_key`; `InvalidInput` where the message is too
    /// long to be hashed.
    pub fn verify_signature(
        &self,
        public_key: &[u8; 32],
        message: &Vec<u8>,
        signature: &[u8; 64],
    ) -> (valid: Result<bool, Error>)
        ensures
            match valid {
                Ok(valid) => message@.len() <= MAX_HASH_INPUT && valid == ed25519_accepts(
                    public_key@,
                    sha256(message@),
                    signature@,
                ),
                Err(e) => message@.len() > MAX_HASH_INPUT && e == Error::InvalidInput,
            },
    {
        match hash_evidence(message) {
            Some(digest) => Ok(verify_signature(public_key, &digest, signature)),
            None => Err(Error::InvalidInput),
        }
    }
}

} // verus!
