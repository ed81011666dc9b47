//! A credential registry: certificates are issued under access control,
//! identified by a content hash, indexed by owner and issuer, transferred
//! under dual authorization, revoked, and verified against data reported
//! by an authority registry.
//!
//! The registry's state is a value, [`contract::CertificationContract`];
//! every operation takes it together with what the host knows of the call,
//! an [`identity::Invocation`], and says in its contract what it answers and
//! what it leaves behind.

pub mod bytes;
pub mod text;
pub mod error;
pub mod status;
pub mod host;
pub mod crypto;
pub mod identity;
pub mod certificate;
pub mod index;
pub mod store_view;
pub mod store;
pub mod contract;
pub mod access_control;
pub mod issuance;
pub mod transfer;
pub mod query;
pub mod registry;
pub mod snapshot;
pub mod authority;
pub mod authority_registry;
pub mod verification_storage;
pub mod auth;
pub mod verification;
pub mod laws;
