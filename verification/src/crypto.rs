//! Hashing and signature verification over plain byte arrays.

use vstd::prelude::*;
use crate::host::{ed25519_accepts, host_ed25519_verify, host_sha256, sha256, MAX_HASH_INPUT};

verus! {

/// The SHA-256 digest of `data`, or `None` where `data` is longer than
/// `MAX_HASH_INPUT`.
pub fn hash_evidence(data: &Vec<u8>) -> (digest: Option<[u8; 32]>)
    ensures
        digest.is_some() <==> data@.len() <= MAX_HASH_INPUT,
        digest matches Some(d) ==> d@ == sha256(data@),
{
    if data.len() <= MAX_HASH_INPUT {
        Some(host_sha256(data))
    } else {
        None
    }
}

/// Whether two digests are the same.
pub fn validate_hash(actual_hash: &[u8; 32], expected_hash: &[u8; 32]) -> (same: bool)
    ensures
        same == (actual_hash@ == expected_hash@),
{
    let mut i: usize = 0;
    while i < 32
        invariant
            i <= 32,
            forall|j: int| 0 <= j < i ==> actual_hash@[j] == expected_hash@[j],
        decreases 32 - i,
    {
        if actual_hash[i] != expected_hash[i] {
            return false;
        }
        i += 1;
    }
    assert(actual_hash@ =~= expected_hash@);
    true
}

/// Whether `signature` is an Ed25519 signature of `digest` under
/// `public_key`.
pub fn verify_signature(public_key: &[u8; 32], digest: &[u8; 32], signature: &[u8; 64]) -> (valid:
    bool)
    ensures
        valid == ed25519_accepts(public_key@, digest@, signature@),
{
    host_ed25519_verify(public_key, digest, signature)
}

} // verus!
