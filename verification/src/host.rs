//! What the library has from the host: SHA-256, the serialization of text values and
//! Ed25519 verification. The three calls are trusted; everything else is proved from
//! what is stated of them here.

use vstd::prelude::*;
use vstd::string::StringSliceAdditionalSpecFns;
use vstd::utf8::encode_utf8;
use crate::bytes::be32;

verus! {

/// The longest input, in bytes, that is handed to the host for hashing.
/// The host meters its work; an input of this size stays far inside the
/// budget that a fresh host starts with.
pub const MAX_HASH_INPUT: usize = 65536;

/// The longest text, in bytes, that is handed to the host for serialization.
pub const MAX_TEXT_BYTES: usize = 4096;

/// The SHA-256 digest of `data`, as the host computes it.
pub uninterp spec fn sha256(data: Seq<u8>) -> Seq<u8>;

/// The zero bytes that fill `len` bytes up to a multiple of four.
pub open spec fn xdr_padding(len: nat) -> Seq<u8> {
    Seq::new(((4 - len % 4) % 4) as nat, |i: int| 0u8)
}

/// The canonical serialization of a text value: the tag of a string value
/// in four bytes, the length of the text's UTF-8 encoding in four bytes,
/// most significant first, the encoding itself, and zero bytes up to a
/// multiple of four.
#[verifier::opaque]
pub open spec fn text_xdr(text: Seq<char>) -> Seq<u8> {
    seq![0u8, 0u8, 0u8, 14u8] + be32(encode_utf8(text).len() as u32) + encode_utf8(text)
        + xdr_padding(encode_utf8(text).len())
}

/// Whether the host accepts `signature` as an Ed25519 signature of
/// `message` under `public_key`.
pub uninterp spec fn ed25519_accepts(
    public_key: Seq<u8>,
    message: Seq<u8>,
    signature: Seq<u8>,
) -> bool;

/// Calls `soroban_sdk::crypto::Crypto::sha256` on a fresh host environment.
/// Trusted: the array returned is the digest that the host computes for
/// exactly these bytes. The bound keeps the call inside the host's budget,
/// outside of which it does not return.
#[verifier::external_body]
pub(crate) fn host_sha256(data: &Vec<u8>) -> (digest: [u8; 32])
    requires
        data@.len() <= MAX_HASH_INPUT,
    ensures
        digest@ == sha256(data@),
{
    let env = soroban_sdk::Env::default();
    let input = soroban_sdk::Bytes::from_slice(&env, data.as_slice());
    env.crypto().sha256(&input).to_array()
}

/// Calls `soroban_sdk::xdr::ToXdr::to_xdr` on a `soroban_sdk::String` made
/// from `text`, on a fresh host environment. Trusted: the host serializes a
/// string value as `text_xdr` says. The bound keeps the call inside the
/// host's budget.
#[verifier::external_body]
pub(crate) fn host_text_xdr(text: &str) -> (encoded: Vec<u8>)
    requires
        text.spec_bytes().len() <= MAX_TEXT_BYTES,
    ensures
        encoded@ == text_xdr(text@),
{
    let env = soroban_sdk::Env::default();
    let value = soroban_sdk::String::from_str(&env, text);
    let encoded = soroban_sdk::xdr::ToXdr::to_xdr(value, &env);
    encoded.iter().collect()
}

/// Calls `soroban_env_host::Env::verify_sig_ed25519` on a fresh host, which
/// reports a rejected signature or an unusable key as an error instead of
/// aborting. Trusted: the call returns without error exactly when the host
/// accepts the signature; the three inputs are short enough for the host
/// objects to be made within its budget.
#[verifier::external_body]
pub(crate) fn host_ed25519_verify(
    public_key: &[u8; 32],
    message: &[u8; 32],
    signature: &[u8; 64],
) -> (accepted: bool)
    ensures
        accepted == ed25519_accepts(public_key@, message@, signature@),
{
    let host = soroban_env_host::Host::default();
    let key = soroban_env_host::EnvBase::bytes_new_from_slice(&host, public_key);
    let msg = soroban_env_host::EnvBase::bytes_new_from_slice(&host, message);
    let sig = soroban_env_host::EnvBase::bytes_new_from_slice(&host, signature);
    match (key, msg, sig) {
        (Ok(k), Ok(m), Ok(s)) => soroban_env_host::Env::verify_sig_ed25519(&host, k, m, s).is_ok(),
        _ => false,
    }
}

} // verus!
