use credential_registry::crypto::{hash_evidence, validate_hash, verify_signature};
use ed25519_dalek::{Signer, SigningKey};

fn hex(bytes: &[u8]) -> String {
    let mut out = String::new();
    for b in bytes {
        out.push_str(&format!("{:02x}", b));
    }
    out
}

#[test]
fn sha256_of_empty_input() {
    let digest = hash_evidence(&vec![]).unwrap();
    assert_eq!(
        hex(&digest),
        "e3b0c44298fc1c149afbf4c8996fb92427ae41e4649b934ca495991b7852b855"
    );
}

#[test]
fn sha256_of_abc() {
    let digest = hash_evidence(&b"abc".to_vec()).unwrap();
    assert_eq!(
        hex(&digest),
        "ba7816bf8f01cfea414140de5dae2223b00361a396177a9cb410ff61f20015ad"
    );
}

#[test]
fn sha256_refuses_oversized_input() {
    assert!(hash_evidence(&vec![0u8; 65536]).is_some());
    assert!(hash_evidence(&vec![0u8; 65537]).is_none());
}

#[test]
fn validate_hash_compares_every_byte() {
    let a = [7u8; 32];
    let mut b = [7u8; 32];
    assert!(validate_hash(&a, &b));
    b[31] = 8;
    assert!(!validate_hash(&a, &b));
}

#[test]
fn signature_accepted_and_rejected() {
    let key = SigningKey::from_bytes(&[3u8; 32]);
    let digest = hash_evidence(&b"message".to_vec()).unwrap();
    let signature = key.sign(&digest).to_bytes();
    let public = key.verifying_key().to_bytes();
    assert!(verify_signature(&public, &digest, &signature));
    let other = hash_evidence(&b"another".to_vec()).unwrap();
    assert!(!verify_signature(&public, &other, &signature));
    assert!(!verify_signature(&public, &digest, &[0u8; 64]));
    let stranger = SigningKey::from_bytes(&[4u8; 32]).verifying_key().to_bytes();
    assert!(!verify_signature(&stranger, &digest, &signature));
}
