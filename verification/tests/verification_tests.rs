use credential_registry::authority::{
    contains_text, resolve_authority, same_text, strategies, try_strategy, AuthorityInfo,
    AuthorityLookup, LookupStrategy,
};
use credential_registry::authority_registry::CertifyingAuthority;
use credential_registry::certificate::{Certificate, CertificateId, CertificateMetadata};
use credential_registry::contract::CertificationContract;
use credential_registry::crypto::hash_evidence;
use credential_registry::error::Error;
use credential_registry::identity::{Identity, Invocation};
use credential_registry::issuance::generate_certificate_id;
use credential_registry::status::{
    classify, derive_status, AuthorityStatus, CertificationStatus, VerificationStatus,
};
use credential_registry::verification::{
    build_report, check_expiry, check_signature, create_certification_message,
    digest_certification_message, verify_certificate_signature, VerificationContract,
};
use ed25519_dalek::{Signer, SigningKey};

const NOW: u64 = 5000;
const SCOPE: &str = "quality management";

fn party(tag: u8) -> Identity {
    Identity::new(vec![tag; 8])
}

fn call(caller: &Identity, signers: &[&Identity]) -> Invocation {
    Invocation {
        caller: caller.clone(),
        signers: signers.iter().map(|s| (*s).clone()).collect(),
        timestamp: NOW,
        sequence: 1,
    }
}

fn metadata() -> CertificateMetadata {
    CertificateMetadata {
        title: String::from("X"),
        description: String::from("described"),
        achievement_type: String::from("ISO_9001"),
        additional_data: vec![],
    }
}

fn signing_key() -> SigningKey {
    SigningKey::from_bytes(&[42u8; 32])
}

fn signed(owner: &Identity, issuer: &Identity, expiration_date: Option<u64>) -> [u8; 64] {
    let id = generate_certificate_id(owner, issuer, &metadata(), NOW, 1, 0).unwrap();
    let unsigned = Certificate {
        id,
        owner: owner.clone(),
        issuer: issuer.clone(),
        metadata: metadata(),
        issuance_date: NOW,
        expiration_date,
        revoked: false,
        signature: [0u8; 64],
    };
    let digest = digest_certification_message(&unsigned, SCOPE).unwrap();
    signing_key().sign(&digest).to_bytes()
}

struct World {
    registry: CertificationContract,
    authorities: CertifyingAuthority,
    issuer: Identity,
    owner: Identity,
    id: CertificateId,
}

fn world(expiration_date: Option<u64>, cert_types: &[&str]) -> World {
    let issuer = party(1);
    let owner = party(2);
    let mut registry = CertificationContract::new();
    registry.initialize(issuer.clone()).unwrap();
    let signature = signed(&owner, &issuer, expiration_date);
    let id = registry
        .issue_certificate(
            &call(&issuer, &[&issuer, &owner]),
            owner.clone(),
            metadata(),
            expiration_date,
            signature,
        )
        .unwrap();
    let mut authorities = CertifyingAuthority::new();
    authorities
        .register_authority(
            &call(&issuer, &[&issuer]),
            String::from("Issuer"),
            issuer.clone(),
            signing_key().verifying_key().to_bytes(),
            String::from("ISO 17021:2015"),
            cert_types.iter().map(|t| String::from(*t)).collect(),
        )
        .unwrap();
    World { registry, authorities, issuer, owner, id }
}

fn text_xdr(text: &str) -> Vec<u8> {
    let mut out = vec![0, 0, 0, 14];
    out.extend_from_slice(&(text.len() as u32).to_be_bytes());
    out.extend_from_slice(text.as_bytes());
    while out.len() % 4 != 0 {
        out.push(0);
    }
    out
}

#[test]
fn message_concatenates_the_fields_in_order() {
    let certificate = Certificate {
        id: CertificateId([9u8; 32]),
        owner: Identity::new(vec![1, 2, 3]),
        issuer: Identity::new(vec![4, 5]),
        metadata: metadata(),
        issuance_date: 0x0102030405060708,
        expiration_date: Some(0x1112131415161718),
        revoked: false,
        signature: [0u8; 64],
    };
    let mut expected = vec![9u8; 32];
    expected.extend_from_slice(&[1, 2, 3, 4, 5]);
    expected.extend_from_slice(&text_xdr("X"));
    expected.extend_from_slice(&text_xdr("described"));
    expected.extend_from_slice(&text_xdr("ISO_9001"));
    expected.extend_from_slice(&[1, 2, 3, 4, 5, 6, 7, 8]);
    expected.extend_from_slice(&[0x11, 0x12, 0x13, 0x14, 0x15, 0x16, 0x17, 0x18]);
    expected.extend_from_slice(&text_xdr("scope"));
    assert_eq!(create_certification_message(&certificate, "scope"), Ok(expected.clone()));
    assert_eq!(
        digest_certification_message(&certificate, "scope"),
        Ok(hash_evidence(&expected).unwrap())
    );
    let open_ended = Certificate { expiration_date: None, ..certificate };
    let mut shorter = expected[..32 + 5 + 12 + 20 + 16 + 8].to_vec();
    shorter.extend_from_slice(&text_xdr("scope"));
    assert_eq!(create_certification_message(&open_ended, "scope"), Ok(shorter));
    let long_scope = "s".repeat(4097);
    assert_eq!(create_certification_message(&open_ended, &long_scope), Err(Error::InvalidInput));
    let long_owner = Certificate { owner: Identity::new(vec![0u8; 65536]), ..open_ended };
    assert!(create_certification_message(&long_owner, "scope").is_ok());
    assert_eq!(digest_certification_message(&long_owner, "scope"), Err(Error::InvalidInput));
    assert!(!check_signature(&long_owner, "scope", &[0u8; 32]));
}

#[test]
fn expiry_is_valid_up_to_the_expiration() {
    let mut certificate = Certificate {
        id: CertificateId([9u8; 32]),
        owner: party(1),
        issuer: party(2),
        metadata: metadata(),
        issuance_date: 1,
        expiration_date: None,
        revoked: false,
        signature: [0u8; 64],
    };
    assert!(check_expiry(&certificate, u64::MAX));
    certificate.expiration_date = Some(100);
    assert!(check_expiry(&certificate, 99));
    assert!(check_expiry(&certificate, 100));
    assert!(!check_expiry(&certificate, 101));
}

#[test]
fn status_follows_the_precedence() {
    assert_eq!(derive_status(true, true, true, false, true), VerificationStatus::Revoked);
    assert_eq!(derive_status(true, false, true, true, true), VerificationStatus::Revoked);
    assert_eq!(derive_status(false, true, true, false, true), VerificationStatus::Suspended);
    assert_eq!(derive_status(false, false, true, false, true), VerificationStatus::Expired);
    assert_eq!(derive_status(false, false, false, false, false), VerificationStatus::Expired);
    assert_eq!(derive_status(false, false, true, true, true), VerificationStatus::Valid);
    assert_eq!(derive_status(false, false, false, true, true), VerificationStatus::Invalid);
    assert_eq!(derive_status(false, false, true, true, false), VerificationStatus::Invalid);
    assert_eq!(classify(true, true, false), CertificationStatus::Revoked);
    assert_eq!(classify(false, true, false), CertificationStatus::Suspended);
    assert_eq!(classify(false, false, false), CertificationStatus::Expired);
    assert_eq!(classify(false, false, true), CertificationStatus::Active);
}

#[test]
fn valid_certificate_is_reported_valid() {
    let w = world(Some(NOW + 1000), &["ISO_9001"]);
    let lookup = w.authorities.lookup(&w.issuer);
    let report = VerificationContract::generate_verification_report(
        &w.registry,
        &w.id,
        SCOPE,
        &lookup,
        NOW + 1000,
    )
    .unwrap();
    assert_eq!(report.cert_id, w.id);
    assert_eq!(report.cert_type, "ISO_9001");
    assert_eq!(report.authority_id, w.issuer);
    assert_eq!(report.entity_id, w.owner);
    assert_eq!(report.issue_date, NOW);
    assert_eq!(report.expiry_date, Some(NOW + 1000));
    assert!(report.signature_valid);
    assert!(report.expiry_valid);
    assert!(report.authority_valid);
    assert_eq!(report.status, VerificationStatus::Valid);
    assert_eq!(report.verification_timestamp, NOW + 1000);
    assert_eq!(
        VerificationContract::check_authentic_signature(&w.registry, &w.id, SCOPE, &lookup),
        Ok(true)
    );
    assert_eq!(
        VerificationContract::check_authentic_signature(&w.registry, &w.id, "other", &lookup),
        Ok(false)
    );
    assert_eq!(VerificationContract::validate_expiry_date(&w.registry, &w.id, NOW), Ok(true));
    assert_eq!(VerificationContract::validate_authority(&w.registry, &w.id, &lookup), Ok(true));
    assert_eq!(
        VerificationContract::verify_by_id(&w.registry, &w.id, &lookup, NOW).map(|c| c.id),
        Ok(w.id)
    );
    assert_eq!(
        verify_certificate_signature(
            &w.registry,
            &w.id,
            SCOPE,
            &signing_key().verifying_key().to_bytes(),
            NOW
        ),
        Ok(true)
    );
    assert_eq!(
        verify_certificate_signature(&w.registry, &w.id, SCOPE, &[3u8; 32], NOW),
        Ok(false)
    );
}

#[test]
fn expired_certificate_is_reported_expired() {
    let w = world(Some(NOW + 1000), &["ISO_9001"]);
    let lookup = w.authorities.lookup(&w.issuer);
    let report = VerificationContract::generate_verification_report(
        &w.registry,
        &w.id,
        SCOPE,
        &lookup,
        NOW + 1001,
    )
    .unwrap();
    assert!(!report.expiry_valid);
    assert!(report.signature_valid);
    assert_eq!(report.status, VerificationStatus::Expired);
    assert_eq!(VerificationContract::validate_expiry_date(&w.registry, &w.id, NOW + 1001), Ok(false));
    assert_eq!(
        VerificationContract::verify_by_id(&w.registry, &w.id, &lookup, NOW + 1001),
        Err(Error::CertificationExpired)
    );
    assert_eq!(
        verify_certificate_signature(
            &w.registry,
            &w.id,
            SCOPE,
            &signing_key().verifying_key().to_bytes(),
            NOW + 1001
        ),
        Ok(false)
    );
}

#[test]
fn revoked_certificate_is_reported_revoked_whatever_else_holds() {
    let mut w = world(Some(NOW + 1000), &["ISO_9001"]);
    w.registry.revoke_certificate(&call(&w.issuer, &[&w.issuer]), w.id).unwrap();
    let lookup = w.authorities.lookup(&w.issuer);
    for now in [NOW, NOW + 2000] {
        let report = VerificationContract::generate_verification_report(
            &w.registry,
            &w.id,
            SCOPE,
            &lookup,
            now,
        )
        .unwrap();
        assert_eq!(report.status, VerificationStatus::Revoked);
        assert!(report.signature_valid);
    }
    let unreachable = AuthorityLookup { info: None, active: None, allowed_cert_types: None };
    let report = VerificationContract::generate_verification_report(
        &w.registry,
        &w.id,
        SCOPE,
        &unreachable,
        NOW,
    )
    .unwrap();
    assert_eq!(report.status, VerificationStatus::Revoked);
    assert_eq!(
        VerificationContract::verify_by_id(&w.registry, &w.id, &lookup, NOW),
        Err(Error::CertificationRevoked)
    );
}

#[test]
fn suspension_ranks_above_expiry() {
    let mut w = world(Some(NOW + 10), &["ISO_9001"]);
    w.authorities.suspend_authority(&call(&w.issuer, &[&w.issuer]), &w.issuer).unwrap();
    let lookup = w.authorities.lookup(&w.issuer);
    let report = VerificationContract::generate_verification_report(
        &w.registry,
        &w.id,
        SCOPE,
        &lookup,
        NOW + 11,
    )
    .unwrap();
    assert_eq!(report.status, VerificationStatus::Suspended);
    assert!(!report.expiry_valid);
    assert!(!report.authority_valid);
    assert!(report.signature_valid);
    assert_eq!(
        VerificationContract::verify_by_id(&w.registry, &w.id, &lookup, NOW),
        Err(Error::CertificationSuspended)
    );
}

#[test]
fn wrong_type_or_inactive_authority_is_invalid() {
    let w = world(None, &["ISO_13485"]);
    let lookup = w.authorities.lookup(&w.issuer);
    let report =
        VerificationContract::generate_verification_report(&w.registry, &w.id, SCOPE, &lookup, NOW)
            .unwrap();
    assert!(report.signature_valid);
    assert!(report.expiry_valid);
    assert!(!report.authority_valid);
    assert_eq!(report.status, VerificationStatus::Invalid);
    assert_eq!(VerificationContract::validate_authority(&w.registry, &w.id, &lookup), Ok(false));

    let mut w = world(None, &["ISO_9001"]);
    w.authorities.deactivate_authority(&call(&w.issuer, &[&w.issuer]), &w.issuer).unwrap();
    let lookup = w.authorities.lookup(&w.issuer);
    let report =
        VerificationContract::generate_verification_report(&w.registry, &w.id, SCOPE, &lookup, NOW)
            .unwrap();
    assert!(!report.authority_valid);
    assert_eq!(report.status, VerificationStatus::Invalid);
}

#[test]
fn tampered_signature_is_invalid() {
    let issuer = party(1);
    let owner = party(2);
    let mut registry = CertificationContract::new();
    registry.initialize(issuer.clone()).unwrap();
    let mut signature = signed(&owner, &issuer, None);
    signature[0] ^= 1;
    let id = registry
        .issue_certificate(
            &call(&issuer, &[&issuer, &owner]),
            owner,
            metadata(),
            None,
            signature,
        )
        .unwrap();
    let lookup = AuthorityLookup {
        info: Some(AuthorityInfo {
            id: issuer,
            name: String::from("Issuer"),
            public_key: signing_key().verifying_key().to_bytes(),
            accreditation_info: String::from("a"),
            allowed_cert_types: vec![String::from("ISO_9001")],
            status: AuthorityStatus::Active,
        }),
        active: None,
        allowed_cert_types: None,
    };
    let report =
        VerificationContract::generate_verification_report(&registry, &id, SCOPE, &lookup, NOW)
            .unwrap();
    assert!(!report.signature_valid);
    assert!(report.authority_valid);
    assert_eq!(report.status, VerificationStatus::Invalid);
}

#[test]
fn unreachable_registry_degrades_the_checks() {
    let w = world(Some(NOW + 1000), &["ISO_9001"]);
    let unreachable = AuthorityLookup { info: None, active: None, allowed_cert_types: None };
    let report = VerificationContract::generate_verification_report(
        &w.registry,
        &w.id,
        SCOPE,
        &unreachable,
        NOW,
    )
    .unwrap();
    assert!(!report.signature_valid);
    assert!(!report.authority_valid);
    assert!(report.expiry_valid);
    assert_eq!(report.status, VerificationStatus::Invalid);
    let late = VerificationContract::generate_verification_report(
        &w.registry,
        &w.id,
        SCOPE,
        &unreachable,
        NOW + 1001,
    )
    .unwrap();
    assert_eq!(late.status, VerificationStatus::Expired);
    assert_eq!(
        VerificationContract::validate_authority(&w.registry, &w.id, &unreachable),
        Err(Error::ExternalServiceError)
    );
    assert_eq!(
        VerificationContract::check_authentic_signature(&w.registry, &w.id, SCOPE, &unreachable),
        Err(Error::ExternalServiceError)
    );
}

#[test]
fn strategies_are_tried_in_order() {
    let info = AuthorityInfo {
        id: party(1),
        name: String::from("n"),
        public_key: [1u8; 32],
        accreditation_info: String::from("a"),
        allowed_cert_types: vec![String::from("A")],
        status: AuthorityStatus::Inactive,
    };
    let primary = resolve_authority(&AuthorityLookup {
        info: Some(info),
        active: Some(true),
        allowed_cert_types: Some(vec![String::from("B")]),
    })
    .unwrap();
    assert_eq!(primary.strategy, LookupStrategy::AuthorityInfo);
    assert_eq!(primary.public_key, Some([1u8; 32]));
    assert!(!primary.active);
    assert!(!primary.suspended);
    assert_eq!(primary.allowed_cert_types, vec![String::from("A")]);

    let fallback = resolve_authority(&AuthorityLookup {
        info: None,
        active: Some(true),
        allowed_cert_types: Some(vec![String::from("B")]),
    })
    .unwrap();
    assert_eq!(fallback.strategy, LookupStrategy::VerifyAuthority);
    assert_eq!(fallback.public_key, None);
    assert!(fallback.active);
    assert_eq!(fallback.allowed_cert_types, vec![String::from("B")]);

    let inactive = resolve_authority(&AuthorityLookup {
        info: None,
        active: Some(false),
        allowed_cert_types: None,
    })
    .unwrap();
    assert!(!inactive.active);
    assert_eq!(inactive.allowed_cert_types, Vec::<String>::new());

    assert_eq!(
        resolve_authority(&AuthorityLookup {
            info: None,
            active: Some(true),
            allowed_cert_types: None
        }),
        Err(Error::ExternalServiceError)
    );
    assert_eq!(
        resolve_authority(&AuthorityLookup {
            info: None,
            active: None,
            allowed_cert_types: Some(vec![])
        }),
        Err(Error::ExternalServiceError)
    );
}

#[test]
fn fallback_confirms_the_authority_but_not_the_signature() {
    let w = world(None, &["ISO_9001"]);
    let lookup = AuthorityLookup {
        info: None,
        active: Some(true),
        allowed_cert_types: Some(vec![String::from("ISO_9001")]),
    };
    let certificate = w.registry.get_certificate(w.id).unwrap();
    let report = build_report(&certificate, SCOPE, &lookup, NOW);
    assert!(report.authority_valid);
    assert!(!report.signature_valid);
    assert_eq!(report.status, VerificationStatus::Invalid);
}

#[test]
fn verification_of_an_unknown_certificate_is_not_found() {
    let w = world(None, &["ISO_9001"]);
    let lookup = w.authorities.lookup(&w.issuer);
    let unknown = CertificateId([0u8; 32]);
    assert_eq!(
        VerificationContract::generate_verification_report(&w.registry, &unknown, SCOPE, &lookup, NOW),
        Err(Error::NotFound)
    );
    assert_eq!(
        VerificationContract::verify_by_id(&w.registry, &unknown, &lookup, NOW),
        Err(Error::NotFound)
    );
    assert_eq!(
        VerificationContract::check_authentic_signature(&w.registry, &unknown, SCOPE, &lookup),
        Err(Error::NotFound)
    );
    assert_eq!(
        VerificationContract::validate_expiry_date(&w.registry, &unknown, NOW),
        Err(Error::NotFound)
    );
    assert_eq!(
        VerificationContract::validate_authority(&w.registry, &unknown, &lookup),
        Err(Error::NotFound)
    );
    assert_eq!(
        verify_certificate_signature(&w.registry, &unknown, SCOPE, &[0u8; 32], NOW),
        Err(Error::NotFound)
    );
}

#[test]
fn engine_is_set_up_once() {
    let mut engine = VerificationContract::new();
    assert_eq!(engine.initialize(party(1), party(2), party(3)), Ok(()));
    assert_eq!(engine.initialize(party(4), party(5), party(6)), Err(Error::AlreadyInitialized));
}

#[test]
fn each_strategy_answers_for_itself() {
    assert_eq!(strategies(), vec![LookupStrategy::AuthorityInfo, LookupStrategy::VerifyAuthority]);
    let lookup = AuthorityLookup {
        info: None,
        active: Some(true),
        allowed_cert_types: Some(vec![String::from("A")]),
    };
    assert_eq!(try_strategy(LookupStrategy::AuthorityInfo, &lookup), None);
    let second = try_strategy(LookupStrategy::VerifyAuthority, &lookup).unwrap();
    assert_eq!(second.strategy, LookupStrategy::VerifyAuthority);
    assert!(second.active);
    let silent = AuthorityLookup { info: None, active: None, allowed_cert_types: None };
    assert_eq!(try_strategy(LookupStrategy::VerifyAuthority, &silent), None);
    assert!(contains_text(&vec![String::from("A"), String::from("B")], "B"));
    assert!(!contains_text(&vec![String::from("A")], "a"));
    assert!(same_text("x", "x"));
    assert!(!same_text("x", "y"));
}
