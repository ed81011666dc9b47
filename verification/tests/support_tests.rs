use credential_registry::auth::AuthHandler;
use credential_registry::authority::AuthorityLookup;
use credential_registry::authority_registry::CertifyingAuthority;
use credential_registry::certificate::{CertificateId, CertificateMetadata};
use credential_registry::contract::{
    AuditRecord, CertificationContract, Event, Notification, Operation,
};
use credential_registry::crypto::hash_evidence;
use credential_registry::error::Error;
use credential_registry::identity::{contains_identity, Identity, Invocation};
use credential_registry::text::u32_to_string;
use credential_registry::verification_storage::VerificationStorage;
use ed25519_dalek::{Signer, SigningKey};

fn party(tag: u8) -> Identity {
    Identity::new(vec![tag; 4])
}

fn call(caller: &Identity, signers: &[&Identity]) -> Invocation {
    Invocation {
        caller: caller.clone(),
        signers: signers.iter().map(|s| (*s).clone()).collect(),
        timestamp: 77,
        sequence: 1,
    }
}

#[test]
fn numbers_are_written_in_decimal() {
    assert_eq!(u32_to_string(0), "0");
    assert_eq!(u32_to_string(7), "7");
    assert_eq!(u32_to_string(10), "10");
    assert_eq!(u32_to_string(1203), "1203");
    assert_eq!(u32_to_string(u32::MAX), "4294967295");
}

#[test]
fn identities_compare_by_their_bytes() {
    let a = Identity::new(vec![1, 2, 3]);
    assert!(a.same_as(&Identity::new(vec![1, 2, 3])));
    assert!(!a.same_as(&Identity::new(vec![1, 2])));
    assert!(!a.same_as(&Identity::new(vec![1, 2, 4])));
    assert!(!a.is_empty());
    assert!(Identity::new(vec![]).is_empty());
    assert_eq!(a.clone(), a);
    let list = vec![party(1), party(2)];
    assert!(contains_identity(&list, &party(2)));
    assert!(!contains_identity(&list, &party(3)));
    let invocation = call(&party(1), &[&party(1), &party(2)]);
    assert!(invocation.authorized_by(&party(2)));
    assert!(!invocation.authorized_by(&party(3)));
}

#[test]
fn notifications_amount_to_audit_records() {
    let admin = party(1);
    let owner = party(2);
    let id = CertificateId([9u8; 32]);
    let single = Notification {
        event: Event::CertificateTransferred {
            id,
            old_owner: owner.clone(),
            new_owner: admin.clone(),
        },
        timestamp: 5,
    };
    assert_eq!(
        single.audit_records(),
        vec![AuditRecord {
            operation: Operation::Transfer,
            subject_id: vec![9u8; 32],
            actor_id: owner.clone(),
            timestamp: 5,
        }]
    );
    let batch = Notification {
        event: Event::CertificatesBatchIssued {
            ids: vec![CertificateId([1u8; 32]), CertificateId([2u8; 32])],
            issuer: admin.clone(),
        },
        timestamp: 6,
    };
    assert_eq!(
        batch.audit_records(),
        vec![
            AuditRecord {
                operation: Operation::Issuance,
                subject_id: vec![1u8; 32],
                actor_id: admin.clone(),
                timestamp: 6,
            },
            AuditRecord {
                operation: Operation::Issuance,
                subject_id: vec![2u8; 32],
                actor_id: admin.clone(),
                timestamp: 6,
            },
        ]
    );
    let added = Notification {
        event: Event::IssuerAdded { admin: admin.clone(), issuer: owner.clone() },
        timestamp: 7,
    };
    assert_eq!(
        added.audit_records(),
        vec![AuditRecord {
            operation: Operation::IssuerAddition,
            subject_id: owner.0.clone(),
            actor_id: admin.clone(),
            timestamp: 7,
        }]
    );
    let revoked = Notification {
        event: Event::CertificateRevoked { id, issuer: admin.clone(), caller: owner.clone() },
        timestamp: 8,
    };
    assert_eq!(revoked.audit_records()[0].operation, Operation::Revocation);
    assert_eq!(revoked.audit_records()[0].actor_id, owner);
}

#[test]
fn registry_events_carry_the_ledger_time() {
    let admin = party(1);
    let owner = party(2);
    let mut registry = CertificationContract::new();
    registry.initialize(admin.clone()).unwrap();
    let metadata = CertificateMetadata {
        title: String::from("X"),
        description: String::new(),
        achievement_type: String::new(),
        additional_data: vec![],
    };
    let id = registry
        .issue_certificate(&call(&admin, &[&admin, &owner]), owner.clone(), metadata, None, [0; 64])
        .unwrap();
    let events = registry.take_events();
    assert_eq!(events.len(), 1);
    assert_eq!(
        events[0].audit_records(),
        vec![AuditRecord {
            operation: Operation::Issuance,
            subject_id: id.0.to_vec(),
            actor_id: admin,
            timestamp: 77,
        }]
    );
}

#[test]
fn storage_keeps_the_references() {
    let mut storage = VerificationStorage::new();
    assert!(!storage.is_initialized());
    assert_eq!(storage.get_admin(), Err(Error::NotInitialized));
    assert_eq!(storage.get_authority_contract_id(), Err(Error::NotFound));
    assert_eq!(storage.get_certification_contract_id(), Err(Error::NotFound));
    assert_eq!(storage.set_admin(party(1)), Ok(()));
    assert_eq!(storage.set_admin(party(2)), Err(Error::AlreadyInitialized));
    assert_eq!(storage.set_authority_contract_id(party(3)), Ok(()));
    assert_eq!(storage.set_certification_contract_id(party(4)), Ok(()));
    assert!(storage.is_initialized());
    assert_eq!(storage.get_admin(), Ok(party(1)));
    assert_eq!(storage.get_authority_contract_id(), Ok(party(3)));
    assert_eq!(storage.get_certification_contract_id(), Ok(party(4)));
}

#[test]
fn storage_reads_the_registries() {
    let registry = CertificationContract::new();
    let unknown = CertificateId([1u8; 32]);
    assert_eq!(VerificationStorage::get_certification(&registry, &unknown), Err(Error::NotFound));
    assert!(!VerificationStorage::certification_exists(&registry, &unknown));
    let unreachable = AuthorityLookup { info: None, active: None, allowed_cert_types: None };
    assert_eq!(
        VerificationStorage::get_authority_public_key(&unreachable),
        Err(Error::ExternalServiceError)
    );
    assert_eq!(
        VerificationStorage::validate_authority_for_cert_type(&unreachable, "A"),
        Err(Error::ExternalServiceError)
    );
    let fallback = AuthorityLookup {
        info: None,
        active: Some(true),
        allowed_cert_types: Some(vec![String::from("A")]),
    };
    assert_eq!(
        VerificationStorage::get_authority_public_key(&fallback),
        Err(Error::ExternalServiceError)
    );
    assert_eq!(VerificationStorage::validate_authority_for_cert_type(&fallback, "A"), Ok(true));
    assert_eq!(VerificationStorage::validate_authority_for_cert_type(&fallback, "B"), Ok(false));
}

#[test]
fn handler_tells_admin_authority_and_entity_apart() {
    let admin = party(1);
    let authority = party(2);
    let other = party(3);
    let empty = AuthHandler::new(VerificationStorage::new());
    assert_eq!(empty.require_initialized(), Err(Error::NotInitialized));
    assert_eq!(empty.get_admin(), Err(Error::NotInitialized));
    assert_eq!(empty.is_admin(&admin), Err(Error::NotInitialized));
    assert_eq!(empty.require_admin(&call(&admin, &[&admin])), Err(Error::NotInitialized));
    assert_eq!(
        empty.require_admin_or_authority(&call(&authority, &[&authority]), &authority),
        Err(Error::NotInitialized)
    );

    let mut storage = VerificationStorage::new();
    storage.set_admin(admin.clone()).unwrap();
    let handler = AuthHandler::new(storage);
    assert_eq!(handler.require_initialized(), Ok(()));
    assert_eq!(handler.get_admin(), Ok(admin.clone()));
    assert_eq!(handler.is_admin(&admin), Ok(true));
    assert_eq!(handler.is_admin(&other), Ok(false));
    assert_eq!(handler.is_invoker_admin(&call(&admin, &[])), Ok(true));
    assert_eq!(handler.is_invoker_admin(&call(&other, &[&admin])), Ok(false));
    assert_eq!(handler.require_admin(&call(&admin, &[])), Ok(()));
    assert_eq!(handler.require_admin(&call(&other, &[&other])), Err(Error::Unauthorized));
    assert_eq!(handler.require_authority(&call(&authority, &[&authority]), &authority), Ok(()));
    assert_eq!(
        handler.require_authority(&call(&other, &[&authority]), &authority),
        Err(Error::Unauthorized)
    );
    assert_eq!(
        handler.require_authority(&call(&authority, &[&other]), &authority),
        Err(Error::Unauthorized)
    );
    assert_eq!(handler.require_entity(&call(&other, &[&other]), &other), Ok(()));
    assert_eq!(handler.require_entity(&call(&other, &[]), &other), Err(Error::Unauthorized));
    assert_eq!(handler.require_admin_or_authority(&call(&admin, &[]), &authority), Ok(()));
    assert_eq!(
        handler.require_admin_or_authority(&call(&authority, &[&authority]), &authority),
        Ok(())
    );
    assert_eq!(
        handler.require_admin_or_authority(&call(&other, &[&other]), &authority),
        Err(Error::Unauthorized)
    );
}

#[test]
fn handler_verifies_a_signature_over_the_digest() {
    let handler = AuthHandler::new(VerificationStorage::new());
    let key = SigningKey::from_bytes(&[11u8; 32]);
    let message = b"certified".to_vec();
    let digest = hash_evidence(&message).unwrap();
    let signature = key.sign(&digest).to_bytes();
    let public = key.verifying_key().to_bytes();
    assert_eq!(handler.verify_signature(&public, &message, &signature), Ok(true));
    assert_eq!(handler.verify_signature(&public, &b"other".to_vec(), &signature), Ok(false));
    let raw = key.sign(&message).to_bytes();
    assert_eq!(handler.verify_signature(&public, &message, &raw), Ok(false));
    assert_eq!(
        handler.verify_signature(&public, &vec![0u8; 65537], &signature),
        Err(Error::InvalidInput)
    );
}

#[test]
fn authority_numbers_run_out() {
    let mut full = CertifyingAuthority::restore(None, u32::MAX, vec![]).unwrap();
    let authority = party(2);
    assert_eq!(
        full.register_authority(
            &call(&authority, &[&authority]),
            String::from("Name"),
            authority.clone(),
            [0u8; 32],
            String::from("Accredited"),
            vec![],
        ),
        Err(Error::CapacityExceeded)
    );
    let mut almost = CertifyingAuthority::restore(Some(party(1)), u32::MAX - 1, vec![]).unwrap();
    assert_eq!(almost.admin(), Some(party(1)));
    assert_eq!(
        almost.register_authority(
            &call(&authority, &[&authority]),
            String::from("Name"),
            authority.clone(),
            [0u8; 32],
            String::from("Accredited"),
            vec![],
        ),
        Ok(String::from("AUTH_4294967294"))
    );
    assert_eq!(almost.next_authority_id(), u32::MAX);
    let entries = almost.authorities();
    assert_eq!(entries.len(), 1);
    assert_eq!(entries[0].registration_date, 77);
    let twice = vec![entries[0].clone(), entries[0].clone()];
    assert_eq!(
        CertifyingAuthority::restore(None, 3, twice).map(|_| ()),
        Err(Error::InvalidInput)
    );
    let again = CertifyingAuthority::restore(None, 3, entries).unwrap();
    assert!(again.verify_authority(&authority));
}
