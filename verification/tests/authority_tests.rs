use credential_registry::authority_registry::CertifyingAuthority;
use credential_registry::error::Error;
use credential_registry::identity::{Identity, Invocation};
use credential_registry::status::AuthorityStatus;

fn generate(tag: u8) -> Identity {
    Identity::new(vec![tag; 32])
}

fn mock_all_auths(parties: &[&Identity]) -> Invocation {
    Invocation {
        caller: parties[0].clone(),
        signers: parties.iter().map(|p| (*p).clone()).collect(),
        timestamp: 0,
        sequence: 0,
    }
}

fn texts(items: &[&str]) -> Vec<String> {
    items.iter().map(|s| String::from(*s)).collect()
}

fn initialized(admin: &Identity) -> CertifyingAuthority {
    let mut contract = CertifyingAuthority::new();
    contract.initialize(&mock_all_auths(&[admin]), admin.clone()).unwrap();
    contract
}

fn register(
    contract: &mut CertifyingAuthority,
    name: &str,
    public_key: &Identity,
    accreditation_info: &str,
    cert_types: &[&str],
) -> Result<String, Error> {
    contract.register_authority(
        &mock_all_auths(&[public_key]),
        String::from(name),
        public_key.clone(),
        [7u8; 32],
        String::from(accreditation_info),
        texts(cert_types),
    )
}

#[test]
fn test_test_initialize_contract() {
    let admin = generate(1);
    let mut contract = CertifyingAuthority::new();
    assert_eq!(contract.initialize(&mock_all_auths(&[&admin]), admin.clone()), Ok(()));
}

#[test]
fn test_register_authority() {
    let public_key = generate(2);
    let mut contract = initialized(&generate(1));
    let authority_id = register(
        &mut contract,
        "Quality Certification Services Inc.",
        &public_key,
        "ISO 17021:2015",
        &["ISO_9001", "ISO_13485"],
    )
    .unwrap();
    let authority = contract.get_authority(&public_key).unwrap();
    assert_eq!(authority.authority_id, authority_id);
    assert_eq!(authority.name, "Quality Certification Services Inc.");
    assert_eq!(authority.public_key, public_key);
    assert_eq!(authority.accreditation_info, "ISO 17021:2015");
    assert_eq!(authority.allowed_cert_types.len(), 2);
    assert_eq!(authority.status, AuthorityStatus::Active);
}

#[test]
#[should_panic(expected = "Authority with this public key already exists")]
fn test_authority_uniqueness() {
    let public_key = generate(2);
    let mut contract = initialized(&generate(1));
    register(
        &mut contract,
        "Quality Certification Services Inc.",
        &public_key,
        "ISO 17021:2015",
        &["ISO_9001"],
    )
    .unwrap();
    let second =
        register(&mut contract, "Another Authority", &public_key, "ISO 17021:2015", &["ISO_9001"]);
    if second == Err(Error::AlreadyExists) {
        panic!("Authority with this public key already exists");
    }
}

#[test]
fn test_update_authority_info() {
    let public_key = generate(2);
    let mut contract = initialized(&generate(1));
    register(
        &mut contract,
        "Quality Certification Services Inc.",
        &public_key,
        "ISO 17021:2015",
        &["ISO_9001"],
    )
    .unwrap();
    contract
        .update_authority_info(
            &mock_all_auths(&[&public_key]),
            &public_key,
            "name",
            String::from("Updated Authority Name"),
        )
        .unwrap();
    let authority = contract.get_authority(&public_key).unwrap();
    assert_eq!(authority.name, "Updated Authority Name");
}

#[test]
fn test_deactivate_authority() {
    let public_key = generate(2);
    let mut contract = initialized(&generate(1));
    register(
        &mut contract,
        "Quality Certification Services Inc.",
        &public_key,
        "ISO 17021:2015",
        &["ISO_9001"],
    )
    .unwrap();
    contract.deactivate_authority(&mock_all_auths(&[&public_key]), &public_key).unwrap();
    let authority = contract.get_authority(&public_key).unwrap();
    assert_eq!(authority.status, AuthorityStatus::Inactive);
}

#[test]
fn test_add_remove_certification_type() {
    let public_key = generate(2);
    let mut contract = initialized(&generate(1));
    register(
        &mut contract,
        "Quality Certification Services Inc.",
        &public_key,
        "ISO 17021:2015",
        &["ISO_9001"],
    )
    .unwrap();
    let auths = mock_all_auths(&[&public_key]);
    contract.add_certification_type(&auths, &public_key, String::from("ISO_13485")).unwrap();
    let authority = contract.get_authority(&public_key).unwrap();
    assert_eq!(authority.allowed_cert_types.len(), 2);
    assert!(authority.allowed_cert_types.contains(&String::from("ISO_13485")));
    contract.remove_certification_type(&auths, &public_key, "ISO_9001").unwrap();
    let authority = contract.get_authority(&public_key).unwrap();
    assert_eq!(authority.allowed_cert_types.len(), 1);
    assert!(!authority.allowed_cert_types.contains(&String::from("ISO_9001")));
}

#[test]
#[should_panic(expected = "Name cannot be empty")]
fn test_register_authority_empty_name() {
    let public_key = generate(2);
    let mut contract = initialized(&generate(1));
    if register(&mut contract, "", &public_key, "ISO 17021:2015", &["ISO_9001"])
        == Err(Error::InvalidInput)
    {
        panic!("Name cannot be empty");
    }
}

#[test]
#[should_panic(expected = "Accreditation info cannot be empty")]
fn test_register_authority_empty_accreditation_info() {
    let public_key = generate(2);
    let mut contract = initialized(&generate(1));
    if register(
        &mut contract,
        "Quality Certification Services Inc.",
        &public_key,
        "",
        &["ISO_9001"],
    ) == Err(Error::InvalidInput)
    {
        panic!("Accreditation info cannot be empty");
    }
}

#[test]
fn test_register_authority_empty_cert_types() {
    let public_key = generate(2);
    let mut contract = initialized(&generate(1));
    let authority_id = register(
        &mut contract,
        "Quality Certification Services Inc.",
        &public_key,
        "ISO 17021:2015",
        &[],
    )
    .unwrap();
    let authority = contract.get_authority(&public_key).unwrap();
    assert_eq!(authority.authority_id, authority_id);
    assert_eq!(authority.allowed_cert_types.len(), 0);
}

#[test]
#[should_panic(expected = "Certification types must be unique")]
fn test_register_authority_duplicate_cert_types() {
    let public_key = generate(2);
    let mut contract = initialized(&generate(1));
    if register(
        &mut contract,
        "Quality Certification Services Inc.",
        &public_key,
        "ISO 17021:2015",
        &["ISO_9001", "ISO_9001"],
    ) == Err(Error::InvalidInput)
    {
        panic!("Certification types must be unique");
    }
}

#[test]
#[should_panic(expected = "Invalid field")]
fn test_update_authority_invalid_field() {
    let public_key = generate(2);
    let mut contract = initialized(&generate(1));
    register(
        &mut contract,
        "Quality Certification Services Inc.",
        &public_key,
        "ISO 17021:2015",
        &["ISO_9001"],
    )
    .unwrap();
    if contract.update_authority_info(
        &mock_all_auths(&[&public_key]),
        &public_key,
        "invalid_field",
        String::from("Invalid Value"),
    ) == Err(Error::InvalidField)
    {
        panic!("Invalid field");
    }
}

#[test]
#[should_panic(expected = "Authority not found")]
fn test_update_non_existent_authority() {
    let public_key = generate(2);
    let mut contract = initialized(&generate(1));
    if contract.update_authority_info(
        &mock_all_auths(&[&public_key]),
        &public_key,
        "name",
        String::from("Updated Name"),
    ) == Err(Error::NotFound)
    {
        panic!("Authority not found");
    }
}

#[test]
#[should_panic(expected = "Authority not found")]
fn test_deactivate_non_existent_authority() {
    let public_key = generate(2);
    let mut contract = initialized(&generate(1));
    if contract.deactivate_authority(&mock_all_auths(&[&public_key]), &public_key)
        == Err(Error::NotFound)
    {
        panic!("Authority not found");
    }
}

#[test]
#[should_panic(expected = "Authority not found")]
fn test_get_non_existent_authority() {
    let public_key = generate(2);
    let contract = initialized(&generate(1));
    if contract.get_authority(&public_key) == Err(Error::NotFound) {
        panic!("Authority not found");
    }
}

#[test]
#[should_panic(expected = "Cannot modify inactive authority")]
fn test_add_cert_type_inactive_authority() {
    let public_key = generate(2);
    let mut contract = initialized(&generate(1));
    register(
        &mut contract,
        "Quality Certification Services Inc.",
        &public_key,
        "ISO 17021:2015",
        &["ISO_9001"],
    )
    .unwrap();
    let auths = mock_all_auths(&[&public_key]);
    contract.deactivate_authority(&auths, &public_key).unwrap();
    if contract.add_certification_type(&auths, &public_key, String::from("ISO_13485"))
        == Err(Error::InvalidStatus)
    {
        panic!("Cannot modify inactive authority");
    }
}

#[test]
#[should_panic(expected = "Cannot modify inactive authority")]
fn test_remove_cert_type_inactive_authority() {
    let public_key = generate(2);
    let mut contract = initialized(&generate(1));
    register(
        &mut contract,
        "Quality Certification Services Inc.",
        &public_key,
        "ISO 17021:2015",
        &["ISO_9001"],
    )
    .unwrap();
    let auths = mock_all_auths(&[&public_key]);
    contract.deactivate_authority(&auths, &public_key).unwrap();
    if contract.remove_certification_type(&auths, &public_key, "ISO_9001")
        == Err(Error::InvalidStatus)
    {
        panic!("Cannot modify inactive authority");
    }
}

#[test]
#[should_panic(expected = "Certification type not found")]
fn test_remove_non_existent_cert_type() {
    let public_key = generate(2);
    let mut contract = initialized(&generate(1));
    register(
        &mut contract,
        "Quality Certification Services Inc.",
        &public_key,
        "ISO 17021:2015",
        &["ISO_9001"],
    )
    .unwrap();
    if contract.remove_certification_type(&mock_all_auths(&[&public_key]), &public_key, "ISO_13485")
        == Err(Error::NotFound)
    {
        panic!("Certification type not found");
    }
}

#[test]
#[should_panic(expected = "Contract already initialized")]
fn test_initialize_contract_twice() {
    let admin = generate(1);
    let mut contract = CertifyingAuthority::new();
    let auths = mock_all_auths(&[&admin]);
    contract.initialize(&auths, admin.clone()).unwrap();
    if contract.initialize(&auths, admin) == Err(Error::AlreadyInitialized) {
        panic!("Contract already initialized");
    }
}

#[test]
#[should_panic(expected = "Authority with this public key already exists")]
fn test_register_authority_after_deactivation() {
    let public_key = generate(2);
    let mut contract = initialized(&generate(1));
    register(
        &mut contract,
        "Quality Certification Services Inc.",
        &public_key,
        "ISO 17021:2015",
        &["ISO_9001"],
    )
    .unwrap();
    contract.deactivate_authority(&mock_all_auths(&[&public_key]), &public_key).unwrap();
    if register(&mut contract, "New Authority", &public_key, "ISO 17021:2015", &["ISO_9001"])
        == Err(Error::AlreadyExists)
    {
        panic!("Authority with this public key already exists");
    }
}

#[test]
fn authorities_are_labelled_in_order() {
    let mut contract = initialized(&generate(1));
    for n in 1u8..=12 {
        let label = register(&mut contract, "Name", &generate(n), "Accredited", &[]).unwrap();
        assert_eq!(label, format!("AUTH_{}", n));
    }
    assert_eq!(contract.get_authority(&generate(12)).unwrap().authority_id, "AUTH_12");
}

#[test]
fn registration_needs_the_authority_itself() {
    let public_key = generate(2);
    let other = generate(3);
    let mut contract = CertifyingAuthority::new();
    assert_eq!(
        contract.register_authority(
            &mock_all_auths(&[&other]),
            String::from("Name"),
            public_key.clone(),
            [7u8; 32],
            String::from("Accredited"),
            vec![],
        ),
        Err(Error::Unauthorized)
    );
    assert_eq!(contract.get_authority(&public_key), Err(Error::NotFound));
    assert_eq!(
        contract.initialize(&mock_all_auths(&[&other]), public_key),
        Err(Error::Unauthorized)
    );
}

#[test]
fn queries_follow_the_status() {
    let public_key = generate(2);
    let mut contract = initialized(&generate(1));
    assert!(!contract.verify_authority(&public_key));
    register(&mut contract, "Name", &public_key, "Accredited", &["ISO_9001"]).unwrap();
    assert!(contract.verify_authority(&public_key));
    assert!(contract.is_authority_allowed_cert_type(&public_key, "ISO_9001"));
    assert!(!contract.is_authority_allowed_cert_type(&public_key, "ISO_13485"));
    let info = contract.get_authority_info(&public_key).unwrap();
    assert_eq!(info.id, public_key);
    assert_eq!(info.public_key, [7u8; 32]);
    assert_eq!(info.status, AuthorityStatus::Active);
    let auths = mock_all_auths(&[&public_key]);
    contract
        .update_authority_info(&auths, &public_key, "accreditation_info", String::from("New"))
        .unwrap();
    assert_eq!(contract.get_authority(&public_key).unwrap().accreditation_info, "New");
    assert_eq!(
        contract.add_certification_type(&auths, &public_key, String::from("ISO_9001")),
        Err(Error::AlreadyExists)
    );
    contract.suspend_authority(&auths, &public_key).unwrap();
    assert!(!contract.verify_authority(&public_key));
    assert!(!contract.is_authority_allowed_cert_type(&public_key, "ISO_9001"));
    assert_eq!(contract.get_authority_info(&public_key).unwrap().status, AuthorityStatus::Suspended);
    assert_eq!(contract.deactivate_authority(&auths, &public_key), Err(Error::InvalidStatus));
    let lookup = contract.lookup(&public_key);
    assert_eq!(lookup.active, Some(false));
    assert_eq!(lookup.allowed_cert_types, Some(vec![String::from("ISO_9001")]));
    let unknown = contract.lookup(&generate(9));
    assert_eq!(unknown.info, None);
    assert_eq!(unknown.active, Some(false));
    assert_eq!(unknown.allowed_cert_types, Some(vec![]));
}
