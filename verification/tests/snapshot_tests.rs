use credential_registry::certificate::{Certificate, CertificateId, CertificateMetadata};
use credential_registry::contract::CertificationContract;
use credential_registry::error::Error;
use credential_registry::identity::{Identity, Invocation};
use credential_registry::index::{CertificateIndex, IndexEntry};
use credential_registry::snapshot::RegistrySnapshot;
use credential_registry::store::CertificateStore;

fn party(tag: u8) -> Identity {
    Identity::new(vec![tag; 4])
}

fn call(caller: &Identity, signers: &[&Identity]) -> Invocation {
    Invocation {
        caller: caller.clone(),
        signers: signers.iter().map(|s| (*s).clone()).collect(),
        timestamp: 50,
        sequence: 2,
    }
}

fn titled(title: &str) -> CertificateMetadata {
    CertificateMetadata {
        title: String::from(title),
        description: String::new(),
        achievement_type: String::new(),
        additional_data: vec![],
    }
}

fn certificate(tag: u8, owner: &Identity, issuer: &Identity) -> Certificate {
    Certificate {
        id: CertificateId([tag; 32]),
        owner: owner.clone(),
        issuer: issuer.clone(),
        metadata: titled("t"),
        issuance_date: 1,
        expiration_date: None,
        revoked: false,
        signature: [0u8; 64],
    }
}

fn entry(key: &Identity, tags: &[u8]) -> IndexEntry {
    IndexEntry { key: key.clone(), ids: tags.iter().map(|t| CertificateId([*t; 32])).collect() }
}

#[test]
fn snapshot_restores_to_the_same_registry() {
    let admin = party(1);
    let a = party(2);
    let b = party(3);
    let mut registry = CertificationContract::new();
    registry.initialize(admin.clone()).unwrap();
    let invocation = call(&admin, &[&admin, &a, &b]);
    registry.add_issuer(&invocation, b.clone()).unwrap();
    let first = registry.issue_certificate(&invocation, a.clone(), titled("1"), None, [1u8; 64]).unwrap();
    let second = registry.issue_certificate(&invocation, a.clone(), titled("2"), Some(9), [2u8; 64]).unwrap();
    registry.transfer_certificate(&invocation, first, b.clone()).unwrap();
    registry.transfer_certificate(&invocation, first, a.clone()).unwrap();
    registry.revoke_certificate(&invocation, second).unwrap();

    let snapshot = registry.snapshot();
    assert_eq!(snapshot.admin, Some(admin.clone()));
    assert_eq!(snapshot.issuers, vec![b.clone()]);
    assert_eq!(snapshot.certificates.len(), 2);
    let restored = CertificationContract::restore(snapshot).unwrap();
    assert_eq!(restored.get_admin(), Ok(admin.clone()));
    assert_eq!(restored.get_issuers(), vec![b.clone()]);
    assert_eq!(restored.get_certificate_count(), 2);
    assert_eq!(restored.get_certificate(first), registry.get_certificate(first));
    assert_eq!(restored.get_certificate(second), registry.get_certificate(second));
    assert_eq!(
        restored.list_certificates_by_owner(a.clone(), 0, 10),
        registry.list_certificates_by_owner(a.clone(), 0, 10)
    );
    assert_eq!(
        restored.list_certificates_by_owner(a, 0, 10).iter().map(|c| c.id).collect::<Vec<_>>(),
        vec![second, first]
    );
    assert_eq!(restored.list_certificates_by_owner(b, 0, 10), vec![]);
    assert_eq!(
        restored.list_certificates_by_issuer(admin, 0, 10).iter().map(|c| c.id).collect::<Vec<_>>(),
        vec![first, second]
    );
    let mut restored = restored;
    assert_eq!(restored.take_events(), vec![]);
}

#[test]
fn empty_snapshot_is_an_empty_registry() {
    let snapshot = CertificationContract::new().snapshot();
    assert_eq!(
        snapshot,
        RegistrySnapshot {
            admin: None,
            issuers: vec![],
            certificates: vec![],
            owner_index: vec![],
            issuer_index: vec![],
        }
    );
    let restored = CertificationContract::restore(snapshot).unwrap();
    assert_eq!(restored.get_admin(), Err(Error::NotInitialized));
}

#[test]
fn malformed_access_control_is_refused() {
    let refused = |admin: Option<Identity>, issuers: Vec<Identity>| {
        CertificationContract::restore(RegistrySnapshot {
            admin,
            issuers,
            certificates: vec![],
            owner_index: vec![],
            issuer_index: vec![],
        })
        .map(|_| ())
    };
    assert_eq!(refused(None, vec![party(1)]), Err(Error::InvalidInput));
    assert_eq!(refused(Some(Identity::new(vec![])), vec![]), Err(Error::InvalidInput));
    assert_eq!(refused(Some(party(1)), vec![party(2), party(2)]), Err(Error::InvalidInput));
    assert_eq!(refused(Some(party(1)), vec![Identity::new(vec![])]), Err(Error::InvalidInput));
    assert_eq!(refused(Some(party(1)), vec![party(2), party(1)]), Ok(()));
}

#[test]
fn inconsistent_records_are_refused() {
    let o = party(1);
    let p = party(2);
    let i = party(3);
    let restore = |certificates: Vec<Certificate>, owners: Vec<IndexEntry>, issuers: Vec<IndexEntry>| {
        CertificateStore::restore(certificates, owners, issuers).map(|store| store.len())
    };
    let two = || vec![certificate(1, &o, &i), certificate(2, &p, &i)];
    assert_eq!(
        restore(two(), vec![entry(&o, &[1]), entry(&p, &[2])], vec![entry(&i, &[1, 2])]),
        Ok(2)
    );
    assert_eq!(
        restore(two(), vec![entry(&p, &[2]), entry(&o, &[1])], vec![entry(&i, &[2, 1])]),
        Ok(2)
    );
    // an identifier used twice
    assert_eq!(
        restore(
            vec![certificate(1, &o, &i), certificate(1, &o, &i)],
            vec![entry(&o, &[1])],
            vec![entry(&i, &[1])]
        ),
        Err(Error::InvalidInput)
    );
    // a certificate of nobody
    assert_eq!(
        restore(
            vec![certificate(1, &Identity::new(vec![]), &i)],
            vec![entry(&Identity::new(vec![]), &[1])],
            vec![entry(&i, &[1])]
        ),
        Err(Error::InvalidInput)
    );
    // a certificate missing from its owner's list
    assert_eq!(
        restore(two(), vec![entry(&o, &[1])], vec![entry(&i, &[1, 2])]),
        Err(Error::InvalidInput)
    );
    // a certificate in another party's list
    assert_eq!(
        restore(two(), vec![entry(&o, &[1, 2]), entry(&p, &[2])], vec![entry(&i, &[1, 2])]),
        Err(Error::InvalidInput)
    );
    // an identifier listed twice
    assert_eq!(
        restore(two(), vec![entry(&o, &[1, 1]), entry(&p, &[2])], vec![entry(&i, &[1, 2])]),
        Err(Error::InvalidInput)
    );
    // an identifier without certificate
    assert_eq!(
        restore(two(), vec![entry(&o, &[1, 3]), entry(&p, &[2])], vec![entry(&i, &[1, 2])]),
        Err(Error::InvalidInput)
    );
    // a party with two entries
    assert_eq!(
        restore(
            two(),
            vec![entry(&o, &[1]), entry(&p, &[2]), entry(&o, &[])],
            vec![entry(&i, &[1, 2])]
        ),
        Err(Error::InvalidInput)
    );
    // a certificate missing from its issuer's list
    assert_eq!(
        restore(two(), vec![entry(&o, &[1]), entry(&p, &[2])], vec![entry(&i, &[1])]),
        Err(Error::InvalidInput)
    );
}

#[test]
fn store_refuses_what_would_overwrite() {
    let o = party(1);
    let i = party(3);
    let mut store = CertificateStore::new();
    assert_eq!(store.put(certificate(1, &o, &i)), Ok(()));
    assert_eq!(store.put(certificate(1, &i, &o)), Err(Error::AlreadyExists));
    assert_eq!(store.put(certificate(2, &Identity::new(vec![]), &i)), Err(Error::InvalidInput));
    assert_eq!(store.put(certificate(2, &o, &Identity::new(vec![]))), Err(Error::InvalidInput));
    assert_eq!(store.len(), 1);
    assert!(store.contains(&CertificateId([1u8; 32])));
    assert!(!store.contains(&CertificateId([2u8; 32])));
    assert_eq!(store.get(&CertificateId([1u8; 32])), Ok(certificate(1, &o, &i)));
    assert_eq!(store.get(&CertificateId([2u8; 32])), Err(Error::NotFound));
    assert_eq!(store.reassign(&CertificateId([2u8; 32]), &i), Err(Error::NotFound));
    assert_eq!(
        store.reassign(&CertificateId([1u8; 32]), &Identity::new(vec![])),
        Err(Error::InvalidInput)
    );
    assert_eq!(store.reassign(&CertificateId([1u8; 32]), &i), Ok(()));
    assert_eq!(store.owner_certificates(&i), vec![CertificateId([1u8; 32])]);
    assert_eq!(store.owner_certificates(&o), vec![]);
    assert_eq!(store.issuer_certificates(&i), vec![CertificateId([1u8; 32])]);
    assert_eq!(store.count_by_owner(&i), 1);
    assert_eq!(store.count_by_issuer(&o), 0);
    assert_eq!(store.revoke(&CertificateId([2u8; 32])), Err(Error::NotFound));
    assert_eq!(store.revoke(&CertificateId([1u8; 32])), Ok(true));
    assert_eq!(store.revoke(&CertificateId([1u8; 32])), Ok(false));
}

#[test]
fn index_appends_and_rebuilds() {
    let a = party(1);
    let b = party(2);
    let id = |tag: u8| CertificateId([tag; 32]);
    let mut index = CertificateIndex::new();
    assert_eq!(index.get(&a), vec![]);
    index.append(&a, id(1));
    index.append(&b, id(2));
    index.append(&a, id(3));
    index.append(&a, id(1));
    assert_eq!(index.get(&a), vec![id(1), id(3), id(1)]);
    assert_eq!(index.count(&a), 3);
    assert!(index.lists(&a, &id(3)));
    assert!(!index.lists(&b, &id(3)));
    index.remove(&a, &id(1));
    assert_eq!(index.get(&a), vec![id(3)]);
    index.remove(&a, &id(9));
    index.remove(&party(7), &id(9));
    assert_eq!(index.get(&a), vec![id(3)]);
    assert_eq!(index.get(&b), vec![id(2)]);
    assert_eq!(index.entries().len(), 3);
    assert!(CertificateIndex::from_entries(vec![entry(&a, &[1]), entry(&a, &[2])]).is_none());
    let rebuilt = CertificateIndex::from_entries(vec![entry(&a, &[1]), entry(&b, &[2])]).unwrap();
    assert_eq!(rebuilt.get(&b), vec![id(2)]);
}
