//! Certificates, their identifiers and their metadata.

use vstd::prelude::*;
use crate::crypto::validate_hash;
use crate::identity::Identity;

verus! {

/// The identifier of a certificate: the SHA-256 digest of what it was
/// issued with.
#[derive(Debug, Clone, Copy, PartialEq, Eq)]
pub struct CertificateId(pub [u8; 32]);

impl View for CertificateId {
    type V = Seq<u8>;

    open spec fn view(&self) -> Seq<u8> {
        self.0@
    }
}

impl CertificateId {
    /// Whether both identifiers are the same.
    pub fn same_as(&self, other: &CertificateId) -> (same: bool)
        ensures
            same == (self@ == other@),
    {
        validate_hash(&self.0, &other.0)
    }
}

/// One auxiliary hash of a certificate's metadata, under its key.
#[derive(Debug, PartialEq, Eq)]
pub struct AuxiliaryHash {
    pub key: String,
    pub hash: [u8; 32],
}

impl View for AuxiliaryHash {
    type V = (Seq<char>, Seq<u8>);

    open spec fn view(&self) -> (Seq<char>, Seq<u8>) {
        (self.key@, self.hash@)
    }
}

impl Clone for AuxiliaryHash {
    fn clone(&self) -> (copy: Self)
        ensures
            copy@ == self@,
    {
        AuxiliaryHash { key: self.key.clone(), hash: self.hash }
    }
}

/// What a certificate says of its holder's achievement.
#[derive(Debug, PartialEq, Eq)]
pub struct CertificateMetadata {
    pub title: String,
    pub description: String,
    pub achievement_type: String,
    pub additional_data: Vec<AuxiliaryHash>,
}

/// Metadata as contracts see it.
pub struct MetadataView {
    pub title: Seq<char>,
    pub description: Seq<char>,
    pub achievement_type: Seq<char>,
    pub additional_data: Seq<(Seq<char>, Seq<u8>)>,
}

impl View for CertificateMetadata {
    type V = MetadataView;

    open spec fn view(&self) -> MetadataView {
        MetadataView {
            title: self.title@,
            description: self.description@,
            achievement_type: self.achievement_type@,
            additional_data: self.additional_data@.map_values(|entry: AuxiliaryHash| entry@),
        }
    }
}

impl Clone for CertificateMetadata {
    fn clone(&self) -> (copy: Self)
        ensures
            copy@ == self@,
    {
        let mut additional_data: Vec<AuxiliaryHash> = Vec::new();
        let mut i: usize = 0;
        while i < self.additional_data.len()
            invariant
                i <= self.additional_data.len(),
                additional_data@.len() == i,
                forall|j: int| 0 <= j < i ==> additional_data@[j]@ == self.additional_data@[j]@,
            decreases self.additional_data.len() - i,
        {
            additional_data.push(self.additional_data[i].clone());
            i += 1;
        }
        let copy = CertificateMetadata {
            title: self.title.clone(),
            description: self.description.clone(),
            achievement_type: self.achievement_type.clone(),
            additional_data,
        };
        assert(copy@.additional_data =~= self@.additional_data);
        copy
    }
}

/// A certificate as the registry stores it.
#[derive(Debug, PartialEq, Eq)]
pub struct Certificate {
    pub id: CertificateId,
    pub owner: Identity,
    pub issuer: Identity,
    pub metadata: CertificateMetadata,
    pub issuance_date: u64,
    pub expiration_date: Option<u64>,
    pub revoked: bool,
    pub signature: [u8; 64],
}

/// A certificate as contracts see it.
pub struct CertificateView {
    pub id: Seq<u8>,
    pub owner: Seq<u8>,
    pub issuer: Seq<u8>,
    pub metadata: MetadataView,
    pub issuance_date: u64,
    pub expiration_date: Option<u64>,
    pub revoked: bool,
    pub signature: Seq<u8>,
}

impl View for Certificate {
    type V = CertificateView;

    open spec fn view(&self) -> CertificateView {
        CertificateView {
            id: self.id@,
            owner: self.owner@,
            issuer: self.issuer@,
            metadata: self.metadata@,
            issuance_date: self.issuance_date,
            expiration_date: self.expiration_date,
            revoked: self.revoked,
            signature: self.signature@,
        }
    }
}

impl Clone for Certificate {
    fn clone(&self) -> (copy: Self)
        ensures
            copy@ == self@,
    {
        Certificate {
            id: self.id,
            owner: self.owner.clone(),
            issuer: self.issuer.clone(),
            metadata: self.metadata.clone(),
            issuance_date: self.issuance_date,
            expiration_date: self.expiration_date,
            revoked: self.revoked,
            signature: self.signature,
        }
    }
}

} // verus!
