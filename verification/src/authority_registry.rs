//! The registry of certifying authorities.

use vstd::prelude::*;
use vstd::string::StringExecFns;
use crate::authority::{contains_text, copy_texts, same_text, text_views, AuthorityInfo,
    AuthorityInfoView, AuthorityLookup};
use crate::error::Error;
use crate::identity::{Identity, Invocation, InvocationView};
use crate::status::AuthorityStatus;
use crate::text::{decimal, u32_to_string};

verus! {

/// What the registry keeps of one certifying authority.
#[derive(Debug, PartialEq, Eq)]
pub struct Authority {
    /// The label that the registry gave the authority.
    pub authority_id: String,
    pub name: String,
    /// The authority's identity, under which it is registered.
    pub public_key: Identity,
    /// The Ed25519 key that the authority signs certificates with.
    pub signing_key: [u8; 32],
    pub registration_date: u64,
    pub accreditation_info: String,
    pub allowed_cert_types: Vec<String>,
    pub status: AuthorityStatus,
}

/// An authority as contracts see it.
pub struct AuthorityView {
    pub authority_id: Seq<char>,
    pub name: Seq<char>,
    pub public_key: Seq<u8>,
    pub signing_key: Seq<u8>,
    pub registration_date: u64,
    pub accreditation_info: Seq<char>,
    pub allowed_cert_types: Seq<Seq<char>>,
    pub status: AuthorityStatus,
}

impl AuthorityView {
    /// What the information lookup tells of this authority.
    pub open spec fn info(self) -> AuthorityInfoView {
        AuthorityInfoView {
            id: self.public_key,
            name: self.name,
            public_key: self.signing_key,
            accreditation_info: self.accreditation_info,
            allowed_cert_types: self.allowed_cert_types,
            status: self.status,
        }
    }

    /// Whether this authority is active and may sign certificates of
    /// `cert_type`.
    pub open spec fn allows(self, cert_type: Seq<char>) -> bool {
        self.status == AuthorityStatus::Active && self.allowed_cert_types.contains(cert_type)
    }
}

impl View for Authority {
    type V = AuthorityView;

    open spec fn view(&self) -> AuthorityView {
        AuthorityView {
            authority_id: self.authority_id@,
            name: self.name@,
            public_key: self.public_key@,
            signing_key: self.signing_key@,
            registration_date: self.registration_date,
            accreditation_info: self.accreditation_info@,
            allowed_cert_types: text_views(self.allowed_cert_types@),
            status: self.status,
        }
    }
}

impl Clone for Authority {
    fn clone(&self) -> (copy: Self)
        ensures
            copy@ == self@,
    {
        Authority {
            authority_id: self.authority_id.clone(),
            name: self.name.clone(),
            public_key: self.public_key.clone(),
            signing_key: self.signing_key,
            registration_date: self.registration_date,
            accreditation_info: self.accreditation_info.clone(),
            allowed_cert_types: copy_texts(&self.allowed_cert_types),
            status: self.status,
        }
    }
}

impl Authority {
    /// What the information lookup tells of this authority.
    pub fn info(&self) -> (info: AuthorityInfo)
        ensures
            info@ == self@.info(),
    {
        AuthorityInfo {
            id: self.public_key.clone(),
            name: self.name.clone(),
            public_key: self.signing_key,
            accreditation_info: self.accreditation_info.clone(),
            allowed_cert_types: copy_texts(&self.allowed_cert_types),
            status: self.status,
        }
    }
}

/// Whether an authority with identity `id` is among `authorities`.
pub open spec fn registered(authorities: Seq<AuthorityView>, id: Seq<u8>) -> bool {
    exists|i: int| 0 <= i < authorities.len() && (#[trigger] authorities[i]).public_key == id
}

/// Where the authority with identity `id` stands among `authorities`.
pub open spec fn place_of(authorities: Seq<AuthorityView>, id: Seq<u8>) -> int {
    choose|i: int| 0 <= i < authorities.len() && (#[trigger] authorities[i]).public_key == id
}

/// The authority with identity `id` among `authorities`.
pub open spec fn authority(authorities: Seq<AuthorityView>, id: Seq<u8>) -> AuthorityView {
    authorities[place_of(authorities, id)]
}

/// No two of `authorities` share an identity.
pub open spec fn distinct_authorities(authorities: Seq<AuthorityView>) -> bool {
    forall|i: int, j: int|
        0 <= i < authorities.len() && 0 <= j < authorities.len() && i != j ==> (
        #[trigger] authorities[i]).public_key != (#[trigger] authorities[j]).public_key
}

/// The views of a sequence of authorities, in order.
pub open spec fn authority_views(authorities: Seq<Authority>) -> Seq<AuthorityView> {
    authorities.map_values(|authority: Authority| authority@)
}

/// With distinct identities, the authority at a place is the one that its
/// identity finds.
pub proof fn lemma_authority_at(authorities: Seq<AuthorityView>, i: int)
    requires
        distinct_authorities(authorities),
        0 <= i < authorities.len(),
    ensures
        registered(authorities, authorities[i].public_key),
        place_of(authorities, authorities[i].public_key) == i,
        authority(authorities, authorities[i].public_key) == authorities[i],
{
    assert(authorities[i].public_key == authorities[i].public_key);
}

/// The label of the authority that is registered as number `number`.
pub open spec fn authority_label(number: u32) -> Seq<char> {
    seq!['A', 'U', 'T', 'H', '_'] + decimal(number as nat)
}

/// `list` without every occurrence of `text`, the rest in order.
pub open spec fn without_text(list: Seq<Seq<char>>, text: Seq<char>) -> Seq<Seq<char>>
    decreases list.len(),
{
    if list.len() == 0 {
        list
    } else if list.last() == text {
        without_text(list.drop_last(), text)
    } else {
        without_text(list.drop_last(), text).push(list.last())
    }
}

/// The registry of authorities as contracts see it.
pub struct AuthorityRegistryView {
    pub admin: Option<Seq<u8>>,
    /// The number that the next authority is registered as.
    pub next_authority_id: u32,
    pub authorities: Seq<AuthorityView>,
}

impl AuthorityRegistryView {
    /// Whether `id` is registered.
    pub open spec fn registered(self, id: Seq<u8>) -> bool {
        registered(self.authorities, id)
    }

    /// The authority registered under `id`.
    pub open spec fn authority(self, id: Seq<u8>) -> AuthorityView {
        authority(self.authorities, id)
    }

    /// The registry with the entry of `id` replaced by `changed`.
    pub open spec fn with_changed(self, id: Seq<u8>, changed: AuthorityView)
        -> AuthorityRegistryView {
        AuthorityRegistryView {
            authorities: self.authorities.update(place_of(self.authorities, id), changed),
            ..self
        }
    }

    /// Why an authority cannot be registered, if it cannot: it has not
    /// authorized the call, its identity, its name or its accreditation
    /// details are empty or a certificate type is named twice, its identity
    /// is registered already, or the numbers have run out.
    pub open spec fn registration_refusal(
        self,
        invocation: InvocationView,
        name: Seq<char>,
        public_key: Seq<u8>,
        accreditation_info: Seq<char>,
        allowed_cert_types: Seq<Seq<char>>,
    ) -> Option<Error> {
        if !invocation.authorized_by(public_key) {
            Some(Error::Unauthorized)
        } else if public_key.len() == 0 || name.len() == 0 || accreditation_info.len() == 0
            || !allowed_cert_types.no_duplicates() {
            Some(Error::InvalidInput)
        } else if self.registered(public_key) {
            Some(Error::AlreadyExists)
        } else if self.next_authority_id == u32::MAX {
            Some(Error::CapacityExceeded)
        } else {
            None
        }
    }

    /// Why the entry of `id` cannot be changed, if it cannot: the authority
    /// has not authorized the call, it is not registered, or it is not
    /// active.
    pub open spec fn change_refusal(self, invocation: InvocationView, id: Seq<u8>) -> Option<
        Error,
    > {
        if !invocation.authorized_by(id) {
            Some(Error::Unauthorized)
        } else if !self.registered(id) {
            Some(Error::NotFound)
        } else if self.authority(id).status != AuthorityStatus::Active {
            Some(Error::InvalidStatus)
        } else {
            None
        }
    }
}

/// Whether a list of texts names nothing twice.
pub fn distinct_texts(list: &Vec<String>) -> (distinct: bool)
    ensures
        distinct == text_views(list@).no_duplicates(),
{
    let mut seen: Vec<String> = Vec::new();
    let mut i: usize = 0;
    while i < list.len()
        invariant
            i <= list.len(),
            text_views(seen@) == text_views(list@).subrange(0, i as int),
            text_views(list@).subrange(0, i as int).no_duplicates(),
        decreases list.len() - i,
    {
        let ghost texts = text_views(list@);
        if contains_text(&seen, list[i].as_str()) {
            proof {
                let prefix = texts.subrange(0, i as int);
                let j = choose|j: int| 0 <= j < prefix.len() && prefix[j] == list@[i as int]@;
                assert(texts[j] == texts[i as int]);
            }
            return false;
        }
        let ghost before = text_views(seen@);
        seen.push(list[i].clone());
        proof {
            let prefix = texts.subrange(0, i as int);
            let longer = texts.subrange(0, i + 1);
            assert(text_views(seen@) =~= before.push(list@[i as int]@));
            assert(text_views(seen@) =~= longer);
            assert forall|a: int, b: int|
                0 <= a < longer.len() && 0 <= b < longer.len() && a != b implies longer[a]
                != longer[b] by {
                if a < i && b < i {
                    assert(prefix[a] != prefix[b]);
                } else if a < i {
                    assert(prefix[a] == longer[a]);
                    assert(prefix.contains(prefix[a]));
                } else {
                    assert(prefix[b] == longer[b]);
                    assert(prefix.contains(prefix[b]));
                }
            }
        }
        i += 1;
    }
    assert(text_views(list@).subrange(0, list@.len() as int) =~= text_views(list@));
    true
}

/// A copy of `list` without `text`.
pub fn remove_text(list: &Vec<String>, text: &str) -> (kept: Vec<String>)
    ensures
        text_views(kept@) == without_text(text_views(list@), text@),
{
    let mut kept: Vec<String> = Vec::new();
    let mut i: usize = 0;
    while i < list.len()
        invariant
            i <= list.len(),
            text_views(kept@) == without_text(text_views(list@).subrange(0, i as int), text@),
        decreases list.len() - i,
    {
        let ghost prefix = text_views(list@).subrange(0, i as int);
        let ghost longer = text_views(list@).subrange(0, i + 1);
        assert(longer.drop_last() =~= prefix);
        assert(longer.last() == list@[i as int]@);
        if !same_text(list[i].as_str(), text) {
            let ghost before = text_views(kept@);
            kept.push(list[i].clone());
            assert(text_views(kept@) =~= before.push(list@[i as int]@));
        }
        i += 1;
    }
    assert(text_views(list@).subrange(0, list@.len() as int) =~= text_views(list@));
    kept
}

/// The registry of certifying authorities: who may sign certificates, with
/// which key, and of which types.
#[derive(Debug)]
pub struct CertifyingAuthority {
    admin: Option<Identity>,
    next_authority_id: u32,
    authorities: Vec<Authority>,
}

impl View for CertifyingAuthority {
    type V = AuthorityRegistryView;

    closed spec fn view(&self) -> AuthorityRegistryView {
        AuthorityRegistryView {
            admin: match self.admin {
                Some(admin) => Some(admin@),
                None => None,
            },
            next_authority_id: self.next_authority_id,
            authorities: authority_views(self.authorities@),
        }
    }
}

impl CertifyingAuthority {
    /// What every registry of authorities upholds: no identity is
    /// registered twice.
    pub open spec fn wf(&self) -> bool {
        distinct_authorities(self@.authorities)
    }

    /// A registry without administrator and without authorities; the first
    /// authority will be number one.
    pub fn new() -> (registry: CertifyingAuthority)
        ensures
            registry.wf(),
            registry@.admin is None,
            registry@.next_authority_id == 1,
            registry@.authorities.len() == 0,
    {
        CertifyingAuthority { admin: None, next_authority_id: 1, authorities: Vec::new() }
    }

    /// The registry that an administrator, the next number and a list of
    /// authorities stand for; `InvalidInput` where an identity occurs twice
    /// among the authorities.
    pub fn restore(admin: Option<Identity>, next_authority_id: u32, authorities: Vec<Authority>)
        -> (registry: Result<CertifyingAuthority, Error>)
        ensures
            match registry {
                Ok(registry) => distinct_authorities(authority_views(authorities@))
                    && registry.wf() && registry@ == (AuthorityRegistryView {
                    admin: match admin {
                        Some(admin) => Some(admin@),
                        None => None,
                    },
                    next_authority_id,
                    authorities: authority_views(authorities@),
                }),
                Err(e) => !distinct_authorities(authority_views(authorities@)) && e
                    == Error::InvalidInput,
            },
    {
        let ghost views = authority_views(authorities@);
        let mut i: usize = 0;
        while i < authorities.len()
            invariant
                i <= authorities.len(),
                views == authority_views(authorities@),
                forall|a: int, b: int|
                    0 <= a < i && 0 <= b < i && a != b ==> (#[trigger] views[a]).public_key != (
                    #[trigger] views[b]).public_key,
            decreases authorities.len() - i,
        {
            let mut j: usize = 0;
            while j < i
                invariant
                    j <= i < authorities.len(),
                    views == authority_views(authorities@),
                    forall|b: int|
                        0 <= b < j ==> (#[trigger] views[b]).public_key
                            != views[i as int].public_key,
                decreases i - j,
            {
                if authorities[j].public_key.same_as(&authorities[i].public_key) {
                    assert(views[j as int].public_key == views[i as int].public_key);
                    return Err(Error::InvalidInput);
                }
                j += 1;
            }
            i += 1;
        }
        Ok(CertifyingAuthority { admin, next_authority_id, authorities })
    }

    /// The administrator, where the registry has one.
    pub fn admin(&self) -> (admin: Option<Identity>)
        ensures
            self@.admin == (match admin {
                Some(admin) => Some(admin@),
                None => None,
            }),
    {
        match &self.admin {
            Some(admin) => Some(admin.clone()),
            None => None,
        }
    }

    /// The number that the next authority is registered as.
    pub fn next_authority_id(&self) -> (number: u32)
        ensures
            number == self@.next_authority_id,
    {
        self.next_authority_id
    }

    /// The authorities, in the order of their registration.
    pub fn authorities(&self) -> (authorities: Vec<Authority>)
        ensures
            authority_views(authorities@) == self@.authorities,
    {
        let mut authorities: Vec<Authority> = Vec::new();
        let mut i: usize = 0;
        while i < self.authorities.len()
            invariant
                i <= self.authorities.len(),
                authorities@.len() == i,
                forall|j: int|
                    0 <= j < i ==> (#[trigger] authorities@[j])@ == self.authorities@[j]@,
            decreases self.authorities.len() - i,
        {
            authorities.push(self.authorities[i].clone());
            i += 1;
        }
        assert(authority_views(authorities@) =~= self@.authorities);
        authorities
    }

    /// Gives the registry its administrator, once, with the
    /// administrator's authorization.
    pub fn initialize(&mut self, invocation: &Invocation, admin: Identity) -> (done: Result<
        (),
        Error,
    >)
        requires
            old(self).wf(),
        ensures
            final(self).wf(),
            match done {
                Ok(()) => old(self)@.admin is None && invocation@.authorized_by(admin@)
                    && final(self)@ == (AuthorityRegistryView {
                    admin: Some(admin@),
                    ..old(self)@
                }),
                Err(e) => final(self)@ == old(self)@ && e == (if old(self)@.admin is Some {
                    Error::AlreadyInitialized
                } else {
                    Error::Unauthorized
                }) && (old(self)@.admin is Some || !invocation@.authorized_by(admin@)),
            },
    {
        if self.admin.is_some() {
            return Err(Error::AlreadyInitialized);
        }
        if !invocation.authorized_by(&admin) {
            return Err(Error::Unauthorized);
        }
        self.admin = Some(admin);
        Ok(())
    }

    fn find(&self, id: &Identity) -> (place: Option<usize>)
        requires
            self.wf(),
        ensures
            match place {
                Some(p) => self@.registered(id@) && p == place_of(self@.authorities, id@) && p
                    < self.authorities@.len() && self.authorities@[p as int]@ == self@.authority(
                    id@,
                ),
                None => !self@.registered(id@),
            },
    {
        let mut i: usize = 0;
        while i < self.authorities.len()
            invariant
                self.wf(),
                i <= self.authorities.len(),
                forall|j: int| 0 <= j < i ==> (#[trigger] self@.authorities[j]).public_key != id@,
            decreases self.authorities.len() - i,
        {
            if self.authorities[i].public_key.same_as(id) {
                proof {
                    lemma_authority_at(self@.authorities, i as int);
                }
                return Some(i);
            }
            i += 1;
        }
        None
    }

    /// Registers an authority as active, with its signing key and the
    /// certificate types it may sign, at the ledger's time. The authority
    /// itself must have authorized the call. Returns the label that the
    /// registry gives it: `AUTH_` and its number.
    pub fn register_authority(
        &mut self,
        invocation: &Invocation,
        name: String,
        public_key: Identity,
        signing_key: [u8; 32],
        accreditation_info: String,
        allowed_cert_types: Vec<String>,
    ) -> (label: Result<String, Error>)
        requires
            old(self).wf(),
        ensures
            final(self).wf(),
            match label {
                Ok(label) => old(self)@.registration_refusal(
                    invocation@,
                    name@,
                    public_key@,
                    accreditation_info@,
                    text_views(allowed_cert_types@),
                ) is None && label@ == authority_label(old(self)@.next_authority_id)
                    && final(self)@ == (AuthorityRegistryView {
                    next_authority_id: (old(self)@.next_authority_id + 1) as u32,
                    authorities: old(self)@.authorities.push(
                        AuthorityView {
                            authority_id: label@,
                            name: name@,
                            public_key: public_key@,
                            signing_key: signing_key@,
                            registration_date: invocation@.timestamp,
                            accreditation_info: accreditation_info@,
                            allowed_cert_types: text_views(allowed_cert_types@),
                            status: AuthorityStatus::Active,
                        },
                    ),
                    ..old(self)@
                }),
                Err(e) => old(self)@.registration_refusal(
                    invocation@,
                    name@,
                    public_key@,
                    accreditation_info@,
                    text_views(allowed_cert_types@),
                ) == Some(e) && final(self)@ == old(self)@,
            },
    {
        if !invocation.authorized_by(&public_key) {
            return Err(Error::Unauthorized);
        }
        if public_key.is_empty() || name.as_str().is_empty()
            || accreditation_info.as_str().is_empty() || !distinct_texts(&allowed_cert_types) {
            return Err(Error::InvalidInput);
        }
        if self.find(&public_key).is_some() {
            return Err(Error::AlreadyExists);
        }
        if self.next_authority_id == u32::MAX {
            return Err(Error::CapacityExceeded);
        }
        proof {
            reveal_strlit("AUTH_");
        }
        let mut label = String::from_str("AUTH_");
        let number = u32_to_string(self.next_authority_id);
        label.append(number.as_str());
        assert(label@ =~= authority_label(self.next_authority_id));
        let authority = Authority {
            authority_id: label.clone(),
            name,
            public_key,
            signing_key,
            registration_date: invocation.timestamp,
            accreditation_info,
            allowed_cert_types,
            status: AuthorityStatus::Active,
        };
        let ghost added = authority@;
        let ghost before = self@.authorities;
        self.authorities.push(authority);
        self.next_authority_id = self.next_authority_id + 1;
        proof {
            assert(self@.authorities =~= before.push(added));
            assert forall|i: int, j: int|
                0 <= i < self@.authorities.len() && 0 <= j < self@.authorities.len() && i
                    != j implies (#[trigger] self@.authorities[i]).public_key != (
            #[trigger] self@.authorities[j]).public_key by {
                if i < before.len() && j < before.len() {
                    assert(before[i].public_key != before[j].public_key);
                } else if i < before.len() {
                    assert(before[i].public_key != added.public_key);
                } else {
                    assert(before[j].public_key != added.public_key);
                }
            }
        }
        Ok(label)
    }

    fn store_changed(&mut self, place: usize, changed: Authority)
        requires
            old(self).wf(),
            place < old(self)@.authorities.len(),
            changed@.public_key == old(self)@.authorities[place as int].public_key,
        ensures
            final(self).wf(),
            final(self)@ == (AuthorityRegistryView {
                authorities: old(self)@.authorities.update(place as int, changed@),
                ..old(self)@
            }),
    {
        let ghost changed_view = changed@;
        let ghost before = self@.authorities;
        self.authorities.set(place, changed);
        proof {
            assert(self@.authorities =~= before.update(place as int, changed_view));
            assert forall|i: int, j: int|
                0 <= i < self@.authorities.len() && 0 <= j < self@.authorities.len() && i
                    != j implies (#[trigger] self@.authorities[i]).public_key != (
            #[trigger] self@.authorities[j]).public_key by {
                assert(self@.authorities[i].public_key == before[i].public_key);
                assert(self@.authorities[j].public_key == before[j].public_key);
            }
        }
    }

    /// The entry of an active authority that has authorized the call, with
    /// its place.
    fn changeable(&self, invocation: &Invocation, id: &Identity) -> (found: Result<
        (usize, Authority),
        Error,
    >)
        requires
            self.wf(),
        ensures
            match found {
                Ok((place, entry)) => self@.change_refusal(invocation@, id@) is None && place
                    == place_of(self@.authorities, id@) && place < self@.authorities.len()
                    && entry@ == self@.authority(id@),
                Err(e) => self@.change_refusal(invocation@, id@) == Some(e),
            },
    {
        if !invocation.authorized_by(id) {
            return Err(Error::Unauthorized);
        }
        match self.find(id) {
            None => Err(Error::NotFound),
            Some(place) => {
                let entry = self.authorities[place].clone();
                if entry.status != AuthorityStatus::Active {
                    return Err(Error::InvalidStatus);
                }
                Ok((place, entry))
            },
        }
    }

    /// Gives an active authority a new name, for the authority itself.
    pub fn update_name(&mut self, invocation: &Invocation, id: &Identity, name: String) -> (done:
        Result<(), Error>)
        requires
            old(self).wf(),
        ensures
            final(self).wf(),
            match done {
                Ok(()) => old(self)@.change_refusal(invocation@, id@) is None && final(self)@
                    == old(self)@.with_changed(
                    id@,
                    AuthorityView { name: name@, ..old(self)@.authority(id@) },
                ),
                Err(e) => old(self)@.change_refusal(invocation@, id@) == Some(e) && final(self)@
                    == old(self)@,
            },
    {
        match self.changeable(invocation, id) {
            Err(e) => Err(e),
            Ok((place, mut entry)) => {
                entry.name = name;
                self.store_changed(place, entry);
                Ok(())
            },
        }
    }

    /// Gives an active authority new accreditation details, for the
    /// authority itself.
    pub fn update_accreditation_info(
        &mut self,
        invocation: &Invocation,
        id: &Identity,
        accreditation_info: String,
    ) -> (done: Result<(), Error>)
        requires
            old(self).wf(),
        ensures
            final(self).wf(),
            match done {
                Ok(()) => old(self)@.change_refusal(invocation@, id@) is None && final(self)@
                    == old(self)@.with_changed(
                    id@,
                    AuthorityView {
                        accreditation_info: accreditation_info@,
                        ..old(self)@.authority(id@)
                    },
                ),
                Err(e) => old(self)@.change_refusal(invocation@, id@) == Some(e) && final(self)@
                    == old(self)@,
            },
    {
        match self.changeable(invocation, id) {
            Err(e) => Err(e),
            Ok((place, mut entry)) => {
                entry.accreditation_info = accreditation_info;
                self.store_changed(place, entry);
                Ok(())
            },
        }
    }

    /// Changes the field of an active authority that `field` names: `name`
    /// or `accreditation_info`. Any other name is refused with
    /// `InvalidField`, once the authority was found changeable.
    pub fn update_authority_info(
        &mut self,
        invocation: &Invocation,
        authority_id: &Identity,
        field: &str,
        value: String,
    ) -> (done: Result<(), Error>)
        requires
            old(self).wf(),
        ensures
            final(self).wf(),
            match done {
                Ok(()) => old(self)@.change_refusal(invocation@, authority_id@) is None && (field@
                    == "name"@ || field@ == "accreditation_info"@)
                        && final(self)@ == old(self)@.with_changed(
                    authority_id@,
                    if field@ == "name"@ {
                        AuthorityView { name: value@, ..old(self)@.authority(authority_id@) }
                    } else {
                        AuthorityView {
                            accreditation_info: value@,
                            ..old(self)@.authority(authority_id@)
                        }
                    },
                ),
                Err(e) => final(self)@ == old(self)@ && (match old(self)@.change_refusal(
                    invocation@,
                    authority_id@,
                ) {
                    Some(refusal) => e == refusal,
                    None => e == Error::InvalidField && field@ != "name"@ && field@
                        != "accreditation_info"@,
                }),
            },
    {
        if same_text(field, "name") {
            self.update_name(invocation, authority_id, value)
        } else if same_text(field, "accreditation_info") {
            self.update_accreditation_info(invocation, authority_id, value)
        } else {
            match self.changeable(invocation, authority_id) {
                Err(e) => Err(e),
                Ok(_) => Err(Error::InvalidField),
            }
        }
    }

    /// Whether the authority `authority_id` is registered and active.
    pub fn verify_authority(&self, authority_id: &Identity) -> (active: bool)
        requires
            self.wf(),
        ensures
            active == (self@.registered(authority_id@) && self@.authority(authority_id@).status
                == AuthorityStatus::Active),
    {
        match self.find(authority_id) {
            Some(place) => self.authorities[place].status == AuthorityStatus::Active,
            None => false,
        }
    }

    /// Whether the authority `authority_id` is active and may sign
    /// certificates of `cert_type`.
    pub fn is_authority_allowed_cert_type(&self, authority_id: &Identity, cert_type: &str) -> (
        allowed: bool)
        requires
            self.wf(),
        ensures
            allowed == (self@.registered(authority_id@) && self@.authority(authority_id@).allows(
                cert_type@,
            )),
    {
        match self.find(authority_id) {
            Some(place) => self.authorities[place].status == AuthorityStatus::Active
                && contains_text(&self.authorities[place].allowed_cert_types, cert_type),
            None => false,
        }
    }

    /// Deactivates an active authority, for the authority itself.
    pub fn deactivate_authority(&mut self, invocation: &Invocation, authority_id: &Identity) -> (
        done: Result<(), Error>)
        requires
            old(self).wf(),
        ensures
            final(self).wf(),
            match done {
                Ok(()) => old(self)@.change_refusal(invocation@, authority_id@) is None
                    && final(self)@ == old(self)@.with_changed(
                    authority_id@,
                    AuthorityView {
                        status: AuthorityStatus::Inactive,
                        ..old(self)@.authority(authority_id@)
                    },
                ),
                Err(e) => old(self)@.change_refusal(invocation@, authority_id@) == Some(e)
                    && final(self)@ == old(self)@,
            },
    {
        match self.changeable(invocation, authority_id) {
            Err(e) => Err(e),
            Ok((place, mut entry)) => {
                entry.status = AuthorityStatus::Inactive;
                self.store_changed(place, entry);
                Ok(())
            },
        }
    }

    /// Marks an active authority as suspended, for the authority itself.
    pub fn suspend_authority(&mut self, invocation: &Invocation, authority_id: &Identity) -> (
        done: Result<(), Error>)
        requires
            old(self).wf(),
        ensures
            final(self).wf(),
            match done {
                Ok(()) => old(self)@.change_refusal(invocation@, authority_id@) is None
                    && final(self)@ == old(self)@.with_changed(
                    authority_id@,
                    AuthorityView {
                        status: AuthorityStatus::Suspended,
                        ..old(self)@.authority(authority_id@)
                    },
                ),
                Err(e) => old(self)@.change_refusal(invocation@, authority_id@) == Some(e)
                    && final(self)@ == old(self)@,
            },
    {
        match self.changeable(invocation, authority_id) {
            Err(e) => Err(e),
            Ok((place, mut entry)) => {
                entry.status = AuthorityStatus::Suspended;
                self.store_changed(place, entry);
                Ok(())
            },
        }
    }

    /// Lets an active authority sign certificates of one more type, for the
    /// authority itself. `AlreadyExists` where it may already.
    pub fn add_certification_type(
        &mut self,
        invocation: &Invocation,
        authority_id: &Identity,
        cert_type: String,
    ) -> (done: Result<(), Error>)
        requires
            old(self).wf(),
        ensures
            final(self).wf(),
            match done {
                Ok(()) => old(self)@.change_refusal(invocation@, authority_id@) is None
                    && !old(self)@.authority(authority_id@).allowed_cert_types.contains(cert_type@)
                    && final(self)@ == old(self)@.with_changed(
                    authority_id@,
                    AuthorityView {
                        allowed_cert_types: old(self)@.authority(
                            authority_id@,
                        ).allowed_cert_types.push(cert_type@),
                        ..old(self)@.authority(authority_id@)
                    },
                ),
                Err(e) => final(self)@ == old(self)@ && (match old(self)@.change_refusal(
                    invocation@,
                    authority_id@,
                ) {
                    Some(refusal) => e == refusal,
                    None => e == Error::AlreadyExists && old(self)@.authority(
                        authority_id@,
                    ).allowed_cert_types.contains(cert_type@),
                }),
            },
    {
        match self.changeable(invocation, authority_id) {
            Err(e) => Err(e),
            Ok((place, mut entry)) => {
                if contains_text(&entry.allowed_cert_types, cert_type.as_str()) {
                    return Err(Error::AlreadyExists);
                }
                let ghost before = text_views(entry.allowed_cert_types@);
                entry.allowed_cert_types.push(cert_type);
                assert(text_views(entry.allowed_cert_types@) =~= before.push(cert_type@));
                self.store_changed(place, entry);
                Ok(())
            },
        }
    }

    /// Takes a certificate type from those that an active authority may
    /// sign, for the authority itself. `NotFound` where it may not sign it.
    pub fn remove_certification_type(
        &mut self,
        invocation: &Invocation,
        authority_id: &Identity,
        cert_type: &str,
    ) -> (done: Result<(), Error>)
        requires
            old(self).wf(),
        ensures
            final(self).wf(),
            match done {
                Ok(()) => old(self)@.change_refusal(invocation@, authority_id@) is None
                    && old(self)@.authority(authority_id@).allowed_cert_types.contains(cert_type@)
                    && final(self)@ == old(self)@.with_changed(
                    authority_id@,
                    AuthorityView {
                        allowed_cert_types: without_text(
                            old(self)@.authority(authority_id@).allowed_cert_types,
                            cert_type@,
                        ),
                        ..old(self)@.authority(authority_id@)
                    },
                ),
                Err(e) => final(self)@ == old(self)@ && (match old(self)@.change_refusal(
                    invocation@,
                    authority_id@,
                ) {
                    Some(refusal) => e == refusal,
                    None => e == Error::NotFound && !old(self)@.authority(
                        authority_id@,
                    ).allowed_cert_types.contains(cert_type@),
                }),
            },
    {
        match self.changeable(invocation, authority_id) {
            Err(e) => Err(e),
            Ok((place, mut entry)) => {
                if !contains_text(&entry.allowed_cert_types, cert_type) {
                    return Err(Error::NotFound);
                }
                entry.allowed_cert_types = remove_text(&entry.allowed_cert_types, cert_type);
                self.store_changed(place, entry);
                Ok(())
            },
        }
    }

    /// The entry of `authority_id`; `NotFound` where it is not registered.
    pub fn get_authority(&self, authority_id: &Identity) -> (found: Result<Authority, Error>)
        requires
            self.wf(),
        ensures
            match found {
                Ok(entry) => self@.registered(authority_id@) && entry@ == self@.authority(
                    authority_id@,
                ),
                Err(e) => !self@.registered(authority_id@) && e == Error::NotFound,
            },
    {
        match self.find(authority_id) {
            Some(place) => Ok(self.authorities[place].clone()),
            None => Err(Error::NotFound),
        }
    }

    /// What the information lookup returns of `authority_id`; `NotFound`
    /// where it is not registered.
    pub fn get_authority_info(&self, authority_id: &Identity) -> (found: Result<
        AuthorityInfo,
        Error,
    >)
        requires
            self.wf(),
        ensures
            match found {
                Ok(info) => self@.registered(authority_id@) && info@ == self@.authority(
                    authority_id@,
                ).info(),
                Err(e) => !self@.registered(authority_id@) && e == Error::NotFound,
            },
    {
        match self.find(authority_id) {
            Some(place) => Ok(self.authorities[place].info()),
            None => Err(Error::NotFound),
        }
    }

    /// What the lookups of a verification return of `authority_id` while
    /// the registry can be reached: its information where it is registered,
    /// and in any case whether it is active and which types it may sign.
    pub fn lookup(&self, authority_id: &Identity) -> (answers: AuthorityLookup)
        requires
            self.wf(),
        ensures
            answers@.info == (if self@.registered(authority_id@) {
                Some(self@.authority(authority_id@).info())
            } else {
                None
            }),
            answers@.active == Some(
                self@.registered(authority_id@) && self@.authority(authority_id@).status
                    == AuthorityStatus::Active,
            ),
            answers@.allowed_cert_types == Some(
                if self@.registered(authority_id@) {
                    self@.authority(authority_id@).allowed_cert_types
                } else {
                    Seq::empty()
                },
            ),
    {
        match self.find(authority_id) {
            Some(place) => {
                let info = self.authorities[place].info();
                let active = info.status == AuthorityStatus::Active;
                let types = copy_texts(&info.allowed_cert_types);
                AuthorityLookup {
                    info: Some(info),
                    active: Some(active),
                    allowed_cert_types: Some(types),
                }
            },
            None => {
                let types: Vec<String> = Vec::new();
                assert(text_views(types@) =~= Seq::<Seq<char>>::empty());
                AuthorityLookup { info: None, active: Some(false), allowed_cert_types: Some(types) }
            },
        }
    }
}

} // verus!
