//! What the authority registry answers about an issuer, and how the answers of
//! several lookups are resolved.

use vstd::prelude::*;
use crate::error::Error;
use crate::identity::Identity;
use crate::status::AuthorityStatus;

verus! {

/// The views of a sequence of texts, in order.
pub open spec fn text_views(texts: Seq<String>) -> Seq<Seq<char>> {
    texts.map_values(|text: String| text@)
}

/// Whether `text` occurs in `list`.
pub fn contains_text(list: &Vec<String>, text: &str) -> (found: bool)
    ensures
        found == text_views(list@).contains(text@),
{
    let mut i: usize = 0;
    while i < list.len()
        invariant
            i <= list.len(),
            forall|j: int| 0 <= j < i ==> list@[j]@ != text@,
        decreases list.len() - i,
    {
        if same_text(list[i].as_str(), text) {
            assert(text_views(list@)[i as int] == text@);
            return true;
        }
        i += 1;
    }
    false
}

/// Whether two texts are the same.
pub fn same_text(a: &str, b: &str) -> (same: bool)
    ensures
        same == (a@ == b@),
{
    let left = a.to_owned();
    let right = b.to_owned();
    left == right
}

/// A copy of a list of texts.
pub fn copy_texts(list: &Vec<String>) -> (copy: Vec<String>)
    ensures
        text_views(copy@) == text_views(list@),
{
    let mut copy: Vec<String> = Vec::new();
    let mut i: usize = 0;
    while i < list.len()
        invariant
            i <= list.len(),
            copy@.len() == i,
            forall|j: int| 0 <= j < i ==> (#[trigger] copy@[j])@ == list@[j]@,
        decreases list.len() - i,
    {
        copy.push(list[i].clone());
        i += 1;
    }
    assert(text_views(copy@) =~= text_views(list@));
    copy
}

/// What the authority registry's information lookup returns of an issuer.
#[derive(Debug, PartialEq, Eq)]
pub struct AuthorityInfo {
    pub id: Identity,
    pub name: String,
    pub public_key: [u8; 32],
    pub accreditation_info: String,
    pub allowed_cert_types: Vec<String>,
    pub status: AuthorityStatus,
}

/// Authority information as contracts see it.
pub struct AuthorityInfoView {
    pub id: Seq<u8>,
    pub name: Seq<char>,
    pub public_key: Seq<u8>,
    pub accreditation_info: Seq<char>,
    pub allowed_cert_types: Seq<Seq<char>>,
    pub status: AuthorityStatus,
}

impl View for AuthorityInfo {
    type V = AuthorityInfoView;

    open spec fn view(&self) -> AuthorityInfoView {
        AuthorityInfoView {
            id: self.id@,
            name: self.name@,
            public_key: self.public_key@,
            accreditation_info: self.accreditation_info@,
            allowed_cert_types: text_views(self.allowed_cert_types@),
            status: self.status,
        }
    }
}

/// What the lookups against the authority registry returned for one issuer.
/// `None` stands for a lookup that could not be made or whose answer could
/// not be read.
#[derive(Debug, PartialEq, Eq)]
pub struct AuthorityLookup {
    /// The answer of the information lookup, the first strategy.
    pub info: Option<AuthorityInfo>,
    /// The answer to whether the authority is active, the second strategy.
    pub active: Option<bool>,
    /// The allowed certificate types, looked up for the second strategy.
    pub allowed_cert_types: Option<Vec<String>>,
}

/// The lookups as contracts see them.
pub struct LookupView {
    pub info: Option<AuthorityInfoView>,
    pub active: Option<bool>,
    pub allowed_cert_types: Option<Seq<Seq<char>>>,
}

impl View for AuthorityLookup {
    type V = LookupView;

    open spec fn view(&self) -> LookupView {
        LookupView {
            info: match self.info {
                Some(info) => Some(info@),
                None => None,
            },
            active: self.active,
            allowed_cert_types: match self.allowed_cert_types {
                Some(types) => Some(text_views(types@)),
                None => None,
            },
        }
    }
}

/// The strategies by which an issuer's authority data is obtained, in the
/// order in which they are tried.
#[derive(Clone, Copy, Debug, PartialEq, Eq, Structural)]
pub enum LookupStrategy {
    /// The information lookup, which also yields the public key.
    AuthorityInfo,
    /// The activity check, with the allowed types looked up separately
    /// where the authority is active. It yields no public key.
    VerifyAuthority,
}

/// What is known of an issuer's authority once a strategy succeeded.
#[derive(Debug, PartialEq, Eq)]
pub struct ResolvedAuthority {
    pub strategy: LookupStrategy,
    pub public_key: Option<[u8; 32]>,
    pub active: bool,
    pub suspended: bool,
    pub allowed_cert_types: Vec<String>,
}

/// Resolved authority data as contracts see it.
pub struct ResolvedView {
    pub strategy: LookupStrategy,
    pub public_key: Option<Seq<u8>>,
    pub active: bool,
    pub suspended: bool,
    pub allowed_cert_types: Seq<Seq<char>>,
}

impl View for ResolvedAuthority {
    type V = ResolvedView;

    open spec fn view(&self) -> ResolvedView {
        ResolvedView {
            strategy: self.strategy,
            public_key: match self.public_key {
                Some(key) => Some(key@),
                None => None,
            },
            active: self.active,
            suspended: self.suspended,
            allowed_cert_types: text_views(self.allowed_cert_types@),
        }
    }
}

impl ResolvedView {
    /// Whether the authority is active and may sign certificates of
    /// `cert_type`.
    pub open spec fn allows(self, cert_type: Seq<char>) -> bool {
        self.active && self.allowed_cert_types.contains(cert_type)
    }
}

/// What one strategy makes of the lookups, where it succeeds. The
/// information lookup succeeds where it answered. The activity check succeeds
/// where it answered that the authority is not active, or that it is active
/// and the allowed types could be looked up as well.
pub open spec fn attempt(strategy: LookupStrategy, lookup: LookupView) -> Option<ResolvedView> {
    match strategy {
        LookupStrategy::AuthorityInfo => match lookup.info {
            Some(info) => Some(
                ResolvedView {
                    strategy,
                    public_key: Some(info.public_key),
                    active: info.status == AuthorityStatus::Active,
                    suspended: info.status == AuthorityStatus::Suspended,
                    allowed_cert_types: info.allowed_cert_types,
                },
            ),
            None => None,
        },
        LookupStrategy::VerifyAuthority => match lookup.active {
            Some(false) => Some(
                ResolvedView {
                    strategy,
                    public_key: None,
                    active: false,
                    suspended: false,
                    allowed_cert_types: Seq::empty(),
                },
            ),
            Some(true) => match lookup.allowed_cert_types {
                Some(types) => Some(
                    ResolvedView {
                        strategy,
                        public_key: None,
                        active: true,
                        suspended: false,
                        allowed_cert_types: types,
                    },
                ),
                None => None,
            },
            None => None,
        },
    }
}

/// The strategies are tried in their order and the first that succeeds
/// wins; `ExternalServiceError` where none does.
pub open spec fn resolution(lookup: LookupView) -> Result<ResolvedView, Error> {
    match attempt(LookupStrategy::AuthorityInfo, lookup) {
        Some(authority) => Ok(authority),
        None => match attempt(LookupStrategy::VerifyAuthority, lookup) {
            Some(authority) => Ok(authority),
            None => Err(Error::ExternalServiceError),
        },
    }
}

/// The strategies, in the order in which they are tried.
pub fn strategies() -> (order: Vec<LookupStrategy>)
    ensures
        order@ == seq![LookupStrategy::AuthorityInfo, LookupStrategy::VerifyAuthority],
{
    let mut order: Vec<LookupStrategy> = Vec::new();
    order.push(LookupStrategy::AuthorityInfo);
    order.push(LookupStrategy::VerifyAuthority);
    assert(order@ =~= seq![LookupStrategy::AuthorityInfo, LookupStrategy::VerifyAuthority]);
    order
}

/// What `strategy` makes of the lookups, where it succeeds.
pub fn try_strategy(strategy: LookupStrategy, lookup: &AuthorityLookup) -> (resolved: Option<
    ResolvedAuthority,
>)
    ensures
        match resolved {
            Some(authority) => attempt(strategy, lookup@) == Some(authority@),
            None => attempt(strategy, lookup@) is None,
        },
{
    match strategy {
        LookupStrategy::AuthorityInfo => match &lookup.info {
            Some(info) => Some(
                ResolvedAuthority {
                    strategy,
                    public_key: Some(info.public_key),
                    active: info.status == AuthorityStatus::Active,
                    suspended: info.status == AuthorityStatus::Suspended,
                    allowed_cert_types: copy_texts(&info.allowed_cert_types),
                },
            ),
            None => None,
        },
        LookupStrategy::VerifyAuthority => match lookup.active {
            Some(false) => {
                let none: Vec<String> = Vec::new();
                assert(text_views(none@) =~= Seq::<Seq<char>>::empty());
                Some(
                    ResolvedAuthority {
                        strategy,
                        public_key: None,
                        active: false,
                        suspended: false,
                        allowed_cert_types: none,
                    },
                )
            },
            Some(true) => match &lookup.allowed_cert_types {
                Some(types) => Some(
                    ResolvedAuthority {
                        strategy,
                        public_key: None,
                        active: true,
                        suspended: false,
                        allowed_cert_types: copy_texts(types),
                    },
                ),
                None => None,
            },
            None => None,
        },
    }
}

/// Resolves an issuer's authority data from what the lookups returned: the
/// strategies are tried in their order and the first that succeeds wins.
pub fn resolve_authority(lookup: &AuthorityLookup) -> (resolved: Result<ResolvedAuthority, Error>)
    ensures
        match resolved {
            Ok(authority) => resolution(lookup@) == Ok::<ResolvedView, Error>(authority@),
            Err(e) => resolution(lookup@) == Err::<ResolvedView, Error>(e),
        },
{
    let order = strategies();
    let mut i: usize = 0;
    while i < order.len()
        invariant
            i <= order.len(),
            order@ == seq![LookupStrategy::AuthorityInfo, LookupStrategy::VerifyAuthority],
            forall|k: int| 0 <= k < i ==> attempt(#[trigger] order@[k], lookup@) is None,
        decreases order.len() - i,
    {
        match try_strategy(order[i], lookup) {
            Some(authority) => {
                return Ok(authority);
            },
            None => {},
        }
        i += 1;
    }
    assert(attempt(order@[0], lookup@) is None);
    assert(attempt(order@[1], lookup@) is None);
    Err(Error::ExternalServiceError)
}

} // verus!
