//! Parties, and what the host knows of one call.

use vstd::prelude::*;
use crate::bytes::{copy_bytes, same_bytes};

verus! {

/// A reference to a party: a certificate's owner, an issuer, the
/// administrator. It is the canonical serialization of the party's address,
/// and is compared byte by byte. The empty identity stands for nobody and is
/// refused wherever a party is required.
#[derive(Debug, PartialEq, Eq)]
pub struct Identity(pub Vec<u8>);

impl View for Identity {
    type V = Seq<u8>;

    open spec fn view(&self) -> Seq<u8> {
        self.0@
    }
}

impl Clone for Identity {
    fn clone(&self) -> (copy: Self)
        ensures
            copy@ == self@,
    {
        Identity(copy_bytes(&self.0))
    }
}

impl Identity {
    /// The identity with the given serialization.
    pub fn new(bytes: Vec<u8>) -> (identity: Identity)
        ensures
            identity@ == bytes@,
    {
        Identity(bytes)
    }

    /// Whether this is the empty identity.
    pub fn is_empty(&self) -> (empty: bool)
        ensures
            empty == (self@.len() == 0),
    {
        self.0.len() == 0
    }

    /// Whether both identities name the same party.
    pub fn same_as(&self, other: &Identity) -> (same: bool)
        ensures
            same == (self@ == other@),
    {
        same_bytes(&self.0, &other.0)
    }
}

/// The views of a sequence of identities, in order.
pub open spec fn identity_views(list: Seq<Identity>) -> Seq<Seq<u8>> {
    list.map_values(|identity: Identity| identity@)
}

/// Whether `who` occurs in `list`.
pub fn contains_identity(list: &Vec<Identity>, who: &Identity) -> (found: bool)
    ensures
        found == identity_views(list@).contains(who@),
{
    let mut i: usize = 0;
    while i < list.len()
        invariant
            i <= list.len(),
            forall|j: int| 0 <= j < i ==> list@[j]@ != who@,
        decreases list.len() - i,
    {
        if list[i].same_as(who) {
            assert(identity_views(list@)[i as int] == who@);
            return true;
        }
        i += 1;
    }
    false
}

/// What the host knows of one call: who makes it, whose authorizations
/// accompany it, and the ledger's logical clock.
#[derive(Debug, PartialEq, Eq)]
pub struct Invocation {
    /// The party that makes the call.
    pub caller: Identity,
    /// The parties that have authorized the call.
    pub signers: Vec<Identity>,
    /// The ledger's logical time.
    pub timestamp: u64,
    /// The ledger's sequence number.
    pub sequence: u32,
}

/// An invocation as contracts see it.
pub struct InvocationView {
    pub caller: Seq<u8>,
    pub signers: Set<Seq<u8>>,
    pub timestamp: u64,
    pub sequence: u32,
}

impl InvocationView {
    /// Whether `who` has authorized the call.
    pub open spec fn authorized_by(self, who: Seq<u8>) -> bool {
        self.signers.contains(who)
    }
}

impl View for Invocation {
    type V = InvocationView;

    open spec fn view(&self) -> InvocationView {
        InvocationView {
            caller: self.caller@,
            signers: identity_views(self.signers@).to_set(),
            timestamp: self.timestamp,
            sequence: self.sequence,
        }
    }
}

impl Invocation {
    /// Whether `who` has authorized this call.
    pub fn authorized_by(&self, who: &Identity) -> (yes: bool)
        ensures
            yes == self@.authorized_by(who@),
    {
        contains_identity(&self.signers, who)
    }
}

} // verus!
