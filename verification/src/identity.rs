//! Caller and node identities: opaque byte strings of bounded length.

use vstd::prelude::*;

verus! {

/// The longest byte string that is an identity.
pub const MAX_IDENTITY_BYTES: usize = 29;

/// The single byte that makes up the anonymous identity.
pub const ANONYMOUS_TAG: u8 = 4;

/// An identity of a caller or of a node: at most `MAX_IDENTITY_BYTES` bytes.
#[derive(Debug, PartialEq, Eq)]
pub struct Identity {
    bytes: Vec<u8>,
}

impl View for Identity {
    type V = Seq<u8>;

    closed spec fn view(&self) -> Seq<u8> {
        self.bytes@
    }
}

/// The text that `candid::Principal::to_text` gives for the identity made of
/// `bytes`: a checksum and the bytes in base 32, in groups of five characters.
pub uninterp spec fn principal_text(bytes: Seq<u8>) -> Seq<char>;

/// The bytes of the identity that `candid::Principal::from_text` reads out of
/// `text`, or `None` where it rejects `text`.
pub uninterp spec fn principal_parse(text: Seq<char>) -> Option<Seq<u8>>;

/// Calls `candid::Principal::to_text` on the identity made of `bytes`. The text
/// depends on the bytes alone; `from_slice` accepts any slice of at most
/// `MAX_IDENTITY_BYTES` bytes.
#[verifier::external_body]
fn principal_to_text(bytes: &[u8]) -> (text: String)
    requires
        bytes@.len() <= MAX_IDENTITY_BYTES,
    ensures
        text@ == principal_text(bytes@),
{
    candid::Principal::from_slice(bytes).to_text()
}

/// Calls `candid::Principal::from_text`. The outcome depends on the text alone,
/// and an accepted text yields at most `MAX_IDENTITY_BYTES` bytes.
#[verifier::external_body]
fn principal_from_text(text: &str) -> (bytes: Option<Vec<u8>>)
    ensures
        bytes.is_some() == principal_parse(text@).is_some(),
        bytes.is_some() ==> bytes.unwrap()@ == principal_parse(text@).unwrap()
            && bytes.unwrap()@.len() <= MAX_IDENTITY_BYTES,
{
    match candid::Principal::from_text(text) {
        Ok(p) => Some(p.as_slice().to_vec()),
        Err(_) => None,
    }
}

/// The bytes of the anonymous identity.
pub open spec fn anonymous_bytes() -> Seq<u8> {
    seq![ANONYMOUS_TAG]
}

impl Identity {
    /// Every identity is at most `MAX_IDENTITY_BYTES` long.
    #[verifier::type_invariant]
    closed spec fn bounded(self) -> bool {
        self.bytes@.len() <= MAX_IDENTITY_BYTES
    }

    /// The number of bytes, which never exceeds `MAX_IDENTITY_BYTES`.
    pub fn len(&self) -> (n: usize)
        ensures
            n == self@.len(),
            n <= MAX_IDENTITY_BYTES,
    {
        proof {
            use_type_invariant(self);
        }
        self.bytes.len()
    }

    /// The identity of an unauthenticated caller.
    pub fn anonymous() -> (id: Identity)
        ensures
            id@ == anonymous_bytes(),
    {
        let mut bytes: Vec<u8> = Vec::new();
        bytes.push(ANONYMOUS_TAG);
        Identity { bytes }
    }

    /// The identity with no bytes, by which the host's management node goes.
    pub fn management_canister() -> (id: Identity)
        ensures
            id@ == Seq::<u8>::empty(),
    {
        Identity { bytes: Vec::new() }
    }

    /// The identity made of `slice`, or `None` where `slice` is too long.
    pub fn try_from_slice(slice: &[u8]) -> (r: Option<Identity>)
        ensures
            slice@.len() <= MAX_IDENTITY_BYTES ==> r.is_some() && r.unwrap()@ == slice@,
            slice@.len() > MAX_IDENTITY_BYTES ==> r.is_none(),
    {
        if slice.len() > MAX_IDENTITY_BYTES {
            return None;
        }
        let mut bytes: Vec<u8> = Vec::new();
        let mut i: usize = 0;
        while i < slice.len()
            invariant
                i <= slice@.len(),
                bytes@ == slice@.subrange(0, i as int),
            decreases slice@.len() - i,
        {
            bytes.push(slice[i]);
            i += 1;
        }
        assert(slice@.subrange(0, i as int) == slice@);
        Some(Identity { bytes })
    }

    /// The identity made of `slice`.
    pub fn from_slice(slice: &[u8]) -> (id: Identity)
        requires
            slice@.len() <= MAX_IDENTITY_BYTES,
        ensures
            id@ == slice@,
    {
        match Identity::try_from_slice(slice) {
            Some(id) => id,
            None => Identity::anonymous(),
        }
    }

    /// The identity that `text` denotes, or `None` where `text` is no
    /// well-formed textual identity.
    pub fn from_text(text: &str) -> (r: Option<Identity>)
        ensures
            r.is_some() == principal_parse(text@).is_some(),
            r.is_some() ==> r.unwrap()@ == principal_parse(text@).unwrap(),
    {
        match principal_from_text(text) {
            Some(bytes) => Some(Identity { bytes }),
            None => None,
        }
    }

    /// The textual form of this identity.
    pub fn to_text(&self) -> (text: String)
        ensures
            text@ == principal_text(self@),
    {
        proof {
            use_type_invariant(self);
        }
        principal_to_text(self.bytes.as_slice())
    }

    /// The bytes of this identity.
    pub fn as_slice(&self) -> (s: &[u8])
        ensures
            s@ == self@,
    {
        self.bytes.as_slice()
    }

    /// Whether two identities are the same bytes.
    pub fn same_as(&self, other: &Identity) -> (r: bool)
        ensures
            r == (self@ == other@),
    {
        if self.bytes.len() != other.bytes.len() {
            return false;
        }
        let mut i: usize = 0;
        while i < self.bytes.len()
            invariant
                i <= self.bytes@.len(),
                self.bytes@.len() == other.bytes@.len(),
                forall|j: int| 0 <= j < i ==> self.bytes@[j] == other.bytes@[j],
            decreases self.bytes@.len() - i,
        {
            if self.bytes[i] != other.bytes[i] {
                return false;
            }
            i += 1;
        }
        assert(self.bytes@ =~= other.bytes@);
        true
    }

    /// Whether this is the anonymous identity.
    pub fn is_anonymous(&self) -> (r: bool)
        ensures
            r == (self@ == anonymous_bytes()),
    {
        let r = self.bytes.len() == 1 && self.bytes[0] == ANONYMOUS_TAG;
        assert(r ==> self.bytes@ =~= anonymous_bytes());
        r
    }
}

impl Clone for Identity {
    fn clone(&self) -> (id: Identity)
        ensures
            id@ == self@,
    {
        proof {
            use_type_invariant(self);
        }
        let mut bytes: Vec<u8> = Vec::new();
        let mut i: usize = 0;
        while i < self.bytes.len()
            invariant
                i <= self.bytes@.len(),
                self.bytes@.len() <= MAX_IDENTITY_BYTES,
                bytes@ == self.bytes@.subrange(0, i as int),
            decreases self.bytes@.len() - i,
        {
            bytes.push(self.bytes[i]);
            i += 1;
        }
        assert(self.bytes@.subrange(0, i as int) == self.bytes@);
        Identity { bytes }
    }
}

/// The views of the identities in `ids`, in order.
pub open spec fn identity_views(ids: Seq<Identity>) -> Seq<Seq<u8>> {
    Seq::new(ids.len(), |i: int| ids[i]@)
}

/// A copy of `ids`.
pub fn clone_identities(ids: &Vec<Identity>) -> (copy: Vec<Identity>)
    ensures
        identity_views(copy@) == identity_views(ids@),
{
    let mut copy: Vec<Identity> = Vec::new();
    let mut i: usize = 0;
    while i < ids.len()
        invariant
            i <= ids@.len(),
            copy@.len() == i,
            forall|j: int| 0 <= j < i ==> copy@[j]@ == ids@[j]@,
        decreases ids@.len() - i,
    {
        copy.push(ids[i].clone());
        i += 1;
    }
    assert(identity_views(copy@) =~= identity_views(ids@));
    copy
}

/// Whether `id` is one of `ids`.
pub fn contains_identity(ids: &Vec<Identity>, id: &Identity) -> (found: bool)
    ensures
        found == identity_views(ids@).contains(id@),
{
    let mut i: usize = 0;
    while i < ids.len()
        invariant
            i <= ids@.len(),
            forall|j: int| 0 <= j < i ==> identity_views(ids@)[j] != id@,
        decreases ids@.len() - i,
    {
        if ids[i].same_as(id) {
            assert(identity_views(ids@)[i as int] == id@);
            return true;
        }
        i += 1;
    }
    false
}

} // verus!
