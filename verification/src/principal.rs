//! Identities of users, resolvers and ledgers.

use vstd::prelude::*;

verus! {

/// The largest number of bytes an identity can hold.
pub const MAX_PRINCIPAL_BYTES: usize = 29;

/// An opaque identity of at most 29 bytes.
///
/// Two identities are equal exactly when they hold the same bytes: the
/// storage behind the significant bytes is always zero.
#[derive(Clone, Copy, Debug, PartialEq, Eq)]
pub struct PrincipalId {
    len: u8,
    bytes: [u8; 29],
}

/// The textual form of the identity with the given bytes: a checksum and
/// the bytes in base 32, lower case, in dash-separated groups of five.
pub uninterp spec fn principal_text(bytes: Seq<u8>) -> Seq<char>;

/// `candid::Principal::from_slice` followed by `Principal::to_text`: the
/// result is the textual form of the identity that holds exactly `bytes`.
/// The outside constructor panics on more than 29 bytes.
#[verifier::external_body]
fn principal_to_text(bytes: &[u8]) -> (text: String)
    requires
        bytes@.len() <= 29,
    ensures
        text@ == principal_text(bytes@),
{
    candid::Principal::from_slice(bytes).to_text()
}

/// The bytes of the identity that a text is the textual form of, in any
/// case of its letters; `None` for a text that is the textual form of no
/// identity.
pub uninterp spec fn principal_of_text(text: Seq<char>) -> Option<Seq<u8>>;

/// `candid::Principal::from_text` followed by `Principal::as_slice`: the
/// bytes of the identity that the text stands for, at most 29 of them, or
/// `None` where the text is rejected.
#[verifier::external_body]
fn principal_from_text(text: &str) -> (bytes: Option<Vec<u8>>)
    ensures
        match bytes {
            Some(b) => principal_of_text(text@) == Some(b@) && b@.len() <= 29,
            None => principal_of_text(text@) is None,
        },
{
    match candid::Principal::from_text(text) {
        Ok(principal) => Some(principal.as_slice().to_vec()),
        Err(_) => None,
    }
}

impl PrincipalId {
    #[verifier::type_invariant]
    spec fn padded(self) -> bool {
        &&& self.len <= 29
        &&& forall|i: int| self.len <= i < 29 ==> self.bytes[i] == 0
    }

    /// The significant bytes.
    pub closed spec fn view(&self) -> Seq<u8> {
        self.bytes@.take(self.len as int)
    }

    /// Whether the value is one that a constructor can return.
    pub closed spec fn wf(&self) -> bool {
        self.padded()
    }

    /// The identity that holds exactly `bytes`, or `None` for more than 29
    /// bytes.
    pub fn from_slice(bytes: &[u8]) -> (r: Option<PrincipalId>)
        ensures
            r.is_some() <==> bytes@.len() <= 29,
            r matches Some(p) ==> p@ == bytes@ && p.wf(),
    {
        if bytes.len() > 29 {
            return None;
        }
        let mut buf: [u8; 29] = [0u8; 29];
        let mut i: usize = 0;
        while i < bytes.len()
            invariant
                i <= bytes@.len() <= 29,
                forall|j: int| 0 <= j < i ==> buf[j] == bytes@[j],
                forall|j: int| i <= j < 29 ==> buf[j] == 0,
            decreases bytes@.len() - i,
        {
            buf[i] = bytes[i];
            i += 1;
        }
        let p = PrincipalId { len: bytes.len() as u8, bytes: buf };
        assert(p@ =~= bytes@);
        Some(p)
    }

    /// The identity that a text is the textual form of.
    pub fn from_text(text: &str) -> (r: Option<PrincipalId>)
        ensures
            match r {
                Some(p) => principal_of_text(text@) == Some(p@) && p.wf(),
                None => principal_of_text(text@) is None,
            },
    {
        match principal_from_text(text) {
            Some(bytes) => PrincipalId::from_slice(bytes.as_slice()),
            None => None,
        }
    }

    /// The significant bytes.
    pub fn to_bytes(&self) -> (out: Vec<u8>)
        ensures
            out@ == self@,
    {
        proof {
            use_type_invariant(self);
        }
        let mut out: Vec<u8> = Vec::new();
        let mut i: usize = 0;
        while i < self.len as usize
            invariant
                i <= self.len <= 29,
                out@ == self.bytes@.take(i as int),
            decreases self.len - i,
        {
            out.push(self.bytes[i]);
            i += 1;
            assert(out@ =~= self.bytes@.take(i as int));
        }
        out
    }

    /// Whether the two identities are the same.
    pub fn same_as(&self, other: &PrincipalId) -> (r: bool)
        ensures
            r == (*self == *other),
            r == (self@ == other@),
    {
        proof {
            use_type_invariant(self);
            use_type_invariant(other);
        }
        if self.len != other.len {
            assert(self@.len() != other@.len());
            return false;
        }
        let mut i: usize = 0;
        while i < self.len as usize
            invariant
                i <= self.len <= 29,
                self.len == other.len,
                forall|j: int| 0 <= j < i ==> self.bytes[j] == other.bytes[j],
            decreases self.len - i,
        {
            if self.bytes[i] != other.bytes[i] {
                assert(self@[i as int] != other@[i as int]);
                return false;
            }
            i += 1;
        }
        assert(self.bytes =~= other.bytes);
        true
    }

    /// The textual form, as ledgers and wallets print it.
    pub fn to_text(&self) -> (text: String)
        ensures
            text@ == principal_text(self@),
    {
        proof {
            use_type_invariant(self);
        }
        let bytes = self.to_bytes();
        principal_to_text(bytes.as_slice())
    }
}

/// Identities with the same bytes are the same identity.
pub proof fn lemma_principal_determined_by_bytes(a: PrincipalId, b: PrincipalId)
    requires
        a.wf(),
        b.wf(),
        a@ == b@,
    ensures
        a == b,
{
    assert(a.len == b.len) by {
        assert(a@.len() == a.len);
        assert(b@.len() == b.len);
    }
    assert forall|i: int| 0 <= i < 29 implies a.bytes[i] == b.bytes[i] by {
        if i < a.len {
            assert(a@[i] == a.bytes[i]);
            assert(b@[i] == b.bytes[i]);
        } else {
            assert(a.bytes[i] == 0);
            assert(b.bytes[i] == 0);
        }
    }
    assert(a.bytes =~= b.bytes);
}

} // verus!
