use vstd::prelude::*;

verus! {

/// The longest byte string that an identifier may hold.
pub const MAX_ID_LENGTH: usize = 29;

/// An assigned canister identifier, held as its raw bytes.
#[derive(Debug)]
pub struct CanisterId {
    bytes: Vec<u8>,
}

/// The textual form that the identifier library gives to the raw bytes `b`.
pub uninterp spec fn principal_text(b: Seq<u8>) -> Seq<char>;

/// The bytes that the identifier library reads from the text `s`, if it
/// accepts it.
pub uninterp spec fn principal_bytes(s: Seq<char>) -> Option<Seq<u8>>;

/// Relies on `candid::Principal::from_slice` and `Principal::to_text`: the
/// textual form of an identifier depends on its bytes alone. `from_slice`
/// panics beyond 29 bytes, which the `requires` leaves out.
#[verifier::external_body]
fn principal_to_text(b: &[u8]) -> (r: String)
    requires
        b@.len() <= MAX_ID_LENGTH,
    ensures
        r@ == principal_text(b@),
{
    candid::Principal::from_slice(b).to_text()
}

/// Relies on `candid::Principal::from_text` and `Principal::as_slice`: the
/// parsed bytes depend on the text alone and are at most 29 long.
#[verifier::external_body]
fn principal_from_text(s: &str) -> (r: Option<Vec<u8>>)
    ensures
        r matches Some(b) ==> principal_bytes(s@) == Some(b@) && b@.len() <= MAX_ID_LENGTH,
        r is None ==> principal_bytes(s@) is None,
{
    candid::Principal::from_text(s).ok().map(|p| p.as_slice().to_vec())
}

/// A fresh vector holding the bytes of `b`.
pub fn copy_bytes(b: &[u8]) -> (r: Vec<u8>)
    ensures
        r@ == b@,
{
    let mut r: Vec<u8> = Vec::new();
    let mut i: usize = 0;
    while i < b.len()
        invariant
            i <= b@.len(),
            r@ == b@.subrange(0, i as int),
        decreases b@.len() - i,
    {
        r.push(b[i]);
        i = i + 1;
    }
    assert(r@ =~= b@);
    r
}

impl View for CanisterId {
    type V = Seq<u8>;

    closed spec fn view(&self) -> Seq<u8> {
        self.bytes@
    }
}

impl CanisterId {
    #[verifier::type_invariant]
    closed spec fn inv(&self) -> bool {
        self.bytes@.len() <= MAX_ID_LENGTH
    }

    /// Builds an identifier from raw bytes; `None` when they are too long.
    pub fn try_from_slice(b: &[u8]) -> (r: Option<CanisterId>)
        ensures
            r is Some <==> b@.len() <= MAX_ID_LENGTH,
            r matches Some(id) ==> id@ == b@,
    {
        if b.len() <= MAX_ID_LENGTH {
            Some(CanisterId { bytes: copy_bytes(b) })
        } else {
            None
        }
    }

    /// An identifier holding `bytes`.
    pub(crate) fn from_bytes(bytes: Vec<u8>) -> (r: CanisterId)
        requires
            bytes@.len() <= MAX_ID_LENGTH,
        ensures
            r@ == bytes@,
    {
        CanisterId { bytes }
    }

    /// Parses an identifier from its textual form.
    pub fn from_text(s: &str) -> (r: Option<CanisterId>)
        ensures
            r is Some <==> principal_bytes(s@) is Some,
            r matches Some(id) ==> principal_bytes(s@) == Some(id@),
    {
        match principal_from_text(s) {
            Some(b) => Some(CanisterId { bytes: b }),
            None => None,
        }
    }

    /// A copy of this identifier.
    pub fn duplicate(&self) -> (r: CanisterId)
        ensures
            r@ == self@,
    {
        proof {
            use_type_invariant(self);
        }
        CanisterId { bytes: copy_bytes(self.bytes.as_slice()) }
    }

    pub fn as_slice(&self) -> (r: &[u8])
        ensures
            r@ == self@,
            r@.len() <= MAX_ID_LENGTH,
    {
        proof {
            use_type_invariant(self);
        }
        self.bytes.as_slice()
    }

    /// The identifier as text, as handed to builds of dependent canisters.
    pub fn to_text(&self) -> (r: String)
        ensures
            r@ == principal_text(self@),
    {
        proof {
            use_type_invariant(self);
        }
        principal_to_text(self.bytes.as_slice())
    }
}

} // verus!
