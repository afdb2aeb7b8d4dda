//! The SHA-512 digest, computed by `sodiumoxide::crypto::hash::sha512`.

use vstd::prelude::*;

verus! {

/// Number of bytes in a `Digest`.
pub const DIGESTBYTES: usize = 64;

/// Digest of a message.
#[derive(Clone, Copy, Debug, PartialEq, Eq)]
pub struct Digest(pub [u8; DIGESTBYTES]);

impl View for Digest {
    type V = Seq<u8>;

    open spec fn view(&self) -> Seq<u8> {
        self.0@
    }
}

/// The digest that `sodiumoxide::crypto::hash::sha512::hash` gives of the
/// message `m`.
pub uninterp spec fn sha512_digest(m: Seq<u8>) -> Seq<u8>;

/// Calls `sodiumoxide::crypto::hash::sha512::hash`. Claimed of it: the
/// digest is a function of the message alone.
#[verifier::external_body]
pub(crate) fn hash(m: &[u8]) -> (digest: Digest)
    ensures
        digest@ == sha512_digest(m@),
{
    Digest(sodiumoxide::crypto::hash::sha512::hash(m).0)
}

} // verus!
