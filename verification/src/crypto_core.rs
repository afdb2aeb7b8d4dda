//! Keys and nonces of public-key authenticated encryption, and the calls
//! into `sodiumoxide::crypto::box_` that seal and open a message under a
//! precomputed key.
//!
//! The values are held as plain bytes, so that the packet formats can read
//! and write them; each call hands them to the cipher in its own types.

use vstd::prelude::*;
use crate::binary_io::{read_array, rest_from, DecodeError};

verus! {

/// Number of bytes in a `PublicKey`.
pub const PUBLICKEYBYTES: usize = 32;

/// Number of bytes in a `PrecomputedKey`.
pub const PRECOMPUTEDKEYBYTES: usize = 32;

/// Number of bytes in a `Nonce`.
pub const NONCEBYTES: usize = 24;

/// Number of bytes by which a sealed message is longer than the message.
pub const MACBYTES: usize = 16;

/// Why a sealed payload could not be had.
#[derive(Clone, Copy, Debug, PartialEq, Eq)]
pub enum DecryptError {
    /// The box failed verification: another key, another nonce, or bytes
    /// that were changed or cut.
    DecryptionFailed,
    /// The box opened, and what it held is not a payload.
    MalformedPayload(DecodeError),
}

/// The answer of a cipher that was asked to open a box, as the contracts
/// see it.
pub open spec fn opened_view(opened: Option<Vec<u8>>) -> Option<Seq<u8>> {
    match opened {
        Some(message) => Some(message@),
        None => None,
    }
}

/// Public key of a node.
#[derive(Clone, Copy, Debug, PartialEq, Eq)]
pub struct PublicKey(pub [u8; PUBLICKEYBYTES]);

/// Nonce of one sealed message.
#[derive(Clone, Copy, Debug, PartialEq, Eq)]
pub struct Nonce(pub [u8; NONCEBYTES]);

/// Key that two nodes share: computed once from the secret key of one and
/// the public key of the other, and used for every message between them. It
/// is wiped when it is dropped.
#[derive(Clone)]
pub struct PrecomputedKey(pub [u8; PRECOMPUTEDKEYBYTES]);

impl View for PublicKey {
    type V = Seq<u8>;

    open spec fn view(&self) -> Seq<u8> {
        self.0@
    }
}

impl View for Nonce {
    type V = Seq<u8>;

    open spec fn view(&self) -> Seq<u8> {
        self.0@
    }
}

impl View for PrecomputedKey {
    type V = Seq<u8>;

    open spec fn view(&self) -> Seq<u8> {
        self.0@
    }
}

impl PrecomputedKey {
    /// Overwrites the key with zeros.
    pub fn wipe(&mut self)
        ensures
            final(self)@ == Seq::new(PRECOMPUTEDKEYBYTES as nat, |i: int| 0u8),
        opens_invariants none
        no_unwind
    {
        memzero(&mut self.0);
    }
}

impl Drop for PrecomputedKey {
    fn drop(&mut self)
        opens_invariants none
        no_unwind
    {
        self.wipe();
    }
}

impl PublicKey {
    /// Parser of a key on sequences of bytes: the first 32 bytes are the
    /// key, the others are left over.
    pub open spec fn parse(input: Seq<u8>) -> Result<(Seq<u8>, Seq<u8>), DecodeError> {
        if input.len() < PUBLICKEYBYTES {
            Err(DecodeError::Incomplete)
        } else {
            Ok(
                (
                    input.subrange(0, PUBLICKEYBYTES as int),
                    input.subrange(PUBLICKEYBYTES as int, input.len() as int),
                ),
            )
        }
    }

    /// Reads a key from the head of `input` and hands back what follows it.
    pub fn from_bytes<'a>(input: &'a [u8]) -> (res: Result<(&'a [u8], PublicKey), DecodeError>)
        ensures
            match res {
                Ok((rest, pk)) => Self::parse(input@) == Ok::<_, DecodeError>((pk@, rest@)),
                Err(e) => Self::parse(input@) == Err::<(Seq<u8>, Seq<u8>), _>(e),
            },
    {
        if input.len() < PUBLICKEYBYTES {
            Err(DecodeError::Incomplete)
        } else {
            let pk = PublicKey(read_array(input, 0));
            Ok((rest_from(input, PUBLICKEYBYTES), pk))
        }
    }
}

impl Nonce {
    /// Parser of a nonce on sequences of bytes: the first 24 bytes are the
    /// nonce, the others are left over.
    pub open spec fn parse(input: Seq<u8>) -> Result<(Seq<u8>, Seq<u8>), DecodeError> {
        if input.len() < NONCEBYTES {
            Err(DecodeError::Incomplete)
        } else {
            Ok(
                (
                    input.subrange(0, NONCEBYTES as int),
                    input.subrange(NONCEBYTES as int, input.len() as int),
                ),
            )
        }
    }

    /// Reads a nonce from the head of `input` and hands back what follows it.
    pub fn from_bytes<'a>(input: &'a [u8]) -> (res: Result<(&'a [u8], Nonce), DecodeError>)
        ensures
            match res {
                Ok((rest, nonce)) => Self::parse(input@) == Ok::<_, DecodeError>((nonce@, rest@)),
                Err(e) => Self::parse(input@) == Err::<(Seq<u8>, Seq<u8>), _>(e),
            },
    {
        if input.len() < NONCEBYTES {
            Err(DecodeError::Incomplete)
        } else {
            let nonce = Nonce(read_array(input, 0));
            Ok((rest_from(input, NONCEBYTES), nonce))
        }
    }
}

/// Calls `sodiumoxide::utils::memzero`, which overwrites the bytes with
/// zeros in a way that the compiler does not remove.
#[verifier::external_body]
pub(crate) fn memzero(bytes: &mut [u8])
    ensures
        final(bytes)@ == Seq::new(old(bytes)@.len(), |i: int| 0u8),
    opens_invariants none
    no_unwind
{
    sodiumoxide::utils::memzero(bytes)
}

/// The box that `sodiumoxide::crypto::box_::seal_precomputed` makes of the
/// message `m` under the nonce `n` and the precomputed key `k`.
pub uninterp spec fn box_sealed(m: Seq<u8>, n: Seq<u8>, k: Seq<u8>) -> Seq<u8>;

/// What `sodiumoxide::crypto::box_::open_precomputed` finds in the box `c`
/// under the nonce `n` and the precomputed key `k`: the message, or `None`
/// where the box fails verification.
pub uninterp spec fn box_opened(c: Seq<u8>, n: Seq<u8>, k: Seq<u8>) -> Option<Seq<u8>>;

/// Calls `sodiumoxide::crypto::box_::gen_nonce`, which draws a nonce at
/// random. Nothing is claimed of the nonce.
#[verifier::external_body]
pub(crate) fn gen_nonce() -> Nonce {
    Nonce(sodiumoxide::crypto::box_::gen_nonce().0)
}

/// Calls `sodiumoxide::crypto::box_::seal_precomputed`. Claimed of it: the
/// box is a function of message, nonce and key alone; it is `MACBYTES`
/// longer than the message; and opened under the same nonce and key it
/// gives the message back.
#[verifier::external_body]
pub(crate) fn seal_precomputed(m: &[u8], n: &Nonce, k: &PrecomputedKey) -> (c: Vec<u8>)
    requires
        m@.len() + MACBYTES <= isize::MAX,
    ensures
        c@ == box_sealed(m@, n@, k@),
        c@.len() == m@.len() + MACBYTES,
        box_opened(c@, n@, k@) == Some(m@),
{
    let nonce = sodiumoxide::crypto::box_::Nonce(n.0);
    let key = sodiumoxide::crypto::box_::PrecomputedKey(k.0);
    sodiumoxide::crypto::box_::seal_precomputed(m, &nonce, &key)
}

/// Calls `sodiumoxide::crypto::box_::open_precomputed`. Claimed of it: the
/// answer is a function of box, nonce and key alone, and a message that
/// comes out is `MACBYTES` shorter than the box.
#[verifier::external_body]
pub(crate) fn open_precomputed(c: &[u8], n: &Nonce, k: &PrecomputedKey) -> (m: Option<Vec<u8>>)
    ensures
        match m {
            Some(m) => box_opened(c@, n@, k@) == Some(m@) && m@.len() + MACBYTES == c@.len(),
            None => box_opened(c@, n@, k@) is None,
        },
{
    let nonce = sodiumoxide::crypto::box_::Nonce(n.0);
    let key = sodiumoxide::crypto::box_::PrecomputedKey(k.0);
    sodiumoxide::crypto::box_::open_precomputed(c, &nonce, &key).ok()
}

} // verus!
