//! Key and nonce of secret-key authenticated encryption, and the calls into
//! `sodiumoxide::crypto::secretbox` that seal and open a message.

use vstd::prelude::*;
use crate::binary_io::{read_array, rest_from, DecodeError};
use crate::crypto_core::memzero;

verus! {

/// Number of bytes in a `Key`.
pub const KEYBYTES: usize = 32;

/// Number of bytes in a `Nonce`.
pub const NONCEBYTES: usize = 24;

/// Number of bytes by which a sealed message is longer than the message.
pub const MACBYTES: usize = 16;

/// Key that only the node that seals and opens holds. It is wiped when it
/// is dropped.
#[derive(Clone)]
pub struct Key(pub [u8; KEYBYTES]);

/// Nonce of one sealed message.
#[derive(Clone, Copy, Debug, PartialEq, Eq)]
pub struct Nonce(pub [u8; NONCEBYTES]);

impl View for Key {
    type V = Seq<u8>;

    open spec fn view(&self) -> Seq<u8> {
        self.0@
    }
}

impl View for Nonce {
    type V = Seq<u8>;

    open spec fn view(&self) -> Seq<u8> {
        self.0@
    }
}

impl Key {
    /// Overwrites the key with zeros.
    pub fn wipe(&mut self)
        ensures
            final(self)@ == Seq::new(KEYBYTES as nat, |i: int| 0u8),
        opens_invariants none
        no_unwind
    {
        memzero(&mut self.0);
    }
}

impl Drop for Key {
    fn drop(&mut self)
        opens_invariants none
        no_unwind
    {
        self.wipe();
    }
}

impl Nonce {
    /// Parser of a nonce on sequences of bytes: the first 24 bytes are the
    /// nonce, the others are left over.
    pub open spec fn parse(input: Seq<u8>) -> Result<(Seq<u8>, Seq<u8>), DecodeError> {
        if input.len() < NONCEBYTES {
            Err(DecodeError::Incomplete)
        } else {
            Ok(
                (
                    input.subrange(0, NONCEBYTES as int),
                    input.subrange(NONCEBYTES as int, input.len() as int),
                ),
            )
        }
    }

    /// Reads a nonce from the head of `input` and hands back what follows it.
    pub fn from_bytes<'a>(input: &'a [u8]) -> (res: Result<(&'a [u8], Nonce), DecodeError>)
        ensures
            match res {
                Ok((rest, nonce)) => Self::parse(input@) == Ok::<_, DecodeError>((nonce@, rest@)),
                Err(e) => Self::parse(input@) == Err::<(Seq<u8>, Seq<u8>), _>(e),
            },
    {
        if input.len() < NONCEBYTES {
            Err(DecodeError::Incomplete)
        } else {
            let nonce = Nonce(read_array(input, 0));
            Ok((rest_from(input, NONCEBYTES), nonce))
        }
    }
}

/// The box that `sodiumoxide::crypto::secretbox::seal` makes of the message
/// `m` under the nonce `n` and the key `k`.
pub uninterp spec fn secretbox_sealed(m: Seq<u8>, n: Seq<u8>, k: Seq<u8>) -> Seq<u8>;

/// What `sodiumoxide::crypto::secretbox::open` finds in the box `c` under
/// the nonce `n` and the key `k`: the message, or `None` where the box fails
/// verification.
pub uninterp spec fn secretbox_opened(c: Seq<u8>, n: Seq<u8>, k: Seq<u8>) -> Option<Seq<u8>>;

/// Calls `sodiumoxide::crypto::secretbox::gen_nonce`, which draws a nonce at
/// random. Nothing is claimed of the nonce.
#[verifier::external_body]
pub(crate) fn gen_nonce() -> Nonce {
    Nonce(sodiumoxide::crypto::secretbox::gen_nonce().0)
}

/// Calls `sodiumoxide::crypto::secretbox::seal`. Claimed of it: the box is
/// a function of message, nonce and key alone; it is `MACBYTES` longer than
/// the message; and opened under the same nonce and key it gives the message
/// back.
#[verifier::external_body]
pub(crate) fn seal(m: &[u8], n: &Nonce, k: &Key) -> (c: Vec<u8>)
    requires
        m@.len() + MACBYTES <= isize::MAX,
    ensures
        c@ == secretbox_sealed(m@, n@, k@),
        c@.len() == m@.len() + MACBYTES,
        secretbox_opened(c@, n@, k@) == Some(m@),
{
    let nonce = sodiumoxide::crypto::secretbox::Nonce(n.0);
    let key = sodiumoxide::crypto::secretbox::Key(k.0);
    sodiumoxide::crypto::secretbox::seal(m, &nonce, &key)
}

/// Calls `sodiumoxide::crypto::secretbox::open`. Claimed of it: the answer
/// is a function of box, nonce and key alone, and a message that comes out
/// is `MACBYTES` shorter than the box.
#[verifier::external_body]
pub(crate) fn open(c: &[u8], n: &Nonce, k: &Key) -> (m: Option<Vec<u8>>)
    ensures
        match m {
            Some(m) => secretbox_opened(c@, n@, k@) == Some(m@) && m@.len() + MACBYTES
                == c@.len(),
            None => secretbox_opened(c@, n@, k@) is None,
        },
{
    let nonce = sodiumoxide::crypto::secretbox::Nonce(n.0);
    let key = sodiumoxide::crypto::secretbox::Key(k.0);
    sodiumoxide::crypto::secretbox::open(c, &nonce, &key).ok()
}

} // verus!
