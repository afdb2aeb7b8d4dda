//! The cookie of the crypto handshake, in the clear and sealed.
//!
//! A node answers a cookie request with a cookie that it seals under a key
//! that only it holds, and keeps nothing. The cookie that comes back in a
//! handshake is opened with that key and is good for `COOKIE_TIMEOUT`
//! seconds.

use vstd::prelude::*;
use crate::binary_io::{
    encodes,
    lemma_u64_be_bytes,
    lemma_u64_be_value,
    lemma_written_twice,
    read_u64_be,
    read_vec,
    rest_from,
    u64_be,
    u64_from_be,
    write_slice,
    write_u64_be,
    DecodeError,
    EncodeError,
};
use crate::crypto_core::{opened_view, DecryptError, PublicKey, PUBLICKEYBYTES};
use crate::secretbox;
use crate::secretbox::{secretbox_opened, secretbox_sealed};
use crate::sha512;
use crate::sha512::sha512_digest;
use crate::time::unix_time;

verus! {

/// Number of seconds that generated cookie is valid.
pub const COOKIE_TIMEOUT: u64 = 15;

/// Number of bytes in the wire form of a `Cookie`.
pub const COOKIE_SIZE: usize = 72;

/// Number of bytes in a sealed `Cookie`.
pub const COOKIE_PAYLOAD_SIZE: usize = 88;

/// Number of bytes in the wire form of an `EncryptedCookie`.
pub const ENCRYPTED_COOKIE_SIZE: usize = 112;

/// Cookie is a struct that holds two public keys of a node: long term key
/// and short term DHT key, and the time when it was generated. It is
/// considered invalid after 15 seconds have elapsed since that moment.
///
/// Serialized form:
///
/// Length | Content
/// ------ | ------
/// `8`    | Cookie timestamp
/// `32`   | Long term `PublicKey`
/// `32`   | DHT `PublicKey`
#[derive(Clone, Debug, Eq, PartialEq)]
pub struct Cookie {
    /// Time when this cookie was generated
    pub time: u64,
    /// Long term `PublicKey`
    pub real_pk: PublicKey,
    /// DHT `PublicKey`
    pub dht_pk: PublicKey,
}

/// A `Cookie` as the contracts see it: the keys are sequences of bytes.
pub struct CookieView {
    pub time: u64,
    pub real_pk: Seq<u8>,
    pub dht_pk: Seq<u8>,
}

impl View for Cookie {
    type V = CookieView;

    open spec fn view(&self) -> CookieView {
        CookieView { time: self.time, real_pk: self.real_pk@, dht_pk: self.dht_pk@ }
    }
}

impl CookieView {
    /// Both keys have the length of a key. The view of a `Cookie` always
    /// has.
    pub open spec fn wf(self) -> bool {
        self.real_pk.len() == PUBLICKEYBYTES && self.dht_pk.len() == PUBLICKEYBYTES
    }

    /// The wire form: the time, big-endian, and the two keys.
    pub open spec fn wire(self) -> Seq<u8> {
        u64_be(self.time) + self.real_pk + self.dht_pk
    }

    /// Whether the cookie is timed out when the clock reads `now`: more
    /// than `COOKIE_TIMEOUT` seconds lie between its time and `now`.
    pub open spec fn timed_out_at(self, now: u64) -> bool {
        self.time + COOKIE_TIMEOUT < now
    }
}

impl Cookie {
    /// Parser of a cookie on sequences of bytes. A cookie is its 72 bytes
    /// and nothing else: fewer are incomplete, more are refused.
    pub open spec fn parse(input: Seq<u8>) -> Result<(CookieView, Seq<u8>), DecodeError> {
        if input.len() < COOKIE_SIZE {
            Err(DecodeError::Incomplete)
        } else if input.len() > COOKIE_SIZE {
            Err(DecodeError::TrailingBytes)
        } else {
            Ok(
                (
                    CookieView {
                        time: u64_from_be(input.subrange(0, 8)),
                        real_pk: input.subrange(8, 40),
                        dht_pk: input.subrange(40, 72),
                    },
                    Seq::empty(),
                ),
            )
        }
    }

    /// What is had from a sealed cookie once the cipher has answered with
    /// `opened`: the cookie that the message parses as.
    pub open spec fn payload_of(opened: Option<Seq<u8>>) -> Result<CookieView, DecryptError> {
        match opened {
            None => Err(DecryptError::DecryptionFailed),
            Some(message) => match Self::parse(message) {
                Ok((cookie, _)) => Ok(cookie),
                Err(e) => Err(DecryptError::MalformedPayload(e)),
            },
        }
    }

    /// Create new `Cookie`, stamped with the time that the clock reads.
    pub fn new(real_pk: PublicKey, dht_pk: PublicKey) -> (cookie: Cookie)
        ensures
            cookie.real_pk == real_pk,
            cookie.dht_pk == dht_pk,
    {
        Cookie { time: unix_time(std::time::SystemTime::now()), real_pk, dht_pk }
    }

    /// Check if this cookie is timed out when the clock reads `now`.
    ///
    /// A cookie from the future is not timed out, however far its time lies
    /// ahead.
    pub fn is_timed_out_at(&self, now: u64) -> (timed_out: bool)
        ensures
            timed_out == self@.timed_out_at(now),
    {
        match self.time.checked_add(COOKIE_TIMEOUT) {
            Some(end) => end < now,
            None => false,
        }
    }

    /// Check if this cookie is timed out.
    ///
    /// Cookie considered timed out after 15 seconds since it was created.
    pub fn is_timed_out(&self) -> (timed_out: bool)
        ensures
            exists|now: u64| timed_out == self@.timed_out_at(now),
    {
        let now = unix_time(std::time::SystemTime::now());
        let timed_out = self.is_timed_out_at(now);
        assert(timed_out == self@.timed_out_at(now));
        timed_out
    }

    /// Reads a cookie from `input`, which must hold it and nothing else.
    pub fn from_bytes<'a>(input: &'a [u8]) -> (res: Result<(&'a [u8], Cookie), DecodeError>)
        ensures
            match res {
                Ok((rest, cookie)) => Self::parse(input@) == Ok::<_, DecodeError>(
                    (cookie@, rest@),
                ),
                Err(e) => Self::parse(input@) == Err::<(CookieView, Seq<u8>), _>(e),
            },
    {
        if input.len() < 8 {
            return Err(DecodeError::Incomplete);
        }
        let time = read_u64_be(input, 0);
        let (after_real_pk, real_pk) = match PublicKey::from_bytes(rest_from(input, 8)) {
            Ok(parsed) => parsed,
            Err(e) => {
                return Err(e);
            },
        };
        let (rest, dht_pk) = match PublicKey::from_bytes(after_real_pk) {
            Ok(parsed) => parsed,
            Err(e) => {
                return Err(e);
            },
        };
        if rest.len() > 0 {
            return Err(DecodeError::TrailingBytes);
        }
        proof {
            assert(real_pk@ =~= input@.subrange(8, 40));
            assert(dht_pk@ =~= input@.subrange(40, 72));
            assert(rest@ =~= Seq::<u8>::empty());
        }
        Ok((rest, Cookie { time, real_pk, dht_pk }))
    }

    /// Writes the cookie into `buf` from index `offset` on and answers the
    /// index behind it.
    pub fn to_bytes(&self, buf: &mut [u8], offset: usize) -> (res: Result<usize, EncodeError>)
        ensures
            encodes(old(buf)@, offset, self@.wire(), final(buf)@, res),
    {
        let room = buf.len();
        if offset > room || room - offset < COOKIE_SIZE {
            return Err(EncodeError::BufferTooSmall);
        }
        write_u64_be(buf, offset, self.time);
        write_slice(buf, offset + 8, &self.real_pk.0);
        write_slice(buf, offset + 40, &self.dht_pk.0);
        proof {
            let at = offset as int;
            lemma_written_twice(old(buf)@, at, u64_be(self.time), self.real_pk@);
            lemma_written_twice(old(buf)@, at, u64_be(self.time) + self.real_pk@, self.dht_pk@);
        }
        Ok(offset + COOKIE_SIZE)
    }

    /// What is had from a sealed cookie once the cipher has answered with
    /// `opened`: see `payload_of`.
    pub fn from_opened(opened: Option<Vec<u8>>) -> (res: Result<Cookie, DecryptError>)
        ensures
            match res {
                Ok(cookie) => Self::payload_of(opened_view(opened)) == Ok::<_, DecryptError>(
                    cookie@,
                ),
                Err(e) => Self::payload_of(opened_view(opened)) == Err::<CookieView, _>(e),
            },
    {
        match opened {
            None => Err(DecryptError::DecryptionFailed),
            Some(message) => match Cookie::from_bytes(message.as_slice()) {
                Ok((_, cookie)) => Ok(cookie),
                Err(e) => Err(DecryptError::MalformedPayload(e)),
            },
        }
    }
}

/// Encrypted with symmetric key `Cookie`.
///
/// Serialized form:
///
/// Length | Content
/// ------ | ------
/// `24`   | Nonce
/// `88`   | Payload
#[derive(Clone, Debug, Eq, PartialEq)]
pub struct EncryptedCookie {
    /// Nonce for the current encrypted payload
    pub nonce: secretbox::Nonce,
    /// Encrypted payload
    pub payload: Vec<u8>,
}

/// An `EncryptedCookie` as the contracts see it.
pub struct EncryptedCookieView {
    pub nonce: Seq<u8>,
    pub payload: Seq<u8>,
}

impl View for EncryptedCookie {
    type V = EncryptedCookieView;

    open spec fn view(&self) -> EncryptedCookieView {
        EncryptedCookieView { nonce: self.nonce@, payload: self.payload@ }
    }
}

impl EncryptedCookieView {
    /// The nonce has the length of a nonce and the payload that of a sealed
    /// cookie. An `EncryptedCookie` that was made by `new` or read by
    /// `from_bytes` is so; one that was put together by hand need not be.
    pub open spec fn wf(self) -> bool {
        self.nonce.len() == secretbox::NONCEBYTES && self.payload.len() == COOKIE_PAYLOAD_SIZE
    }

    /// The wire form: the nonce and the payload.
    pub open spec fn wire(self) -> Seq<u8> {
        self.nonce + self.payload
    }

    /// What `get_payload` gives under the key `key`: the cookie that the
    /// payload, opened under `key`, parses as.
    pub open spec fn payload_under(self, key: Seq<u8>) -> Result<CookieView, DecryptError> {
        Cookie::payload_of(secretbox_opened(self.payload, self.nonce, key))
    }

    /// What `hash` gives: the SHA-512 digest of the wire form.
    pub open spec fn digest(self) -> Seq<u8> {
        sha512_digest(self.wire())
    }
}

impl EncryptedCookie {
    /// Parser of an encrypted cookie on sequences of bytes: the nonce, 88
    /// bytes of payload, and what is left over.
    pub open spec fn parse(input: Seq<u8>) -> Result<(EncryptedCookieView, Seq<u8>), DecodeError> {
        if input.len() < ENCRYPTED_COOKIE_SIZE {
            Err(DecodeError::Incomplete)
        } else {
            Ok(
                (
                    EncryptedCookieView {
                        nonce: input.subrange(0, 24),
                        payload: input.subrange(24, 112),
                    },
                    input.subrange(112, input.len() as int),
                ),
            )
        }
    }

    /// Reads an encrypted cookie from the head of `input` and hands back
    /// what follows it.
    pub fn from_bytes<'a>(input: &'a [u8]) -> (res: Result<
        (&'a [u8], EncryptedCookie),
        DecodeError,
    >)
        ensures
            match res {
                Ok((rest, cookie)) => cookie@.wf() && Self::parse(input@) == Ok::<_, DecodeError>(
                    (cookie@, rest@),
                ),
                Err(e) => Self::parse(input@) == Err::<(EncryptedCookieView, Seq<u8>), _>(e),
            },
    {
        let (after_nonce, nonce) = match secretbox::Nonce::from_bytes(input) {
            Ok(parsed) => parsed,
            Err(e) => {
                return Err(e);
            },
        };
        if after_nonce.len() < COOKIE_PAYLOAD_SIZE {
            return Err(DecodeError::Incomplete);
        }
        let payload = read_vec(after_nonce, 0, COOKIE_PAYLOAD_SIZE);
        let rest = rest_from(after_nonce, COOKIE_PAYLOAD_SIZE);
        proof {
            assert(payload@ =~= input@.subrange(24, 112));
            assert(rest@ =~= input@.subrange(112, input@.len() as int));
        }
        Ok((rest, EncryptedCookie { nonce, payload }))
    }

    /// Writes the encrypted cookie into `buf` from index `offset` on and
    /// answers the index behind it.
    pub fn to_bytes(&self, buf: &mut [u8], offset: usize) -> (res: Result<usize, EncodeError>)
        ensures
            encodes(old(buf)@, offset, self@.wire(), final(buf)@, res),
    {
        let room = buf.len();
        if offset > room || room - offset < secretbox::NONCEBYTES || room - offset
            - secretbox::NONCEBYTES < self.payload.len() {
            return Err(EncodeError::BufferTooSmall);
        }
        write_slice(buf, offset, &self.nonce.0);
        write_slice(buf, offset + secretbox::NONCEBYTES, self.payload.as_slice());
        proof {
            lemma_written_twice(old(buf)@, offset as int, self.nonce@, self.payload@);
        }
        Ok(offset + secretbox::NONCEBYTES + self.payload.len())
    }

    /// Create `EncryptedCookie` from `Cookie` encrypting it with
    /// `symmetric_key` under a fresh nonce.
    ///
    /// The payload is the cookie's wire form, sealed; `get_payload` with
    /// the same key gives the cookie back.
    pub fn new(symmetric_key: &secretbox::Key, payload: &Cookie) -> (cookie: EncryptedCookie)
        ensures
            cookie@.wf(),
            cookie@.payload == secretbox_sealed(payload@.wire(), cookie@.nonce, symmetric_key@),
            cookie@.payload_under(symmetric_key@) == Ok::<_, DecryptError>(payload@),
    {
        Self::with_nonce(symmetric_key, payload, secretbox::gen_nonce())
    }

    /// Create `EncryptedCookie` from `Cookie` encrypting it with
    /// `symmetric_key` under `nonce`, which must not have served with this
    /// key before.
    pub fn with_nonce(
        symmetric_key: &secretbox::Key,
        payload: &Cookie,
        nonce: secretbox::Nonce,
    ) -> (cookie: EncryptedCookie)
        ensures
            cookie@.wf(),
            cookie.nonce == nonce,
            cookie@.payload == secretbox_sealed(payload@.wire(), nonce@, symmetric_key@),
            cookie@.payload_under(symmetric_key@) == Ok::<_, DecryptError>(payload@),
    {
        let mut buf = [0u8; COOKIE_SIZE];
        let size = payload.to_bytes(&mut buf, 0).unwrap();
        proof {
            lemma_cookie_round_trip(payload@);
            assert(buf@.subrange(0, size as int) =~= payload@.wire());
        }
        let sealed = secretbox::seal(&buf[0..size], &nonce, symmetric_key);
        EncryptedCookie { nonce, payload: sealed }
    }

    /// Decrypt payload with symmetric key and try to parse it as `Cookie`.
    ///
    /// Returns an error in case of failure:
    ///
    /// - fails to decrypt
    /// - fails to parse `Cookie`
    ///
    /// A payload of any length but that of a sealed cookie fails one way or
    /// the other.
    pub fn get_payload(&self, symmetric_key: &secretbox::Key) -> (res: Result<Cookie, DecryptError>)
        ensures
            match res {
                Ok(cookie) => self@.payload_under(symmetric_key@) == Ok::<_, DecryptError>(
                    cookie@,
                ),
                Err(e) => self@.payload_under(symmetric_key@) == Err::<CookieView, _>(e),
            },
            self.payload@.len() != COOKIE_PAYLOAD_SIZE ==> res is Err,
    {
        let opened = secretbox::open(self.payload.as_slice(), &self.nonce, symmetric_key);
        Cookie::from_opened(opened)
    }

    /// Calculate SHA512 hash of encrypted cookie together with nonce.
    ///
    /// The payload must not be longer than a sealed cookie is.
    pub fn hash(&self) -> (digest: sha512::Digest)
        requires
            self.payload@.len() <= COOKIE_PAYLOAD_SIZE,
        ensures
            digest@ == self@.digest(),
    {
        let mut buf = [0u8; ENCRYPTED_COOKIE_SIZE];
        let size = self.to_bytes(&mut buf, 0).unwrap();
        assert(buf@.subrange(0, size as int) =~= self@.wire());
        sha512::hash(&buf[0..size])
    }
}

/// A cookie that is parsed from its own wire form is the same cookie, and
/// nothing is left over.
pub proof fn lemma_cookie_round_trip(cookie: CookieView)
    requires
        cookie.wf(),
    ensures
        cookie.wire().len() == COOKIE_SIZE,
        Cookie::parse(cookie.wire()) == Ok::<_, DecodeError>((cookie, Seq::<u8>::empty())),
{
    lemma_u64_be_value(cookie.time);
    let wire = cookie.wire();
    assert(wire.subrange(0, 8) =~= u64_be(cookie.time));
    assert(wire.subrange(8, 40) =~= cookie.real_pk);
    assert(wire.subrange(40, 72) =~= cookie.dht_pk);
}

/// The wire form of the cookie that 72 bytes parse as is those bytes.
pub proof fn lemma_cookie_wire_of_parsed(input: Seq<u8>)
    requires
        input.len() == COOKIE_SIZE,
    ensures
        Cookie::parse(input) is Ok,
        Cookie::parse(input)->Ok_0.0.wf(),
        Cookie::parse(input)->Ok_0.0.wire() == input,
{
    lemma_u64_be_bytes(input.subrange(0, 8));
    assert(Cookie::parse(input)->Ok_0.0.wire() =~= input);
}

/// Two cookies with one view are one cookie.
pub proof fn lemma_cookie_view_injective(a: Cookie, b: Cookie)
    requires
        a@ == b@,
    ensures
        a == b,
{
    assert(a.real_pk.0 =~= b.real_pk.0);
    assert(a.dht_pk.0 =~= b.dht_pk.0);
}

/// A cookie whose time is what the clock reads is not timed out; one whose
/// time lies `COOKIE_TIMEOUT + 1` seconds back is.
pub proof fn lemma_timeout_boundary(cookie: CookieView, now: u64)
    ensures
        cookie.time == now ==> !cookie.timed_out_at(now),
        cookie.time == now - (COOKIE_TIMEOUT + 1) ==> cookie.timed_out_at(now),
        cookie.timed_out_at(now) <==> now - cookie.time > COOKIE_TIMEOUT,
{
}

/// An encrypted cookie that is parsed from its own wire form is the same
/// encrypted cookie, and nothing is left over.
pub proof fn lemma_encrypted_cookie_round_trip(cookie: EncryptedCookieView)
    requires
        cookie.wf(),
    ensures
        cookie.wire().len() == ENCRYPTED_COOKIE_SIZE,
        EncryptedCookie::parse(cookie.wire()) == Ok::<_, DecodeError>(
            (cookie, Seq::<u8>::empty()),
        ),
{
    let wire = cookie.wire();
    assert(wire.subrange(0, 24) =~= cookie.nonce);
    assert(wire.subrange(24, 112) =~= cookie.payload);
    assert(wire.subrange(112, wire.len() as int) =~= Seq::<u8>::empty());
}

/// An encrypted cookie that the cipher does not open under a key gives the
/// holder of that key an error. This is what keeps out another key, and
/// a payload of which a bit was changed, save for the forgeries that the
/// cipher lets through.
pub proof fn lemma_refused_cookie_is_an_error(cookie: EncryptedCookieView, key: Seq<u8>)
    requires
        secretbox_opened(cookie.payload, cookie.nonce, key) is None,
    ensures
        cookie.payload_under(key) == Err::<CookieView, _>(DecryptError::DecryptionFailed),
{
}

/// Equal encrypted cookies have equal hashes, and two that differ in the
/// nonce or in the payload do not give the hash function the same bytes: a
/// hash that they share is a collision of SHA-512.
pub proof fn lemma_hash_depends_on_all_fields(a: EncryptedCookieView, b: EncryptedCookieView)
    requires
        a.nonce.len() == secretbox::NONCEBYTES,
        b.nonce.len() == secretbox::NONCEBYTES,
    ensures
        a == b ==> a.digest() == b.digest(),
        a.nonce != b.nonce || a.payload != b.payload ==> a.wire() != b.wire(),
{
    if a.wire() == b.wire() {
        assert(a.nonce =~= a.wire().subrange(0, 24));
        assert(b.nonce =~= b.wire().subrange(0, 24));
        assert(a.payload =~= a.wire().subrange(24, a.wire().len() as int));
        assert(b.payload =~= b.wire().subrange(24, b.wire().len() as int));
    }
}

} // verus!
