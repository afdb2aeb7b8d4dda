//! OnionRequest1 packet with OnionRequest1Payload.

use vstd::prelude::*;
use crate::binary_io::{
    encodes,
    lemma_written_twice,
    read_vec,
    rest_from,
    write_slice,
    written,
    DecodeError,
    EncodeError,
};
use crate::crypto_core::{
    box_opened,
    box_sealed,
    gen_nonce,
    open_precomputed,
    opened_view,
    seal_precomputed,
    DecryptError,
    Nonce,
    PrecomputedKey,
    PublicKey,
    MACBYTES,
    NONCEBYTES,
    PUBLICKEYBYTES,
};
use crate::onion::{
    lemma_ip_port_round_trip,
    IpPort,
    IpPortView,
    OnionReturn,
    OnionReturnView,
    ONION_MAX_PACKET_SIZE,
    ONION_RETURN_1_PAYLOAD_SIZE,
    ONION_RETURN_1_SIZE,
    SIZE_IPPORT,
};

verus! {

/// The first byte of an `OnionRequest1` packet.
pub const ONION_REQUEST_1_TAG: u8 = 0x81;

/// Number of bytes of an `OnionRequest1` packet before its payload: the
/// tag, the nonce and the temporary key.
pub const ONION_REQUEST_1_HEADER_SIZE: usize = 1 + NONCEBYTES + PUBLICKEYBYTES;

/// Second onion request packet. It's sent from the first to the second node
/// from onion chain. Payload should be encrypted with temporary generated
/// `SecretKey` and with DHT `PublicKey` of receiver.
///
/// Serialized form:
///
/// Length   | Content
/// -------- | ------
/// `1`      | `0x81`
/// `24`     | `Nonce`
/// `32`     | Temporary `PublicKey`
/// variable | Payload
/// `59`     | `OnionReturn`
///
/// where payload is encrypted `OnionRequest1Payload`
#[derive(Clone, Debug, Eq, PartialEq)]
pub struct OnionRequest1 {
    /// Nonce for the current encrypted payload
    pub nonce: Nonce,
    /// Temporary `PublicKey` for the current encrypted payload
    pub temporary_pk: PublicKey,
    /// Encrypted payload
    pub payload: Vec<u8>,
    /// Return address encrypted by the first node from onion chain
    pub onion_return: OnionReturn,
}

/// An `OnionRequest1` as the contracts see it.
pub struct OnionRequest1View {
    pub nonce: Seq<u8>,
    pub temporary_pk: Seq<u8>,
    pub payload: Seq<u8>,
    pub onion_return: OnionReturnView,
}

impl View for OnionRequest1 {
    type V = OnionRequest1View;

    open spec fn view(&self) -> OnionRequest1View {
        OnionRequest1View {
            nonce: self.nonce@,
            temporary_pk: self.temporary_pk@,
            payload: self.payload@,
            onion_return: self.onion_return@,
        }
    }
}

impl OnionRequest1View {
    /// Nonces and key have their lengths, the return address is that of
    /// the first node, 59 bytes in all, and the packet is no longer than the
    /// largest onion packet. A packet that `from_bytes` read is so; one that
    /// was put together by hand need not be.
    pub open spec fn wf(self) -> bool {
        &&& self.nonce.len() == NONCEBYTES
        &&& self.temporary_pk.len() == PUBLICKEYBYTES
        &&& self.onion_return.nonce.len() == NONCEBYTES
        &&& self.onion_return.payload.len() == ONION_RETURN_1_PAYLOAD_SIZE
        &&& self.wire().len() <= ONION_MAX_PACKET_SIZE
    }

    /// The wire form: the tag, the nonce, the temporary key, the payload
    /// and the return address.
    pub open spec fn wire(self) -> Seq<u8> {
        seq![ONION_REQUEST_1_TAG] + self.nonce + self.temporary_pk + self.payload
            + self.onion_return.wire()
    }

    /// What `get_payload` gives under the key `key`: the payload that the
    /// box, opened under `key`, parses as.
    pub open spec fn payload_under(self, key: Seq<u8>) -> Result<
        OnionRequest1PayloadView,
        DecryptError,
    > {
        OnionRequest1Payload::payload_of(box_opened(self.payload, self.nonce, key))
    }
}

impl OnionRequest1 {
    /// Parser of the packet on sequences of bytes. The input is one
    /// packet: it is no longer than the largest onion packet, it begins with
    /// the tag, the nonce and the temporary key, its last 59 bytes are the
    /// return address, and what lies between is the payload.
    pub open spec fn parse(input: Seq<u8>) -> Result<(OnionRequest1View, Seq<u8>), DecodeError> {
        let len = input.len() as int;
        if len > ONION_MAX_PACKET_SIZE {
            Err(DecodeError::TooLong)
        } else if len == 0 {
            Err(DecodeError::Incomplete)
        } else if input[0] != ONION_REQUEST_1_TAG {
            Err(DecodeError::BadTag)
        } else if len < ONION_REQUEST_1_HEADER_SIZE + ONION_RETURN_1_SIZE {
            Err(DecodeError::Incomplete)
        } else {
            Ok(
                (
                    OnionRequest1View {
                        nonce: input.subrange(1, 25),
                        temporary_pk: input.subrange(25, 57),
                        payload: input.subrange(57, len - ONION_RETURN_1_SIZE),
                        onion_return: OnionReturnView {
                            nonce: input.subrange(
                                len - ONION_RETURN_1_SIZE,
                                len - ONION_RETURN_1_PAYLOAD_SIZE,
                            ),
                            payload: input.subrange(len - ONION_RETURN_1_PAYLOAD_SIZE, len),
                        },
                    },
                    Seq::empty(),
                ),
            )
        }
    }

    /// Reads a packet from `input`, all of it.
    pub fn from_bytes<'a>(input: &'a [u8]) -> (res: Result<(&'a [u8], OnionRequest1), DecodeError>)
        ensures
            match res {
                Ok((rest, packet)) => packet@.wf() && Self::parse(input@) == Ok::<_, DecodeError>(
                    (packet@, rest@),
                ),
                Err(e) => Self::parse(input@) == Err::<(OnionRequest1View, Seq<u8>), _>(e),
            },
    {
        if input.len() > ONION_MAX_PACKET_SIZE {
            return Err(DecodeError::TooLong);
        }
        if input.len() == 0 {
            return Err(DecodeError::Incomplete);
        }
        if input[0] != ONION_REQUEST_1_TAG {
            return Err(DecodeError::BadTag);
        }
        let (after_nonce, nonce) = match Nonce::from_bytes(rest_from(input, 1)) {
            Ok(parsed) => parsed,
            Err(e) => {
                return Err(e);
            },
        };
        let (after_key, temporary_pk) = match PublicKey::from_bytes(after_nonce) {
            Ok(parsed) => parsed,
            Err(e) => {
                return Err(e);
            },
        };
        if after_key.len() < ONION_RETURN_1_SIZE {
            return Err(DecodeError::Incomplete);
        }
        let payload_len = after_key.len() - ONION_RETURN_1_SIZE;
        let payload = read_vec(after_key, 0, payload_len);
        let (rest, onion_return) = match OnionReturn::from_bytes(
            rest_from(after_key, payload_len),
        ) {
            Ok(parsed) => parsed,
            Err(e) => {
                return Err(e);
            },
        };
        proof {
            let len = input@.len() as int;
            assert(after_key@ =~= input@.subrange(57, len));
            assert(nonce@ =~= input@.subrange(1, 25));
            assert(temporary_pk@ =~= input@.subrange(25, 57));
            assert(payload@ =~= input@.subrange(57, len - ONION_RETURN_1_SIZE));
            assert(onion_return@.nonce =~= input@.subrange(
                len - ONION_RETURN_1_SIZE,
                len - ONION_RETURN_1_PAYLOAD_SIZE,
            ));
            assert(onion_return@.payload =~= input@.subrange(
                len - ONION_RETURN_1_PAYLOAD_SIZE,
                len,
            ));
        }
        Ok((rest, OnionRequest1 { nonce, temporary_pk, payload, onion_return }))
    }

    /// Writes the packet into `buf` from index `offset` on and answers the
    /// index behind it.
    pub fn to_bytes(&self, buf: &mut [u8], offset: usize) -> (res: Result<usize, EncodeError>)
        ensures
            encodes(old(buf)@, offset, self@.wire(), final(buf)@, res),
    {
        let room = buf.len();
        if offset > room || room - offset < ONION_REQUEST_1_HEADER_SIZE {
            return Err(EncodeError::BufferTooSmall);
        }
        let after_header = room - offset - ONION_REQUEST_1_HEADER_SIZE;
        if after_header < self.payload.len() || after_header - self.payload.len() < NONCEBYTES
            || after_header - self.payload.len() - NONCEBYTES < self.onion_return.payload.len() {
            return Err(EncodeError::BufferTooSmall);
        }
        let tag: [u8; 1] = [ONION_REQUEST_1_TAG];
        write_slice(buf, offset, &tag);
        write_slice(buf, offset + 1, &self.nonce.0);
        write_slice(buf, offset + 1 + NONCEBYTES, &self.temporary_pk.0);
        write_slice(buf, offset + ONION_REQUEST_1_HEADER_SIZE, self.payload.as_slice());
        let ghost head = tag@ + self.nonce@ + self.temporary_pk@ + self.payload@;
        proof {
            let at = offset as int;
            assert(tag@ =~= seq![ONION_REQUEST_1_TAG]);
            lemma_written_twice(old(buf)@, at, tag@, self.nonce@);
            lemma_written_twice(old(buf)@, at, tag@ + self.nonce@, self.temporary_pk@);
            lemma_written_twice(
                old(buf)@,
                at,
                tag@ + self.nonce@ + self.temporary_pk@,
                self.payload@,
            );
            assert(buf@ == written(old(buf)@, at, head));
        }
        let res = self.onion_return.to_bytes(
            buf,
            offset + ONION_REQUEST_1_HEADER_SIZE + self.payload.len(),
        );
        proof {
            lemma_written_twice(old(buf)@, offset as int, head, self.onion_return@.wire());
        }
        res
    }

    /// Create new `OnionRequest1` object: `payload`, sealed with
    /// `shared_secret` under a fresh nonce, between `temporary_pk` and
    /// `onion_return`.
    ///
    /// The wire form of the payload must fit in an onion packet.
    /// `get_payload` with the same key gives the payload back.
    pub fn new(
        shared_secret: &PrecomputedKey,
        temporary_pk: &PublicKey,
        payload: OnionRequest1Payload,
        onion_return: OnionReturn,
    ) -> (packet: OnionRequest1)
        requires
            SIZE_IPPORT + PUBLICKEYBYTES + payload.inner@.len() <= ONION_MAX_PACKET_SIZE,
        ensures
            packet@.temporary_pk == temporary_pk@,
            packet@.onion_return == onion_return@,
            packet@.payload == box_sealed(payload@.wire(), packet@.nonce, shared_secret@),
            packet@.payload.len() == SIZE_IPPORT + PUBLICKEYBYTES + payload.inner@.len() + MACBYTES,
            packet@.payload_under(shared_secret@) == Ok::<_, DecryptError>(payload@),
            packet@.wf() <==> onion_return.payload@.len() == ONION_RETURN_1_PAYLOAD_SIZE
                && ONION_REQUEST_1_HEADER_SIZE + SIZE_IPPORT + PUBLICKEYBYTES
                + payload.inner@.len() + MACBYTES + ONION_RETURN_1_SIZE <= ONION_MAX_PACKET_SIZE,
    {
        Self::with_nonce(shared_secret, temporary_pk, payload, onion_return, gen_nonce())
    }

    /// Create new `OnionRequest1` object with `payload` sealed under
    /// `nonce`, which must not have served with this key before.
    pub fn with_nonce(
        shared_secret: &PrecomputedKey,
        temporary_pk: &PublicKey,
        payload: OnionRequest1Payload,
        onion_return: OnionReturn,
        nonce: Nonce,
    ) -> (packet: OnionRequest1)
        requires
            SIZE_IPPORT + PUBLICKEYBYTES + payload.inner@.len() <= ONION_MAX_PACKET_SIZE,
        ensures
            packet.nonce == nonce,
            packet@.temporary_pk == temporary_pk@,
            packet@.onion_return == onion_return@,
            packet@.payload == box_sealed(payload@.wire(), nonce@, shared_secret@),
            packet@.payload.len() == SIZE_IPPORT + PUBLICKEYBYTES + payload.inner@.len() + MACBYTES,
            packet@.payload_under(shared_secret@) == Ok::<_, DecryptError>(payload@),
            packet@.wf() <==> onion_return.payload@.len() == ONION_RETURN_1_PAYLOAD_SIZE
                && ONION_REQUEST_1_HEADER_SIZE + SIZE_IPPORT + PUBLICKEYBYTES
                + payload.inner@.len() + MACBYTES + ONION_RETURN_1_SIZE <= ONION_MAX_PACKET_SIZE,
    {
        let mut buf = [0u8; ONION_MAX_PACKET_SIZE];
        proof {
            lemma_onion_request_1_payload_round_trip(payload@);
        }
        let size = payload.to_bytes(&mut buf, 0).unwrap();
        assert(buf@.subrange(0, size as int) =~= payload@.wire());
        let sealed = seal_precomputed(&buf[0..size], &nonce, shared_secret);
        OnionRequest1 { nonce, temporary_pk: *temporary_pk, payload: sealed, onion_return }
    }

    /// Decrypt payload and try to parse it as `OnionRequest1Payload`.
    ///
    /// Returns an error in case of failure:
    ///
    /// - fails to decrypt
    /// - fails to parse as `OnionRequest1Payload`
    ///
    /// A payload too short to hold a sealed address and key fails one way
    /// or the other.
    pub fn get_payload(&self, shared_secret: &PrecomputedKey) -> (res: Result<
        OnionRequest1Payload,
        DecryptError,
    >)
        ensures
            match res {
                Ok(payload) => self@.payload_under(shared_secret@) == Ok::<_, DecryptError>(
                    payload@,
                ),
                Err(e) => self@.payload_under(shared_secret@) == Err::<
                    OnionRequest1PayloadView,
                    _,
                >(e),
            },
            self.payload@.len() < SIZE_IPPORT + PUBLICKEYBYTES + MACBYTES ==> res is Err,
    {
        let opened = open_precomputed(self.payload.as_slice(), &self.nonce, shared_secret);
        OnionRequest1Payload::from_opened(opened)
    }
}

/// Unencrypted payload of `OnionRequest1` packet.
///
/// Inner payload should be sent to the next node with address from
/// `ip_port` field.
///
/// Serialized form:
///
/// Length   | Content
/// -------- | ------
/// `19`     | `IpPort` of the next node
/// `32`     | Temporary `PublicKey`
/// variable | Payload
///
/// where payload is the encrypted payload of the next request
#[derive(Clone, Debug, Eq, PartialEq)]
pub struct OnionRequest1Payload {
    /// Address of the next node in the onion path
    pub ip_port: IpPort,
    /// Temporary `PublicKey` for the current encrypted payload
    pub temporary_pk: PublicKey,
    /// Inner onion payload
    pub inner: Vec<u8>,
}

/// An `OnionRequest1Payload` as the contracts see it.
pub struct OnionRequest1PayloadView {
    pub ip_port: IpPortView,
    pub temporary_pk: Seq<u8>,
    pub inner: Seq<u8>,
}

impl View for OnionRequest1Payload {
    type V = OnionRequest1PayloadView;

    open spec fn view(&self) -> OnionRequest1PayloadView {
        OnionRequest1PayloadView {
            ip_port: self.ip_port@,
            temporary_pk: self.temporary_pk@,
            inner: self.inner@,
        }
    }
}

impl OnionRequest1PayloadView {
    /// Address and key have their lengths. The view of an
    /// `OnionRequest1Payload` always has.
    pub open spec fn wf(self) -> bool {
        self.ip_port.wf() && self.temporary_pk.len() == PUBLICKEYBYTES
    }

    /// The wire form: the address, the temporary key and the inner
    /// payload.
    pub open spec fn wire(self) -> Seq<u8> {
        self.ip_port.wire() + self.temporary_pk + self.inner
    }
}

impl OnionRequest1Payload {
    /// Parser of the payload on sequences of bytes: the address, the
    /// temporary key, and all that follows them as the inner payload.
    pub open spec fn parse(input: Seq<u8>) -> Result<
        (OnionRequest1PayloadView, Seq<u8>),
        DecodeError,
    > {
        match IpPort::parse(input) {
            Err(e) => Err(e),
            Ok((ip_port, after_address)) => match PublicKey::parse(after_address) {
                Err(e) => Err(e),
                Ok((temporary_pk, inner)) => Ok(
                    (OnionRequest1PayloadView { ip_port, temporary_pk, inner }, Seq::empty()),
                ),
            },
        }
    }

    /// What is had from a sealed payload once the cipher has answered with
    /// `opened`: the payload that the message parses as.
    pub open spec fn payload_of(opened: Option<Seq<u8>>) -> Result<
        OnionRequest1PayloadView,
        DecryptError,
    > {
        match opened {
            None => Err(DecryptError::DecryptionFailed),
            Some(message) => match Self::parse(message) {
                Ok((payload, _)) => Ok(payload),
                Err(e) => Err(DecryptError::MalformedPayload(e)),
            },
        }
    }

    /// Reads a payload from `input`, all of it.
    pub fn from_bytes<'a>(input: &'a [u8]) -> (res: Result<
        (&'a [u8], OnionRequest1Payload),
        DecodeError,
    >)
        ensures
            match res {
                Ok((rest, payload)) => Self::parse(input@) == Ok::<_, DecodeError>(
                    (payload@, rest@),
                ),
                Err(e) => Self::parse(input@) == Err::<(OnionRequest1PayloadView, Seq<u8>), _>(e),
            },
    {
        let (after_address, ip_port) = match IpPort::from_bytes(input) {
            Ok(parsed) => parsed,
            Err(e) => {
                return Err(e);
            },
        };
        let (after_key, temporary_pk) = match PublicKey::from_bytes(after_address) {
            Ok(parsed) => parsed,
            Err(e) => {
                return Err(e);
            },
        };
        let inner = read_vec(after_key, 0, after_key.len());
        let rest = rest_from(after_key, after_key.len());
        proof {
            assert(inner@ =~= after_key@);
            assert(rest@ =~= Seq::<u8>::empty());
        }
        Ok((rest, OnionRequest1Payload { ip_port, temporary_pk, inner }))
    }

    /// Writes the payload into `buf` from index `offset` on and answers
    /// the index behind it.
    pub fn to_bytes(&self, buf: &mut [u8], offset: usize) -> (res: Result<usize, EncodeError>)
        ensures
            encodes(old(buf)@, offset, self@.wire(), final(buf)@, res),
    {
        let room = buf.len();
        if offset > room || room - offset < SIZE_IPPORT + PUBLICKEYBYTES || room - offset
            - SIZE_IPPORT - PUBLICKEYBYTES < self.inner.len() {
            return Err(EncodeError::BufferTooSmall);
        }
        proof {
            lemma_ip_port_round_trip(self.ip_port@);
        }
        let after_address = self.ip_port.to_bytes(buf, offset).unwrap();
        write_slice(buf, after_address, &self.temporary_pk.0);
        write_slice(buf, after_address + PUBLICKEYBYTES, self.inner.as_slice());
        proof {
            let at = offset as int;
            lemma_written_twice(old(buf)@, at, self.ip_port@.wire(), self.temporary_pk@);
            lemma_written_twice(
                old(buf)@,
                at,
                self.ip_port@.wire() + self.temporary_pk@,
                self.inner@,
            );
        }
        Ok(after_address + PUBLICKEYBYTES + self.inner.len())
    }

    /// What is had from a sealed payload once the cipher has answered with
    /// `opened`: see `payload_of`.
    pub fn from_opened(opened: Option<Vec<u8>>) -> (res: Result<
        OnionRequest1Payload,
        DecryptError,
    >)
        ensures
            match res {
                Ok(payload) => Self::payload_of(opened_view(opened)) == Ok::<_, DecryptError>(
                    payload@,
                ),
                Err(e) => Self::payload_of(opened_view(opened)) == Err::<
                    OnionRequest1PayloadView,
                    _,
                >(e),
            },
    {
        match opened {
            None => Err(DecryptError::DecryptionFailed),
            Some(message) => match OnionRequest1Payload::from_bytes(message.as_slice()) {
                Ok((_, payload)) => Ok(payload),
                Err(e) => Err(DecryptError::MalformedPayload(e)),
            },
        }
    }
}

/// A packet that is parsed from its own wire form is the same packet, and
/// nothing is left over.
pub proof fn lemma_onion_request_1_round_trip(packet: OnionRequest1View)
    requires
        packet.wf(),
    ensures
        OnionRequest1::parse(packet.wire()) == Ok::<_, DecodeError>(
            (packet, Seq::<u8>::empty()),
        ),
{
    let wire = packet.wire();
    let len = wire.len() as int;
    assert(wire.subrange(1, 25) =~= packet.nonce);
    assert(wire.subrange(25, 57) =~= packet.temporary_pk);
    assert(wire.subrange(57, len - ONION_RETURN_1_SIZE) =~= packet.payload);
    assert(wire.subrange(len - ONION_RETURN_1_SIZE, len - ONION_RETURN_1_PAYLOAD_SIZE)
        =~= packet.onion_return.nonce);
    assert(wire.subrange(len - ONION_RETURN_1_PAYLOAD_SIZE, len) =~= packet.onion_return.payload);
}

/// A payload that is parsed from its own wire form is the same payload,
/// and nothing is left over.
pub proof fn lemma_onion_request_1_payload_round_trip(payload: OnionRequest1PayloadView)
    requires
        payload.wf(),
    ensures
        payload.wire().len() == SIZE_IPPORT + PUBLICKEYBYTES + payload.inner.len(),
        OnionRequest1Payload::parse(payload.wire()) == Ok::<_, DecodeError>(
            (payload, Seq::<u8>::empty()),
        ),
{
    lemma_ip_port_round_trip(payload.ip_port);
    let wire = payload.wire();
    let address = payload.ip_port.wire();
    let len = wire.len() as int;
    // The address is parsed from its first byte and the 18 behind it, which
    // the whole wire form shares with the address's own.
    assert(wire[0] == address[0]);
    assert(wire.subrange(1, 5) =~= address.subrange(1, 5));
    assert(wire.subrange(1, 17) =~= address.subrange(1, 17));
    assert(wire.subrange(17, 19) =~= address.subrange(17, 19));
    let after_address = wire.subrange(SIZE_IPPORT as int, len);
    assert(after_address =~= payload.temporary_pk + payload.inner);
    assert(after_address.subrange(0, PUBLICKEYBYTES as int) =~= payload.temporary_pk);
    assert(after_address.subrange(PUBLICKEYBYTES as int, after_address.len() as int)
        =~= payload.inner);
}

/// A packet whose payload the cipher does not open under a key gives the
/// holder of that key an error. This is what keeps out another shared
/// secret, save for the forgeries that the cipher lets through.
pub proof fn lemma_refused_onion_request_1_is_an_error(packet: OnionRequest1View, key: Seq<u8>)
    requires
        box_opened(packet.payload, packet.nonce, key) is None,
    ensures
        packet.payload_under(key) == Err::<OnionRequest1PayloadView, _>(
            DecryptError::DecryptionFailed,
        ),
{
}

/// The sizes at which a packet parses: with the tag in front, an input of
/// just the largest size parses; one byte more does not, whatever it holds,
/// and neither does an input shorter than the return address.
pub proof fn lemma_onion_request_1_size_edges(input: Seq<u8>)
    ensures
        OnionRequest1::parse(input) is Ok <==> ONION_REQUEST_1_HEADER_SIZE + ONION_RETURN_1_SIZE
            <= input.len() <= ONION_MAX_PACKET_SIZE && input[0] == ONION_REQUEST_1_TAG,
        input.len() == ONION_MAX_PACKET_SIZE && input[0] == ONION_REQUEST_1_TAG
            ==> OnionRequest1::parse(input) is Ok,
        input.len() > ONION_MAX_PACKET_SIZE ==> OnionRequest1::parse(input) == Err::<
            (OnionRequest1View, Seq<u8>),
            _,
        >(DecodeError::TooLong),
        input.len() < ONION_RETURN_1_SIZE ==> OnionRequest1::parse(input) is Err,
{
}

} // verus!
