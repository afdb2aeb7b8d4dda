//! What the onion packets share: the address of a node as the packets
//! carry it, the return address that a node of the chain seals for the way
//! back, and the sizes.

use vstd::prelude::*;
use crate::binary_io::{
    encodes,
    lemma_u16_be_value,
    lemma_written_twice,
    read_array,
    read_u16_be,
    read_vec,
    rest_from,
    u16_be,
    u16_from_be,
    write_slice,
    write_u16_be,
    DecodeError,
    EncodeError,
};
use crate::crypto_core::{Nonce, MACBYTES, NONCEBYTES};

verus! {

/// IPv4 is padded with 12 bytes of zeroes so that both IPv4 and IPv6 have
/// the same stored size.
pub const IPV4_PADDING_SIZE: usize = 12;

/// Size of serialized `IpPort` struct.
pub const SIZE_IPPORT: usize = 19;

/// Size of first `OnionReturn` struct with no inner `OnionReturn`s.
pub const ONION_RETURN_1_SIZE: usize = NONCEBYTES + SIZE_IPPORT + MACBYTES;

/// Size of the payload of the first `OnionReturn` struct.
pub const ONION_RETURN_1_PAYLOAD_SIZE: usize = ONION_RETURN_1_SIZE - NONCEBYTES;

/// The maximum size of onion packet including public key, nonce, packet
/// kind byte, onion return.
pub const ONION_MAX_PACKET_SIZE: usize = 1400;

/// The byte that marks an IPv4 address.
pub const ADDRESS_FAMILY_IPV4: u8 = 2;

/// The byte that marks an IPv6 address.
pub const ADDRESS_FAMILY_IPV6: u8 = 10;

/// IP address of a node, by its octets.
#[derive(Clone, Copy, Debug, PartialEq, Eq)]
pub enum IpAddr {
    /// An IPv4 address
    V4([u8; 4]),
    /// An IPv6 address
    V6([u8; 16]),
}

/// `IpAddr` with a port number. IPv4 is padded with 12 bytes of zeros so
/// that both IPv4 and IPv6 have the same stored size.
///
/// Serialized form:
///
/// Length      | Content
/// ----------- | ------
/// `1`         | `2` for IPv4, `10` for IPv6
/// `4` or `16` | IPv4 or IPv6 address
/// `0` or `12` | Padding for IPv4
/// `2`         | Port
#[derive(Clone, Debug, Eq, PartialEq)]
pub struct IpPort {
    /// IP address
    pub ip_addr: IpAddr,
    /// Port number
    pub port: u16,
}

/// An `IpAddr` as the contracts see it.
pub enum IpAddrView {
    V4(Seq<u8>),
    V6(Seq<u8>),
}

/// An `IpPort` as the contracts see it.
pub struct IpPortView {
    pub ip_addr: IpAddrView,
    pub port: u16,
}

impl View for IpAddr {
    type V = IpAddrView;

    open spec fn view(&self) -> IpAddrView {
        match *self {
            IpAddr::V4(octets) => IpAddrView::V4(octets@),
            IpAddr::V6(octets) => IpAddrView::V6(octets@),
        }
    }
}

impl View for IpPort {
    type V = IpPortView;

    open spec fn view(&self) -> IpPortView {
        IpPortView { ip_addr: self.ip_addr@, port: self.port }
    }
}

/// Twelve zero bytes.
pub open spec fn ipv4_padding() -> Seq<u8> {
    Seq::new(IPV4_PADDING_SIZE as nat, |i: int| 0u8)
}

impl IpPortView {
    /// The address has as many octets as its family has. The view of an
    /// `IpPort` always has.
    pub open spec fn wf(self) -> bool {
        match self.ip_addr {
            IpAddrView::V4(octets) => octets.len() == 4,
            IpAddrView::V6(octets) => octets.len() == 16,
        }
    }

    /// The wire form: the family, the address, the padding of an IPv4
    /// address, and the port, big-endian.
    pub open spec fn wire(self) -> Seq<u8> {
        match self.ip_addr {
            IpAddrView::V4(octets) => seq![ADDRESS_FAMILY_IPV4] + octets + ipv4_padding() + u16_be(
                self.port,
            ),
            IpAddrView::V6(octets) => seq![ADDRESS_FAMILY_IPV6] + octets + u16_be(self.port),
        }
    }
}

impl IpPort {
    /// Parser of an address on sequences of bytes. The first byte tells
    /// the family; the address takes 19 bytes whatever the family, and
    /// what pads an IPv4 address is not looked at.
    pub open spec fn parse(input: Seq<u8>) -> Result<(IpPortView, Seq<u8>), DecodeError> {
        if input.len() == 0 {
            Err(DecodeError::Incomplete)
        } else if input[0] != ADDRESS_FAMILY_IPV4 && input[0] != ADDRESS_FAMILY_IPV6 {
            Err(DecodeError::BadAddressFamily)
        } else if input.len() < SIZE_IPPORT {
            Err(DecodeError::Incomplete)
        } else {
            Ok(
                (
                    IpPortView {
                        ip_addr: if input[0] == ADDRESS_FAMILY_IPV4 {
                            IpAddrView::V4(input.subrange(1, 5))
                        } else {
                            IpAddrView::V6(input.subrange(1, 17))
                        },
                        port: u16_from_be(input.subrange(17, 19)),
                    },
                    input.subrange(SIZE_IPPORT as int, input.len() as int),
                ),
            )
        }
    }

    /// Reads an address from the head of `input` and hands back what
    /// follows it.
    pub fn from_bytes<'a>(input: &'a [u8]) -> (res: Result<(&'a [u8], IpPort), DecodeError>)
        ensures
            match res {
                Ok((rest, ip_port)) => Self::parse(input@) == Ok::<_, DecodeError>(
                    (ip_port@, rest@),
                ),
                Err(e) => Self::parse(input@) == Err::<(IpPortView, Seq<u8>), _>(e),
            },
    {
        if input.len() == 0 {
            return Err(DecodeError::Incomplete);
        }
        let family = input[0];
        if family != ADDRESS_FAMILY_IPV4 && family != ADDRESS_FAMILY_IPV6 {
            return Err(DecodeError::BadAddressFamily);
        }
        if input.len() < SIZE_IPPORT {
            return Err(DecodeError::Incomplete);
        }
        let ip_addr = if family == ADDRESS_FAMILY_IPV4 {
            IpAddr::V4(read_array(input, 1))
        } else {
            IpAddr::V6(read_array(input, 1))
        };
        let port = read_u16_be(input, 17);
        Ok((rest_from(input, SIZE_IPPORT), IpPort { ip_addr, port }))
    }

    /// Writes the address into `buf` from index `offset` on and answers
    /// the index behind it.
    pub fn to_bytes(&self, buf: &mut [u8], offset: usize) -> (res: Result<usize, EncodeError>)
        ensures
            encodes(old(buf)@, offset, self@.wire(), final(buf)@, res),
    {
        let room = buf.len();
        if offset > room || room - offset < SIZE_IPPORT {
            return Err(EncodeError::BufferTooSmall);
        }
        let ghost at = offset as int;
        match self.ip_addr {
            IpAddr::V4(octets) => {
                let family: [u8; 1] = [ADDRESS_FAMILY_IPV4];
                let padding = [0u8; IPV4_PADDING_SIZE];
                write_slice(buf, offset, &family);
                write_slice(buf, offset + 1, &octets);
                write_slice(buf, offset + 5, &padding);
                write_u16_be(buf, offset + 17, self.port);
                proof {
                    assert(family@ =~= seq![ADDRESS_FAMILY_IPV4]);
                    assert(padding@ =~= ipv4_padding());
                    lemma_written_twice(old(buf)@, at, family@, octets@);
                    lemma_written_twice(old(buf)@, at, family@ + octets@, padding@);
                    lemma_written_twice(
                        old(buf)@,
                        at,
                        family@ + octets@ + padding@,
                        u16_be(self.port),
                    );
                }
            },
            IpAddr::V6(octets) => {
                let family: [u8; 1] = [ADDRESS_FAMILY_IPV6];
                write_slice(buf, offset, &family);
                write_slice(buf, offset + 1, &octets);
                write_u16_be(buf, offset + 17, self.port);
                proof {
                    assert(family@ =~= seq![ADDRESS_FAMILY_IPV6]);
                    lemma_written_twice(old(buf)@, at, family@, octets@);
                    lemma_written_twice(old(buf)@, at, family@ + octets@, u16_be(self.port));
                }
            },
        }
        Ok(offset + SIZE_IPPORT)
    }
}

/// Encrypted onion return addresses. A node of the onion chain seals the
/// address that a packet came from, together with the return address that
/// the packet already carried, and the node before it on the way back opens
/// it again. To every other node it is a nonce and bytes.
///
/// Serialized form:
///
/// Length   | Content
/// -------- | ------
/// `24`     | `Nonce`
/// variable | Payload
#[derive(Clone, Debug, Eq, PartialEq)]
pub struct OnionReturn {
    /// Nonce for the current encrypted payload
    pub nonce: Nonce,
    /// Encrypted payload
    pub payload: Vec<u8>,
}

/// An `OnionReturn` as the contracts see it.
pub struct OnionReturnView {
    pub nonce: Seq<u8>,
    pub payload: Seq<u8>,
}

impl View for OnionReturn {
    type V = OnionReturnView;

    open spec fn view(&self) -> OnionReturnView {
        OnionReturnView { nonce: self.nonce@, payload: self.payload@ }
    }
}

impl OnionReturnView {
    /// The nonce has the length of a nonce. The view of an `OnionReturn`
    /// always has.
    pub open spec fn wf(self) -> bool {
        self.nonce.len() == NONCEBYTES
    }

    /// The wire form: the nonce and the payload.
    pub open spec fn wire(self) -> Seq<u8> {
        self.nonce + self.payload
    }
}

impl OnionReturn {
    /// Parser of a return address on sequences of bytes: the nonce, and
    /// all that follows it as the payload.
    pub open spec fn parse(input: Seq<u8>) -> Result<(OnionReturnView, Seq<u8>), DecodeError> {
        if input.len() < NONCEBYTES {
            Err(DecodeError::Incomplete)
        } else {
            Ok(
                (
                    OnionReturnView {
                        nonce: input.subrange(0, NONCEBYTES as int),
                        payload: input.subrange(NONCEBYTES as int, input.len() as int),
                    },
                    Seq::empty(),
                ),
            )
        }
    }

    /// Reads a return address from `input`, all of it.
    pub fn from_bytes<'a>(input: &'a [u8]) -> (res: Result<(&'a [u8], OnionReturn), DecodeError>)
        ensures
            match res {
                Ok((rest, onion_return)) => Self::parse(input@) == Ok::<_, DecodeError>(
                    (onion_return@, rest@),
                ),
                Err(e) => Self::parse(input@) == Err::<(OnionReturnView, Seq<u8>), _>(e),
            },
    {
        let (rest, nonce) = match Nonce::from_bytes(input) {
            Ok(parsed) => parsed,
            Err(e) => {
                return Err(e);
            },
        };
        let payload = read_vec(rest, 0, rest.len());
        let end = rest_from(rest, rest.len());
        proof {
            assert(payload@ =~= input@.subrange(NONCEBYTES as int, input@.len() as int));
            assert(end@ =~= Seq::<u8>::empty());
        }
        Ok((end, OnionReturn { nonce, payload }))
    }

    /// Writes the return address into `buf` from index `offset` on and
    /// answers the index behind it.
    pub fn to_bytes(&self, buf: &mut [u8], offset: usize) -> (res: Result<usize, EncodeError>)
        ensures
            encodes(old(buf)@, offset, self@.wire(), final(buf)@, res),
    {
        let room = buf.len();
        if offset > room || room - offset < NONCEBYTES || room - offset - NONCEBYTES
            < self.payload.len() {
            return Err(EncodeError::BufferTooSmall);
        }
        write_slice(buf, offset, &self.nonce.0);
        write_slice(buf, offset + NONCEBYTES, self.payload.as_slice());
        proof {
            lemma_written_twice(old(buf)@, offset as int, self.nonce@, self.payload@);
        }
        Ok(offset + NONCEBYTES + self.payload.len())
    }
}

/// An address that is parsed from its own wire form is the same address,
/// and nothing is left over.
pub proof fn lemma_ip_port_round_trip(ip_port: IpPortView)
    requires
        ip_port.wf(),
    ensures
        ip_port.wire().len() == SIZE_IPPORT,
        IpPort::parse(ip_port.wire()) == Ok::<_, DecodeError>((ip_port, Seq::<u8>::empty())),
{
    lemma_u16_be_value(ip_port.port);
    let wire = ip_port.wire();
    assert(wire.subrange(17, 19) =~= u16_be(ip_port.port));
    assert(wire.subrange(19, wire.len() as int) =~= Seq::<u8>::empty());
    match ip_port.ip_addr {
        IpAddrView::V4(octets) => {
            assert(wire.subrange(1, 5) =~= octets);
        },
        IpAddrView::V6(octets) => {
            assert(wire.subrange(1, 17) =~= octets);
        },
    }
}

/// A return address that is parsed from its own wire form is the same
/// return address, and nothing is left over.
pub proof fn lemma_onion_return_round_trip(onion_return: OnionReturnView)
    requires
        onion_return.wf(),
    ensures
        OnionReturn::parse(onion_return.wire()) == Ok::<_, DecodeError>(
            (onion_return, Seq::<u8>::empty()),
        ),
{
    let wire = onion_return.wire();
    assert(wire.subrange(0, NONCEBYTES as int) =~= onion_return.nonce);
    assert(wire.subrange(NONCEBYTES as int, wire.len() as int) =~= onion_return.payload);
}

} // verus!
