//! Reading and writing values in buffers of bytes.
//!
//! Every packet type has a wire form, a `Seq<u8>`, and a parser on such
//! sequences. The functions here move the smallest pieces: big-endian
//! integers, arrays of a known length and slices, each at an offset of a
//! buffer.

use vstd::prelude::*;

verus! {

/// Why a value could not be written.
#[derive(Clone, Copy, Debug, PartialEq, Eq)]
pub enum EncodeError {
    /// The buffer ends before the value does.
    BufferTooSmall,
}

/// Why bytes could not be read as a value.
#[derive(Clone, Copy, Debug, PartialEq, Eq)]
pub enum DecodeError {
    /// The input ends before the value does.
    Incomplete,
    /// Bytes follow a value that must end the input.
    TrailingBytes,
    /// The input is longer than the largest packet.
    TooLong,
    /// The first byte is not the packet's tag.
    BadTag,
    /// The byte that tells IPv4 from IPv6 is neither's.
    BadAddressFamily,
}

/// The buffer `buf` after `data` was written over it from index `at` on.
pub open spec fn written(buf: Seq<u8>, at: int, data: Seq<u8>) -> Seq<u8>
    recommends
        0 <= at,
        at + data.len() <= buf.len(),
{
    buf.subrange(0, at) + data + buf.subrange(at + data.len(), buf.len() as int)
}

/// What writing a value with the wire form `wire` at index `offset` does to
/// a buffer and answers. Where the value fits, the buffer holds it from
/// `offset` on and the answer is the index behind it. Where it does not, the
/// buffer is as before and the answer is the error.
pub open spec fn encodes(
    before: Seq<u8>,
    offset: usize,
    wire: Seq<u8>,
    after: Seq<u8>,
    res: Result<usize, EncodeError>,
) -> bool {
    if offset + wire.len() <= before.len() {
        &&& res matches Ok(end)
        &&& end == offset + wire.len()
        &&& after == written(before, offset as int, wire)
    } else {
        &&& res == Err::<usize, _>(EncodeError::BufferTooSmall)
        &&& after == before
    }
}

/// Writing two pieces one behind the other is writing their concatenation.
pub proof fn lemma_written_twice(buf: Seq<u8>, at: int, first: Seq<u8>, second: Seq<u8>)
    requires
        0 <= at,
        at + first.len() + second.len() <= buf.len(),
    ensures
        written(written(buf, at, first), at + first.len(), second) == written(
            buf,
            at,
            first + second,
        ),
{
    assert(written(written(buf, at, first), at + first.len(), second) =~= written(
        buf,
        at,
        first + second,
    ));
}

/// The eight bytes of `x`, the most significant first.
pub open spec fn u64_be(x: u64) -> Seq<u8> {
    seq![
        ((x >> 56) & 0xff) as u8,
        ((x >> 48) & 0xff) as u8,
        ((x >> 40) & 0xff) as u8,
        ((x >> 32) & 0xff) as u8,
        ((x >> 24) & 0xff) as u8,
        ((x >> 16) & 0xff) as u8,
        ((x >> 8) & 0xff) as u8,
        (x & 0xff) as u8,
    ]
}

/// The number that eight bytes stand for, the most significant first.
pub open spec fn u64_of_bytes(
    b0: u8,
    b1: u8,
    b2: u8,
    b3: u8,
    b4: u8,
    b5: u8,
    b6: u8,
    b7: u8,
) -> u64 {
    (b0 as u64) << 56 | (b1 as u64) << 48 | (b2 as u64) << 40 | (b3 as u64) << 32
        | (b4 as u64) << 24 | (b5 as u64) << 16 | (b6 as u64) << 8 | (b7 as u64)
}

/// The number whose big-endian bytes are the first eight of `s`.
pub open spec fn u64_from_be(s: Seq<u8>) -> u64
    recommends
        s.len() >= 8,
{
    u64_of_bytes(s[0], s[1], s[2], s[3], s[4], s[5], s[6], s[7])
}

/// The two bytes of `x`, the most significant first.
pub open spec fn u16_be(x: u16) -> Seq<u8> {
    seq![((x >> 8) & 0xff) as u8, (x & 0xff) as u8]
}

/// The number whose big-endian bytes are the first two of `s`.
pub open spec fn u16_from_be(s: Seq<u8>) -> u16
    recommends
        s.len() >= 2,
{
    (s[0] as u16) << 8 | (s[1] as u16)
}

/// Eight bytes stand for the number that they are the digits of, to the
/// base 256.
pub proof fn lemma_u64_from_be_digits(s: Seq<u8>)
    requires
        s.len() == 8,
    ensures
        u64_from_be(s) == s[0] * 0x100_0000_0000_0000 + s[1] * 0x1_0000_0000_0000 + s[2]
            * 0x100_0000_0000 + s[3] * 0x1_0000_0000 + s[4] * 0x100_0000 + s[5] * 0x1_0000 + s[6]
            * 0x100 + s[7],
{
    let (b0, b1, b2, b3) = (s[0] as u64, s[1] as u64, s[2] as u64, s[3] as u64);
    let (b4, b5, b6, b7) = (s[4] as u64, s[5] as u64, s[6] as u64, s[7] as u64);
    assert(b0 << 56 | b1 << 48 | b2 << 40 | b3 << 32 | b4 << 24 | b5 << 16 | b6 << 8 | b7 == b0
        * 0x100_0000_0000_0000 + b1 * 0x1_0000_0000_0000 + b2 * 0x100_0000_0000 + b3
        * 0x1_0000_0000 + b4 * 0x100_0000 + b5 * 0x1_0000 + b6 * 0x100 + b7) by (bit_vector)
        requires
            b0 < 256 && b1 < 256 && b2 < 256 && b3 < 256,
            b4 < 256 && b5 < 256 && b6 < 256 && b7 < 256,
    ;
}

/// Reading back the bytes of a number gives the number.
pub proof fn lemma_u64_be_value(x: u64)
    ensures
        u64_be(x).len() == 8,
        u64_from_be(u64_be(x)) == x,
{
    let s = u64_be(x);
    let (b0, b1, b2, b3, b4, b5, b6, b7) = (s[0], s[1], s[2], s[3], s[4], s[5], s[6], s[7]);
    assert(u64_of_bytes(b0, b1, b2, b3, b4, b5, b6, b7) == x) by (bit_vector)
        requires
            b0 == ((x >> 56) & 0xff) as u8,
            b1 == ((x >> 48) & 0xff) as u8,
            b2 == ((x >> 40) & 0xff) as u8,
            b3 == ((x >> 32) & 0xff) as u8,
            b4 == ((x >> 24) & 0xff) as u8,
            b5 == ((x >> 16) & 0xff) as u8,
            b6 == ((x >> 8) & 0xff) as u8,
            b7 == (x & 0xff) as u8,
    ;
}

/// Writing out the number that eight bytes stand for gives the bytes.
pub proof fn lemma_u64_be_bytes(s: Seq<u8>)
    requires
        s.len() == 8,
    ensures
        u64_be(u64_from_be(s)) == s,
{
    let (b0, b1, b2, b3, b4, b5, b6, b7) = (s[0], s[1], s[2], s[3], s[4], s[5], s[6], s[7]);
    let x = u64_from_be(s);
    assert({
        &&& ((x >> 56) & 0xff) as u8 == b0
        &&& ((x >> 48) & 0xff) as u8 == b1
        &&& ((x >> 40) & 0xff) as u8 == b2
        &&& ((x >> 32) & 0xff) as u8 == b3
        &&& ((x >> 24) & 0xff) as u8 == b4
        &&& ((x >> 16) & 0xff) as u8 == b5
        &&& ((x >> 8) & 0xff) as u8 == b6
        &&& (x & 0xff) as u8 == b7
    }) by (bit_vector)
        requires
            x == u64_of_bytes(b0, b1, b2, b3, b4, b5, b6, b7),
    ;
    assert(u64_be(x) =~= s);
}

/// Two bytes stand for the number that they are the digits of, to the base
/// 256.
pub proof fn lemma_u16_from_be_digits(s: Seq<u8>)
    requires
        s.len() == 2,
    ensures
        u16_from_be(s) == s[0] * 0x100 + s[1],
{
    let (b0, b1) = (s[0] as u16, s[1] as u16);
    assert(b0 << 8 | b1 == b0 * 0x100 + b1) by (bit_vector)
        requires
            b0 < 256 && b1 < 256,
    ;
}

/// Reading back the bytes of a number gives the number.
pub proof fn lemma_u16_be_value(x: u16)
    ensures
        u16_be(x).len() == 2,
        u16_from_be(u16_be(x)) == x,
{
    let s = u16_be(x);
    let (b0, b1) = (s[0], s[1]);
    assert((b0 as u16) << 8 | (b1 as u16) == x) by (bit_vector)
        requires
            b0 == ((x >> 8) & 0xff) as u8,
            b1 == (x & 0xff) as u8,
    ;
}

/// Writing out the number that two bytes stand for gives the bytes.
pub proof fn lemma_u16_be_bytes(s: Seq<u8>)
    requires
        s.len() == 2,
    ensures
        u16_be(u16_from_be(s)) == s,
{
    let (b0, b1) = (s[0], s[1]);
    let x = u16_from_be(s);
    assert(((x >> 8) & 0xff) as u8 == b0 && (x & 0xff) as u8 == b1) by (bit_vector)
        requires
            x == (b0 as u16) << 8 | (b1 as u16),
    ;
    assert(u16_be(x) =~= s);
}

/// Copies `data` into `buf` from index `at` on.
pub fn write_slice(buf: &mut [u8], at: usize, data: &[u8])
    requires
        at + data@.len() <= old(buf)@.len(),
    ensures
        final(buf)@ == written(old(buf)@, at as int, data@),
{
    let n = data.len();
    let room = buf.len();
    let mut i: usize = 0;
    while i < n
        invariant
            i <= n,
            n == data@.len(),
            at + n <= room == buf@.len(),
            buf@.len() == old(buf)@.len(),
            buf@ == written(old(buf)@, at as int, data@.subrange(0, i as int)),
        decreases n - i,
    {
        let ghost before = buf@;
        buf[at + i] = data[i];
        assert(buf@ =~= written(old(buf)@, at as int, data@.subrange(0, i + 1))) by {
            assert(buf@ == before.update(at + i, data@[i as int]));
        }
        i = i + 1;
    }
    assert(data@.subrange(0, n as int) =~= data@);
}

/// Writes `x` into `buf` at index `at`, the most significant byte first.
pub fn write_u64_be(buf: &mut [u8], at: usize, x: u64)
    requires
        at + 8 <= old(buf)@.len(),
    ensures
        final(buf)@ == written(old(buf)@, at as int, u64_be(x)),
{
    let bytes: [u8; 8] = [
        ((x >> 56) & 0xff) as u8,
        ((x >> 48) & 0xff) as u8,
        ((x >> 40) & 0xff) as u8,
        ((x >> 32) & 0xff) as u8,
        ((x >> 24) & 0xff) as u8,
        ((x >> 16) & 0xff) as u8,
        ((x >> 8) & 0xff) as u8,
        (x & 0xff) as u8,
    ];
    assert(bytes@ =~= u64_be(x));
    write_slice(buf, at, &bytes);
}

/// Writes `x` into `buf` at index `at`, the most significant byte first.
pub fn write_u16_be(buf: &mut [u8], at: usize, x: u16)
    requires
        at + 2 <= old(buf)@.len(),
    ensures
        final(buf)@ == written(old(buf)@, at as int, u16_be(x)),
{
    let bytes: [u8; 2] = [((x >> 8) & 0xff) as u8, (x & 0xff) as u8];
    assert(bytes@ =~= u16_be(x));
    write_slice(buf, at, &bytes);
}

/// The `N` bytes of `input` from index `at` on.
pub fn read_array<const N: usize>(input: &[u8], at: usize) -> (out: [u8; N])
    requires
        at + N <= input@.len(),
    ensures
        out@ == input@.subrange(at as int, at + N),
{
    let len = input.len();
    let mut out = [0u8; N];
    let mut i: usize = 0;
    while i < N
        invariant
            i <= N,
            at + N <= len == input@.len(),
            forall|j: int| 0 <= j < i ==> out@[j] == input@[at + j],
        decreases N - i,
    {
        out[i] = input[at + i];
        i = i + 1;
    }
    assert(out@ =~= input@.subrange(at as int, at + N));
    out
}

/// The bytes of `input` from index `from` up to index `to`, as a vector.
pub fn read_vec(input: &[u8], from: usize, to: usize) -> (out: Vec<u8>)
    requires
        from <= to <= input@.len(),
    ensures
        out@ == input@.subrange(from as int, to as int),
{
    let mut out: Vec<u8> = Vec::with_capacity(to - from);
    let mut i: usize = from;
    while i < to
        invariant
            from <= i <= to <= input@.len(),
            out@ == input@.subrange(from as int, i as int),
        decreases to - i,
    {
        out.push(input[i]);
        assert(out@ =~= input@.subrange(from as int, i + 1));
        i = i + 1;
    }
    out
}

/// The number that the eight bytes of `input` from index `at` on stand for.
pub fn read_u64_be(input: &[u8], at: usize) -> (x: u64)
    requires
        at + 8 <= input@.len(),
    ensures
        x == u64_from_be(input@.subrange(at as int, at + 8)),
{
    let b: [u8; 8] = read_array(input, at);
    (b[0] as u64) << 56 | (b[1] as u64) << 48 | (b[2] as u64) << 40 | (b[3] as u64) << 32
        | (b[4] as u64) << 24 | (b[5] as u64) << 16 | (b[6] as u64) << 8 | (b[7] as u64)
}

/// The number that the two bytes of `input` from index `at` on stand for.
pub fn read_u16_be(input: &[u8], at: usize) -> (x: u16)
    requires
        at + 2 <= input@.len(),
    ensures
        x == u16_from_be(input@.subrange(at as int, at + 2)),
{
    let b: [u8; 2] = read_array(input, at);
    (b[0] as u16) << 8 | (b[1] as u16)
}

/// The bytes of `input` from index `at` on.
pub fn rest_from<'a>(input: &'a [u8], at: usize) -> (rest: &'a [u8])
    requires
        at <= input@.len(),
    ensures
        rest@ == input@.subrange(at as int, input@.len() as int),
{
    &input[at..input.len()]
}

} // verus!
