//! Big-endian integer framing shared by every wire codec.
//!
//! The byte-level conversions are done by the `byteorder` crate; this module
//! states what they produce and offers checked readers and appenders on top.

use byteorder::{BigEndian, ByteOrder};
use vstd::prelude::*;

verus! {

/// Why a wire payload could not be decoded.
#[derive(Debug, Clone, Copy, PartialEq, Eq)]
pub enum WireError {
    /// The input ended early: `needed` bytes were required, `available` were there.
    UnexpectedEof { needed: usize, available: usize },
    /// The packet does not start with the `HLNK` magic; the four bytes found.
    InvalidMagic { found: [u8; 4] },
    /// The header names a message type byte that the protocol does not define.
    UnknownMessageType(u8),
}

/// Big-endian bytes of a 16-bit value.
pub open spec fn be16(v: u16) -> Seq<u8> {
    seq![(v / 0x100) as u8, (v % 0x100) as u8]
}

/// Big-endian bytes of a 32-bit value.
pub open spec fn be32(v: u32) -> Seq<u8> {
    seq![
        (v / 0x100_0000) as u8,
        ((v / 0x1_0000) % 0x100) as u8,
        ((v / 0x100) % 0x100) as u8,
        (v % 0x100) as u8,
    ]
}

/// Big-endian bytes of a 64-bit value: high word first.
pub open spec fn be64(v: u64) -> Seq<u8> {
    be32((v / 0x1_0000_0000) as u32) + be32((v % 0x1_0000_0000) as u32)
}

/// The 16-bit value whose big-endian bytes start `b`.
pub open spec fn from_be16(b: Seq<u8>) -> u16 {
    (b[0] * 0x100 + b[1]) as u16
}

/// The 32-bit value whose big-endian bytes start `b`.
pub open spec fn from_be32(b: Seq<u8>) -> u32 {
    (b[0] * 0x100_0000 + b[1] * 0x1_0000 + b[2] * 0x100 + b[3]) as u32
}

/// The 64-bit value whose big-endian bytes start `b`.
pub open spec fn from_be64(b: Seq<u8>) -> u64 {
    (from_be32(b.subrange(0, 4)) * 0x1_0000_0000 + from_be32(b.subrange(4, 8))) as u64
}

/// The big-endian `u16` at byte `at` of `b`.
pub open spec fn field16(b: Seq<u8>, at: int) -> u16 {
    from_be16(b.subrange(at, at + 2))
}

/// The big-endian `u32` at byte `at` of `b`.
pub open spec fn field32(b: Seq<u8>, at: int) -> u32 {
    from_be32(b.subrange(at, at + 4))
}

/// The big-endian `u64` at byte `at` of `b`.
pub open spec fn field64(b: Seq<u8>, at: int) -> u64 {
    from_be64(b.subrange(at, at + 8))
}

/// The two's-complement big-endian `i64` at byte `at` of `b`.
pub open spec fn field_i64(b: Seq<u8>, at: int) -> i64 {
    from_be64(b.subrange(at, at + 8)) as i64
}

/// Two's-complement bytes of a signed 64-bit value.
pub open spec fn be_i64(v: i64) -> Seq<u8> {
    be64(v as u64)
}

/// A signed value reads back from its two's-complement bytes.
pub proof fn lemma_be_i64_roundtrip(v: i64)
    ensures
        be_i64(v).len() == 8,
        from_be64(be_i64(v)) as i64 == v,
{
    lemma_be64_roundtrip(v as u64);
    assert((v as u64) as i64 == v) by (bit_vector);
}

/// A 16-bit value reads back from its big-endian bytes.
pub proof fn lemma_be16_roundtrip(v: u16)
    ensures
        be16(v).len() == 2,
        from_be16(be16(v)) == v,
{
}

/// A 32-bit value reads back from its big-endian bytes.
pub proof fn lemma_be32_roundtrip(v: u32)
    ensures
        be32(v).len() == 4,
        from_be32(be32(v)) == v,
{
}

/// Four bytes are the big-endian encoding of the value they spell.
pub proof fn lemma_be32_inverse(w: Seq<u8>)
    requires
        w.len() == 4,
    ensures
        be32(from_be32(w)) == w,
{
    let a = w[0] as int;
    let b = w[1] as int;
    let c = w[2] as int;
    let d = w[3] as int;
    let v = a * 0x100_0000 + b * 0x1_0000 + c * 0x100 + d;
    assert(0 <= v < 0x1_0000_0000);
    assert(v / 0x100_0000 == a && (v / 0x1_0000) % 0x100 == b && (v / 0x100) % 0x100 == c && v % 0x100
        == d) by (nonlinear_arith)
        requires
            0 <= a < 256,
            0 <= b < 256,
            0 <= c < 256,
            0 <= d < 256,
            v == a * 0x100_0000 + b * 0x1_0000 + c * 0x100 + d,
    ;
    assert(be32(from_be32(w)) =~= w);
}

/// A 64-bit value reads back from its big-endian bytes.
pub proof fn lemma_be64_roundtrip(v: u64)
    ensures
        be64(v).len() == 8,
        from_be64(be64(v)) == v,
{
    let hi = (v / 0x1_0000_0000) as u32;
    let lo = (v % 0x1_0000_0000) as u32;
    lemma_be32_roundtrip(hi);
    lemma_be32_roundtrip(lo);
    assert(be64(v).subrange(0, 4) =~= be32(hi));
    assert(be64(v).subrange(4, 8) =~= be32(lo));
}

/// Reads the big-endian `u16` at byte `at` of `buf`.
///
/// Calls `<BigEndian as byteorder::ByteOrder>::read_u16`, which the crate
/// implements as `u16::from_be_bytes` of the first two bytes; the contract
/// claims exactly that value, and asks for the two bytes to be there (the
/// call panics otherwise).
#[verifier::external_body]
fn read_u16_at(buf: &[u8], at: usize) -> (r: u16)
    requires
        at + 2 <= buf@.len(),
    ensures
        r == from_be16(buf@.subrange(at as int, at + 2)),
{
    BigEndian::read_u16(&buf[at..])
}

/// Reads the big-endian `u32` at byte `at` of `buf`.
///
/// Calls `<BigEndian as byteorder::ByteOrder>::read_u32` (`u32::from_be_bytes`
/// of the first four bytes); the contract claims that value and asks for the
/// four bytes to be there.
#[verifier::external_body]
fn read_u32_at(buf: &[u8], at: usize) -> (r: u32)
    requires
        at + 4 <= buf@.len(),
    ensures
        r == from_be32(buf@.subrange(at as int, at + 4)),
{
    BigEndian::read_u32(&buf[at..])
}

/// Reads the big-endian `u64` at byte `at` of `buf`.
///
/// Calls `<BigEndian as byteorder::ByteOrder>::read_u64` (`u64::from_be_bytes`
/// of the first eight bytes); the contract claims that value and asks for the
/// eight bytes to be there.
#[verifier::external_body]
fn read_u64_at(buf: &[u8], at: usize) -> (r: u64)
    requires
        at + 8 <= buf@.len(),
    ensures
        r == from_be64(buf@.subrange(at as int, at + 8)),
{
    BigEndian::read_u64(&buf[at..])
}

/// The big-endian bytes of `n`.
///
/// Calls `<BigEndian as byteorder::ByteOrder>::write_u16` on a two-byte array,
/// which the crate implements as copying `n.to_be_bytes()`.
#[verifier::external_body]
pub(crate) fn u16_be_bytes(n: u16) -> (r: [u8; 2])
    ensures
        r@ == be16(n),
{
    let mut b = [0u8; 2];
    BigEndian::write_u16(&mut b, n);
    b
}

/// The big-endian bytes of `n`.
///
/// Calls `<BigEndian as byteorder::ByteOrder>::write_u32` on a four-byte array
/// (`n.to_be_bytes()` copied in).
#[verifier::external_body]
pub(crate) fn u32_be_bytes(n: u32) -> (r: [u8; 4])
    ensures
        r@ == be32(n),
{
    let mut b = [0u8; 4];
    BigEndian::write_u32(&mut b, n);
    b
}

/// The big-endian bytes of `n`.
///
/// Calls `<BigEndian as byteorder::ByteOrder>::write_u64` on an eight-byte
/// array (`n.to_be_bytes()` copied in).
#[verifier::external_body]
pub(crate) fn u64_be_bytes(n: u64) -> (r: [u8; 8])
    ensures
        r@ == be64(n),
{
    let mut b = [0u8; 8];
    BigEndian::write_u64(&mut b, n);
    b
}

/// Appends one byte.
pub fn push_u8(buf: &mut Vec<u8>, n: u8)
    ensures
        final(buf)@ == old(buf)@ + seq![n],
{
    buf.push(n);
}

/// Appends the big-endian bytes of `n`.
pub fn push_u16(buf: &mut Vec<u8>, n: u16)
    ensures
        final(buf)@ == old(buf)@ + be16(n),
{
    let b = u16_be_bytes(n);
    buf.push(b[0]);
    buf.push(b[1]);
}

/// Appends the big-endian bytes of `n`.
pub fn push_u32(buf: &mut Vec<u8>, n: u32)
    ensures
        final(buf)@ == old(buf)@ + be32(n),
{
    let b = u32_be_bytes(n);
    buf.push(b[0]);
    buf.push(b[1]);
    buf.push(b[2]);
    buf.push(b[3]);
}

/// Appends the big-endian bytes of `n`.
pub fn push_u64(buf: &mut Vec<u8>, n: u64)
    ensures
        final(buf)@ == old(buf)@ + be64(n),
{
    let b = u64_be_bytes(n);
    let mut i: usize = 0;
    while i < 8
        invariant
            0 <= i <= 8,
            b@ == be64(n),
            buf@ == old(buf)@ + b@.take(i as int),
        decreases 8 - i,
    {
        buf.push(b[i]);
        i = i + 1;
    }
}

/// Appends the two's-complement big-endian bytes of `n`.
pub fn push_i64(buf: &mut Vec<u8>, n: i64)
    ensures
        final(buf)@ == old(buf)@ + be64(n as u64),
{
    push_u64(buf, n as u64);
}

/// Appends every byte of `data`.
pub fn push_bytes(buf: &mut Vec<u8>, data: &[u8])
    ensures
        final(buf)@ == old(buf)@ + data@,
{
    let mut i: usize = 0;
    while i < data.len()
        invariant
            0 <= i <= data@.len(),
            buf@ == old(buf)@ + data@.take(i as int),
        decreases data@.len() - i,
    {
        buf.push(data[i]);
        i = i + 1;
    }
}

/// The big-endian `u16` at byte `at`.
pub fn get_u16(buf: &[u8], at: usize) -> (r: u16)
    requires
        at + 2 <= buf@.len(),
    ensures
        r == from_be16(buf@.subrange(at as int, at + 2)),
{
    read_u16_at(buf, at)
}

/// The big-endian `u32` at byte `at`.
pub fn get_u32(buf: &[u8], at: usize) -> (r: u32)
    requires
        at + 4 <= buf@.len(),
    ensures
        r == from_be32(buf@.subrange(at as int, at + 4)),
{
    read_u32_at(buf, at)
}

/// The big-endian `u64` at byte `at`.
pub fn get_u64(buf: &[u8], at: usize) -> (r: u64)
    requires
        at + 8 <= buf@.len(),
    ensures
        r == from_be64(buf@.subrange(at as int, at + 8)),
{
    read_u64_at(buf, at)
}

/// The two's-complement big-endian `i64` at byte `at`.
pub fn get_i64(buf: &[u8], at: usize) -> (r: i64)
    requires
        at + 8 <= buf@.len(),
    ensures
        r == from_be64(buf@.subrange(at as int, at + 8)) as i64,
{
    read_u64_at(buf, at) as i64
}

} // verus!
