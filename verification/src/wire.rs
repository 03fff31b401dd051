//! Fixed-width integers as bytes, in both byte orders.
//!
//! Frame headers are big-endian; everything inside a payload is
//! little-endian. The two families are kept apart by name so that neither
//! can be taken for the other.

use byteorder::{BigEndian, ByteOrder};
use vstd::prelude::*;

verus! {

/// The two bytes of `n`, least significant first.
pub open spec fn le_u16(n: u16) -> Seq<u8> {
    seq![(n % 0x100) as u8, (n / 0x100) as u8]
}

/// The four bytes of `n`, least significant first.
pub open spec fn le_u32(n: u32) -> Seq<u8> {
    seq![
        (n % 0x100) as u8,
        (n / 0x100 % 0x100) as u8,
        (n / 0x1_0000 % 0x100) as u8,
        (n / 0x100_0000) as u8,
    ]
}

/// The eight bytes of `n`, least significant first.
pub open spec fn le_u64(n: u64) -> Seq<u8> {
    seq![
        (n % 0x100) as u8,
        (n / 0x100 % 0x100) as u8,
        (n / 0x1_0000 % 0x100) as u8,
        (n / 0x100_0000 % 0x100) as u8,
        (n / 0x1_0000_0000 % 0x100) as u8,
        (n / 0x100_0000_0000 % 0x100) as u8,
        (n / 0x1_0000_0000_0000 % 0x100) as u8,
        (n / 0x100_0000_0000_0000) as u8,
    ]
}

/// The number that the first two bytes of `s` spell, least significant first.
pub open spec fn from_le_u16(s: Seq<u8>) -> u16 {
    (s[0] + 0x100 * s[1]) as u16
}

/// The number that the first four bytes of `s` spell, least significant first.
pub open spec fn from_le_u32(s: Seq<u8>) -> u32 {
    (s[0] + 0x100 * s[1] + 0x1_0000 * s[2] + 0x100_0000 * s[3]) as u32
}

/// The number that the first eight bytes of `s` spell, least significant first.
pub open spec fn from_le_u64(s: Seq<u8>) -> u64 {
    (s[0] + 0x100 * s[1] + 0x1_0000 * s[2] + 0x100_0000 * s[3] + 0x1_0000_0000 * s[4]
        + 0x100_0000_0000 * s[5] + 0x1_0000_0000_0000 * s[6] + 0x100_0000_0000_0000 * s[7]) as u64
}

/// The two bytes of `n`, most significant first.
pub open spec fn be_u16(n: u16) -> Seq<u8> {
    seq![(n / 0x100) as u8, (n % 0x100) as u8]
}

/// The four bytes of `n`, most significant first.
pub open spec fn be_u32(n: u32) -> Seq<u8> {
    seq![
        (n / 0x100_0000) as u8,
        (n / 0x1_0000 % 0x100) as u8,
        (n / 0x100 % 0x100) as u8,
        (n % 0x100) as u8,
    ]
}

/// The number that the first two bytes of `s` spell, most significant first.
pub open spec fn from_be_u16(s: Seq<u8>) -> u16 {
    (0x100 * s[0] + s[1]) as u16
}

/// The number that the first four bytes of `s` spell, most significant first.
pub open spec fn from_be_u32(s: Seq<u8>) -> u32 {
    (0x100_0000 * s[0] + 0x1_0000 * s[1] + 0x100 * s[2] + s[3]) as u32
}

/// Reading undoes writing a 16-bit number, in either byte order, whatever
/// follows the bytes.
pub proof fn lemma_read_write_u16(n: u16, tail: Seq<u8>)
    ensures
        from_le_u16(le_u16(n) + tail) == n,
        from_be_u16(be_u16(n) + tail) == n,
{
}

/// Reading undoes writing a 32-bit number, in either byte order, whatever
/// follows the bytes.
pub proof fn lemma_read_write_u32(n: u32, tail: Seq<u8>)
    ensures
        from_le_u32(le_u32(n) + tail) == n,
        from_be_u32(be_u32(n) + tail) == n,
{
    let q1 = n / 0x100;
    let q2 = q1 / 0x100;
    let q3 = q2 / 0x100;
    assert(n / 0x1_0000 == q2);
    assert(n / 0x100_0000 == q3);
}

/// Reading undoes writing a 64-bit number, whatever follows the bytes.
pub proof fn lemma_read_write_u64(n: u64, tail: Seq<u8>)
    ensures
        from_le_u64(le_u64(n) + tail) == n,
{
    let q1 = n / 0x100;
    let q2 = q1 / 0x100;
    let q3 = q2 / 0x100;
    let q4 = q3 / 0x100;
    let q5 = q4 / 0x100;
    let q6 = q5 / 0x100;
    let q7 = q6 / 0x100;
    assert(n / 0x1_0000 == q2);
    assert(n / 0x100_0000 == q3);
    assert(n / 0x1_0000_0000 == q4);
    assert(n / 0x100_0000_0000 == q5);
    assert(n / 0x1_0000_0000_0000 == q6);
    assert(n / 0x100_0000_0000_0000 == q7);
}

/// Writing undoes reading a 16-bit number: the bytes that were read are the
/// bytes of the number, in either byte order.
pub proof fn lemma_write_read_u16(s: Seq<u8>)
    requires
        s.len() >= 2,
    ensures
        le_u16(from_le_u16(s)) == s.subrange(0, 2),
        be_u16(from_be_u16(s)) == s.subrange(0, 2),
{
}

/// Writing undoes reading a 32-bit number, in either byte order.
pub proof fn lemma_write_read_u32(s: Seq<u8>)
    requires
        s.len() >= 4,
    ensures
        le_u32(from_le_u32(s)) == s.subrange(0, 4),
        be_u32(from_be_u32(s)) == s.subrange(0, 4),
{
    let n = from_le_u32(s);
    assert(n / 0x100 == s[1] + 0x100 * s[2] + 0x1_0000 * s[3]);
    assert(n / 0x1_0000 == s[2] + 0x100 * s[3]);
    assert(n / 0x100_0000 == s[3]);
    let m = from_be_u32(s);
    assert(m / 0x100 == s[2] + 0x100 * s[1] + 0x1_0000 * s[0]);
    assert(m / 0x1_0000 == s[1] + 0x100 * s[0]);
    assert(m / 0x100_0000 == s[0]);
}

/// The two byte orders read the same bytes as the same number only where
/// the bytes are the same read backwards: a header read least significant
/// byte first is, but for such bytes, another header.
pub proof fn lemma_byte_order_matters(s: Seq<u8>)
    requires
        s.len() >= 4,
    ensures
        from_be_u16(s) == from_le_u16(s) <==> s[0] == s[1],
        from_be_u32(s) == from_le_u32(s) <==> s[0] == s[3] && s[1] == s[2],
{
}

/// `byteorder::BigEndian::read_u16`: the number spelled by the first two
/// bytes of `buf`, most significant byte first. The call panics on a shorter
/// buffer, which the precondition rules out.
#[verifier::external_body]
pub(crate) fn read_be_u16(buf: &[u8]) -> (n: u16)
    requires
        buf@.len() >= 2,
    ensures
        n == from_be_u16(buf@),
{
    BigEndian::read_u16(buf)
}

/// `byteorder::BigEndian::read_u32`: the number spelled by the first four
/// bytes of `buf`, most significant byte first. The call panics on a shorter
/// buffer, which the precondition rules out.
#[verifier::external_body]
pub(crate) fn read_be_u32(buf: &[u8]) -> (n: u32)
    requires
        buf@.len() >= 4,
    ensures
        n == from_be_u32(buf@),
{
    BigEndian::read_u32(buf)
}

/// `byteorder::BigEndian::write_u16`, on a buffer of exactly two bytes: it
/// fills them with `n`, most significant byte first.
#[verifier::external_body]
pub(crate) fn write_be_u16(n: u16) -> (out: [u8; 2])
    ensures
        out@ == be_u16(n),
{
    let mut out = [0u8; 2];
    BigEndian::write_u16(&mut out, n);
    out
}

/// `byteorder::BigEndian::write_u32`, on a buffer of exactly four bytes: it
/// fills them with `n`, most significant byte first.
#[verifier::external_body]
pub(crate) fn write_be_u32(n: u32) -> (out: [u8; 4])
    ensures
        out@ == be_u32(n),
{
    let mut out = [0u8; 4];
    BigEndian::write_u32(&mut out, n);
    out
}

} // verus!
