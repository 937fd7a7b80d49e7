//! Big-endian integer fields, read and written through `byteorder`.

use vstd::prelude::*;
use byteorder::{BigEndian, ByteOrder};

verus! {

/// The two bytes of `n`, most significant first.
pub open spec fn be_u16_bytes(n: u16) -> Seq<u8> {
    seq![(n >> 8u16) as u8, n as u8]
}

/// The `u16` whose big-endian bytes are `b[0], b[1]`.
pub open spec fn be_u16_value(b: Seq<u8>) -> u16
    recommends
        b.len() == 2,
{
    ((b[0] as u16) << 8u16) | (b[1] as u16)
}

/// The four bytes of `n`, most significant first.
pub open spec fn be_u32_bytes(n: u32) -> Seq<u8> {
    seq![(n >> 24u32) as u8, (n >> 16u32) as u8, (n >> 8u32) as u8, n as u8]
}

/// The `u32` whose big-endian bytes are `b[0..4]`.
pub open spec fn be_u32_value(b: Seq<u8>) -> u32
    recommends
        b.len() == 4,
{
    ((b[0] as u32) << 24u32) | ((b[1] as u32) << 16u32) | ((b[2] as u32) << 8u32) | (b[3] as u32)
}

/// The eight bytes of `n`, most significant first.
pub open spec fn be_u64_bytes(n: u64) -> Seq<u8> {
    seq![
        (n >> 56u64) as u8,
        (n >> 48u64) as u8,
        (n >> 40u64) as u8,
        (n >> 32u64) as u8,
        (n >> 24u64) as u8,
        (n >> 16u64) as u8,
        (n >> 8u64) as u8,
        n as u8,
    ]
}

/// The `u64` whose big-endian bytes are `b[0..8]`.
pub open spec fn be_u64_value(b: Seq<u8>) -> u64
    recommends
        b.len() == 8,
{
    ((b[0] as u64) << 56u64) | ((b[1] as u64) << 48u64) | ((b[2] as u64) << 40u64) | ((
    b[3] as u64) << 32u64) | ((b[4] as u64) << 24u64) | ((b[5] as u64) << 16u64) | ((b[6] as u64)
        << 8u64) | (b[7] as u64)
}

/// `s` with the bytes from index `at` on replaced by `b`, length unchanged.
pub open spec fn splice(s: Seq<u8>, at: int, b: Seq<u8>) -> Seq<u8> {
    s.subrange(0, at) + b + s.subrange(at + b.len(), s.len() as int)
}

/// Decoding the big-endian bytes of a `u16` gives it back.
pub proof fn lemma_be_u16_value_of_bytes(n: u16)
    ensures
        be_u16_value(be_u16_bytes(n)) == n,
{
    let b0 = (n >> 8u16) as u8;
    let b1 = n as u8;
    assert(((b0 as u16) << 8u16) | (b1 as u16) == n) by (bit_vector)
        requires
            b0 == (n >> 8u16) as u8,
            b1 == n as u8,
    ;
}

/// Encoding the value of two bytes gives the same two bytes.
pub proof fn lemma_be_u16_bytes_of_value(b: Seq<u8>)
    requires
        b.len() == 2,
    ensures
        be_u16_bytes(be_u16_value(b)) == b,
{
    let b0 = b[0];
    let b1 = b[1];
    let n = be_u16_value(b);
    assert((n >> 8u16) as u8 == b0 && n as u8 == b1) by (bit_vector)
        requires
            n == ((b0 as u16) << 8u16) | (b1 as u16),
    ;
    assert(be_u16_bytes(n) =~= b);
}

/// Decoding the big-endian bytes of a `u32` gives it back.
pub proof fn lemma_be_u32_value_of_bytes(n: u32)
    ensures
        be_u32_value(be_u32_bytes(n)) == n,
{
    let b0 = (n >> 24u32) as u8;
    let b1 = (n >> 16u32) as u8;
    let b2 = (n >> 8u32) as u8;
    let b3 = n as u8;
    assert(((b0 as u32) << 24u32) | ((b1 as u32) << 16u32) | ((b2 as u32) << 8u32) | (b3 as u32)
        == n) by (bit_vector)
        requires
            b0 == (n >> 24u32) as u8,
            b1 == (n >> 16u32) as u8,
            b2 == (n >> 8u32) as u8,
            b3 == n as u8,
    ;
}

/// Encoding the value of four bytes gives the same four bytes.
pub proof fn lemma_be_u32_bytes_of_value(b: Seq<u8>)
    requires
        b.len() == 4,
    ensures
        be_u32_bytes(be_u32_value(b)) == b,
{
    let b0 = b[0];
    let b1 = b[1];
    let b2 = b[2];
    let b3 = b[3];
    let n = be_u32_value(b);
    assert((n >> 24u32) as u8 == b0 && (n >> 16u32) as u8 == b1 && (n >> 8u32) as u8 == b2 && n as u8
        == b3) by (bit_vector)
        requires
            n == ((b0 as u32) << 24u32) | ((b1 as u32) << 16u32) | ((b2 as u32) << 8u32) | (
            b3 as u32),
    ;
    assert(be_u32_bytes(n) =~= b);
}

/// Decoding the big-endian bytes of a `u64` gives it back.
pub proof fn lemma_be_u64_value_of_bytes(n: u64)
    ensures
        be_u64_value(be_u64_bytes(n)) == n,
{
    let b0 = (n >> 56u64) as u8;
    let b1 = (n >> 48u64) as u8;
    let b2 = (n >> 40u64) as u8;
    let b3 = (n >> 32u64) as u8;
    let b4 = (n >> 24u64) as u8;
    let b5 = (n >> 16u64) as u8;
    let b6 = (n >> 8u64) as u8;
    let b7 = n as u8;
    assert(((b0 as u64) << 56u64) | ((b1 as u64) << 48u64) | ((b2 as u64) << 40u64) | ((b3 as u64)
        << 32u64) | ((b4 as u64) << 24u64) | ((b5 as u64) << 16u64) | ((b6 as u64) << 8u64) | (
    b7 as u64) == n) by (bit_vector)
        requires
            b0 == (n >> 56u64) as u8,
            b1 == (n >> 48u64) as u8,
            b2 == (n >> 40u64) as u8,
            b3 == (n >> 32u64) as u8,
            b4 == (n >> 24u64) as u8,
            b5 == (n >> 16u64) as u8,
            b6 == (n >> 8u64) as u8,
            b7 == n as u8,
    ;
}

/// Encoding the value of eight bytes gives the same eight bytes.
pub proof fn lemma_be_u64_bytes_of_value(b: Seq<u8>)
    requires
        b.len() == 8,
    ensures
        be_u64_bytes(be_u64_value(b)) == b,
{
    let b0 = b[0];
    let b1 = b[1];
    let b2 = b[2];
    let b3 = b[3];
    let b4 = b[4];
    let b5 = b[5];
    let b6 = b[6];
    let b7 = b[7];
    let n = be_u64_value(b);
    assert((n >> 56u64) as u8 == b0 && (n >> 48u64) as u8 == b1 && (n >> 40u64) as u8 == b2 && (n
        >> 32u64) as u8 == b3 && (n >> 24u64) as u8 == b4 && (n >> 16u64) as u8 == b5 && (n
        >> 8u64) as u8 == b6 && n as u8 == b7) by (bit_vector)
        requires
            n == ((b0 as u64) << 56u64) | ((b1 as u64) << 48u64) | ((b2 as u64) << 40u64) | ((
            b3 as u64) << 32u64) | ((b4 as u64) << 24u64) | ((b5 as u64) << 16u64) | ((b6 as u64)
                << 8u64) | (b7 as u64),
    ;
    assert(be_u64_bytes(n) =~= b);
}

/// Big-endian means most significant byte first: the value of two, four or
/// eight bytes is the weighted sum of the bytes, the first weighing most.
pub proof fn lemma_be_values_are_weighted_sums(b: Seq<u8>)
    ensures
        b.len() == 2 ==> be_u16_value(b) as int == b[0] * 0x100 + b[1] as int,
        b.len() == 4 ==> be_u32_value(b) as int == b[0] * 0x100_0000 + b[1] * 0x1_0000 + b[2]
            * 0x100 + b[3] as int,
        b.len() == 8 ==> be_u64_value(b) as int == b[0] * 0x100_0000_0000_0000 + b[1]
            * 0x1_0000_0000_0000 + b[2] * 0x100_0000_0000 + b[3] * 0x1_0000_0000 + b[4]
            * 0x100_0000 + b[5] * 0x1_0000 + b[6] * 0x100 + b[7] as int,
{
    let (b0, b1, b2, b3) = (b[0], b[1], b[2], b[3]);
    let (b4, b5, b6, b7) = (b[4], b[5], b[6], b[7]);
    assert(((b0 as u16) << 8u16) | (b1 as u16) == b0 * 0x100 + b1) by (bit_vector);
    assert(((b0 as u32) << 24u32) | ((b1 as u32) << 16u32) | ((b2 as u32) << 8u32) | (b3 as u32)
        == b0 * 0x100_0000 + b1 * 0x1_0000 + b2 * 0x100 + b3) by (bit_vector);
    assert(((b0 as u64) << 56u64) | ((b1 as u64) << 48u64) | ((b2 as u64) << 40u64) | ((b3 as u64)
        << 32u64) | ((b4 as u64) << 24u64) | ((b5 as u64) << 16u64) | ((b6 as u64) << 8u64) | (
    b7 as u64) == b0 * 0x100_0000_0000_0000 + b1 * 0x1_0000_0000_0000 + b2 * 0x100_0000_0000 + b3
        * 0x1_0000_0000 + b4 * 0x100_0000 + b5 * 0x1_0000 + b6 * 0x100 + b7) by (bit_vector);
}

/// `byteorder::BigEndian::read_u16` on `buf[start..]`: the `u16` stored
/// big-endian in `buf[start..start + 2]`. It panics on fewer than two bytes,
/// which the precondition rules out.
#[verifier::external_body]
pub(crate) fn read_u16_at(buf: &[u8], start: usize) -> (n: u16)
    requires
        start + 2 <= buf@.len(),
    ensures
        n == be_u16_value(buf@.subrange(start as int, start + 2)),
{
    BigEndian::read_u16(&buf[start..])
}

/// `byteorder::BigEndian::read_u32` on `buf[start..]`: the `u32` stored
/// big-endian in `buf[start..start + 4]`; panics on fewer than four bytes.
#[verifier::external_body]
pub(crate) fn read_u32_at(buf: &[u8], start: usize) -> (n: u32)
    requires
        start + 4 <= buf@.len(),
    ensures
        n == be_u32_value(buf@.subrange(start as int, start + 4)),
{
    BigEndian::read_u32(&buf[start..])
}

/// `byteorder::BigEndian::read_u64` on `buf[start..]`: the `u64` stored
/// big-endian in `buf[start..start + 8]`; panics on fewer than eight bytes.
#[verifier::external_body]
pub(crate) fn read_u64_at(buf: &[u8], start: usize) -> (n: u64)
    requires
        start + 8 <= buf@.len(),
    ensures
        n == be_u64_value(buf@.subrange(start as int, start + 8)),
{
    BigEndian::read_u64(&buf[start..])
}

/// `byteorder::BigEndian::write_u16` on `buf[start..]`: the two big-endian
/// bytes of `n` replace `buf[start..start + 2]`, nothing else changes.
#[verifier::external_body]
pub(crate) fn write_u16_at(buf: &mut [u8], start: usize, n: u16)
    requires
        start + 2 <= old(buf)@.len(),
    ensures
        final(buf)@ == splice(old(buf)@, start as int, be_u16_bytes(n)),
{
    BigEndian::write_u16(&mut buf[start..], n)
}

/// `byteorder::BigEndian::write_u32` on `buf[start..]`: the four big-endian
/// bytes of `n` replace `buf[start..start + 4]`, nothing else changes.
#[verifier::external_body]
pub(crate) fn write_u32_at(buf: &mut [u8], start: usize, n: u32)
    requires
        start + 4 <= old(buf)@.len(),
    ensures
        final(buf)@ == splice(old(buf)@, start as int, be_u32_bytes(n)),
{
    BigEndian::write_u32(&mut buf[start..], n)
}

/// `byteorder::BigEndian::write_u64` on `buf[start..]`: the eight big-endian
/// bytes of `n` replace `buf[start..start + 8]`, nothing else changes.
#[verifier::external_body]
pub(crate) fn write_u64_at(buf: &mut [u8], start: usize, n: u64)
    requires
        start + 8 <= old(buf)@.len(),
    ensures
        final(buf)@ == splice(old(buf)@, start as int, be_u64_bytes(n)),
{
    BigEndian::write_u64(&mut buf[start..], n)
}

} // verus!
