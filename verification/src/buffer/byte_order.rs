//! Integers as bytes in either byte order: what bytes denote, and the calls that read
//! and write them.

use vstd::prelude::*;

verus! {

/// The order in which the bytes of a multi-byte integer lie in a region.
#[derive(Clone, Copy, Debug, PartialEq, Eq, Structural)]
pub enum ByteOrder {
    /// Most significant byte first.
    BigEndian,
    /// Least significant byte first.
    LittleEndian,
}

/// The number of values that `width` bytes can hold: 256 to the power `width`.
pub open spec fn radix(width: nat) -> nat
    decreases width,
{
    if width == 0 {
        1
    } else {
        256 * radix((width - 1) as nat)
    }
}

/// The number that `bytes` denote when the first byte is the least significant.
pub open spec fn le_value(bytes: Seq<u8>) -> nat
    decreases bytes.len(),
{
    if bytes.len() == 0 {
        0
    } else {
        bytes[0] as nat + 256 * le_value(bytes.drop_first())
    }
}

/// The number that `bytes` denote when the first byte is the most significant.
pub open spec fn be_value(bytes: Seq<u8>) -> nat
    decreases bytes.len(),
{
    if bytes.len() == 0 {
        0
    } else {
        256 * be_value(bytes.drop_last()) + bytes.last() as nat
    }
}

/// The `width` low bytes of `value`, least significant first.
pub open spec fn le_bytes(value: nat, width: nat) -> Seq<u8>
    decreases width,
{
    if width == 0 {
        Seq::empty()
    } else {
        seq![(value % 256) as u8] + le_bytes(value / 256, (width - 1) as nat)
    }
}

/// The `width` low bytes of `value`, most significant first.
pub open spec fn be_bytes(value: nat, width: nat) -> Seq<u8>
    decreases width,
{
    if width == 0 {
        Seq::empty()
    } else {
        be_bytes(value / 256, (width - 1) as nat).push((value % 256) as u8)
    }
}

/// The number whose bytes are those of `value`, taken over `width` bytes, in reverse.
pub open spec fn swap_bytes(value: nat, width: nat) -> nat {
    le_value(le_bytes(value, width).reverse())
}

/// `region` with the bytes from `index` on replaced by `window`.
pub open spec fn splice(region: Seq<u8>, index: int, window: Seq<u8>) -> Seq<u8> {
    region.subrange(0, index) + window + region.subrange(index + window.len(), region.len() as int)
}

impl ByteOrder {
    /// The number that `bytes` denote in this order.
    pub open spec fn value(self, bytes: Seq<u8>) -> nat {
        match self {
            ByteOrder::BigEndian => be_value(bytes),
            ByteOrder::LittleEndian => le_value(bytes),
        }
    }

    /// The `width` low bytes of `value` in this order.
    pub open spec fn bytes(self, value: nat, width: nat) -> Seq<u8> {
        match self {
            ByteOrder::BigEndian => be_bytes(value, width),
            ByteOrder::LittleEndian => le_bytes(value, width),
        }
    }

    /// The other order.
    pub open spec fn opposite(self) -> ByteOrder {
        match self {
            ByteOrder::BigEndian => ByteOrder::LittleEndian,
            ByteOrder::LittleEndian => ByteOrder::BigEndian,
        }
    }
}

/// `byteorder::BigEndian::read_u16`: the first 2 bytes of `buf` read most significant byte first.
/// It panics on a shorter `buf`, which the precondition excludes.
#[verifier::external_body]
pub(crate) fn read_u16_be(buf: &[u8]) -> (r: u16)
    requires
        buf@.len() >= 2,
    ensures
        r == be_value(buf@.subrange(0, 2)) as u16,
{
    <byteorder::BigEndian as byteorder::ByteOrder>::read_u16(buf)
}

/// `byteorder::BigEndian::write_u16`: the first 2 bytes of `buf` become the big-endian bytes of `n`;
/// the rest of `buf` stays. It panics on a shorter `buf`, which the precondition excludes.
#[verifier::external_body]
pub(crate) fn write_u16_be(buf: &mut [u8], n: u16)
    requires
        old(buf)@.len() >= 2,
    ensures
        final(buf)@ == be_bytes(n as nat, 2) + old(buf)@.subrange(2, old(buf)@.len() as int),
{
    <byteorder::BigEndian as byteorder::ByteOrder>::write_u16(buf, n)
}

/// `byteorder::BigEndian::read_i16`: the first 2 bytes of `buf` read most significant byte first, reinterpreted as `i16`.
/// It panics on a shorter `buf`, which the precondition excludes.
#[verifier::external_body]
pub(crate) fn read_i16_be(buf: &[u8]) -> (r: i16)
    requires
        buf@.len() >= 2,
    ensures
        r == be_value(buf@.subrange(0, 2)) as u16 as i16,
{
    <byteorder::BigEndian as byteorder::ByteOrder>::read_i16(buf)
}

/// `byteorder::BigEndian::write_i16`: the first 2 bytes of `buf` become the big-endian bytes of `n`;
/// the rest of `buf` stays. It panics on a shorter `buf`, which the precondition excludes.
#[verifier::external_body]
pub(crate) fn write_i16_be(buf: &mut [u8], n: i16)
    requires
        old(buf)@.len() >= 2,
    ensures
        final(buf)@ == be_bytes(n as u16 as nat, 2) + old(buf)@.subrange(2, old(buf)@.len() as int),
{
    <byteorder::BigEndian as byteorder::ByteOrder>::write_i16(buf, n)
}

/// `byteorder::LittleEndian::read_u16`: the first 2 bytes of `buf` read least significant byte first.
/// It panics on a shorter `buf`, which the precondition excludes.
#[verifier::external_body]
pub(crate) fn read_u16_le(buf: &[u8]) -> (r: u16)
    requires
        buf@.len() >= 2,
    ensures
        r == le_value(buf@.subrange(0, 2)) as u16,
{
    <byteorder::LittleEndian as byteorder::ByteOrder>::read_u16(buf)
}

/// `byteorder::LittleEndian::write_u16`: the first 2 bytes of `buf` become the little-endian bytes of `n`;
/// the rest of `buf` stays. It panics on a shorter `buf`, which the precondition excludes.
#[verifier::external_body]
pub(crate) fn write_u16_le(buf: &mut [u8], n: u16)
    requires
        old(buf)@.len() >= 2,
    ensures
        final(buf)@ == le_bytes(n as nat, 2) + old(buf)@.subrange(2, old(buf)@.len() as int),
{
    <byteorder::LittleEndian as byteorder::ByteOrder>::write_u16(buf, n)
}

/// `byteorder::LittleEndian::read_i16`: the first 2 bytes of `buf` read least significant byte first, reinterpreted as `i16`.
/// It panics on a shorter `buf`, which the precondition excludes.
#[verifier::external_body]
pub(crate) fn read_i16_le(buf: &[u8]) -> (r: i16)
    requires
        buf@.len() >= 2,
    ensures
        r == le_value(buf@.subrange(0, 2)) as u16 as i16,
{
    <byteorder::LittleEndian as byteorder::ByteOrder>::read_i16(buf)
}

/// `byteorder::LittleEndian::write_i16`: the first 2 bytes of `buf` become the little-endian bytes of `n`;
/// the rest of `buf` stays. It panics on a shorter `buf`, which the precondition excludes.
#[verifier::external_body]
pub(crate) fn write_i16_le(buf: &mut [u8], n: i16)
    requires
        old(buf)@.len() >= 2,
    ensures
        final(buf)@ == le_bytes(n as u16 as nat, 2) + old(buf)@.subrange(2, old(buf)@.len() as int),
{
    <byteorder::LittleEndian as byteorder::ByteOrder>::write_i16(buf, n)
}

/// `byteorder::BigEndian::read_u32`: the first 4 bytes of `buf` read most significant byte first.
/// It panics on a shorter `buf`, which the precondition excludes.
#[verifier::external_body]
pub(crate) fn read_u32_be(buf: &[u8]) -> (r: u32)
    requires
        buf@.len() >= 4,
    ensures
        r == be_value(buf@.subrange(0, 4)) as u32,
{
    <byteorder::BigEndian as byteorder::ByteOrder>::read_u32(buf)
}

/// `byteorder::BigEndian::write_u32`: the first 4 bytes of `buf` become the big-endian bytes of `n`;
/// the rest of `buf` stays. It panics on a shorter `buf`, which the precondition excludes.
#[verifier::external_body]
pub(crate) fn write_u32_be(buf: &mut [u8], n: u32)
    requires
        old(buf)@.len() >= 4,
    ensures
        final(buf)@ == be_bytes(n as nat, 4) + old(buf)@.subrange(4, old(buf)@.len() as int),
{
    <byteorder::BigEndian as byteorder::ByteOrder>::write_u32(buf, n)
}

/// `byteorder::BigEndian::read_i32`: the first 4 bytes of `buf` read most significant byte first, reinterpreted as `i32`.
/// It panics on a shorter `buf`, which the precondition excludes.
#[verifier::external_body]
pub(crate) fn read_i32_be(buf: &[u8]) -> (r: i32)
    requires
        buf@.len() >= 4,
    ensures
        r == be_value(buf@.subrange(0, 4)) as u32 as i32,
{
    <byteorder::BigEndian as byteorder::ByteOrder>::read_i32(buf)
}

/// `byteorder::BigEndian::write_i32`: the first 4 bytes of `buf` become the big-endian bytes of `n`;
/// the rest of `buf` stays. It panics on a shorter `buf`, which the precondition excludes.
#[verifier::external_body]
pub(crate) fn write_i32_be(buf: &mut [u8], n: i32)
    requires
        old(buf)@.len() >= 4,
    ensures
        final(buf)@ == be_bytes(n as u32 as nat, 4) + old(buf)@.subrange(4, old(buf)@.len() as int),
{
    <byteorder::BigEndian as byteorder::ByteOrder>::write_i32(buf, n)
}

/// `byteorder::LittleEndian::read_u32`: the first 4 bytes of `buf` read least significant byte first.
/// It panics on a shorter `buf`, which the precondition excludes.
#[verifier::external_body]
pub(crate) fn read_u32_le(buf: &[u8]) -> (r: u32)
    requires
        buf@.len() >= 4,
    ensures
        r == le_value(buf@.subrange(0, 4)) as u32,
{
    <byteorder::LittleEndian as byteorder::ByteOrder>::read_u32(buf)
}

/// `byteorder::LittleEndian::write_u32`: the first 4 bytes of `buf` become the little-endian bytes of `n`;
/// the rest of `buf` stays. It panics on a shorter `buf`, which the precondition excludes.
#[verifier::external_body]
pub(crate) fn write_u32_le(buf: &mut [u8], n: u32)
    requires
        old(buf)@.len() >= 4,
    ensures
        final(buf)@ == le_bytes(n as nat, 4) + old(buf)@.subrange(4, old(buf)@.len() as int),
{
    <byteorder::LittleEndian as byteorder::ByteOrder>::write_u32(buf, n)
}

/// `byteorder::LittleEndian::read_i32`: the first 4 bytes of `buf` read least significant byte first, reinterpreted as `i32`.
/// It panics on a shorter `buf`, which the precondition excludes.
#[verifier::external_body]
pub(crate) fn read_i32_le(buf: &[u8]) -> (r: i32)
    requires
        buf@.len() >= 4,
    ensures
        r == le_value(buf@.subrange(0, 4)) as u32 as i32,
{
    <byteorder::LittleEndian as byteorder::ByteOrder>::read_i32(buf)
}

/// `byteorder::LittleEndian::write_i32`: the first 4 bytes of `buf` become the little-endian bytes of `n`;
/// the rest of `buf` stays. It panics on a shorter `buf`, which the precondition excludes.
#[verifier::external_body]
pub(crate) fn write_i32_le(buf: &mut [u8], n: i32)
    requires
        old(buf)@.len() >= 4,
    ensures
        final(buf)@ == le_bytes(n as u32 as nat, 4) + old(buf)@.subrange(4, old(buf)@.len() as int),
{
    <byteorder::LittleEndian as byteorder::ByteOrder>::write_i32(buf, n)
}

/// `byteorder::BigEndian::read_u64`: the first 8 bytes of `buf` read most significant byte first.
/// It panics on a shorter `buf`, which the precondition excludes.
#[verifier::external_body]
pub(crate) fn read_u64_be(buf: &[u8]) -> (r: u64)
    requires
        buf@.len() >= 8,
    ensures
        r == be_value(buf@.subrange(0, 8)) as u64,
{
    <byteorder::BigEndian as byteorder::ByteOrder>::read_u64(buf)
}

/// `byteorder::BigEndian::write_u64`: the first 8 bytes of `buf` become the big-endian bytes of `n`;
/// the rest of `buf` stays. It panics on a shorter `buf`, which the precondition excludes.
#[verifier::external_body]
pub(crate) fn write_u64_be(buf: &mut [u8], n: u64)
    requires
        old(buf)@.len() >= 8,
    ensures
        final(buf)@ == be_bytes(n as nat, 8) + old(buf)@.subrange(8, old(buf)@.len() as int),
{
    <byteorder::BigEndian as byteorder::ByteOrder>::write_u64(buf, n)
}

/// `byteorder::BigEndian::read_i64`: the first 8 bytes of `buf` read most significant byte first, reinterpreted as `i64`.
/// It panics on a shorter `buf`, which the precondition excludes.
#[verifier::external_body]
pub(crate) fn read_i64_be(buf: &[u8]) -> (r: i64)
    requires
        buf@.len() >= 8,
    ensures
        r == be_value(buf@.subrange(0, 8)) as u64 as i64,
{
    <byteorder::BigEndian as byteorder::ByteOrder>::read_i64(buf)
}

/// `byteorder::BigEndian::write_i64`: the first 8 bytes of `buf` become the big-endian bytes of `n`;
/// the rest of `buf` stays. It panics on a shorter `buf`, which the precondition excludes.
#[verifier::external_body]
pub(crate) fn write_i64_be(buf: &mut [u8], n: i64)
    requires
        old(buf)@.len() >= 8,
    ensures
        final(buf)@ == be_bytes(n as u64 as nat, 8) + old(buf)@.subrange(8, old(buf)@.len() as int),
{
    <byteorder::BigEndian as byteorder::ByteOrder>::write_i64(buf, n)
}

/// `byteorder::LittleEndian::read_u64`: the first 8 bytes of `buf` read least significant byte first.
/// It panics on a shorter `buf`, which the precondition excludes.
#[verifier::external_body]
pub(crate) fn read_u64_le(buf: &[u8]) -> (r: u64)
    requires
        buf@.len() >= 8,
    ensures
        r == le_value(buf@.subrange(0, 8)) as u64,
{
    <byteorder::LittleEndian as byteorder::ByteOrder>::read_u64(buf)
}

/// `byteorder::LittleEndian::write_u64`: the first 8 bytes of `buf` become the little-endian bytes of `n`;
/// the rest of `buf` stays. It panics on a shorter `buf`, which the precondition excludes.
#[verifier::external_body]
pub(crate) fn write_u64_le(buf: &mut [u8], n: u64)
    requires
        old(buf)@.len() >= 8,
    ensures
        final(buf)@ == le_bytes(n as nat, 8) + old(buf)@.subrange(8, old(buf)@.len() as int),
{
    <byteorder::LittleEndian as byteorder::ByteOrder>::write_u64(buf, n)
}

/// `byteorder::LittleEndian::read_i64`: the first 8 bytes of `buf` read least significant byte first, reinterpreted as `i64`.
/// It panics on a shorter `buf`, which the precondition excludes.
#[verifier::external_body]
pub(crate) fn read_i64_le(buf: &[u8]) -> (r: i64)
    requires
        buf@.len() >= 8,
    ensures
        r == le_value(buf@.subrange(0, 8)) as u64 as i64,
{
    <byteorder::LittleEndian as byteorder::ByteOrder>::read_i64(buf)
}

/// `byteorder::LittleEndian::write_i64`: the first 8 bytes of `buf` become the little-endian bytes of `n`;
/// the rest of `buf` stays. It panics on a shorter `buf`, which the precondition excludes.
#[verifier::external_body]
pub(crate) fn write_i64_le(buf: &mut [u8], n: i64)
    requires
        old(buf)@.len() >= 8,
    ensures
        final(buf)@ == le_bytes(n as u64 as nat, 8) + old(buf)@.subrange(8, old(buf)@.len() as int),
{
    <byteorder::LittleEndian as byteorder::ByteOrder>::write_i64(buf, n)
}

} // verus!
