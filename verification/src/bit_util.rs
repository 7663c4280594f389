//! Powers of two, alignment, hexadecimal digits and counts of zero bits.

use vstd::prelude::*;
use vstd::std_specs::bits::{
    u32_leading_zeros, u32_trailing_zeros, u64_leading_zeros, u64_trailing_zeros,
};

verus! {

pub const SIZE_OF_BYTE: usize = 1;

pub const SIZE_OF_BOOL: usize = 1;

pub const SIZE_OF_CHAR: usize = 4;

pub const SIZE_OF_I16: usize = 2;

pub const SIZE_OF_U16: usize = 2;

pub const SIZE_OF_I32: usize = 4;

pub const SIZE_OF_U32: usize = 4;

pub const SIZE_OF_F32: usize = 4;

pub const SIZE_OF_I64: usize = 8;

pub const SIZE_OF_U64: usize = 8;

pub const SIZE_OF_F64: usize = 8;

/// The number of bytes in one cache line.
pub const CACHE_LINE_LENGTH: usize = 64;

/// Whether `value` is a power of two: it is positive and has a single bit set.
pub open spec fn spec_is_power_of_two(value: u64) -> bool {
    value > 0 && (value & ((value - 1) as u64)) == 0
}

pub fn is_power_of_two(value: u64) -> (r: bool)
    ensures
        r == spec_is_power_of_two(value),
{
    value > 0 && (value & (value - 1)) == 0
}

/// `value` with every bit below its highest set bit set too.
pub open spec fn smear(value: u32) -> u32 {
    let a = value | (value >> 1);
    let b = a | (a >> 2);
    let c = b | (b >> 4);
    let d = c | (c >> 8);
    d | (d >> 16)
}

/// The smallest power of two that is at least `value`: `value` itself where it is one.
pub fn next_power_of_two(value: u32) -> (r: u32)
    requires
        1 <= value <= 0x8000_0000,
    ensures
        spec_is_power_of_two(r as u64),
        r >= value,
        r / 2 < value,
{
    let mut v: u32 = value - 1;
    let ghost start = v;
    v = v | (v >> 1);
    v = v | (v >> 2);
    v = v | (v >> 4);
    v = v | (v >> 8);
    v = v | (v >> 16);
    assert(v == smear(start));
    assert(v <= 0x7fff_ffff && v >= start && ((v + 1) as u32) & v == 0 && ((v + 1) as u32) / 2
        <= start) by (bit_vector)
        requires
            v == smear(start),
            start <= 0x7fff_ffff,
    ;
    assert((((v + 1) as u32) as u64) & ((((v + 1) as u32) as u64 - 1) as u64) == 0) by (bit_vector)
        requires
            ((v + 1) as u32) & v == 0,
            v <= 0x7fff_ffff,
    ;
    v + 1
}

/// Under a power of two less one as a mask, what is left of a number is its remainder.
pub proof fn lemma_mask_is_remainder(x: u64, a: u64)
    requires
        spec_is_power_of_two(a),
    ensures
        x & ((a - 1) as u64) == x % a,
    decreases a,
{
    if a == 1 {
        assert(x & 0 == 0) by (bit_vector);
    } else {
        let b: u64 = a / 2;
        let half: u64 = x / 2;
        assert(b > 0 && b & ((b - 1) as u64) == 0 && a == 2 * b) by (bit_vector)
            requires
                a & ((a - 1) as u64) == 0,
                a > 1,
                b == a / 2,
        ;
        lemma_mask_is_remainder(half, b);
        assert(x & ((a - 1) as u64) == 2 * (half & ((b - 1) as u64)) + (x & 1)) by (bit_vector)
            requires
                a == 2 * b,
                b > 0,
                b & ((b - 1) as u64) == 0,
                half == x / 2,
        ;
        assert(x & 1 == x % 2) by (bit_vector);
        vstd::arithmetic::div_mod::lemma_breakdown(x as int, 2, b as int);
    }
}

/// `size` rounded up to a multiple of `alignment`, which must be a power of two.
pub fn align(size: usize, alignment: usize) -> (r: usize)
    requires
        spec_is_power_of_two(alignment as u64),
        size + alignment - 1 <= usize::MAX,
    ensures
        r % alignment == 0,
        size <= r < size + alignment,
{
    let mask: usize = alignment - 1;
    let sum: usize = size + mask;
    proof {
        lemma_mask_is_remainder(sum as u64, alignment as u64);
        assert(sum & !mask == sum - (sum & mask)) by (bit_vector);
        assert(sum & mask == (sum as u64) & (mask as u64));
        let rest = sum % alignment;
        assert((sum - rest) % (alignment as int) == 0) by (nonlinear_arith)
            requires
                rest == sum as int % alignment as int,
                alignment > 0,
        ;
    }
    sum & !mask
}

/// Whether `address` is a multiple of `alignment`, which must be a power of two.
pub fn is_aligned(address: usize, alignment: usize) -> (r: bool)
    requires
        spec_is_power_of_two(alignment as u64),
    ensures
        r == (address % alignment == 0),
{
    let mask: usize = alignment - 1;
    proof {
        lemma_mask_is_remainder(address as u64, alignment as u64);
        assert(address & mask == (address as u64) & (mask as u64));
    }
    address & mask == 0
}

/// The lower-case hexadecimal digit of a number below 16.
pub open spec fn hex_digit(nibble: u8) -> u8 {
    if nibble < 10 {
        (48 + nibble) as u8
    } else {
        (87 + nibble) as u8
    }
}

/// The lower-case hexadecimal digit of the low four bits of `value`.
pub fn fast_hex_digit(value: u8) -> (digit: u8)
    ensures
        digit == hex_digit(value % 16),
{
    let nibble: u8 = value & 0x0F;
    assert(nibble == value % 16) by (bit_vector)
        requires
            nibble == value & 0x0F,
    ;
    if nibble < 10 {
        48 + nibble
    } else {
        87 + nibble
    }
}

/// The number that the hexadecimal digit `digit` stands for, in either case.
pub fn from_hex_digit(digit: u8) -> (r: Result<u8, ()>)
    ensures
        48 <= digit <= 57 ==> r == Ok::<u8, ()>((digit - 48) as u8),
        97 <= digit <= 102 ==> r == Ok::<u8, ()>((digit - 87) as u8),
        65 <= digit <= 70 ==> r == Ok::<u8, ()>((digit - 55) as u8),
        !(48 <= digit <= 57 || 97 <= digit <= 102 || 65 <= digit <= 70) ==> r is Err,
{
    if digit >= 48 && digit <= 57 {
        Ok(digit - 48)
    } else if digit >= 97 && digit <= 102 {
        Ok(digit - 97 + 10)
    } else if digit >= 65 && digit <= 70 {
        Ok(digit - 65 + 10)
    } else {
        Err(())
    }
}

/// The digit of a number below 16 stands for that number.
pub proof fn lemma_hex_digit_round_trip(nibble: u8)
    requires
        nibble < 16,
    ensures
        nibble < 10 ==> 48 <= hex_digit(nibble) <= 57 && hex_digit(nibble) - 48 == nibble,
        nibble >= 10 ==> 97 <= hex_digit(nibble) <= 102 && hex_digit(nibble) - 87 == nibble,
{
}

/// The number of zero bits above the highest set bit of `value`: 32 for zero.
pub fn number_of_leading_zeros_u32(value: u32) -> (r: u32)
    ensures
        r == u32_leading_zeros(value),
        r <= 32,
        r == 32 <==> value == 0,
{
    broadcast use vstd::std_specs::bits::axiom_u32_leading_zeros;

    value.leading_zeros()
}

/// The number of zero bits above the highest set bit of `value`: 64 for zero.
pub fn number_of_leading_zeros_u64(value: u64) -> (r: u32)
    ensures
        r == u64_leading_zeros(value),
        r <= 64,
        r == 64 <==> value == 0,
{
    broadcast use vstd::std_specs::bits::axiom_u64_leading_zeros;

    value.leading_zeros()
}

/// The number of zero bits below the lowest set bit of `value`: 32 for zero.
pub fn number_of_trailing_zeros_u32(value: u32) -> (r: u32)
    ensures
        r == u32_trailing_zeros(value),
        r <= 32,
        r == 32 <==> value == 0,
{
    broadcast use vstd::std_specs::bits::axiom_u32_trailing_zeros;

    value.trailing_zeros()
}

/// The number of zero bits below the lowest set bit of `value`: 64 for zero.
pub fn number_of_trailing_zeros_u64(value: u64) -> (r: u32)
    ensures
        r == u64_trailing_zeros(value),
        r <= 64,
        r == 64 <==> value == 0,
{
    broadcast use vstd::std_specs::bits::axiom_u64_trailing_zeros;

    value.trailing_zeros()
}

} // verus!
