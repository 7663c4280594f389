//! Hash functions for integers and for streams of bytes.

use vstd::prelude::*;
use crate::buffer::byte_order::le_value;

verus! {

/// `x` with its bits above `shift` folded onto the lower ones.
pub open spec fn fold_down32(x: u32, shift: u32) -> u32 {
    x ^ (x >> shift)
}

/// `x` with its bits above `shift` folded onto the lower ones.
pub open spec fn fold_down64(x: u64, shift: u64) -> u64 {
    x ^ (x >> shift)
}

/// The avalanche of a 32-bit integer: two rounds of folding the upper half down and
/// multiplying by 0x45d9f3b, then one more fold.
pub open spec fn spec_fast_int_hash(value: i32) -> u32 {
    let a = fold_down32(value as u32, 16).wrapping_mul(0x45d9f3b);
    let b = fold_down32(a, 16).wrapping_mul(0x45d9f3b);
    fold_down32(b, 16)
}

/// The avalanche of a 64-bit integer, cut to its low 32 bits.
pub open spec fn spec_fast_long_hash(value: i64) -> u32 {
    let a = fold_down64(value as u64, 30).wrapping_mul(0xbf58476d1ce4e5b9);
    let b = fold_down64(a, 27).wrapping_mul(0x94d049bb133111eb);
    fold_down64(b, 31) as u32
}

/// The finishing mix of a 32-bit hash.
pub open spec fn spec_mix_hash(hash: u32) -> u32 {
    let a = fold_down32(hash, 16).wrapping_mul(0x85ebca6b);
    let b = fold_down32(a, 13).wrapping_mul(0xc2b2ae35);
    fold_down32(b, 16)
}

/// The hash of a pair: `31 * (31 * 1 + hash(a)) + hash(b)`, all modulo 2 to the 32.
pub open spec fn spec_compound_hash(a: i32, b: i32) -> u32 {
    31u32.wrapping_mul(31u32.wrapping_mul(1).wrapping_add(spec_fast_int_hash(a))).wrapping_add(
        spec_fast_int_hash(b),
    )
}

pub fn fast_int_hash(value: i32) -> (h: u32)
    ensures
        h == spec_fast_int_hash(value),
{
    let mut x: u32 = value as u32;
    x = (x ^ (x >> 16)).wrapping_mul(0x45d9f3b);
    x = (x ^ (x >> 16)).wrapping_mul(0x45d9f3b);
    x = x ^ (x >> 16);
    x
}

pub fn fast_long_hash(value: i64) -> (h: u32)
    ensures
        h == spec_fast_long_hash(value),
{
    let mut x: u64 = value as u64;
    x = (x ^ (x >> 30)).wrapping_mul(0xbf58476d1ce4e5b9);
    x = (x ^ (x >> 27)).wrapping_mul(0x94d049bb133111eb);
    x = x ^ (x >> 31);
    x as u32
}

pub fn mix_hash(hash: u32) -> (h: u32)
    ensures
        h == spec_mix_hash(hash),
{
    let mut h: u32 = hash;
    h = h ^ (h >> 16);
    h = h.wrapping_mul(0x85ebca6b);
    h = h ^ (h >> 13);
    h = h.wrapping_mul(0xc2b2ae35);
    h = h ^ (h >> 16);
    h
}

pub fn compound_hash(a: i32, b: i32) -> (h: u32)
    ensures
        h == spec_compound_hash(a, b),
{
    let mut result: u32 = 1;
    result = 31u32.wrapping_mul(result).wrapping_add(fast_int_hash(a));
    result = 31u32.wrapping_mul(result).wrapping_add(fast_int_hash(b));
    result
}

/// What a hasher holds after it has taken in `bytes`, eight at a time: each chunk,
/// read as a little-endian number, is hashed and added to the state.
pub open spec fn fold_chunks(state: u64, bytes: Seq<u8>) -> u64
    decreases bytes.len(),
{
    if bytes.len() == 0 {
        state
    } else {
        let n = if bytes.len() < 8 {
            bytes.len() as int
        } else {
            8
        };
        fold_chunks(
            state.wrapping_add(spec_fast_long_hash(le_value(bytes.take(n)) as u64 as i64) as u64),
            bytes.skip(n),
        )
    }
}

/// A hasher for streams of bytes and integers, with a running 64-bit state.
pub struct FastHasher {
    state: u64,
}

impl FastHasher {
    /// The state of the hasher.
    pub closed spec fn view(&self) -> u64 {
        self.state
    }

    pub fn new() -> (hasher: Self)
        ensures
            hasher@ == 0,
    {
        Self { state: 0 }
    }

    pub fn finish(&self) -> (state: u64)
        ensures
            state == self@,
    {
        self.state
    }

    pub fn write(&mut self, bytes: &[u8])
        ensures
            final(self)@ == fold_chunks(old(self)@, bytes@),
    {
        let length = bytes.len();
        let mut start: usize = 0;
        assert(bytes@.skip(0) =~= bytes@);
        while start < length
            invariant
                0 <= start <= length,
                length == bytes@.len(),
                fold_chunks(old(self)@, bytes@) == fold_chunks(self@, bytes@.skip(start as int)),
            decreases length - start,
        {
            let n: usize = if length - start < 8 {
                length - start
            } else {
                8
            };
            let ghost chunk = bytes@.skip(start as int).take(n as int);
            let mut value: u64 = 0;
            let mut k: usize = n;
            assert(chunk.skip(n as int) =~= Seq::<u8>::empty());
            while k > 0
                invariant
                    0 <= k <= n <= 8,
                    start + n <= length,
                    length == bytes@.len(),
                    chunk == bytes@.skip(start as int).take(n as int),
                    value == le_value(chunk.skip(k as int)),
                    value < crate::buffer::byte_order::radix((n - k) as nat),
                decreases k,
            {
                k -= 1;
                proof {
                    assert(chunk.skip(k as int).drop_first() =~= chunk.skip(k + 1));
                    assert(chunk.skip(k as int)[0] == bytes@[start + k]);
                    crate::buffer::byte_order_laws::lemma_radix_bounded((n - k - 1) as nat);
                }
                value = value * 256 + bytes[start + k] as u64;
            }
            assert(chunk.skip(0) =~= chunk);
            self.state = self.state.wrapping_add(fast_long_hash(value as i64) as u64);
            proof {
                assert(bytes@.skip(start as int).skip(n as int) =~= bytes@.skip(start + n));
            }
            start += n;
        }
    }

    pub fn write_u8(&mut self, i: u8)
        ensures
            final(self)@ == old(self)@.wrapping_add(i as u64),
    {
        self.state = self.state.wrapping_add(i as u64);
    }

    pub fn write_u16(&mut self, i: u16)
        ensures
            final(self)@ == old(self)@.wrapping_add(i as u64),
    {
        self.state = self.state.wrapping_add(i as u64);
    }

    pub fn write_u32(&mut self, i: u32)
        ensures
            final(self)@ == old(self)@.wrapping_add(spec_fast_int_hash(i as i32) as u64),
    {
        self.state = self.state.wrapping_add(fast_int_hash(i as i32) as u64);
    }

    pub fn write_u64(&mut self, i: u64)
        ensures
            final(self)@ == old(self)@.wrapping_add(spec_fast_long_hash(i as i64) as u64),
    {
        self.state = self.state.wrapping_add(fast_long_hash(i as i64) as u64);
    }

    pub fn write_usize(&mut self, i: usize)
        ensures
            final(self)@ == old(self)@.wrapping_add(spec_fast_long_hash(i as u64 as i64) as u64),
    {
        self.write_u64(i as u64);
    }

    pub fn write_i8(&mut self, i: i8)
        ensures
            final(self)@ == old(self)@.wrapping_add(i as u8 as u64),
    {
        self.write_u8(i as u8);
    }

    pub fn write_i16(&mut self, i: i16)
        ensures
            final(self)@ == old(self)@.wrapping_add(i as u16 as u64),
    {
        self.write_u16(i as u16);
    }

    pub fn write_i32(&mut self, i: i32)
        ensures
            final(self)@ == old(self)@.wrapping_add(spec_fast_int_hash(i) as u64),
    {
        self.state = self.state.wrapping_add(fast_int_hash(i) as u64);
    }

    pub fn write_i64(&mut self, i: i64)
        ensures
            final(self)@ == old(self)@.wrapping_add(spec_fast_long_hash(i) as u64),
    {
        self.state = self.state.wrapping_add(fast_long_hash(i) as u64);
    }

    pub fn write_isize(&mut self, i: isize)
        ensures
            final(self)@ == old(self)@.wrapping_add(spec_fast_long_hash(i as i64) as u64),
    {
        self.write_i64(i as i64);
    }
}

impl Default for FastHasher {
    fn default() -> (hasher: Self)
        ensures
            hasher@ == 0,
    {
        Self::new()
    }
}

} // verus!
