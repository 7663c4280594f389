//! The accessors that read a buffer.

use vstd::prelude::*;
use crate::buffer::bounds_check;
use crate::buffer::byte_order::{splice, ByteOrder};
use crate::buffer::byte_order_laws::{lemma_radix_values, lemma_value_bound};
use crate::buffer::model::{
    fits, load, load_ascii, load_headed, load_natural, load_signed, load_utf8, out_of_bounds,
    window,
};
use crate::error::{agrees, AgronaError, Failure};

verus! {

/// Whether `r` is the text that `expected` gives, or an error that says what
/// `expected` says.
pub open spec fn agrees_text(r: Result<String, AgronaError>, expected: Result<Seq<char>, Failure>) -> bool {
    match expected {
        Ok(chars) => r is Ok && r->Ok_0@ == chars,
        Err(f) => r is Err && r->Err_0@ == f,
    }
}

/// A region of bytes of fixed size that is read at byte offsets.
pub trait DirectBuffer {
    /// The bytes of the region.
    spec fn bytes(&self) -> Seq<u8>;

    /// The number of bytes in the region.
    fn capacity(&self) -> (capacity: usize)
        ensures
            capacity == self.bytes().len(),
    ;

    /// Whether the first `limit` bytes lie within the region.
    fn check_limit(&self, limit: usize) -> (r: Result<(), AgronaError>)
        ensures
            agrees(
                r,
                if limit <= self.bytes().len() {
                    Ok(())
                } else {
                    Err(out_of_bounds(self.bytes(), 0, limit))
                },
            ),
    {
        let capacity = self.capacity();
        if limit > capacity {
            return Err(AgronaError::IndexOutOfBounds { index: 0, length: limit, capacity });
        }
        Ok(())
    }

    /// Whether the `length` bytes at `index` lie within the region.
    fn bounds_check(&self, index: usize, length: usize) -> (r: Result<(), AgronaError>)
        ensures
            agrees(
                r,
                if fits(self.bytes(), index, length) {
                    Ok(())
                } else {
                    Err(out_of_bounds(self.bytes(), index, length))
                },
            ),
    {
        bounds_check(index, length, self.capacity())
    }

    /// Reads the byte at `index`.
    fn get_u8(&self, index: usize) -> (r: Result<u8, AgronaError>)
        ensures
            agrees(
                r,
                if fits(self.bytes(), index, 1) {
                    Ok(self.bytes()[index as int])
                } else {
                    Err(out_of_bounds(self.bytes(), index, 1))
                },
            ),
    ;

    /// Reads the byte at `index` as a signed number.
    fn get_i8(&self, index: usize) -> (r: Result<i8, AgronaError>)
        ensures
            agrees(
                r,
                if fits(self.bytes(), index, 1) {
                    Ok(self.bytes()[index as int] as i8)
                } else {
                    Err(out_of_bounds(self.bytes(), index, 1))
                },
            ),
    ;

    /// Reads the `u16` that lies at `index`, least significant byte first.
    fn get_u16(&self, index: usize) -> (r: Result<u16, AgronaError>)
        ensures
            match load(self.bytes(), index, 2, ByteOrder::LittleEndian) {
                Ok(v) => r == Ok::<u16, AgronaError>(v as u16),
                Err(f) => r is Err && r->Err_0@ == f,
            },
    {
        self.get_u16_with_order(index, ByteOrder::LittleEndian)
    }

    /// Reads the `u16` that lies at `index` in the given byte order.
    fn get_u16_with_order(&self, index: usize, byte_order: ByteOrder) -> (r: Result<u16, AgronaError>)
        ensures
            match load(self.bytes(), index, 2, byte_order) {
                Ok(v) => r == Ok::<u16, AgronaError>(v as u16),
                Err(f) => r is Err && r->Err_0@ == f,
            },
    ;

    /// Reads the `i16` that lies at `index`, least significant byte first.
    fn get_i16(&self, index: usize) -> (r: Result<i16, AgronaError>)
        ensures
            match load(self.bytes(), index, 2, ByteOrder::LittleEndian) {
                Ok(v) => r == Ok::<i16, AgronaError>(v as u16 as i16),
                Err(f) => r is Err && r->Err_0@ == f,
            },
    {
        self.get_i16_with_order(index, ByteOrder::LittleEndian)
    }

    /// Reads the `i16` that lies at `index` in the given byte order.
    fn get_i16_with_order(&self, index: usize, byte_order: ByteOrder) -> (r: Result<i16, AgronaError>)
        ensures
            match load(self.bytes(), index, 2, byte_order) {
                Ok(v) => r == Ok::<i16, AgronaError>(v as u16 as i16),
                Err(f) => r is Err && r->Err_0@ == f,
            },
    ;

    /// Reads the `u32` that lies at `index`, least significant byte first.
    fn get_u32(&self, index: usize) -> (r: Result<u32, AgronaError>)
        ensures
            match load(self.bytes(), index, 4, ByteOrder::LittleEndian) {
                Ok(v) => r == Ok::<u32, AgronaError>(v as u32),
                Err(f) => r is Err && r->Err_0@ == f,
            },
    {
        self.get_u32_with_order(index, ByteOrder::LittleEndian)
    }

    /// Reads the `u32` that lies at `index` in the given byte order.
    fn get_u32_with_order(&self, index: usize, byte_order: ByteOrder) -> (r: Result<u32, AgronaError>)
        ensures
            match load(self.bytes(), index, 4, byte_order) {
                Ok(v) => r == Ok::<u32, AgronaError>(v as u32),
                Err(f) => r is Err && r->Err_0@ == f,
            },
    ;

    /// Reads the `i32` that lies at `index`, least significant byte first.
    fn get_i32(&self, index: usize) -> (r: Result<i32, AgronaError>)
        ensures
            match load(self.bytes(), index, 4, ByteOrder::LittleEndian) {
                Ok(v) => r == Ok::<i32, AgronaError>(v as u32 as i32),
                Err(f) => r is Err && r->Err_0@ == f,
            },
    {
        self.get_i32_with_order(index, ByteOrder::LittleEndian)
    }

    /// Reads the `i32` that lies at `index` in the given byte order.
    fn get_i32_with_order(&self, index: usize, byte_order: ByteOrder) -> (r: Result<i32, AgronaError>)
        ensures
            match load(self.bytes(), index, 4, byte_order) {
                Ok(v) => r == Ok::<i32, AgronaError>(v as u32 as i32),
                Err(f) => r is Err && r->Err_0@ == f,
            },
    ;

    /// Reads the `u64` that lies at `index`, least significant byte first.
    fn get_u64(&self, index: usize) -> (r: Result<u64, AgronaError>)
        ensures
            match load(self.bytes(), index, 8, ByteOrder::LittleEndian) {
                Ok(v) => r == Ok::<u64, AgronaError>(v as u64),
                Err(f) => r is Err && r->Err_0@ == f,
            },
    {
        self.get_u64_with_order(index, ByteOrder::LittleEndian)
    }

    /// Reads the `u64` that lies at `index` in the given byte order.
    fn get_u64_with_order(&self, index: usize, byte_order: ByteOrder) -> (r: Result<u64, AgronaError>)
        ensures
            match load(self.bytes(), index, 8, byte_order) {
                Ok(v) => r == Ok::<u64, AgronaError>(v as u64),
                Err(f) => r is Err && r->Err_0@ == f,
            },
    ;

    /// Reads the `i64` that lies at `index`, least significant byte first.
    fn get_i64(&self, index: usize) -> (r: Result<i64, AgronaError>)
        ensures
            match load(self.bytes(), index, 8, ByteOrder::LittleEndian) {
                Ok(v) => r == Ok::<i64, AgronaError>(v as u64 as i64),
                Err(f) => r is Err && r->Err_0@ == f,
            },
    {
        self.get_i64_with_order(index, ByteOrder::LittleEndian)
    }

    /// Reads the `i64` that lies at `index` in the given byte order.
    fn get_i64_with_order(&self, index: usize, byte_order: ByteOrder) -> (r: Result<i64, AgronaError>)
        ensures
            match load(self.bytes(), index, 8, byte_order) {
                Ok(v) => r == Ok::<i64, AgronaError>(v as u64 as i64),
                Err(f) => r is Err && r->Err_0@ == f,
            },
    ;

    /// Copies the bytes from `index` on into all of `dst`.
    fn get_bytes(&self, index: usize, dst: &mut [u8]) -> (r: Result<(), AgronaError>)
        ensures
            final(dst)@.len() == old(dst)@.len(),
            fits(self.bytes(), index, old(dst)@.len() as usize) ==> r is Ok && final(dst)@ == window(
                self.bytes(),
                index,
                old(dst)@.len() as usize,
            ),
            !fits(self.bytes(), index, old(dst)@.len() as usize) ==> r is Err && r->Err_0@
                == out_of_bounds(self.bytes(), index, old(dst)@.len() as usize) && final(dst)@ == old(dst)@,
    ;

    /// Copies `length` bytes from `index` on into `dst` at `offset`.
    fn get_bytes_into(&self, index: usize, dst: &mut [u8], offset: usize, length: usize) -> (r:
        Result<(), AgronaError>)
        ensures
            final(dst)@.len() == old(dst)@.len(),
            !fits(old(dst)@, offset, length) ==> r is Err && r->Err_0@ == out_of_bounds(
                old(dst)@,
                offset,
                length,
            ) && final(dst)@ == old(dst)@,
            fits(old(dst)@, offset, length) && !fits(self.bytes(), index, length) ==> r is Err
                && r->Err_0@ == out_of_bounds(self.bytes(), index, length) && final(dst)@ == old(dst)@,
            fits(old(dst)@, offset, length) && fits(self.bytes(), index, length) ==> r is Ok
                && final(dst)@ == splice(old(dst)@, offset as int, window(self.bytes(), index, length)),
    {
        let size = dst.len();
        if length > size || offset > size - length {
            return Err(AgronaError::IndexOutOfBounds { index: offset, length, capacity: size });
        }
        let ghost before = dst@;
        let (_, tail) = dst.split_at_mut(offset);
        let (middle, _) = tail.split_at_mut(length);
        let r = self.get_bytes(index, middle);
        proof {
            if r is Ok {
                assert(dst@ =~= splice(before, offset as int, window(self.bytes(), index, length)));
            } else {
                assert(dst@ =~= before);
            }
        }
        r
    }

    /// Reads the `length` bytes at `index` as a natural number in decimal digits.
    fn parse_natural_i32_ascii(&self, index: usize, length: usize) -> (r: Result<i32, AgronaError>)
        ensures
            match load_natural(self.bytes(), index, length, i32::MAX as nat) {
                Ok(v) => r == Ok::<i32, AgronaError>(v as i32),
                Err(f) => r is Err && r->Err_0@ == f,
            },
    ;

    /// Reads the `length` bytes at `index` as a natural number in decimal digits.
    fn parse_natural_i64_ascii(&self, index: usize, length: usize) -> (r: Result<i64, AgronaError>)
        ensures
            match load_natural(self.bytes(), index, length, i64::MAX as nat) {
                Ok(v) => r == Ok::<i64, AgronaError>(v as i64),
                Err(f) => r is Err && r->Err_0@ == f,
            },
    ;

    /// Reads the `length` bytes at `index` as a decimal number that a `-` may precede.
    fn parse_i32_ascii(&self, index: usize, length: usize) -> (r: Result<i32, AgronaError>)
        ensures
            match load_signed(self.bytes(), index, length, i32::MAX as nat) {
                Ok(v) => r == Ok::<i32, AgronaError>(v as i32),
                Err(f) => r is Err && r->Err_0@ == f,
            },
    ;

    /// Reads the `length` bytes at `index` as a decimal number that a `-` may precede.
    fn parse_i64_ascii(&self, index: usize, length: usize) -> (r: Result<i64, AgronaError>)
        ensures
            match load_signed(self.bytes(), index, length, i64::MAX as nat) {
                Ok(v) => r == Ok::<i64, AgronaError>(v as i64),
                Err(f) => r is Err && r->Err_0@ == f,
            },
    ;

    /// Reads the ASCII text that stands at `index` behind its length.
    fn get_string_ascii(&self, index: usize) -> (r: Result<String, AgronaError>)
        ensures
            agrees_text(r, load_headed(self.bytes(), index, true)),
    {
        let _ = self.capacity();
        proof {
            lemma_value_bound(window(self.bytes(), index, 4));
            lemma_radix_values();
        }
        match self.get_u32(index) {
            Ok(length) => self.get_string_ascii_with_length(index + 4, length as usize),
            Err(e) => Err(e),
        }
    }

    /// Reads the `length` bytes at `index` as ASCII text.
    fn get_string_ascii_with_length(&self, index: usize, length: usize) -> (r: Result<
        String,
        AgronaError,
    >)
        ensures
            agrees_text(r, load_ascii(self.bytes(), index, length)),
    ;

    /// Reads the UTF-8 text that stands at `index` behind its length.
    fn get_string_utf8(&self, index: usize) -> (r: Result<String, AgronaError>)
        ensures
            agrees_text(r, load_headed(self.bytes(), index, false)),
    {
        let _ = self.capacity();
        proof {
            lemma_value_bound(window(self.bytes(), index, 4));
            lemma_radix_values();
        }
        match self.get_u32(index) {
            Ok(length) => self.get_string_utf8_with_length(index + 4, length as usize),
            Err(e) => Err(e),
        }
    }

    /// Reads the `length` bytes at `index` as UTF-8 text.
    fn get_string_utf8_with_length(&self, index: usize, length: usize) -> (r: Result<
        String,
        AgronaError,
    >)
        ensures
            agrees_text(r, load_utf8(self.bytes(), index, length)),
    ;
}

} // verus!
