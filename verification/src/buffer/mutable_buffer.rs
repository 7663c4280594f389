//! The accessors that write a buffer.

use vstd::prelude::*;
use vstd::string::StringSliceAdditionalSpecFns;
use crate::buffer::ascii::{all_ascii, decimal_digits, negative_message, signed_digits};
use crate::buffer::byte_order::{le_bytes, splice, ByteOrder};
use crate::buffer::byte_order_laws::lemma_bytes_len;
use crate::buffer::direct_buffer::DirectBuffer;
use crate::buffer::string_header;
use crate::buffer::model::{
    fits, out_of_bounds, store, store_ascii, store_headed, store_natural, store_padded, stored,
    window,
};
use crate::error::AgronaError;

verus! {

/// A region of bytes of fixed size that is read and written at byte offsets. No write
/// that fails changes the region, but for the one that says otherwise.
pub trait MutableBuffer: DirectBuffer {
    /// Whether the region can grow. It cannot.
    fn is_expandable(&self) -> (r: bool)
        ensures
            !r,
    {
        false
    }

    /// Sets the `length` bytes at `index` to `value`.
    fn set_memory(&mut self, index: usize, length: usize, value: u8) -> (r: Result<(), AgronaError>)
        ensures
            stored(
                old(self).bytes(),
                final(self).bytes(),
                r,
                store(old(self).bytes(), index, length, Seq::new(length as nat, |i: int| value)),
                (),
            ),
    ;

    /// Writes the byte `value` at `index`.
    fn put_u8(&mut self, index: usize, value: u8) -> (r: Result<(), AgronaError>)
        ensures
            stored(
                old(self).bytes(),
                final(self).bytes(),
                r,
                store(old(self).bytes(), index, 1, seq![value]),
                (),
            ),
    ;

    /// Writes the signed byte `value` at `index`.
    fn put_i8(&mut self, index: usize, value: i8) -> (r: Result<(), AgronaError>)
        ensures
            stored(
                old(self).bytes(),
                final(self).bytes(),
                r,
                store(old(self).bytes(), index, 1, seq![value as u8]),
                (),
            ),
    ;

    /// Writes `value` at `index`, least significant byte first.
    fn put_u16(&mut self, index: usize, value: u16) -> (r: Result<(), AgronaError>)
        ensures
            stored(
                old(self).bytes(),
                final(self).bytes(),
                r,
                store(old(self).bytes(), index, 2, le_bytes(value as nat, 2)),
                (),
            ),
    {
        self.put_u16_with_order(index, value, ByteOrder::LittleEndian)
    }

    /// Writes `value` at `index` in the given byte order.
    fn put_u16_with_order(&mut self, index: usize, value: u16, byte_order: ByteOrder) -> (r: Result<
        (),
        AgronaError,
    >)
        ensures
            stored(
                old(self).bytes(),
                final(self).bytes(),
                r,
                store(old(self).bytes(), index, 2, byte_order.bytes(value as nat, 2)),
                (),
            ),
    ;

    /// Writes `value` at `index`, least significant byte first.
    fn put_i16(&mut self, index: usize, value: i16) -> (r: Result<(), AgronaError>)
        ensures
            stored(
                old(self).bytes(),
                final(self).bytes(),
                r,
                store(old(self).bytes(), index, 2, le_bytes(value as u16 as nat, 2)),
                (),
            ),
    {
        self.put_i16_with_order(index, value, ByteOrder::LittleEndian)
    }

    /// Writes `value` at `index` in the given byte order.
    fn put_i16_with_order(&mut self, index: usize, value: i16, byte_order: ByteOrder) -> (r: Result<
        (),
        AgronaError,
    >)
        ensures
            stored(
                old(self).bytes(),
                final(self).bytes(),
                r,
                store(old(self).bytes(), index, 2, byte_order.bytes(value as u16 as nat, 2)),
                (),
            ),
    ;

    /// Writes `value` at `index`, least significant byte first.
    fn put_u32(&mut self, index: usize, value: u32) -> (r: Result<(), AgronaError>)
        ensures
            stored(
                old(self).bytes(),
                final(self).bytes(),
                r,
                store(old(self).bytes(), index, 4, le_bytes(value as nat, 4)),
                (),
            ),
    {
        self.put_u32_with_order(index, value, ByteOrder::LittleEndian)
    }

    /// Writes `value` at `index` in the given byte order.
    fn put_u32_with_order(&mut self, index: usize, value: u32, byte_order: ByteOrder) -> (r: Result<
        (),
        AgronaError,
    >)
        ensures
            stored(
                old(self).bytes(),
                final(self).bytes(),
                r,
                store(old(self).bytes(), index, 4, byte_order.bytes(value as nat, 4)),
                (),
            ),
    ;

    /// Writes `value` at `index`, least significant byte first.
    fn put_i32(&mut self, index: usize, value: i32) -> (r: Result<(), AgronaError>)
        ensures
            stored(
                old(self).bytes(),
                final(self).bytes(),
                r,
                store(old(self).bytes(), index, 4, le_bytes(value as u32 as nat, 4)),
                (),
            ),
    {
        self.put_i32_with_order(index, value, ByteOrder::LittleEndian)
    }

    /// Writes `value` at `index` in the given byte order.
    fn put_i32_with_order(&mut self, index: usize, value: i32, byte_order: ByteOrder) -> (r: Result<
        (),
        AgronaError,
    >)
        ensures
            stored(
                old(self).bytes(),
                final(self).bytes(),
                r,
                store(old(self).bytes(), index, 4, byte_order.bytes(value as u32 as nat, 4)),
                (),
            ),
    ;

    /// Writes `value` at `index`, least significant byte first.
    fn put_u64(&mut self, index: usize, value: u64) -> (r: Result<(), AgronaError>)
        ensures
            stored(
                old(self).bytes(),
                final(self).bytes(),
                r,
                store(old(self).bytes(), index, 8, le_bytes(value as nat, 8)),
                (),
            ),
    {
        self.put_u64_with_order(index, value, ByteOrder::LittleEndian)
    }

    /// Writes `value` at `index` in the given byte order.
    fn put_u64_with_order(&mut self, index: usize, value: u64, byte_order: ByteOrder) -> (r: Result<
        (),
        AgronaError,
    >)
        ensures
            stored(
                old(self).bytes(),
                final(self).bytes(),
                r,
                store(old(self).bytes(), index, 8, byte_order.bytes(value as nat, 8)),
                (),
            ),
    ;

    /// Writes `value` at `index`, least significant byte first.
    fn put_i64(&mut self, index: usize, value: i64) -> (r: Result<(), AgronaError>)
        ensures
            stored(
                old(self).bytes(),
                final(self).bytes(),
                r,
                store(old(self).bytes(), index, 8, le_bytes(value as u64 as nat, 8)),
                (),
            ),
    {
        self.put_i64_with_order(index, value, ByteOrder::LittleEndian)
    }

    /// Writes `value` at `index` in the given byte order.
    fn put_i64_with_order(&mut self, index: usize, value: i64, byte_order: ByteOrder) -> (r: Result<
        (),
        AgronaError,
    >)
        ensures
            stored(
                old(self).bytes(),
                final(self).bytes(),
                r,
                store(old(self).bytes(), index, 8, byte_order.bytes(value as u64 as nat, 8)),
                (),
            ),
    ;

    /// Copies all of `src` into the region from `index` on.
    fn put_bytes(&mut self, index: usize, src: &[u8]) -> (r: Result<(), AgronaError>)
        ensures
            stored(
                old(self).bytes(),
                final(self).bytes(),
                r,
                store(old(self).bytes(), index, src@.len() as usize, src@),
                (),
            ),
    ;

    /// Copies the `length` bytes of `src` at `offset` into the region from `index` on.
    fn put_bytes_from(&mut self, index: usize, src: &[u8], offset: usize, length: usize) -> (r:
        Result<(), AgronaError>)
        ensures
            stored(
                old(self).bytes(),
                final(self).bytes(),
                r,
                if fits(src@, offset, length) {
                    store(old(self).bytes(), index, length, window(src@, offset, length))
                } else {
                    Err(out_of_bounds(src@, offset, length))
                },
                (),
            ),
    {
        let size = src.len();
        if length > size || offset > size - length {
            return Err(AgronaError::IndexOutOfBounds { index: offset, length, capacity: size });
        }
        let (_, tail) = src.split_at(offset);
        let (middle, _) = tail.split_at(length);
        assert(middle@ =~= window(src@, offset, length));
        self.put_bytes(index, middle)
    }

    /// Writes the shortest decimal text of `value` at `index`, with a `-` before a
    /// negative one, and returns its length.
    fn put_i32_ascii(&mut self, index: usize, value: i32) -> (r: Result<usize, AgronaError>)
        ensures
            stored(
                old(self).bytes(),
                final(self).bytes(),
                r,
                store(
                    old(self).bytes(),
                    index,
                    signed_digits(value as int).len() as usize,
                    signed_digits(value as int),
                ),
                signed_digits(value as int).len() as usize,
            ),
    ;

    /// Writes the shortest decimal text of `value` at `index` and returns its length.
    /// A negative `value` is refused.
    fn put_natural_i32_ascii(&mut self, index: usize, value: i32) -> (r: Result<usize, AgronaError>)
        ensures
            stored(
                old(self).bytes(),
                final(self).bytes(),
                r,
                store_natural(old(self).bytes(), index, value as int),
                decimal_digits(value as nat).len() as usize,
            ),
    ;

    /// Writes the decimal text of `value` into exactly `length` bytes at `index`,
    /// filled up with `0` on the left. A negative `value` is refused, and so is one
    /// with more digits than `length`.
    fn put_natural_padded_i32_ascii(&mut self, index: usize, length: usize, value: i32) -> (r:
        Result<(), AgronaError>)
        ensures
            stored(
                old(self).bytes(),
                final(self).bytes(),
                r,
                store_padded(old(self).bytes(), index, length, value as int),
                (),
            ),
    ;

    /// Writes the decimal text of `value` from right to left so that it ends just
    /// before `end_exclusive`, and returns where it starts. A negative `value` is
    /// refused, and so is an end beyond the region, both with nothing written. Where
    /// the text has more digits than there are bytes before `end_exclusive`, the call
    /// fails after it has written the digits that fit, the last ones, over all of
    /// those bytes.
    fn put_natural_i32_ascii_from_end(&mut self, value: i32, end_exclusive: usize) -> (r: Result<
        usize,
        AgronaError,
    >)
        ensures
            value < 0 ==> r is Err && r->Err_0@ == negative_message() && final(self).bytes()
                == old(self).bytes(),
            value >= 0 && end_exclusive > old(self).bytes().len() ==> r is Err && r->Err_0@
                == out_of_bounds(old(self).bytes(), (end_exclusive - 1) as usize, 1) && final(self).bytes() == old(self).bytes(),
            value >= 0 && decimal_digits(value as nat).len() <= end_exclusive <= old(self).bytes().len() ==> r == Ok::<usize, AgronaError>(
                (end_exclusive - decimal_digits(value as nat).len()) as usize,
            ) && final(self).bytes() == splice(
                old(self).bytes(),
                end_exclusive - decimal_digits(value as nat).len(),
                decimal_digits(value as nat),
            ),
            value >= 0 && end_exclusive <= old(self).bytes().len() && end_exclusive
                < decimal_digits(value as nat).len() ==> r is Err && r->Err_0@ == out_of_bounds(
                old(self).bytes(),
                0,
                1,
            ) && final(self).bytes() == splice(
                old(self).bytes(),
                0,
                decimal_digits(value as nat).subrange(
                    decimal_digits(value as nat).len() - end_exclusive,
                    decimal_digits(value as nat).len() as int,
                ),
            ),
    ;

    /// Writes the shortest decimal text of `value` at `index` and returns its length.
    /// A negative `value` is refused.
    fn put_natural_i64_ascii(&mut self, index: usize, value: i64) -> (r: Result<usize, AgronaError>)
        ensures
            stored(
                old(self).bytes(),
                final(self).bytes(),
                r,
                store_natural(old(self).bytes(), index, value as int),
                decimal_digits(value as nat).len() as usize,
            ),
    ;

    /// Writes the shortest decimal text of `value` at `index`, with a `-` before a
    /// negative one, and returns its length.
    fn put_i64_ascii(&mut self, index: usize, value: i64) -> (r: Result<usize, AgronaError>)
        ensures
            stored(
                old(self).bytes(),
                final(self).bytes(),
                r,
                store(
                    old(self).bytes(),
                    index,
                    signed_digits(value as int).len() as usize,
                    signed_digits(value as int),
                ),
                signed_digits(value as int).len() as usize,
            ),
    ;

    /// Writes the length of `value` as a little-endian `u32` at `index` and its bytes
    /// behind it, and returns how many bytes that took. Text that is not ASCII is
    /// refused, and so is text whose length does not fit the four bytes.
    fn put_string_ascii(&mut self, index: usize, value: &str) -> (r: Result<usize, AgronaError>)
        ensures
            stored(
                old(self).bytes(),
                final(self).bytes(),
                r,
                store_headed(old(self).bytes(), index, value.spec_bytes(), true),
                (4 + value.spec_bytes().len()) as usize,
            ),
    {
        let bytes = value.as_bytes();
        let length = bytes.len();
        let header = string_header(length)?;
        let capacity = self.capacity();
        if 4 > capacity || index > capacity - 4 {
            return Err(AgronaError::IndexOutOfBounds { index, length: 4, capacity });
        }
        if !all_ascii(bytes) {
            return Err(AgronaError::format("Non-ASCII character found"));
        }
        if length > capacity - 4 - index {
            return Err(AgronaError::IndexOutOfBounds { index: index + 4, length, capacity });
        }
        proof {
            lemma_bytes_len(length as nat, 4);
        }
        match self.put_u32(index, header) {
            Ok(()) => {},
            Err(e) => {
                return Err(e);
            },
        }
        match self.put_bytes(index + 4, bytes) {
            Ok(()) => {},
            Err(e) => {
                return Err(e);
            },
        }
        assert(self.bytes() =~= splice(
            old(self).bytes(),
            index as int,
            le_bytes(length as nat, 4) + bytes@,
        ));
        Ok(4 + length)
    }

    /// Writes the bytes of `value` at `index` and returns how many they are. Text
    /// that is not ASCII is refused.
    fn put_string_ascii_without_length(&mut self, index: usize, value: &str) -> (r: Result<
        usize,
        AgronaError,
    >)
        ensures
            stored(
                old(self).bytes(),
                final(self).bytes(),
                r,
                store_ascii(old(self).bytes(), index, value.spec_bytes()),
                value.spec_bytes().len() as usize,
            ),
    {
        let length = value.as_bytes().len();
        assert(window(value.spec_bytes(), 0, length) =~= value.spec_bytes());
        self.put_string_ascii_without_length_range(index, value, 0, length)
    }

    /// Writes the `length` bytes of `value` from `value_offset` on at `index` and
    /// returns `length`. Bytes that are not ASCII are refused.
    fn put_string_ascii_without_length_range(
        &mut self,
        index: usize,
        value: &str,
        value_offset: usize,
        length: usize,
    ) -> (r: Result<usize, AgronaError>)
        ensures
            stored(
                old(self).bytes(),
                final(self).bytes(),
                r,
                if fits(value.spec_bytes(), value_offset, length) {
                    store_ascii(
                        old(self).bytes(),
                        index,
                        window(value.spec_bytes(), value_offset, length),
                    )
                } else {
                    Err(out_of_bounds(value.spec_bytes(), value_offset, length))
                },
                length,
            ),
    ;

    /// Writes the length of `value` in bytes as a little-endian `u32` at `index` and
    /// its UTF-8 bytes behind it, and returns how many bytes that took. Text whose
    /// length does not fit the four bytes is refused.
    fn put_string_utf8(&mut self, index: usize, value: &str) -> (r: Result<usize, AgronaError>)
        ensures
            stored(
                old(self).bytes(),
                final(self).bytes(),
                r,
                store_headed(old(self).bytes(), index, value.spec_bytes(), false),
                (4 + value.spec_bytes().len()) as usize,
            ),
    {
        let bytes = value.as_bytes();
        let length = bytes.len();
        let header = string_header(length)?;
        let capacity = self.capacity();
        if 4 > capacity || index > capacity - 4 {
            return Err(AgronaError::IndexOutOfBounds { index, length: 4, capacity });
        }
        if length > capacity - 4 - index {
            return Err(AgronaError::IndexOutOfBounds { index: index + 4, length, capacity });
        }
        proof {
            lemma_bytes_len(length as nat, 4);
        }
        match self.put_u32(index, header) {
            Ok(()) => {},
            Err(e) => {
                return Err(e);
            },
        }
        match self.put_bytes(index + 4, bytes) {
            Ok(()) => {},
            Err(e) => {
                return Err(e);
            },
        }
        assert(self.bytes() =~= splice(
            old(self).bytes(),
            index as int,
            le_bytes(length as nat, 4) + bytes@,
        ));
        Ok(4 + length)
    }

    /// Writes the UTF-8 bytes of `value` at `index` and returns how many they are.
    fn put_string_utf8_without_length(&mut self, index: usize, value: &str) -> (r: Result<
        usize,
        AgronaError,
    >)
        ensures
            stored(
                old(self).bytes(),
                final(self).bytes(),
                r,
                store(
                    old(self).bytes(),
                    index,
                    value.spec_bytes().len() as usize,
                    value.spec_bytes(),
                ),
                value.spec_bytes().len() as usize,
            ),
    {
        let bytes = value.as_bytes();
        match self.put_bytes(index, bytes) {
            Ok(()) => Ok(bytes.len()),
            Err(e) => Err(e),
        }
    }
}

} // verus!
