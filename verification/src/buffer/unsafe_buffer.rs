//! The buffer over memory of its own or over a slice that it was lent.

use vstd::prelude::*;
use vstd::utf8::{decode_utf8, valid_utf8};
use vstd::string::StringSliceAdditionalSpecFns;
use crate::buffer::ascii::{
    all_ascii, ascii_chars, copy_in, digit_count, fill, is_ascii_bytes, lemma_magnitude_bound,
    padded_digits, parse_magnitude, signed_digits, write_decimal, write_low_digits,
};
use crate::buffer::byte_order::{
    read_i16_be, read_i16_le, read_i32_be, read_i32_le, read_i64_be, read_i64_le, read_u16_be,
    read_u16_le, read_u32_be, read_u32_le, read_u64_be, read_u64_le, splice, write_i16_be,
    write_i16_le, write_i32_be, write_i32_le, write_i64_be, write_i64_le, write_u16_be,
    write_u16_le, write_u32_be, write_u32_le, write_u64_be, write_u64_le, ByteOrder,
};
use crate::buffer::byte_order_laws::{lemma_bytes_len, lemma_radix_values, lemma_value_bound};
use crate::buffer::bounds_check;
use crate::buffer::direct_buffer::DirectBuffer;
use crate::buffer::mutable_buffer::MutableBuffer;
use crate::buffer::model::window;
use crate::error::{AgronaError, Failure};
use crate::hashing::{fold_chunks, FastHasher};

verus! {

/// Where the bytes of a buffer live: in memory of its own, or in a slice that it was
/// lent for as long as it exists.
enum Region<'a> {
    Owned(Vec<u8>),
    Borrowed(&'a mut [u8]),
}

/// A region of bytes with typed reads and writes at byte offsets.
pub struct UnsafeBuffer<'a> {
    region: Region<'a>,
}

/// `String::from_utf8_lossy`: the text that `bytes` encode. Of bytes that are all
/// ASCII that is one character for each byte; of other input nothing is claimed.
#[verifier::external_body]
fn string_from_ascii(bytes: &[u8]) -> (text: String)
    ensures
        is_ascii_bytes(bytes@) ==> text@ == ascii_chars(bytes@),
{
    String::from_utf8_lossy(bytes).into_owned()
}

/// `core::str::from_utf8`: the text that `bytes` encode, where they are valid UTF-8,
/// and an error where they are not.
#[verifier::external_body]
fn str_from_utf8(bytes: &[u8]) -> (r: Result<&str, core::str::Utf8Error>)
    ensures
        r is Ok <==> valid_utf8(bytes@),
        r is Ok ==> r->Ok_0@ == decode_utf8(bytes@),
{
    core::str::from_utf8(bytes)
}

impl<'a> UnsafeBuffer<'a> {
    /// A buffer of `capacity` zero bytes in memory of its own. It fails where
    /// `capacity` is zero or the memory cannot be had.
    pub fn new(capacity: usize) -> (r: Result<UnsafeBuffer<'a>, AgronaError>)
        ensures
            r is Err ==> r->Err_0@ == (Failure::InvalidCapacity { capacity }),
            capacity == 0 ==> r is Err,
            r is Ok ==> r->Ok_0.bytes() == Seq::new(capacity as nat, |i: int| 0u8),
    {
        if capacity == 0 {
            return Err(AgronaError::InvalidCapacity { capacity });
        }
        let mut data: Vec<u8> = Vec::new();
        if data.try_reserve(capacity).is_err() {
            return Err(AgronaError::InvalidCapacity { capacity });
        }
        data.resize(capacity, 0u8);
        assert(data@ =~= Seq::new(capacity as nat, |i: int| 0u8));
        Ok(UnsafeBuffer { region: Region::Owned(data) })
    }

    /// A buffer over the bytes of `slice`, which it reads and writes in place.
    pub fn wrap_slice(slice: &'a mut [u8]) -> (buffer: UnsafeBuffer<'a>)
        ensures
            buffer.bytes() == old(slice)@,
    {
        UnsafeBuffer { region: Region::Borrowed(slice) }
    }

    /// The bytes of the region.
    pub fn as_slice(&self) -> (slice: &[u8])
        ensures
            slice@ == self.bytes(),
    {
        match &self.region {
            Region::Owned(data) => data.as_slice(),
            Region::Borrowed(slice) => &**slice,
        }
    }

    /// The hash of the bytes of the buffer: what a fresh hasher holds after it has
    /// taken them all in.
    pub fn hash_code(&self) -> (hash: u64)
        ensures
            hash == fold_chunks(0, self.bytes()),
    {
        let mut hasher = FastHasher::new();
        hasher.write(self.as_slice());
        hasher.finish()
    }

    /// The bytes of the region, to be changed in place.
    pub fn as_mut_slice(&mut self) -> (slice: &mut [u8])
        ensures
            slice@ == old(self).bytes(),
            final(self).bytes() == final(slice)@,
    {
        match &mut self.region {
            Region::Owned(data) => data.as_mut_slice(),
            Region::Borrowed(slice) => &mut **slice,
        }
    }
}

impl<'a> DirectBuffer for UnsafeBuffer<'a> {
    closed spec fn bytes(&self) -> Seq<u8> {
        match self.region {
            Region::Owned(data) => data@,
            Region::Borrowed(slice) => slice@,
        }
    }

    fn capacity(&self) -> (capacity: usize) {
        self.as_slice().len()
    }

    fn get_u8(&self, index: usize) -> (r: Result<u8, AgronaError>) {
        bounds_check(index, 1, self.capacity())?;
        Ok(self.as_slice()[index])
    }

    fn get_i8(&self, index: usize) -> (r: Result<i8, AgronaError>) {
        bounds_check(index, 1, self.capacity())?;
        Ok(self.as_slice()[index] as i8)
    }

    fn get_u16_with_order(&self, index: usize, byte_order: ByteOrder) -> (r: Result<u16, AgronaError>) {
        bounds_check(index, 2, self.capacity())?;
        let (_, tail) = self.as_slice().split_at(index);
        proof {
            assert(tail@.subrange(0, 2) =~= window(self.bytes(), index, 2));
            lemma_value_bound(window(self.bytes(), index, 2));
            lemma_radix_values();
        }
        Ok(
            match byte_order {
                ByteOrder::BigEndian => read_u16_be(tail),
                ByteOrder::LittleEndian => read_u16_le(tail),
            },
        )
    }

    fn get_i16_with_order(&self, index: usize, byte_order: ByteOrder) -> (r: Result<i16, AgronaError>) {
        bounds_check(index, 2, self.capacity())?;
        let (_, tail) = self.as_slice().split_at(index);
        proof {
            assert(tail@.subrange(0, 2) =~= window(self.bytes(), index, 2));
            lemma_value_bound(window(self.bytes(), index, 2));
            lemma_radix_values();
        }
        Ok(
            match byte_order {
                ByteOrder::BigEndian => read_i16_be(tail),
                ByteOrder::LittleEndian => read_i16_le(tail),
            },
        )
    }

    fn get_u32_with_order(&self, index: usize, byte_order: ByteOrder) -> (r: Result<u32, AgronaError>) {
        bounds_check(index, 4, self.capacity())?;
        let (_, tail) = self.as_slice().split_at(index);
        proof {
            assert(tail@.subrange(0, 4) =~= window(self.bytes(), index, 4));
            lemma_value_bound(window(self.bytes(), index, 4));
            lemma_radix_values();
        }
        Ok(
            match byte_order {
                ByteOrder::BigEndian => read_u32_be(tail),
                ByteOrder::LittleEndian => read_u32_le(tail),
            },
        )
    }

    fn get_i32_with_order(&self, index: usize, byte_order: ByteOrder) -> (r: Result<i32, AgronaError>) {
        bounds_check(index, 4, self.capacity())?;
        let (_, tail) = self.as_slice().split_at(index);
        proof {
            assert(tail@.subrange(0, 4) =~= window(self.bytes(), index, 4));
            lemma_value_bound(window(self.bytes(), index, 4));
            lemma_radix_values();
        }
        Ok(
            match byte_order {
                ByteOrder::BigEndian => read_i32_be(tail),
                ByteOrder::LittleEndian => read_i32_le(tail),
            },
        )
    }

    fn get_u64_with_order(&self, index: usize, byte_order: ByteOrder) -> (r: Result<u64, AgronaError>) {
        bounds_check(index, 8, self.capacity())?;
        let (_, tail) = self.as_slice().split_at(index);
        proof {
            assert(tail@.subrange(0, 8) =~= window(self.bytes(), index, 8));
            lemma_value_bound(window(self.bytes(), index, 8));
            lemma_radix_values();
        }
        Ok(
            match byte_order {
                ByteOrder::BigEndian => read_u64_be(tail),
                ByteOrder::LittleEndian => read_u64_le(tail),
            },
        )
    }

    fn get_i64_with_order(&self, index: usize, byte_order: ByteOrder) -> (r: Result<i64, AgronaError>) {
        bounds_check(index, 8, self.capacity())?;
        let (_, tail) = self.as_slice().split_at(index);
        proof {
            assert(tail@.subrange(0, 8) =~= window(self.bytes(), index, 8));
            lemma_value_bound(window(self.bytes(), index, 8));
            lemma_radix_values();
        }
        Ok(
            match byte_order {
                ByteOrder::BigEndian => read_i64_be(tail),
                ByteOrder::LittleEndian => read_i64_le(tail),
            },
        )
    }

    fn get_bytes(&self, index: usize, dst: &mut [u8]) -> (r: Result<(), AgronaError>) {
        let capacity = self.capacity();
        let length = dst.len();
        if length > capacity || index > capacity - length {
            return Err(AgronaError::IndexOutOfBounds { index, length, capacity });
        }
        let src = self.as_slice();
        let mut i: usize = 0;
        while i < length
            invariant
                0 <= i <= length,
                length == dst@.len(),
                src@ == self.bytes(),
                capacity == src@.len(),
                index + length <= capacity,
                forall|j: int| 0 <= j < i ==> dst@[j] == src@[index + j],
            decreases length - i,
        {
            dst[i] = src[index + i];
            i += 1;
        }
        assert(dst@ =~= window(self.bytes(), index, length));
        Ok(())
    }

    fn parse_natural_i32_ascii(&self, index: usize, length: usize) -> (r: Result<i32, AgronaError>) {
        bounds_check(index, length, self.capacity())?;
        if length == 0 {
            return Err(AgronaError::format("Empty string"));
        }
        let (_, tail) = self.as_slice().split_at(index);
        let (text, _) = tail.split_at(length);
        assert(text@ =~= window(self.bytes(), index, length));
        proof {
            lemma_magnitude_bound(text@, i32::MAX as nat);
        }
        match parse_magnitude(text, i32::MAX as u64) {
            Ok(v) => Ok(v as i32),
            Err(e) => Err(e),
        }
    }

    fn parse_natural_i64_ascii(&self, index: usize, length: usize) -> (r: Result<i64, AgronaError>) {
        bounds_check(index, length, self.capacity())?;
        if length == 0 {
            return Err(AgronaError::format("Empty string"));
        }
        let (_, tail) = self.as_slice().split_at(index);
        let (text, _) = tail.split_at(length);
        assert(text@ =~= window(self.bytes(), index, length));
        proof {
            lemma_magnitude_bound(text@, i64::MAX as nat);
        }
        match parse_magnitude(text, i64::MAX as u64) {
            Ok(v) => Ok(v as i64),
            Err(e) => Err(e),
        }
    }

    fn parse_i32_ascii(&self, index: usize, length: usize) -> (r: Result<i32, AgronaError>) {
        bounds_check(index, length, self.capacity())?;
        if length == 0 {
            return Err(AgronaError::format("Empty string"));
        }
        let (_, tail) = self.as_slice().split_at(index);
        let (text, _) = tail.split_at(length);
        assert(text@ =~= window(self.bytes(), index, length));
        if text[0] == 45 {
            if length == 1 {
                return Err(AgronaError::format("No digits found"));
            }
            let (_, digits) = text.split_at(1);
            assert(digits@ =~= text@.skip(1));
            proof {
                lemma_magnitude_bound(digits@, 0x8000_0000);
            }
            match parse_magnitude(digits, 0x8000_0000) {
                Ok(m) => Ok((-(m as i64)) as i32),
                Err(e) => Err(e),
            }
        } else {
            proof {
                lemma_magnitude_bound(text@, i32::MAX as nat);
            }
            match parse_magnitude(text, i32::MAX as u64) {
                Ok(m) => Ok(m as i32),
                Err(e) => Err(e),
            }
        }
    }

    fn parse_i64_ascii(&self, index: usize, length: usize) -> (r: Result<i64, AgronaError>) {
        bounds_check(index, length, self.capacity())?;
        if length == 0 {
            return Err(AgronaError::format("Empty string"));
        }
        let (_, tail) = self.as_slice().split_at(index);
        let (text, _) = tail.split_at(length);
        assert(text@ =~= window(self.bytes(), index, length));
        if text[0] == 45 {
            if length == 1 {
                return Err(AgronaError::format("No digits found"));
            }
            let (_, digits) = text.split_at(1);
            assert(digits@ =~= text@.skip(1));
            proof {
                lemma_magnitude_bound(digits@, 0x8000_0000_0000_0000);
            }
            match parse_magnitude(digits, 0x8000_0000_0000_0000) {
                Ok(m) => Ok(
                    if m == 0x8000_0000_0000_0000 {
                        i64::MIN
                    } else {
                        -(m as i64)
                    },
                ),
                Err(e) => Err(e),
            }
        } else {
            proof {
                lemma_magnitude_bound(text@, i64::MAX as nat);
            }
            match parse_magnitude(text, i64::MAX as u64) {
                Ok(m) => Ok(m as i64),
                Err(e) => Err(e),
            }
        }
    }

    fn get_string_ascii_with_length(&self, index: usize, length: usize) -> (r: Result<
        String,
        AgronaError,
    >) {
        bounds_check(index, length, self.capacity())?;
        let (_, tail) = self.as_slice().split_at(index);
        let (text, _) = tail.split_at(length);
        assert(text@ =~= window(self.bytes(), index, length));
        if !all_ascii(text) {
            return Err(AgronaError::format("Non-ASCII character found"));
        }
        Ok(string_from_ascii(text))
    }

    fn get_string_utf8_with_length(&self, index: usize, length: usize) -> (r: Result<
        String,
        AgronaError,
    >) {
        bounds_check(index, length, self.capacity())?;
        let (_, tail) = self.as_slice().split_at(index);
        let (text, _) = tail.split_at(length);
        assert(text@ =~= window(self.bytes(), index, length));
        match str_from_utf8(text) {
            Ok(s) => Ok(s.to_owned()),
            Err(e) => Err(AgronaError::Utf8Error(e)),
        }
    }
}

impl<'a> MutableBuffer for UnsafeBuffer<'a> {
    fn set_memory(&mut self, index: usize, length: usize, value: u8) -> (r: Result<(), AgronaError>) {
        bounds_check(index, length, self.capacity())?;
        fill(self.as_mut_slice(), index, index + length, value);
        Ok(())
    }

    fn put_u8(&mut self, index: usize, value: u8) -> (r: Result<(), AgronaError>) {
        bounds_check(index, 1, self.capacity())?;
        let region = self.as_mut_slice();
        region[index] = value;
        assert(self.bytes() =~= splice(old(self).bytes(), index as int, seq![value]));
        Ok(())
    }

    fn put_i8(&mut self, index: usize, value: i8) -> (r: Result<(), AgronaError>) {
        bounds_check(index, 1, self.capacity())?;
        let region = self.as_mut_slice();
        region[index] = value as u8;
        assert(self.bytes() =~= splice(old(self).bytes(), index as int, seq![value as u8]));
        Ok(())
    }

    fn put_u16_with_order(&mut self, index: usize, value: u16, byte_order: ByteOrder) -> (r: Result<
        (),
        AgronaError,
    >) {
        bounds_check(index, 2, self.capacity())?;
        let (_, tail) = self.as_mut_slice().split_at_mut(index);
        match byte_order {
            ByteOrder::BigEndian => write_u16_be(tail, value),
            ByteOrder::LittleEndian => write_u16_le(tail, value),
        }
        proof {
            lemma_bytes_len(value as nat, 2);
            assert(self.bytes() =~= splice(
                old(self).bytes(),
                index as int,
                byte_order.bytes(value as nat, 2),
            ));
        }
        Ok(())
    }

    fn put_i16_with_order(&mut self, index: usize, value: i16, byte_order: ByteOrder) -> (r: Result<
        (),
        AgronaError,
    >) {
        bounds_check(index, 2, self.capacity())?;
        let (_, tail) = self.as_mut_slice().split_at_mut(index);
        match byte_order {
            ByteOrder::BigEndian => write_i16_be(tail, value),
            ByteOrder::LittleEndian => write_i16_le(tail, value),
        }
        proof {
            lemma_bytes_len(value as u16 as nat, 2);
            assert(self.bytes() =~= splice(
                old(self).bytes(),
                index as int,
                byte_order.bytes(value as u16 as nat, 2),
            ));
        }
        Ok(())
    }

    fn put_u32_with_order(&mut self, index: usize, value: u32, byte_order: ByteOrder) -> (r: Result<
        (),
        AgronaError,
    >) {
        bounds_check(index, 4, self.capacity())?;
        let (_, tail) = self.as_mut_slice().split_at_mut(index);
        match byte_order {
            ByteOrder::BigEndian => write_u32_be(tail, value),
            ByteOrder::LittleEndian => write_u32_le(tail, value),
        }
        proof {
            lemma_bytes_len(value as nat, 4);
            assert(self.bytes() =~= splice(
                old(self).bytes(),
                index as int,
                byte_order.bytes(value as nat, 4),
            ));
        }
        Ok(())
    }

    fn put_i32_with_order(&mut self, index: usize, value: i32, byte_order: ByteOrder) -> (r: Result<
        (),
        AgronaError,
    >) {
        bounds_check(index, 4, self.capacity())?;
        let (_, tail) = self.as_mut_slice().split_at_mut(index);
        match byte_order {
            ByteOrder::BigEndian => write_i32_be(tail, value),
            ByteOrder::LittleEndian => write_i32_le(tail, value),
        }
        proof {
            lemma_bytes_len(value as u32 as nat, 4);
            assert(self.bytes() =~= splice(
                old(self).bytes(),
                index as int,
                byte_order.bytes(value as u32 as nat, 4),
            ));
        }
        Ok(())
    }

    fn put_u64_with_order(&mut self, index: usize, value: u64, byte_order: ByteOrder) -> (r: Result<
        (),
        AgronaError,
    >) {
        bounds_check(index, 8, self.capacity())?;
        let (_, tail) = self.as_mut_slice().split_at_mut(index);
        match byte_order {
            ByteOrder::BigEndian => write_u64_be(tail, value),
            ByteOrder::LittleEndian => write_u64_le(tail, value),
        }
        proof {
            lemma_bytes_len(value as nat, 8);
            assert(self.bytes() =~= splice(
                old(self).bytes(),
                index as int,
                byte_order.bytes(value as nat, 8),
            ));
        }
        Ok(())
    }

    fn put_i64_with_order(&mut self, index: usize, value: i64, byte_order: ByteOrder) -> (r: Result<
        (),
        AgronaError,
    >) {
        bounds_check(index, 8, self.capacity())?;
        let (_, tail) = self.as_mut_slice().split_at_mut(index);
        match byte_order {
            ByteOrder::BigEndian => write_i64_be(tail, value),
            ByteOrder::LittleEndian => write_i64_le(tail, value),
        }
        proof {
            lemma_bytes_len(value as u64 as nat, 8);
            assert(self.bytes() =~= splice(
                old(self).bytes(),
                index as int,
                byte_order.bytes(value as u64 as nat, 8),
            ));
        }
        Ok(())
    }

    fn put_bytes(&mut self, index: usize, src: &[u8]) -> (r: Result<(), AgronaError>) {
        let capacity = self.capacity();
        let length = src.len();
        if length > capacity || index > capacity - length {
            return Err(AgronaError::IndexOutOfBounds { index, length, capacity });
        }
        copy_in(self.as_mut_slice(), index, src);
        Ok(())
    }

    fn put_i32_ascii(&mut self, index: usize, value: i32) -> (r: Result<usize, AgronaError>) {
        let magnitude: u64 = if value < 0 {
            (-(value as i64)) as u64
        } else {
            value as u64
        };
        let sign: usize = if value < 0 {
            1
        } else {
            0
        };
        let length = digit_count(magnitude) + sign;
        bounds_check(index, length, self.capacity())?;
        let region = self.as_mut_slice();
        let _ = write_decimal(region, index + length, magnitude);
        if value < 0 {
            region[index] = 45;
        }
        assert(self.bytes() =~= splice(old(self).bytes(), index as int, signed_digits(value as int)));
        Ok(length)
    }

    fn put_natural_i32_ascii(&mut self, index: usize, value: i32) -> (r: Result<usize, AgronaError>) {
        if value < 0 {
            return Err(AgronaError::format("Negative value for natural number"));
        }
        let length = digit_count(value as u64);
        bounds_check(index, length, self.capacity())?;
        let region = self.as_mut_slice();
        let _ = write_decimal(region, index + length, value as u64);
        Ok(length)
    }

    fn put_i64_ascii(&mut self, index: usize, value: i64) -> (r: Result<usize, AgronaError>) {
        let magnitude: u64 = if value == i64::MIN {
            0x8000_0000_0000_0000
        } else if value < 0 {
            (-value) as u64
        } else {
            value as u64
        };
        let sign: usize = if value < 0 {
            1
        } else {
            0
        };
        let length = digit_count(magnitude) + sign;
        bounds_check(index, length, self.capacity())?;
        let region = self.as_mut_slice();
        let _ = write_decimal(region, index + length, magnitude);
        if value < 0 {
            region[index] = 45;
        }
        assert(self.bytes() =~= splice(old(self).bytes(), index as int, signed_digits(value as int)));
        Ok(length)
    }

    fn put_natural_i64_ascii(&mut self, index: usize, value: i64) -> (r: Result<usize, AgronaError>) {
        if value < 0 {
            return Err(AgronaError::format("Negative value for natural number"));
        }
        let length = digit_count(value as u64);
        bounds_check(index, length, self.capacity())?;
        let region = self.as_mut_slice();
        let _ = write_decimal(region, index + length, value as u64);
        Ok(length)
    }

    fn put_natural_padded_i32_ascii(&mut self, index: usize, length: usize, value: i32) -> (r:
        Result<(), AgronaError>) {
        if value < 0 {
            return Err(AgronaError::format("Negative value for natural number"));
        }
        let count = digit_count(value as u64);
        if count > length {
            return Err(AgronaError::format("Number too large for specified length"));
        }
        bounds_check(index, length, self.capacity())?;
        let region = self.as_mut_slice();
        fill(region, index, index + length - count, 48);
        let _ = write_decimal(region, index + length, value as u64);
        assert(self.bytes() =~= splice(
            old(self).bytes(),
            index as int,
            padded_digits(value as nat, length as nat),
        ));
        Ok(())
    }

    fn put_natural_i32_ascii_from_end(&mut self, value: i32, end_exclusive: usize) -> (r: Result<
        usize,
        AgronaError,
    >) {
        if value < 0 {
            return Err(AgronaError::format("Negative value for natural number"));
        }
        let capacity = self.capacity();
        if end_exclusive > capacity {
            return Err(
                AgronaError::IndexOutOfBounds { index: end_exclusive - 1, length: 1, capacity },
            );
        }
        let count = digit_count(value as u64);
        let region = self.as_mut_slice();
        if count <= end_exclusive {
            Ok(write_decimal(region, end_exclusive, value as u64))
        } else {
            write_low_digits(region, end_exclusive, value as u64);
            Err(AgronaError::IndexOutOfBounds { index: 0, length: 1, capacity })
        }
    }

    fn put_string_ascii_without_length_range(
        &mut self,
        index: usize,
        value: &str,
        value_offset: usize,
        length: usize,
    ) -> (r: Result<usize, AgronaError>) {
        let bytes = value.as_bytes();
        let size = bytes.len();
        if length > size || value_offset > size - length {
            return Err(
                AgronaError::IndexOutOfBounds { index: value_offset, length, capacity: size },
            );
        }
        let (_, tail) = bytes.split_at(value_offset);
        let (text, _) = tail.split_at(length);
        assert(text@ =~= window(value.spec_bytes(), value_offset, length));
        if !all_ascii(text) {
            return Err(AgronaError::format("Non-ASCII character found"));
        }
        match self.put_bytes(index, text) {
            Ok(()) => Ok(length),
            Err(e) => Err(e),
        }
    }
}

} // verus!
