//! A buffer whose accessors order their reads and writes against the rest of memory.

use vstd::prelude::*;
use crate::buffer::byte_order::{le_bytes, radix, splice, ByteOrder};
use crate::buffer::byte_order_laws::{lemma_radix_values, lemma_value_bound};
use crate::buffer::direct_buffer::DirectBuffer;
use crate::buffer::model::{load, store, stored, window};
use crate::buffer::mutable_buffer::MutableBuffer;
use crate::buffer::unsafe_buffer::UnsafeBuffer;
use crate::error::{agrees, AgronaError, Failure};
use crate::fences::{acquire_fence, full_fence, release_fence};

verus! {

/// A region of bytes with the accessors of a buffer and, beside them, accessors that
/// order their reads and writes against the caller's other accesses to memory, for
/// regions that another party looks at. A value of this type is held by one thread
/// at a time, and every write takes it by `&mut`: the contracts say what that thread
/// reads back, and nothing of what another party sees.
pub struct AtomicBuffer<'a> {
    inner: UnsafeBuffer<'a>,
}

impl<'a> AtomicBuffer<'a> {
    /// A buffer of `capacity` zero bytes in memory of its own. It fails where
    /// `capacity` is zero or the memory cannot be had.
    pub fn new(capacity: usize) -> (r: Result<AtomicBuffer<'a>, AgronaError>)
        ensures
            r is Err ==> r->Err_0@ == (Failure::InvalidCapacity { capacity }),
            capacity == 0 ==> r is Err,
            r is Ok ==> r->Ok_0.bytes() == Seq::new(capacity as nat, |i: int| 0u8),
    {
        match UnsafeBuffer::new(capacity) {
            Ok(inner) => Ok(AtomicBuffer { inner }),
            Err(e) => Err(e),
        }
    }

    /// A buffer over the bytes of `slice`, which it reads and writes in place.
    pub fn wrap_slice(slice: &'a mut [u8]) -> (buffer: AtomicBuffer<'a>)
        ensures
            buffer.bytes() == old(slice)@,
    {
        AtomicBuffer { inner: UnsafeBuffer::wrap_slice(slice) }
    }

    /// Reads the byte at `index`, with acquire ordering.
    pub fn get_volatile_u8(&self, index: usize) -> (r: Result<u8, AgronaError>)
        ensures
            agrees(
                r,
                if index < self.bytes().len() {
                    Ok(self.bytes()[index as int])
                } else {
                    Err(crate::buffer::model::out_of_bounds(self.bytes(), index, 1))
                },
            ),
    {
        let r = self.inner.get_u8(index);
        acquire_fence();
        r
    }

    /// Writes the byte `value` at `index`, with sequentially consistent ordering.
    pub fn put_volatile_u8(&mut self, index: usize, value: u8) -> (r: Result<(), AgronaError>)
        ensures
            stored(
                old(self).bytes(),
                final(self).bytes(),
                r,
                store(old(self).bytes(), index, 1, seq![value]),
                (),
            ),
    {
        full_fence();
        let r = self.inner.put_u8(index, value);
        full_fence();
        r
    }

    /// Reads the `u32` at `index`, least significant byte first, with acquire
    /// ordering. `index` must be a multiple of 4.
    pub fn get_volatile_u32(&self, index: usize) -> (r: Result<u32, AgronaError>)
        requires
            index % 4 == 0,
        ensures
            match load(self.bytes(), index, 4, ByteOrder::LittleEndian) {
                Ok(v) => r == Ok::<u32, AgronaError>(v as u32),
                Err(f) => r is Err && r->Err_0@ == f,
            },
    {
        self.get_volatile_u32_with_order(index, ByteOrder::LittleEndian)
    }

    /// Reads the `u32` at `index` in the given byte order, with acquire ordering:
    /// nothing that the caller does next is moved before the read. `index` must be a
    /// multiple of 4.
    pub fn get_volatile_u32_with_order(&self, index: usize, byte_order: ByteOrder) -> (r: Result<
        u32,
        AgronaError,
    >)
        requires
            index % 4 == 0,
        ensures
            match load(self.bytes(), index, 4, byte_order) {
                Ok(v) => r == Ok::<u32, AgronaError>(v as u32),
                Err(f) => r is Err && r->Err_0@ == f,
            },
    {
        let r = self.inner.get_u32_with_order(index, byte_order);
        acquire_fence();
        r
    }

    /// Writes `value` at `index`, least significant byte first, with sequentially consistent ordering.
    /// `index` must be a multiple of 4.
    pub fn put_volatile_u32(&mut self, index: usize, value: u32) -> (r: Result<(), AgronaError>)
        requires
            index % 4 == 0,
        ensures
            stored(
                old(self).bytes(),
                final(self).bytes(),
                r,
                store(old(self).bytes(), index, 4, le_bytes(value as nat, 4)),
                (),
            ),
    {
        self.put_volatile_u32_with_order(index, value, ByteOrder::LittleEndian)
    }

    /// Writes `value` at `index` in the given byte order, with sequentially consistent ordering:
    /// no access is moved across the write. `index` must be a multiple of 4.
    pub fn put_volatile_u32_with_order(&mut self, index: usize, value: u32, byte_order: ByteOrder) -> (r:
        Result<(), AgronaError>)
        requires
            index % 4 == 0,
        ensures
            stored(
                old(self).bytes(),
                final(self).bytes(),
                r,
                store(old(self).bytes(), index, 4, byte_order.bytes(value as nat, 4)),
                (),
            ),
    {
        full_fence();
        let r = self.inner.put_u32_with_order(index, value, byte_order);
        full_fence();
        r
    }

    /// Publishes `value` at `index`, least significant byte first, with release ordering.
    /// `index` must be a multiple of 4.
    pub fn put_ordered_u32(&mut self, index: usize, value: u32) -> (r: Result<(), AgronaError>)
        requires
            index % 4 == 0,
        ensures
            stored(
                old(self).bytes(),
                final(self).bytes(),
                r,
                store(old(self).bytes(), index, 4, le_bytes(value as nat, 4)),
                (),
            ),
    {
        self.put_ordered_u32_with_order(index, value, ByteOrder::LittleEndian)
    }

    /// Publishes `value` at `index` in the given byte order, with release ordering:
    /// nothing that the caller did before is moved behind the write. `index` must be a multiple of 4.
    pub fn put_ordered_u32_with_order(&mut self, index: usize, value: u32, byte_order: ByteOrder) -> (r:
        Result<(), AgronaError>)
        requires
            index % 4 == 0,
        ensures
            stored(
                old(self).bytes(),
                final(self).bytes(),
                r,
                store(old(self).bytes(), index, 4, byte_order.bytes(value as nat, 4)),
                (),
            ),
    {
        release_fence();
        self.inner.put_u32_with_order(index, value, byte_order)
    }

    /// Adds `delta` to the `u32` at `index`, wrapping round, and returns what stood
    /// there before, with sequentially consistent ordering. `index` must be a
    /// multiple of 4.
    pub fn get_and_add_u32(&mut self, index: usize, delta: u32) -> (r: Result<u32, AgronaError>)
        requires
            index % 4 == 0,
        ensures
            match load(old(self).bytes(), index, 4, ByteOrder::LittleEndian) {
                Ok(v) => r == Ok::<u32, AgronaError>(v as u32) && final(self).bytes() == splice(
                    old(self).bytes(),
                    index as int,
                    le_bytes((v + delta as nat) % radix(4), 4),
                ),
                Err(f) => r is Err && r->Err_0@ == f && final(self).bytes() == old(self).bytes(),
            },
    {
        proof {
            lemma_value_bound(window(self.bytes(), index, 4));
            lemma_radix_values();
        }
        full_fence();
        let previous = self.inner.get_u32(index)?;
        self.inner.put_u32(index, previous.wrapping_add(delta))?;
        full_fence();
        Ok(previous)
    }

    /// Reads the `u64` at `index`, least significant byte first, with acquire
    /// ordering. `index` must be a multiple of 8.
    pub fn get_volatile_u64(&self, index: usize) -> (r: Result<u64, AgronaError>)
        requires
            index % 8 == 0,
        ensures
            match load(self.bytes(), index, 8, ByteOrder::LittleEndian) {
                Ok(v) => r == Ok::<u64, AgronaError>(v as u64),
                Err(f) => r is Err && r->Err_0@ == f,
            },
    {
        self.get_volatile_u64_with_order(index, ByteOrder::LittleEndian)
    }

    /// Reads the `u64` at `index` in the given byte order, with acquire ordering:
    /// nothing that the caller does next is moved before the read. `index` must be a
    /// multiple of 8.
    pub fn get_volatile_u64_with_order(&self, index: usize, byte_order: ByteOrder) -> (r: Result<
        u64,
        AgronaError,
    >)
        requires
            index % 8 == 0,
        ensures
            match load(self.bytes(), index, 8, byte_order) {
                Ok(v) => r == Ok::<u64, AgronaError>(v as u64),
                Err(f) => r is Err && r->Err_0@ == f,
            },
    {
        let r = self.inner.get_u64_with_order(index, byte_order);
        acquire_fence();
        r
    }

    /// Writes `value` at `index`, least significant byte first, with sequentially consistent ordering.
    /// `index` must be a multiple of 8.
    pub fn put_volatile_u64(&mut self, index: usize, value: u64) -> (r: Result<(), AgronaError>)
        requires
            index % 8 == 0,
        ensures
            stored(
                old(self).bytes(),
                final(self).bytes(),
                r,
                store(old(self).bytes(), index, 8, le_bytes(value as nat, 8)),
                (),
            ),
    {
        self.put_volatile_u64_with_order(index, value, ByteOrder::LittleEndian)
    }

    /// Writes `value` at `index` in the given byte order, with sequentially consistent ordering:
    /// no access is moved across the write. `index` must be a multiple of 8.
    pub fn put_volatile_u64_with_order(&mut self, index: usize, value: u64, byte_order: ByteOrder) -> (r:
        Result<(), AgronaError>)
        requires
            index % 8 == 0,
        ensures
            stored(
                old(self).bytes(),
                final(self).bytes(),
                r,
                store(old(self).bytes(), index, 8, byte_order.bytes(value as nat, 8)),
                (),
            ),
    {
        full_fence();
        let r = self.inner.put_u64_with_order(index, value, byte_order);
        full_fence();
        r
    }

    /// Publishes `value` at `index`, least significant byte first, with release ordering.
    /// `index` must be a multiple of 8.
    pub fn put_ordered_u64(&mut self, index: usize, value: u64) -> (r: Result<(), AgronaError>)
        requires
            index % 8 == 0,
        ensures
            stored(
                old(self).bytes(),
                final(self).bytes(),
                r,
                store(old(self).bytes(), index, 8, le_bytes(value as nat, 8)),
                (),
            ),
    {
        self.put_ordered_u64_with_order(index, value, ByteOrder::LittleEndian)
    }

    /// Publishes `value` at `index` in the given byte order, with release ordering:
    /// nothing that the caller did before is moved behind the write. `index` must be a multiple of 8.
    pub fn put_ordered_u64_with_order(&mut self, index: usize, value: u64, byte_order: ByteOrder) -> (r:
        Result<(), AgronaError>)
        requires
            index % 8 == 0,
        ensures
            stored(
                old(self).bytes(),
                final(self).bytes(),
                r,
                store(old(self).bytes(), index, 8, byte_order.bytes(value as nat, 8)),
                (),
            ),
    {
        release_fence();
        self.inner.put_u64_with_order(index, value, byte_order)
    }

    /// Adds `delta` to the `u64` at `index`, wrapping round, and returns what stood
    /// there before, with sequentially consistent ordering. `index` must be a
    /// multiple of 8.
    pub fn get_and_add_u64(&mut self, index: usize, delta: u64) -> (r: Result<u64, AgronaError>)
        requires
            index % 8 == 0,
        ensures
            match load(old(self).bytes(), index, 8, ByteOrder::LittleEndian) {
                Ok(v) => r == Ok::<u64, AgronaError>(v as u64) && final(self).bytes() == splice(
                    old(self).bytes(),
                    index as int,
                    le_bytes((v + delta as nat) % radix(8), 8),
                ),
                Err(f) => r is Err && r->Err_0@ == f && final(self).bytes() == old(self).bytes(),
            },
    {
        proof {
            lemma_value_bound(window(self.bytes(), index, 8));
            lemma_radix_values();
        }
        full_fence();
        let previous = self.inner.get_u64(index)?;
        self.inner.put_u64(index, previous.wrapping_add(delta))?;
        full_fence();
        Ok(previous)
    }

    /// Sets the `u32` at `index` to `update` where it is `expected`, and says whether
    /// it was, with sequentially consistent ordering. `index` must be a multiple of 4.
    pub fn compare_and_set_u32(&mut self, index: usize, expected: u32, update: u32) -> (r: Result<
        bool,
        AgronaError,
    >)
        requires
            index % 4 == 0,
        ensures
            match load(old(self).bytes(), index, 4, ByteOrder::LittleEndian) {
                Ok(v) => r == Ok::<bool, AgronaError>(v == expected) && final(self).bytes() == (
                if v == expected {
                    splice(old(self).bytes(), index as int, le_bytes(update as nat, 4))
                } else {
                    old(self).bytes()
                }),
                Err(f) => r is Err && r->Err_0@ == f && final(self).bytes() == old(self).bytes(),
            },
    {
        proof {
            lemma_value_bound(window(self.bytes(), index, 4));
            lemma_radix_values();
        }
        full_fence();
        let current = self.inner.get_u32(index)?;
        if current != expected {
            return Ok(false);
        }
        self.inner.put_u32(index, update)?;
        full_fence();
        Ok(true)
    }

    /// Adds `increment` to the `u64` at `index`, wrapping round, with release
    /// ordering. `index` must be a multiple of 8.
    pub fn add_ordered_u64(&mut self, index: usize, increment: u64) -> (r: Result<(), AgronaError>)
        requires
            index % 8 == 0,
        ensures
            match load(old(self).bytes(), index, 8, ByteOrder::LittleEndian) {
                Ok(v) => r is Ok && final(self).bytes() == splice(
                    old(self).bytes(),
                    index as int,
                    le_bytes((v + increment as nat) % radix(8), 8),
                ),
                Err(f) => r is Err && r->Err_0@ == f && final(self).bytes() == old(self).bytes(),
            },
    {
        proof {
            lemma_value_bound(window(self.bytes(), index, 8));
            lemma_radix_values();
        }
        release_fence();
        let previous = self.inner.get_u64(index)?;
        self.inner.put_u64(index, previous.wrapping_add(increment))
    }
}

impl<'a> DirectBuffer for AtomicBuffer<'a> {
    closed spec fn bytes(&self) -> Seq<u8> {
        self.inner.bytes()
    }

    fn capacity(&self) -> (capacity: usize) {
        self.inner.capacity()
    }

    fn get_u8(&self, index: usize) -> (r: Result<u8, AgronaError>) {
        self.inner.get_u8(index)
    }

    fn get_i8(&self, index: usize) -> (r: Result<i8, AgronaError>) {
        self.inner.get_i8(index)
    }

    fn get_u16_with_order(&self, index: usize, byte_order: ByteOrder) -> (r: Result<u16, AgronaError>) {
        self.inner.get_u16_with_order(index, byte_order)
    }

    fn get_i16_with_order(&self, index: usize, byte_order: ByteOrder) -> (r: Result<i16, AgronaError>) {
        self.inner.get_i16_with_order(index, byte_order)
    }

    fn get_u32_with_order(&self, index: usize, byte_order: ByteOrder) -> (r: Result<u32, AgronaError>) {
        self.inner.get_u32_with_order(index, byte_order)
    }

    fn get_i32_with_order(&self, index: usize, byte_order: ByteOrder) -> (r: Result<i32, AgronaError>) {
        self.inner.get_i32_with_order(index, byte_order)
    }

    fn get_u64_with_order(&self, index: usize, byte_order: ByteOrder) -> (r: Result<u64, AgronaError>) {
        self.inner.get_u64_with_order(index, byte_order)
    }

    fn get_i64_with_order(&self, index: usize, byte_order: ByteOrder) -> (r: Result<i64, AgronaError>) {
        self.inner.get_i64_with_order(index, byte_order)
    }

    fn parse_natural_i32_ascii(&self, index: usize, length: usize) -> (r: Result<i32, AgronaError>) {
        self.inner.parse_natural_i32_ascii(index, length)
    }

    fn parse_natural_i64_ascii(&self, index: usize, length: usize) -> (r: Result<i64, AgronaError>) {
        self.inner.parse_natural_i64_ascii(index, length)
    }

    fn parse_i32_ascii(&self, index: usize, length: usize) -> (r: Result<i32, AgronaError>) {
        self.inner.parse_i32_ascii(index, length)
    }

    fn parse_i64_ascii(&self, index: usize, length: usize) -> (r: Result<i64, AgronaError>) {
        self.inner.parse_i64_ascii(index, length)
    }

    fn get_bytes(&self, index: usize, dst: &mut [u8]) -> (r: Result<(), AgronaError>) {
        self.inner.get_bytes(index, dst)
    }

    fn get_string_ascii_with_length(&self, index: usize, length: usize) -> (r: Result<
        String,
        AgronaError,
    >) {
        self.inner.get_string_ascii_with_length(index, length)
    }

    fn get_string_utf8_with_length(&self, index: usize, length: usize) -> (r: Result<
        String,
        AgronaError,
    >) {
        self.inner.get_string_utf8_with_length(index, length)
    }
}

impl<'a> MutableBuffer for AtomicBuffer<'a> {
    fn set_memory(&mut self, index: usize, length: usize, value: u8) -> (r: Result<(), AgronaError>) {
        self.inner.set_memory(index, length, value)
    }

    fn put_u8(&mut self, index: usize, value: u8) -> (r: Result<(), AgronaError>) {
        self.inner.put_u8(index, value)
    }

    fn put_i8(&mut self, index: usize, value: i8) -> (r: Result<(), AgronaError>) {
        self.inner.put_i8(index, value)
    }

    fn put_u16_with_order(&mut self, index: usize, value: u16, byte_order: ByteOrder) -> (r: Result<
        (),
        AgronaError,
    >) {
        self.inner.put_u16_with_order(index, value, byte_order)
    }

    fn put_i16_with_order(&mut self, index: usize, value: i16, byte_order: ByteOrder) -> (r: Result<
        (),
        AgronaError,
    >) {
        self.inner.put_i16_with_order(index, value, byte_order)
    }

    fn put_u32_with_order(&mut self, index: usize, value: u32, byte_order: ByteOrder) -> (r: Result<
        (),
        AgronaError,
    >) {
        self.inner.put_u32_with_order(index, value, byte_order)
    }

    fn put_i32_with_order(&mut self, index: usize, value: i32, byte_order: ByteOrder) -> (r: Result<
        (),
        AgronaError,
    >) {
        self.inner.put_i32_with_order(index, value, byte_order)
    }

    fn put_u64_with_order(&mut self, index: usize, value: u64, byte_order: ByteOrder) -> (r: Result<
        (),
        AgronaError,
    >) {
        self.inner.put_u64_with_order(index, value, byte_order)
    }

    fn put_i64_with_order(&mut self, index: usize, value: i64, byte_order: ByteOrder) -> (r: Result<
        (),
        AgronaError,
    >) {
        self.inner.put_i64_with_order(index, value, byte_order)
    }

    fn put_i32_ascii(&mut self, index: usize, value: i32) -> (r: Result<usize, AgronaError>) {
        self.inner.put_i32_ascii(index, value)
    }

    fn put_natural_i32_ascii(&mut self, index: usize, value: i32) -> (r: Result<usize, AgronaError>) {
        self.inner.put_natural_i32_ascii(index, value)
    }

    fn put_natural_i64_ascii(&mut self, index: usize, value: i64) -> (r: Result<usize, AgronaError>) {
        self.inner.put_natural_i64_ascii(index, value)
    }

    fn put_i64_ascii(&mut self, index: usize, value: i64) -> (r: Result<usize, AgronaError>) {
        self.inner.put_i64_ascii(index, value)
    }

    fn put_bytes(&mut self, index: usize, src: &[u8]) -> (r: Result<(), AgronaError>) {
        self.inner.put_bytes(index, src)
    }

    fn put_natural_padded_i32_ascii(&mut self, index: usize, length: usize, value: i32) -> (r:
        Result<(), AgronaError>) {
        self.inner.put_natural_padded_i32_ascii(index, length, value)
    }

    fn put_natural_i32_ascii_from_end(&mut self, value: i32, end_exclusive: usize) -> (r: Result<
        usize,
        AgronaError,
    >) {
        self.inner.put_natural_i32_ascii_from_end(value, end_exclusive)
    }

    fn put_string_ascii_without_length_range(
        &mut self,
        index: usize,
        value: &str,
        value_offset: usize,
        length: usize,
    ) -> (r: Result<usize, AgronaError>) {
        self.inner.put_string_ascii_without_length_range(index, value, value_offset, length)
    }
}

} // verus!
