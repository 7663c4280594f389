//! What the accessors of a buffer do, as functions on sequences of bytes.

use vstd::prelude::*;
use vstd::utf8::{decode_utf8, valid_utf8};
use crate::buffer::ascii::{
    ascii_chars, decimal_digits, is_ascii_bytes, natural_outcome, negative_message,
    non_ascii_message, padded_digits, signed_outcome, too_large_message,
};
use crate::buffer::byte_order::{le_bytes, le_value, splice, ByteOrder};
use crate::error::{AgronaError, Failure};

verus! {

/// Whether `length` bytes from `index` on lie within `region`.
pub open spec fn fits(region: Seq<u8>, index: usize, length: usize) -> bool {
    index + length <= region.len()
}

/// What is reported of a window that does not lie within `region`.
pub open spec fn out_of_bounds(region: Seq<u8>, index: usize, length: usize) -> Failure {
    Failure::IndexOutOfBounds { index, length, capacity: region.len() as usize }
}

/// The `length` bytes of `region` from `index` on.
pub open spec fn window(region: Seq<u8>, index: usize, length: usize) -> Seq<u8> {
    region.subrange(index as int, index + length)
}

/// Reading the `width` bytes at `index` as a number in the given order.
pub open spec fn load(region: Seq<u8>, index: usize, width: usize, order: ByteOrder) -> Result<
    nat,
    Failure,
> {
    if fits(region, index, width) {
        Ok(order.value(window(region, index, width)))
    } else {
        Err(out_of_bounds(region, index, width))
    }
}

/// Putting the `width` bytes of `text` at `index`: the region afterwards.
pub open spec fn store(region: Seq<u8>, index: usize, width: usize, text: Seq<u8>) -> Result<
    Seq<u8>,
    Failure,
>
    recommends
        text.len() == width,
{
    if fits(region, index, width) {
        Ok(splice(region, index as int, text))
    } else {
        Err(out_of_bounds(region, index, width))
    }
}

/// Whether a write that was to turn `before` into what `expected` gives, and to return
/// `value`, did so: on an error the region is as it was.
pub open spec fn stored<T>(
    before: Seq<u8>,
    after: Seq<u8>,
    r: Result<T, AgronaError>,
    expected: Result<Seq<u8>, Failure>,
    value: T,
) -> bool {
    match expected {
        Ok(region) => r == Ok::<T, AgronaError>(value) && after == region,
        Err(f) => r is Err && r->Err_0@ == f && after == before,
    }
}

/// Reading the `length` bytes at `index` as a natural number of at most `max`.
pub open spec fn load_natural(region: Seq<u8>, index: usize, length: usize, max: nat) -> Result<
    nat,
    Failure,
> {
    if fits(region, index, length) {
        natural_outcome(window(region, index, length), max)
    } else {
        Err(out_of_bounds(region, index, length))
    }
}

/// Reading the `length` bytes at `index` as a number between `-(max + 1)` and `max`.
pub open spec fn load_signed(region: Seq<u8>, index: usize, length: usize, max: nat) -> Result<
    int,
    Failure,
> {
    if fits(region, index, length) {
        signed_outcome(window(region, index, length), max)
    } else {
        Err(out_of_bounds(region, index, length))
    }
}

/// Putting the decimal text of `value` at `index`, where `value` must not be negative.
pub open spec fn store_natural(region: Seq<u8>, index: usize, value: int) -> Result<
    Seq<u8>,
    Failure,
> {
    if value < 0 {
        Err(negative_message())
    } else {
        store(region, index, decimal_digits(value as nat).len() as usize, decimal_digits(value as nat))
    }
}

/// Putting the decimal text of `value`, filled up with `0` to `length` bytes, at `index`.
pub open spec fn store_padded(region: Seq<u8>, index: usize, length: usize, value: int) -> Result<
    Seq<u8>,
    Failure,
> {
    if value < 0 {
        Err(negative_message())
    } else if decimal_digits(value as nat).len() > length {
        Err(too_large_message())
    } else {
        store(region, index, length, padded_digits(value as nat, length as nat))
    }
}

/// Reading the `length` bytes at `index` as ASCII text.
pub open spec fn load_ascii(region: Seq<u8>, index: usize, length: usize) -> Result<
    Seq<char>,
    Failure,
> {
    if !fits(region, index, length) {
        Err(out_of_bounds(region, index, length))
    } else if !is_ascii_bytes(window(region, index, length)) {
        Err(non_ascii_message())
    } else {
        Ok(ascii_chars(window(region, index, length)))
    }
}

/// Reading the `length` bytes at `index` as UTF-8 text.
pub open spec fn load_utf8(region: Seq<u8>, index: usize, length: usize) -> Result<
    Seq<char>,
    Failure,
> {
    if !fits(region, index, length) {
        Err(out_of_bounds(region, index, length))
    } else if !valid_utf8(window(region, index, length)) {
        Err(Failure::Utf8Error)
    } else {
        Ok(decode_utf8(window(region, index, length)))
    }
}

/// Reading text that stands behind its length, a little-endian `u32` at `index`.
/// `ascii` tells which of the two kinds of text is read.
pub open spec fn load_headed(region: Seq<u8>, index: usize, ascii: bool) -> Result<
    Seq<char>,
    Failure,
> {
    if !fits(region, index, 4) {
        Err(out_of_bounds(region, index, 4))
    } else {
        let length = le_value(window(region, index, 4)) as usize;
        if ascii {
            load_ascii(region, (index + 4) as usize, length)
        } else {
            load_utf8(region, (index + 4) as usize, length)
        }
    }
}

/// Putting ASCII text at `index`: a byte above 127 is refused before the bounds are
/// looked at.
pub open spec fn store_ascii(region: Seq<u8>, index: usize, text: Seq<u8>) -> Result<
    Seq<u8>,
    Failure,
> {
    if !is_ascii_bytes(text) {
        Err(non_ascii_message())
    } else {
        store(region, index, text.len() as usize, text)
    }
}

/// Putting text behind its length, a little-endian `u32`, at `index`. The text is
/// checked as ASCII only where `ascii` says so. Nothing is written unless all of it
/// can be.
pub open spec fn store_headed(region: Seq<u8>, index: usize, text: Seq<u8>, ascii: bool) -> Result<
    Seq<u8>,
    Failure,
> {
    if text.len() > u32::MAX {
        Err(Failure::BufferOverflow { attempted: text.len() as usize, available: u32::MAX as usize })
    } else if !fits(region, index, 4) {
        Err(out_of_bounds(region, index, 4))
    } else if ascii && !is_ascii_bytes(text) {
        Err(non_ascii_message())
    } else if !fits(region, (index + 4) as usize, text.len() as usize) {
        Err(out_of_bounds(region, (index + 4) as usize, text.len() as usize))
    } else {
        Ok(splice(region, index as int, le_bytes(text.len(), 4) + text))
    }
}

} // verus!
