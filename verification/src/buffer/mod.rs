//! Byte buffers: regions of bytes of fixed size with typed accessors at byte offsets.

use vstd::prelude::*;
use crate::error::{AgronaError, Failure};

pub mod ascii;
pub mod byte_order;
pub mod byte_order_laws;
pub mod compare;
pub mod direct_buffer;
pub mod laws;
pub mod model;
pub mod mutable_buffer;
pub mod order;
pub mod unsafe_buffer;

verus! {

/// The number of bytes in the length that stands before a string.
pub const STR_HEADER_LEN: usize = 4;

/// Whether `length` bytes at `index` lie within `capacity` bytes.
pub fn bounds_check(index: usize, length: usize, capacity: usize) -> (r: Result<(), AgronaError>)
    ensures
        index + length <= capacity ==> r == Ok::<(), AgronaError>(()),
        index + length > capacity ==> r == Err::<(), AgronaError>(
            AgronaError::IndexOutOfBounds { index, length, capacity },
        ),
{
    if length > capacity || index > capacity - length {
        return Err(AgronaError::IndexOutOfBounds { index, length, capacity });
    }
    Ok(())
}

/// The length of a string as it stands in the four bytes before the string. A
/// length that those bytes cannot hold is refused.
pub fn string_header(length: usize) -> (r: Result<u32, AgronaError>)
    ensures
        length <= u32::MAX ==> r == Ok::<u32, AgronaError>(length as u32),
        length > u32::MAX ==> r is Err && r->Err_0@ == (Failure::BufferOverflow {
            attempted: length,
            available: u32::MAX as usize,
        }),
{
    if length > u32::MAX as usize {
        return Err(AgronaError::BufferOverflow { attempted: length, available: u32::MAX as usize });
    }
    Ok(length as u32)
}

} // verus!
