//! Building blocks for low-latency messaging: byte buffers with typed accessors at
//! byte offsets, an atomic overlay over the same bytes, hash containers for 32-bit
//! integer keys, and idle strategies for polling loops.

use vstd::prelude::*;

pub mod atomic_buffer;
pub mod bit_util;
pub mod buffer;
pub mod collections;
pub mod error;
mod fences;
pub mod hashing;
pub mod idle_strategy;

pub use crate::atomic_buffer::AtomicBuffer;
pub use crate::buffer::byte_order::ByteOrder;
pub use crate::buffer::direct_buffer::DirectBuffer;
pub use crate::buffer::mutable_buffer::MutableBuffer;
pub use crate::buffer::unsafe_buffer::UnsafeBuffer;
pub use crate::collections::int_hash_map::{
    IntHashMap, IntHashMapIter, IntHashMapKeys, IntHashMapValues,
};
pub use crate::collections::int_hash_set::{IntHashSet, IntHashSetIter};
pub use crate::collections::mutable_integer::{MutableInteger, MutableLong};
pub use crate::error::AgronaError;
pub use crate::hashing::FastHasher;
pub use crate::idle_strategy::{
    BackoffIdleStrategy, BusySpinIdleStrategy, ControllableIdleStrategy, IdleAction, IdleStrategy,
    SleepingIdleStrategy,
};

verus! {

/// The number of bytes in one cache line.
pub const CACHE_LINE_SIZE: usize = 64;

} // verus!
