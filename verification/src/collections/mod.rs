//! Hash containers for 32-bit integer keys, and counters.

pub mod int_hash_map;
pub mod int_hash_set;
pub mod laws;
pub mod mutable_integer;
pub mod probe;
