//! Equality and order of buffers by their bytes.

use vstd::prelude::*;
use vstd::std_specs::cmp::{PartialEqSpecImpl, PartialOrdSpecImpl};
use core::cmp::Ordering;
use crate::buffer::direct_buffer::DirectBuffer;
use crate::atomic_buffer::AtomicBuffer;
use crate::buffer::order::{
    compare_buffers, compare_bytes, equal_buffers, lemma_level_is_equal, lexicographic,
};
use crate::buffer::unsafe_buffer::UnsafeBuffer;

verus! {

impl<'a> PartialEq for UnsafeBuffer<'a> {
    /// Whether the two buffers hold the same bytes.
    fn eq(&self, other: &Self) -> (r: bool) {
        proof {
            lemma_level_is_equal(self.bytes(), other.bytes());
        }
        compare_bytes(self.as_slice(), other.as_slice()) == 0
    }
}

impl<'a> PartialEqSpecImpl for UnsafeBuffer<'a> {
    open spec fn obeys_eq_spec() -> bool {
        true
    }

    open spec fn eq_spec(&self, other: &Self) -> bool {
        self.bytes() == other.bytes()
    }
}

impl<'a> PartialOrd for UnsafeBuffer<'a> {
    /// How the two buffers stand in the order of a dictionary over their bytes.
    fn partial_cmp(&self, other: &Self) -> (r: Option<Ordering>) {
        let sign = compare_bytes(self.as_slice(), other.as_slice());
        if sign < 0 {
            Some(Ordering::Less)
        } else if sign > 0 {
            Some(Ordering::Greater)
        } else {
            Some(Ordering::Equal)
        }
    }
}

impl<'a> PartialOrdSpecImpl for UnsafeBuffer<'a> {
    open spec fn obeys_partial_cmp_spec() -> bool {
        true
    }

    open spec fn partial_cmp_spec(&self, other: &Self) -> Option<Ordering> {
        if lexicographic(self.bytes(), other.bytes()) < 0 {
            Some(Ordering::Less)
        } else if lexicographic(self.bytes(), other.bytes()) > 0 {
            Some(Ordering::Greater)
        } else {
            Some(Ordering::Equal)
        }
    }
}

impl<'a> PartialEq for AtomicBuffer<'a> {
    /// Whether the two buffers hold the same bytes.
    fn eq(&self, other: &Self) -> (r: bool) {
        equal_buffers(self, other)
    }
}

impl<'a> PartialEqSpecImpl for AtomicBuffer<'a> {
    open spec fn obeys_eq_spec() -> bool {
        true
    }

    open spec fn eq_spec(&self, other: &Self) -> bool {
        self.bytes() == other.bytes()
    }
}

impl<'a> PartialOrd for AtomicBuffer<'a> {
    /// How the two buffers stand in the order of a dictionary over their bytes.
    fn partial_cmp(&self, other: &Self) -> (r: Option<Ordering>) {
        let sign = compare_buffers(self, other);
        if sign < 0 {
            Some(Ordering::Less)
        } else if sign > 0 {
            Some(Ordering::Greater)
        } else {
            Some(Ordering::Equal)
        }
    }
}

impl<'a> PartialOrdSpecImpl for AtomicBuffer<'a> {
    open spec fn obeys_partial_cmp_spec() -> bool {
        true
    }

    open spec fn partial_cmp_spec(&self, other: &Self) -> Option<Ordering> {
        if lexicographic(self.bytes(), other.bytes()) < 0 {
            Some(Ordering::Less)
        } else if lexicographic(self.bytes(), other.bytes()) > 0 {
            Some(Ordering::Greater)
        } else {
            Some(Ordering::Equal)
        }
    }
}

} // verus!
