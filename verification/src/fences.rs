//! Memory fences.

use vstd::prelude::*;
use core::sync::atomic::{fence, Ordering};

verus! {

/// `core::sync::atomic::fence`: orders the accesses to memory before it against
/// those behind it, as `order` says. It returns nothing, and of memory contracts
/// here say nothing. It panics on `Relaxed`, which the precondition excludes.
pub assume_specification[ core::sync::atomic::fence ](order: Ordering)
    requires
        !(order is Relaxed),
;

/// Later reads and writes are not moved before what was read so far.
pub(crate) fn acquire_fence() {
    fence(Ordering::Acquire);
}

/// Earlier reads and writes are not moved behind what is written next.
pub(crate) fn release_fence() {
    fence(Ordering::Release);
}

/// No read or write is moved across this point, in a single order for all threads.
pub(crate) fn full_fence() {
    fence(Ordering::SeqCst);
}

} // verus!
