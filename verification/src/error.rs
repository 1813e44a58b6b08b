//! Error taxonomy of the heap.  Every failure is returned to the caller as a
//! result value; nothing in this subsystem panics or retries internally.

use vstd::prelude::*;

verus! {

/// Why an allocation request failed.
#[derive(Clone, Copy, Debug, PartialEq, Eq, Structural)]
pub enum AllocError {
    /// The request exceeds the maximum representable allocation size, so no
    /// size class can be assigned to it.
    BadRequest,
    /// The block store could not supply a fresh block: the address space of
    /// the model platform is exhausted.
    OutOfMemory,
}

} // verus!
