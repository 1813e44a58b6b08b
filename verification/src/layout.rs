//! The shape of an allocation request: a byte size together with a
//! power-of-two alignment.  Every layout that can be constructed is
//! well-formed, and the allocator states its placement guarantees in terms of
//! these two numbers.

use crate::alignment::is_pow2;
use crate::error::AllocError;
use vstd::prelude::*;

verus! {

/// A requested byte size and power-of-two alignment.
#[derive(Clone, Copy, Debug, PartialEq, Eq, Structural)]
pub struct Layout {
    size: usize,
    align: usize,
}

impl Layout {
    /// The requested byte size.
    pub closed spec fn spec_size(&self) -> usize {
        self.size
    }

    /// The requested alignment.
    pub closed spec fn spec_align(&self) -> usize {
        self.align
    }

    /// A layout is well-formed when its alignment is a power of two.
    pub open spec fn wf(&self) -> bool {
        is_pow2(self.spec_align() as nat)
    }

    #[verifier::when_used_as_spec(spec_size)]
    pub fn size(&self) -> (s: usize)
        ensures
            s == self.spec_size(),
    {
        self.size
    }

    #[verifier::when_used_as_spec(spec_align)]
    pub fn align(&self) -> (a: usize)
        ensures
            a == self.spec_align(),
    {
        self.align
    }

    /// Builds a layout from a size and an alignment; rejected exactly when
    /// the alignment is not a power of two.
    pub fn from_size_align(size: usize, align: usize) -> (r: Result<Layout, AllocError>)
        ensures
            r is Ok <==> is_pow2(align as nat),
            r matches Ok(l) ==> l.spec_size() == size && l.spec_align() == align && l.wf(),
            r is Err ==> r == Err::<Layout, AllocError>(AllocError::BadRequest),
    {
        if is_power_of_two(align) {
            Ok(Layout { size, align })
        } else {
            Err(AllocError::BadRequest)
        }
    }
}

/// Runtime check for [`is_pow2`]: strips factors of two and looks at what is
/// left.
pub fn is_power_of_two(n: usize) -> (b: bool)
    ensures
        b == is_pow2(n as nat),
{
    if n == 0 {
        return false;
    }
    let mut m: usize = n;
    while m > 1 && m % 2 == 0
        invariant
            m >= 1,
            is_pow2(n as nat) == is_pow2(m as nat),
        decreases m,
    {
        m = m / 2;
    }
    m == 1
}

} // verus!
