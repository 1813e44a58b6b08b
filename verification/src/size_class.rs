//! Size classification.  A total (header-inclusive) byte count is mapped to
//! one of three placement strategies: small and medium objects share bump
//! space inside standard blocks, large objects get a span of whole blocks to
//! themselves.  Sizes beyond the maximum representable allocation get no
//! class at all, and the request fails.

use crate::constants::{BLOCK_CAPACITY, MAX_ALLOC_SIZE, SMALL_OBJECT_MAX};
use crate::error::AllocError;
use vstd::prelude::*;

verus! {

/// Placement strategy of one allocation, decided by its total padded size.
#[derive(Clone, Copy, Debug, PartialEq, Eq, Structural)]
pub enum SizeClass {
    /// Fits many per block; intended for fine-grained reuse.
    Small,
    /// Fits within one block's usable capacity, but coarse enough that the
    /// space left over behind it is not chased.
    Medium,
    /// Exceeds one block's usable capacity; placed in a span of whole blocks
    /// reserved exclusively for it.
    Large,
}

/// The class a total size of at most [`MAX_ALLOC_SIZE`] belongs to.
pub open spec fn class_for(total_size: int) -> SizeClass {
    if total_size <= SMALL_OBJECT_MAX {
        SizeClass::Small
    } else if total_size <= BLOCK_CAPACITY {
        SizeClass::Medium
    } else {
        SizeClass::Large
    }
}

impl SizeClass {
    /// Classifies an already header- and padding-inclusive byte count.
    /// Fails exactly when the size exceeds the maximum representable
    /// allocation.
    pub fn get_for_size(total_size: usize) -> (r: Result<SizeClass, AllocError>)
        ensures
            total_size <= MAX_ALLOC_SIZE ==> r == Ok::<SizeClass, AllocError>(
                class_for(total_size as int),
            ),
            total_size > MAX_ALLOC_SIZE ==> r == Err::<SizeClass, AllocError>(
                AllocError::BadRequest,
            ),
    {
        if total_size > MAX_ALLOC_SIZE {
            Err(AllocError::BadRequest)
        } else if total_size <= SMALL_OBJECT_MAX {
            Ok(SizeClass::Small)
        } else if total_size <= BLOCK_CAPACITY {
            Ok(SizeClass::Medium)
        } else {
            Ok(SizeClass::Large)
        }
    }
}

} // verus!
