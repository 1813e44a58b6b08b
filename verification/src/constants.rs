//! Configuration constants of the heap, kept mutually consistent: the block
//! size is a power of two, a region is a whole number of blocks, the usable
//! block capacity leaves a bookkeeping reserve at the end of each block, and
//! the largest representable single allocation sits at the 32-bit boundary.

use vstd::prelude::*;

verus! {

/// Size in bytes of one heap block; a power of two, so that every power-of-two
/// alignment up to the block size divides a block boundary.
pub const BLOCK_SIZE: usize = 32768;

/// Bytes of every block reserved at its end for per-block bookkeeping.
pub const BLOCK_RESERVE: usize = 256;

/// Usable bytes of one block: the range `[0, BLOCK_CAPACITY)` of a block holds
/// objects, the tail `[BLOCK_CAPACITY, BLOCK_SIZE)` is the bookkeeping reserve.
pub const BLOCK_CAPACITY: usize = BLOCK_SIZE - BLOCK_RESERVE;

/// Number of blocks carved out of one region.
pub const BLOCKS_PER_REGION: usize = 32;

/// Size in bytes of one region reservation.
pub const REGION_SIZE: usize = BLOCK_SIZE * BLOCKS_PER_REGION;

/// Largest total (header-inclusive) size a single allocation may have.
pub const MAX_ALLOC_SIZE: usize = 4294967295;

/// Size in bytes of the metadata header that precedes every object.
pub const HEADER_SIZE: usize = 8;

/// Alignment of the metadata header.
pub const HEADER_ALIGN: usize = 8;

/// Largest total size classified as small; small objects share a block
/// many at a time and are intended for fine-grained reuse.
pub const SMALL_OBJECT_MAX: usize = 128;

} // verus!
