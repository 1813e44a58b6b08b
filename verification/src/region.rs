//! A region: one raw memory reservation, aligned to the block size and
//! sliced into a fixed number of equal blocks.  A region owns its address
//! range for the lifetime of every block carved from it; blocks are returned
//! to the block store for recycling, never released individually.
//!
//! Memory is modelled as an address space of plain `usize` values: a region
//! is an address range rather than a platform reservation.  A standalone
//! region is viewed from base zero of its own address space; the block store
//! places the regions it carves blocks from at block-aligned bases of the
//! heap's address space.

use crate::alignment::{is_pow2, lemma_heap_constants_pow2, lemma_pow2_pos};
use crate::constants::{BLOCK_SIZE, REGION_SIZE};
use crate::error::AllocError;
use crate::layout::Layout;
use vstd::prelude::*;

verus! {

/// One reservation of `layout.size()` bytes at a base aligned to
/// `layout.align()`.
pub struct Region {
    layout: Layout,
    base: usize,
}

impl Region {
    /// The first address of the reservation.
    pub closed spec fn spec_base(&self) -> usize {
        self.base
    }

    /// The total byte size of the reservation.
    pub closed spec fn spec_size(&self) -> usize {
        self.layout.spec_size()
    }

    /// The alignment the reservation was created with.
    pub closed spec fn spec_align(&self) -> usize {
        self.layout.spec_align()
    }

    /// A region's base respects its alignment and its address range stays
    /// within the address space.
    pub open spec fn wf(&self) -> bool {
        &&& is_pow2(self.spec_align() as nat)
        &&& self.spec_base() as int % self.spec_align() as int == 0
        &&& self.spec_base() + self.spec_size() <= usize::MAX
    }

    /// A reservation of the default region layout: [`REGION_SIZE`] bytes
    /// aligned to the block size, so that every block boundary inside it is
    /// naturally block-aligned.
    pub fn default() -> (r: Result<Region, AllocError>)
        ensures
            r matches Ok(rg) ==> rg.wf() && rg.spec_size() == REGION_SIZE && rg.spec_align()
                == BLOCK_SIZE && rg.spec_base() == 0,
            r is Ok,
    {
        proof {
            lemma_heap_constants_pow2();
        }
        match Layout::from_size_align(REGION_SIZE, BLOCK_SIZE) {
            Ok(layout) => Self::new(layout),
            Err(e) => Err(e),
        }
    }

    /// One reservation of `layout.size()` bytes at `layout.align()`,
    /// viewed from base zero of its own address space.
    pub fn new(layout: Layout) -> (r: Result<Region, AllocError>)
        requires
            layout.wf(),
        ensures
            r matches Ok(rg) ==> rg.wf() && rg.spec_size() == layout.spec_size()
                && rg.spec_align() == layout.spec_align() && rg.spec_base() == 0,
            r is Ok,
    {
        proof {
            lemma_pow2_pos(layout.spec_align() as nat);
        }
        let rg = Region { layout, base: 0 };
        proof {
            vstd::arithmetic::div_mod::lemma_small_mod(0, layout.spec_align() as nat);
        }
        Ok(rg)
    }

    /// A reservation placed at a given base of the heap's address space;
    /// used by the block store when it carves blocks.
    pub(crate) fn new_at(layout: Layout, base: usize) -> (rg: Region)
        requires
            layout.wf(),
            base as int % layout.spec_align() as int == 0,
            base + layout.spec_size() <= usize::MAX,
        ensures
            rg.wf(),
            rg.spec_size() == layout.spec_size(),
            rg.spec_align() == layout.spec_align(),
            rg.spec_base() == base,
    {
        Region { layout, base }
    }

    /// The address `o` bytes past the base, for an offset inside the
    /// reservation.
    pub fn at_offset(&self, offset: usize) -> (a: usize)
        requires
            self.wf(),
            offset < self.spec_size(),
        ensures
            a == self.spec_base() + offset,
    {
        self.base + offset
    }

    /// The base address of the reservation.
    pub fn as_ptr(&self) -> (a: usize)
        ensures
            a == self.spec_base(),
    {
        self.base
    }

    /// The total byte size of the reservation.
    pub fn get_size(&self) -> (s: usize)
        ensures
            s == self.spec_size(),
    {
        self.layout.size()
    }
}

} // verus!
