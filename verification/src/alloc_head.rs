//! The allocation head: a bump-pointer cursor over one block at a time.
//!
//! The head places one header-inclusive request after another into its
//! current block, rounding the cursor up to the request's placement
//! alignment.  When the request does not fit in what remains — or there is
//! no current block yet — the head abandons the block and starts a fresh
//! one; the space left behind is a deliberate internal-fragmentation
//! trade-off, reclaimed only by an external compaction pass.  A request too
//! big for any block's usable capacity gets a span of whole blocks to
//! itself, and the head's cursor is not disturbed.

use crate::alignment::{
    lemma_divides_trans, lemma_heap_constants_pow2, lemma_mod_sum_zero, lemma_pow2_divides,
    lemma_round_up, round_up, round_up_to,
};
use crate::arena::Arena;
use crate::block::Block;
use crate::constants::{BLOCK_CAPACITY, BLOCK_SIZE, MAX_ALLOC_SIZE};
use crate::error::AllocError;
use crate::layout::Layout;
use vstd::prelude::*;

verus! {

/// Bump cursor: the current block, if any, and the offset of the first free
/// byte within it.
pub struct AllocHead {
    block: Option<Block>,
    offset: usize,
}

impl AllocHead {
    /// The current block, if the head has started one.
    pub closed spec fn spec_block(&self) -> Option<Block> {
        self.block
    }

    /// The bump offset into the current block.
    pub closed spec fn spec_offset(&self) -> usize {
        self.offset
    }

    /// Whether the head currently holds a block.
    pub open spec fn spec_has_block(&self) -> bool {
        self.spec_block() is Some
    }

    /// The base address of the current block.
    pub open spec fn spec_base(&self) -> int
        recommends
            self.spec_has_block(),
    {
        match self.spec_block() {
            Some(b) => b.spec_base() as int,
            None => 0,
        }
    }

    /// The current block, when there is one, is well-formed and the cursor
    /// stays within its usable capacity.
    pub open spec fn wf(&self) -> bool {
        match self.spec_block() {
            Some(b) => b.wf() && self.spec_offset() <= BLOCK_CAPACITY,
            None => true,
        }
    }

    /// A request of `size` bytes at `align` fits into what remains of the
    /// current block.
    pub open spec fn fits_current(&self, size: int, align: int) -> bool {
        &&& self.spec_has_block()
        &&& round_up(self.spec_offset() as int, align) + size <= BLOCK_CAPACITY
    }

    /// A fresh head with no current block; the first allocation acquires
    /// one.
    pub fn new() -> (h: AllocHead)
        ensures
            h.wf(),
            !h.spec_has_block(),
            h.spec_offset() == 0,
    {
        AllocHead { block: None, offset: 0 }
    }

    /// Places one header-inclusive request and returns the address where its
    /// header goes.  The address satisfies the request's alignment.  A
    /// request within block capacity that fits the current block leaves the
    /// heap size unchanged; one that does not costs one fresh block; one
    /// beyond block capacity costs a dedicated span accounted at its exact
    /// size.  Fails exactly when the block store cannot supply what the
    /// request needs.
    pub fn allocate(&mut self, arena: &mut Arena, layout: Layout) -> (r: Result<usize, AllocError>)
        requires
            old(self).wf(),
            old(arena).wf(),
            layout.wf(),
            layout.spec_size() <= MAX_ALLOC_SIZE,
            layout.spec_size() <= BLOCK_CAPACITY ==> layout.spec_align() <= BLOCK_SIZE,
        ensures
            final(self).wf(),
            final(arena).wf(),
            final(arena).spec_mark() == old(arena).spec_mark(),
            final(arena).spec_headers() == old(arena).spec_headers(),
            r matches Ok(addr) ==> addr as int % layout.spec_align() as int == 0 && addr
                + layout.spec_size() <= usize::MAX,
            r is Err ==> r == Err::<usize, AllocError>(AllocError::OutOfMemory) && *final(self)
                == *old(self) && *final(arena) == *old(arena),
            layout.spec_size() > BLOCK_CAPACITY ==> {
                &&& r is Ok <==> old(arena).can_supply_span(
                    layout.spec_size() as int,
                    layout.spec_align() as int,
                )
                &&& *final(self) == *old(self)
                &&& r is Ok ==> final(arena).spec_size() == old(arena).spec_size()
                    + layout.spec_size()
            },
            layout.spec_size() <= BLOCK_CAPACITY && old(self).fits_current(
                layout.spec_size() as int,
                layout.spec_align() as int,
            ) ==> {
                let aligned = round_up(old(self).spec_offset() as int, layout.spec_align() as int);
                &&& r matches Ok(addr) && addr == old(self).spec_base() + aligned
                &&& final(self).spec_has_block()
                &&& final(self).spec_base() == old(self).spec_base()
                &&& final(self).spec_offset() == aligned + layout.spec_size()
                &&& final(arena).spec_size() == old(arena).spec_size()
            },
            layout.spec_size() <= BLOCK_CAPACITY && !old(self).fits_current(
                layout.spec_size() as int,
                layout.spec_align() as int,
            ) ==> {
                &&& r is Ok <==> old(arena).can_supply_block()
                &&& r matches Ok(addr) ==> {
                    &&& addr as int % BLOCK_SIZE as int == 0
                    &&& final(self).spec_has_block()
                    &&& final(self).spec_base() == addr
                    &&& final(self).spec_offset() == layout.spec_size()
                    &&& final(arena).spec_size() == old(arena).spec_size() + BLOCK_SIZE
                }
            },
    {
        let size = layout.size();
        let align = layout.align();
        proof {
            lemma_heap_constants_pow2();
            crate::alignment::lemma_pow2_pos(align as nat);
        }
        if size > BLOCK_CAPACITY {
            return arena.acquire_span(size, align);
        }
        proof {
            lemma_pow2_divides(align as nat, BLOCK_SIZE as nat);
            lemma_round_up(self.offset as int, align as int);
        }
        if let Some(ref block) = self.block {
            let aligned = match round_up_to(self.offset, align) {
                Some(a) => a,
                None => {
                    proof {
                        assert(false);  // the rounded cursor is far below the address limit
                    }
                    return Err(AllocError::OutOfMemory);
                },
            };
            if aligned <= BLOCK_CAPACITY && size <= BLOCK_CAPACITY - aligned {
                let base = block.base();
                let addr = base + aligned;
                proof {
                    lemma_divides_trans(align as int, BLOCK_SIZE as int, base as int);
                    lemma_mod_sum_zero(base as int, aligned as int, align as int);
                }
                self.offset = aligned + size;
                return Ok(addr);
            }
        }
        match arena.acquire_block() {
            Ok(block) => {
                let addr = block.base();
                proof {
                    lemma_divides_trans(align as int, BLOCK_SIZE as int, addr as int);
                }
                self.block = Some(block);
                self.offset = size;
                Ok(addr)
            },
            Err(e) => Err(e),
        }
    }
}

} // verus!
