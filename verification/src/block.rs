//! Blocks and the block store.
//!
//! A block is the fixed-size unit of currency between the arena's allocation
//! heads and the store: acquiring one is a move of exclusive access,
//! recycling one is a move back.  The store pools free blocks and, when they
//! run out, reserves a fresh region and carves it into block-aligned blocks.
//! The store's `next_base` cursor is the model platform: addresses before it
//! are owned by some region on record, addresses from it on are still free,
//! and the supply ends exactly when the address space does.

use crate::alignment::{
    is_pow2, lemma_divides_trans, lemma_heap_constants_pow2, lemma_mod_sum_zero,
    lemma_pow2_divides, lemma_round_up, round_up, round_up_to,
};
use crate::constants::{BLOCKS_PER_REGION, BLOCK_SIZE, REGION_SIZE};
use crate::error::AllocError;
use crate::layout::Layout;
use crate::region::Region;
use vstd::arithmetic::div_mod::{lemma_mod_multiples_basic, lemma_small_mod};
use vstd::prelude::*;

verus! {

/// One fixed-size slice of a region, identified by its block-aligned base
/// address.
pub struct Block {
    base: usize,
}

impl Block {
    /// The first address of the block.
    pub closed spec fn spec_base(&self) -> usize {
        self.base
    }

    /// A block base is block-aligned and its whole extent lies inside the
    /// address space.
    pub open spec fn wf(&self) -> bool {
        &&& self.spec_base() as int % BLOCK_SIZE as int == 0
        &&& self.spec_base() + BLOCK_SIZE <= usize::MAX
    }

    /// The first address of the block.
    pub fn base(&self) -> (b: usize)
        ensures
            b == self.spec_base(),
    {
        self.base
    }
}

/// Pools free blocks, recycles returned ones, and reserves new regions when
/// the pool runs dry.
pub struct BlockStore {
    free: Vec<Block>,
    regions: Vec<Region>,
    next_base: usize,
}

impl BlockStore {
    /// The first address not yet backed by any region on record.
    pub closed spec fn spec_next_base(&self) -> usize {
        self.next_base
    }

    /// How many recycled or freshly carved blocks wait in the pool.
    pub closed spec fn spec_free_count(&self) -> nat {
        self.free@.len()
    }

    /// The carve cursor is block-aligned and every pooled block is
    /// well-formed.
    pub open spec fn wf(&self) -> bool {
        &&& self.spec_next_base() as int % BLOCK_SIZE as int == 0
        &&& forall|i: int|
            0 <= i < self.spec_free_count() ==> (#[trigger] self.spec_free_at(i)).wf()
    }

    /// The pooled block at position `i`.
    pub closed spec fn spec_free_at(&self, i: int) -> Block {
        self.free@[i]
    }

    /// A standard block can be supplied: one waits in the pool, or a whole
    /// region still fits in the address space.
    pub open spec fn can_acquire(&self) -> bool {
        self.spec_free_count() > 0 || self.spec_next_base() + REGION_SIZE <= usize::MAX
    }

    /// The base a span for a large object of the given alignment would get:
    /// the carve cursor rounded up to the span's placement alignment.
    pub open spec fn span_base(&self, align: int) -> int {
        round_up(
            self.spec_next_base() as int,
            if align < BLOCK_SIZE { BLOCK_SIZE as int } else { align },
        )
    }

    /// A span of whole blocks holding `size` bytes at `align` still fits in
    /// the address space.
    pub open spec fn can_acquire_span(&self, size: int, align: int) -> bool {
        self.span_base(align) + round_up(size, BLOCK_SIZE as int) <= usize::MAX
    }

    /// An empty store: no pooled blocks, no regions, the whole address space
    /// ahead of the cursor.
    pub fn new() -> (s: BlockStore)
        ensures
            s.wf(),
            s.spec_free_count() == 0,
            s.spec_next_base() == 0,
            s.can_acquire(),
    {
        proof {
            lemma_small_mod(0, BLOCK_SIZE as nat);
        }
        BlockStore { free: Vec::new(), regions: Vec::new(), next_base: 0 }
    }

    /// Returns a block to the pool; ownership transfers fully back to the
    /// store.
    pub fn recycle_block(&mut self, block: Block)
        requires
            old(self).wf(),
            block.wf(),
        ensures
            final(self).wf(),
            final(self).spec_free_count() == old(self).spec_free_count() + 1,
            final(self).spec_next_base() == old(self).spec_next_base(),
    {
        self.free.push(block);
        proof {
            assert forall|j: int|
                0 <= j < self.spec_free_count() implies (#[trigger] self.spec_free_at(j)).wf() by {
                if j < old(self).spec_free_count() {
                    assert(self.free@[j] == old(self).free@[j]);
                    assert(old(self).spec_free_at(j).wf());
                } else {
                    assert(self.free@[j] == block);
                }
            }
        }
    }

    /// Hands out a free block, carving a fresh region first when the pool is
    /// empty.  Fails exactly when the pool is empty and no whole region fits
    /// in the remaining address space.
    pub fn acquire_block(&mut self) -> (r: Result<Block, AllocError>)
        requires
            old(self).wf(),
        ensures
            final(self).wf(),
            r is Ok <==> old(self).can_acquire(),
            r matches Ok(b) ==> b.wf(),
            r is Err ==> r == Err::<Block, AllocError>(AllocError::OutOfMemory) && *final(self)
                == *old(self),
            r is Ok && old(self).spec_free_count() > 0 ==> final(self).spec_free_count() == (
            old(self).spec_free_count() - 1) as nat && final(self).spec_next_base() == old(
                self,
            ).spec_next_base(),
            r is Ok && old(self).spec_free_count() == 0 ==> final(self).spec_free_count()
                == BLOCKS_PER_REGION - 1 && final(self).spec_next_base() == old(
                self,
            ).spec_next_base() + REGION_SIZE,
    {
        if self.free.len() > 0 {
            return self.pop_pooled();
        }
        if self.next_base > usize::MAX - REGION_SIZE {
            return Err(AllocError::OutOfMemory);
        }
        let start = self.next_base;
        proof {
            lemma_heap_constants_pow2();
        }
        let region_layout = match Layout::from_size_align(REGION_SIZE, BLOCK_SIZE) {
            Ok(l) => l,
            Err(_) => {
                return Err(AllocError::OutOfMemory);  // unreachable: the block size is a power of two
            },
        };
        self.regions.push(Region::new_at(region_layout, start));
        let mut i: usize = 0;
        while i < BLOCKS_PER_REGION
            invariant
                i <= BLOCKS_PER_REGION,
                self.free@.len() == i,
                self.next_base == start,
                start as int % BLOCK_SIZE as int == 0,
                start + REGION_SIZE <= usize::MAX,
                forall|j: int| 0 <= j < i ==> (#[trigger] self.free@[j]).wf(),
            decreases BLOCKS_PER_REGION - i,
        {
            let base = start + i * BLOCK_SIZE;
            proof {
                lemma_mod_multiples_basic(i as int, BLOCK_SIZE as int);
                lemma_mod_sum_zero(start as int, i as int * BLOCK_SIZE as int, BLOCK_SIZE as int);
                assert((i + 1) * BLOCK_SIZE <= REGION_SIZE) by (nonlinear_arith)
                    requires
                        i < BLOCKS_PER_REGION,
                        BLOCKS_PER_REGION * BLOCK_SIZE == REGION_SIZE,
                {}
            }
            self.free.push(Block { base });
            i += 1;
        }
        proof {
            lemma_mod_multiples_basic(BLOCKS_PER_REGION as int, BLOCK_SIZE as int);
            lemma_mod_sum_zero(start as int, REGION_SIZE as int, BLOCK_SIZE as int);
        }
        self.next_base = start + REGION_SIZE;
        self.pop_pooled()
    }

    /// Takes the last pooled block out of a nonempty pool.
    fn pop_pooled(&mut self) -> (r: Result<Block, AllocError>)
        requires
            old(self).wf(),
            old(self).spec_free_count() > 0,
        ensures
            final(self).wf(),
            r is Ok,
            r matches Ok(b) ==> b.wf(),
            final(self).spec_free_count() == (old(self).spec_free_count() - 1) as nat,
            final(self).spec_next_base() == old(self).spec_next_base(),
    {
        match self.free.pop() {
            Some(block) => {
                proof {
                    assert(old(self).spec_free_at(old(self).spec_free_count() - 1).wf());
                    assert forall|j: int|
                        0 <= j < self.spec_free_count() implies (#[trigger] self.spec_free_at(
                        j,
                    )).wf() by {
                        assert(self.free@[j] == old(self).free@[j]);
                        assert(old(self).spec_free_at(j).wf());
                    }
                }
                Ok(block)
            },
            None => {
                proof {
                    assert(false);  // the pool was checked to be nonempty
                }
                Err(AllocError::OutOfMemory)
            },
        }
    }

    /// Reserves a span of whole blocks that holds one large object of
    /// `size` bytes placed at `align`, and hands back the span's base.  The
    /// span is never pooled: it belongs to that object alone.  Fails exactly
    /// when the span does not fit in the remaining address space.
    pub fn acquire_span(&mut self, size: usize, align: usize) -> (r: Result<usize, AllocError>)
        requires
            old(self).wf(),
            is_pow2(align as nat),
        ensures
            final(self).wf(),
            r is Ok <==> old(self).can_acquire_span(size as int, align as int),
            r matches Ok(base) ==> base as int % align as int == 0 && base + size <= usize::MAX
                && base as int == old(self).span_base(align as int),
            r is Err ==> r == Err::<usize, AllocError>(AllocError::OutOfMemory) && *final(self)
                == *old(self),
            final(self).spec_free_count() == old(self).spec_free_count(),
    {
        proof {
            lemma_heap_constants_pow2();
        }
        let placement = if align < BLOCK_SIZE {
            BLOCK_SIZE
        } else {
            align
        };
        proof {
            lemma_pow2_divides(BLOCK_SIZE as nat, placement as nat);
            lemma_round_up(self.next_base as int, placement as int);
            lemma_round_up(size as int, BLOCK_SIZE as int);
        }
        let start = match round_up_to(self.next_base, placement) {
            Some(s) => s,
            None => {
                return Err(AllocError::OutOfMemory);
            },
        };
        let span = match round_up_to(size, BLOCK_SIZE) {
            Some(s) => s,
            None => {
                return Err(AllocError::OutOfMemory);
            },
        };
        if start > usize::MAX - span {
            return Err(AllocError::OutOfMemory);
        }
        proof {
            // the span base respects both the placement and the block grid
            lemma_divides_trans(BLOCK_SIZE as int, placement as int, start as int);
            if align < BLOCK_SIZE {
                lemma_pow2_divides(align as nat, BLOCK_SIZE as nat);
                lemma_divides_trans(align as int, BLOCK_SIZE as int, start as int);
            }
            lemma_mod_sum_zero(start as int, span as int, BLOCK_SIZE as int);
        }
        let span_layout = match Layout::from_size_align(span, BLOCK_SIZE) {
            Ok(l) => l,
            Err(_) => {
                return Err(AllocError::OutOfMemory);  // unreachable: the block size is a power of two
            },
        };
        self.regions.push(Region::new_at(span_layout, start));
        self.next_base = start + span;
        proof {
            assert forall|j: int|
                0 <= j < self.spec_free_count() implies (#[trigger] self.spec_free_at(j)).wf() by {
                assert(self.free@[j] == old(self).free@[j]);
                assert(old(self).spec_free_at(j).wf());
            }
        }
        Ok(start)
    }
}

} // verus!
