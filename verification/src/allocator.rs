//! The allocator façade.
//!
//! An allocation request is a layout (object size and alignment).  The
//! allocator computes the placement alignment (at least the header's), the
//! padding that puts the object on that alignment right after its header,
//! and the total header-inclusive size; classifies that total; drives the
//! allocation head; writes the header at the placed address; and returns the
//! address just past header and padding.  Header recovery mirrors the same
//! computation: it is one pure function of the object address and the
//! object's alignment, invoked identically on the write path and the
//! read-back path.

use crate::alignment::{
    is_pow2, lemma_divides_trans, lemma_heap_constants_pow2, lemma_mod_sum_zero,
    lemma_pow2_divides, lemma_pow2_pos,
};
use crate::alloc_head::AllocHead;
use crate::arena::Arena;
use crate::constants::{BLOCK_CAPACITY, BLOCK_SIZE, HEADER_ALIGN, HEADER_SIZE, MAX_ALLOC_SIZE};
use crate::error::AllocError;
use crate::header::{Header, Mark};
use crate::layout::Layout;
use crate::size_class::{class_for, SizeClass};
use vstd::arithmetic::div_mod::{
    lemma_mod_division_less_than_divisor, lemma_mod_self_0, lemma_small_mod,
};
use vstd::prelude::*;

verus! {

/// The placement alignment for an object alignment: the larger of the
/// header's alignment and the object's own.
pub open spec fn effective_align(object_align: int) -> int {
    if object_align < HEADER_ALIGN {
        HEADER_ALIGN as int
    } else {
        object_align
    }
}

/// The padding placed between header and object: the least amount that puts
/// the object on `align` when the header itself sits on `align`.  A pure
/// function of the alignment, never stored.
pub open spec fn header_padding(align: int) -> int
    recommends
        align >= 1,
{
    (align - (HEADER_SIZE as int % align)) % align
}

/// The total header-inclusive size of a request.
pub open spec fn total_size(layout: Layout) -> int {
    HEADER_SIZE + header_padding(effective_align(layout.spec_align() as int))
        + layout.spec_size()
}

/// The header address recovered from an object address and the object's
/// alignment; the exact mirror of the placement computation.
pub open spec fn spec_header_addr(object_addr: int, object_align: int) -> int {
    object_addr - HEADER_SIZE - header_padding(effective_align(object_align))
}

/// For any alignment at least the header's size, header plus padding fill
/// exactly one alignment unit.
pub proof fn lemma_header_padding(align: int)
    requires
        align >= HEADER_SIZE,
    ensures
        HEADER_SIZE + header_padding(align) == align,
        (HEADER_SIZE + header_padding(align)) % align == 0,
{
    if align == HEADER_SIZE {
        lemma_mod_self_0(align);
    } else {
        lemma_small_mod(HEADER_SIZE as nat, align as nat);
        lemma_small_mod((align - HEADER_SIZE) as nat, align as nat);
        lemma_mod_self_0(align);
    }
}

/// Law: header recovery mirrors header placement.  For every header base and
/// every object alignment, the object address handed out at allocation time
/// (header base, plus header, plus padding) recovers exactly that header
/// base.
pub proof fn lemma_header_recovery(space: int, object_align: int)
    ensures
        spec_header_addr(
            space + HEADER_SIZE + header_padding(effective_align(object_align)),
            object_align,
        ) == space,
{
}

/// Law: setting a mark on an object and reading it back round-trips exactly,
/// and comparing the stored mark against the arena's current mark reports a
/// match exactly when the mark that was set equals the current one.
pub proof fn lemma_mark_round_trip(
    headers: Map<usize, Header>,
    header_addr: usize,
    mark: Mark,
    current: Mark,
)
    requires
        headers.contains_key(header_addr),
    ensures
        ({
            let updated = headers.insert(header_addr, headers[header_addr].with_mark(mark));
            &&& updated[header_addr].mark == mark
            &&& ((updated[header_addr].mark == current) <==> (mark == current))
        }),
{
}

/// The public façade: computes header-adjusted layout and alignment, drives
/// the allocation head, writes the header, and exposes mark read/write and
/// epoch-comparison operations.
pub struct Allocator {
    head: AllocHead,
}

impl Allocator {
    /// The allocator's bump cursor.
    pub closed spec fn spec_head(&self) -> AllocHead {
        self.head
    }

    /// The allocator is well-formed when its head is.
    pub open spec fn wf(&self) -> bool {
        self.spec_head().wf()
    }

    /// The request fits into what remains of the allocator's current block.
    pub open spec fn fits_current(&self, layout: Layout) -> bool {
        self.spec_head().fits_current(
            total_size(layout),
            effective_align(layout.spec_align() as int),
        )
    }

    /// A fresh allocation front against an arena.  All state the fronts
    /// share — block supply, epoch mark, header memory — lives in the arena
    /// itself, which every operation takes explicitly.
    pub fn new(_arena: &Arena) -> (a: Allocator)
        ensures
            a.wf(),
            !a.spec_head().spec_has_block(),
    {
        Allocator { head: AllocHead::new() }
    }

    /// Allocates an object of the given layout and returns its address.
    ///
    /// The returned address is aligned to the layout's alignment; the header
    /// written immediately before the object (behind the padding that the
    /// alignment dictates) carries the size class of the total padded size,
    /// that size truncated to its 16-bit encoding (exact below block
    /// capacity, unused for large objects), and the arena's current mark.
    /// A request whose total exceeds the maximum representable size fails
    /// with `BadRequest`; otherwise failure means — and only means — that
    /// the block store could not supply the block or span the request needs.
    pub fn allocate(&mut self, arena: &mut Arena, layout: Layout) -> (r: Result<usize, AllocError>)
        requires
            old(self).wf(),
            old(arena).wf(),
            layout.wf(),
        ensures
            final(self).wf(),
            final(arena).wf(),
            final(arena).spec_mark() == old(arena).spec_mark(),
            r == Err::<usize, AllocError>(AllocError::BadRequest) <==> total_size(layout)
                > MAX_ALLOC_SIZE,
            r is Err ==> *final(self) == *old(self) && *final(arena) == *old(arena),
            r matches Ok(addr) ==> {
                let t = total_size(layout);
                let eff = effective_align(layout.spec_align() as int);
                let space = spec_header_addr(addr as int, layout.spec_align() as int);
                &&& addr as int % layout.spec_align() as int == 0
                &&& addr as int % eff == 0
                &&& space >= 0
                &&& addr + layout.spec_size() <= usize::MAX
                &&& final(arena).spec_headers() == old(arena).spec_headers().insert(
                    space as usize,
                    Header {
                        size_class: class_for(t),
                        encoded_size: (t % 65536) as u16,
                        mark: old(arena).spec_mark(),
                    },
                )
            },
            total_size(layout) <= MAX_ALLOC_SIZE && total_size(layout) > BLOCK_CAPACITY ==> {
                &&& (r is Ok <==> old(arena).can_supply_span(
                    total_size(layout),
                    effective_align(layout.spec_align() as int),
                ))
                &&& *final(self) == *old(self)
                &&& r is Ok ==> final(arena).spec_size() == old(arena).spec_size() + total_size(
                    layout,
                )
            },
            total_size(layout) <= BLOCK_CAPACITY && old(self).fits_current(layout) ==> {
                let aligned = crate::alignment::round_up(
                    old(self).spec_head().spec_offset() as int,
                    effective_align(layout.spec_align() as int),
                );
                &&& r is Ok
                &&& final(arena).spec_size() == old(arena).spec_size()
                &&& final(self).spec_head().spec_has_block()
                &&& final(self).spec_head().spec_base() == old(self).spec_head().spec_base()
                &&& final(self).spec_head().spec_offset() == aligned + total_size(layout)
            },
            total_size(layout) <= BLOCK_CAPACITY && !old(self).fits_current(layout) ==> {
                &&& (r is Ok <==> old(arena).can_supply_block())
                &&& r is Ok ==> {
                    &&& final(arena).spec_size() == old(arena).spec_size() + BLOCK_SIZE
                    &&& final(self).spec_head().spec_has_block()
                    &&& final(self).spec_head().spec_offset() == total_size(layout)
                }
            },
    {
        let size = layout.size();
        let object_align = layout.align();
        proof {
            lemma_heap_constants_pow2();
            lemma_pow2_pos(object_align as nat);
        }
        let eff = if object_align < HEADER_ALIGN {
            HEADER_ALIGN
        } else {
            object_align
        };
        proof {
            lemma_header_padding(eff as int);
            lemma_mod_division_less_than_divisor(HEADER_SIZE as int, eff as int);
        }
        let padding = (eff - HEADER_SIZE % eff) % eff;
        let head_and_padding = HEADER_SIZE + padding;
        if size > usize::MAX - head_and_padding {
            return Err(AllocError::BadRequest);
        }
        let alloc_size = head_and_padding + size;
        let size_class = match SizeClass::get_for_size(alloc_size) {
            Ok(c) => c,
            Err(e) => {
                return Err(e);
            },
        };
        let encoded = #[verifier::truncate] (alloc_size as u16);
        proof {
            assert(encoded == alloc_size as int % 65536) by (bit_vector)
                requires
                    encoded == alloc_size as u16,
            ;
        }
        let header = Header::new(size_class, encoded, arena.get_current_mark());
        let alloc_layout = match Layout::from_size_align(alloc_size, eff) {
            Ok(l) => l,
            Err(_) => {
                proof {
                    assert(false);  // the placement alignment is a power of two
                }
                return Err(AllocError::BadRequest);
            },
        };
        proof {
            // a request within block capacity cannot carry an alignment
            // above the block size: the padding alone would overflow the
            // capacity
            if alloc_size <= BLOCK_CAPACITY {
                assert(eff <= alloc_size);
            }
        }
        let space = match self.head.allocate(arena, alloc_layout) {
            Ok(s) => s,
            Err(e) => {
                return Err(e);
            },
        };
        let object_addr = space + head_and_padding;
        arena.write_header(space, header);
        proof {
            lemma_mod_self_0(eff as int);
            lemma_mod_sum_zero(space as int, head_and_padding as int, eff as int);
            if object_align < HEADER_ALIGN {
                lemma_pow2_divides(object_align as nat, HEADER_ALIGN as nat);
                lemma_divides_trans(object_align as int, eff as int, object_addr as int);
            }
        }
        Ok(object_addr)
    }

    /// Recovers the header address of an object from its address and its
    /// alignment, by the same pure computation the write path used.
    pub fn get_header(object_addr: usize, object_align: usize) -> (h: usize)
        requires
            is_pow2(object_align as nat),
            spec_header_addr(object_addr as int, object_align as int) >= 0,
        ensures
            h as int == spec_header_addr(object_addr as int, object_align as int),
    {
        proof {
            lemma_heap_constants_pow2();
            lemma_pow2_pos(object_align as nat);
        }
        let eff = if object_align < HEADER_ALIGN {
            HEADER_ALIGN
        } else {
            object_align
        };
        proof {
            lemma_header_padding(eff as int);
            lemma_mod_division_less_than_divisor(HEADER_SIZE as int, eff as int);
        }
        let padding = (eff - HEADER_SIZE % eff) % eff;
        object_addr - HEADER_SIZE - padding
    }

    /// Reads the mark stored in an object's header.
    pub fn get_mark(arena: &Arena, object_addr: usize, object_align: usize) -> (m: Mark)
        requires
            is_pow2(object_align as nat),
            spec_header_addr(object_addr as int, object_align as int) >= 0,
            arena.spec_headers().contains_key(
                spec_header_addr(object_addr as int, object_align as int) as usize,
            ),
        ensures
            m == arena.spec_headers()[spec_header_addr(
                object_addr as int,
                object_align as int,
            ) as usize].mark,
    {
        let header_addr = Self::get_header(object_addr, object_align);
        match arena.header_at(header_addr) {
            Some(h) => h.get_mark(),
            None => {
                proof {
                    assert(false);  // the object's header was written at allocation time
                }
                Mark::Red
            },
        }
    }

    /// Writes the mark in an object's header, leaving the rest of the header
    /// and all other heap state untouched.
    pub fn set_mark(arena: &mut Arena, object_addr: usize, object_align: usize, mark: Mark)
        requires
            is_pow2(object_align as nat),
            spec_header_addr(object_addr as int, object_align as int) >= 0,
            old(arena).spec_headers().contains_key(
                spec_header_addr(object_addr as int, object_align as int) as usize,
            ),
        ensures
            ({
                let ha = spec_header_addr(object_addr as int, object_align as int) as usize;
                final(arena).spec_headers() == old(arena).spec_headers().insert(
                    ha,
                    old(arena).spec_headers()[ha].with_mark(mark),
                )
            }),
            final(arena).spec_size() == old(arena).spec_size(),
            final(arena).spec_mark() == old(arena).spec_mark(),
            final(arena).spec_store() == old(arena).spec_store(),
    {
        let header_addr = Self::get_header(object_addr, object_align);
        match arena.header_at(header_addr) {
            Some(h) => {
                let mut updated = h;
                updated.set_mark(mark);
                arena.write_header(header_addr, updated);
            },
            None => {
                proof {
                    assert(false);  // the object's header was written at allocation time
                }
            },
        }
    }

    /// Whether the object's stored mark equals the arena's current mark:
    /// true exactly for objects already stamped for the collection epoch in
    /// progress.
    pub fn is_old(&self, arena: &Arena, object_addr: usize, object_align: usize) -> (b: bool)
        requires
            is_pow2(object_align as nat),
            spec_header_addr(object_addr as int, object_align as int) >= 0,
            arena.spec_headers().contains_key(
                spec_header_addr(object_addr as int, object_align as int) as usize,
            ),
        ensures
            b == (arena.spec_headers()[spec_header_addr(
                object_addr as int,
                object_align as int,
            ) as usize].mark == arena.spec_mark()),
    {
        let stored = Self::get_mark(arena, object_addr, object_align);
        let current = self.get_current_mark(arena);
        stored == current
    }

    /// The arena's current epoch mark, as every allocation front sharing the
    /// arena observes it.
    pub fn get_current_mark(&self, arena: &Arena) -> (m: Mark)
        ensures
            m == arena.spec_mark(),
    {
        arena.get_current_mark()
    }
}

} // verus!
