//! The arena: owner of the block store, of the shared collection-epoch mark,
//! and of the coarse heap-size accounting, together with the heap's header
//! memory.
//!
//! Header memory is modelled as a table from header address to header
//! record; writing a header at allocation time and reading it back through
//! the recovered header address go through this table.  The size counter is
//! block-granular for bump blocks (one block's worth per checked-out block)
//! and exact for large spans, and never decreases except through
//! [`Arena::refresh`].

use crate::alignment::is_pow2;
use crate::block::{Block, BlockStore};
use crate::constants::BLOCK_SIZE;
use crate::error::AllocError;
use crate::header::{Header, Mark};
use std::collections::HashMap;
use vstd::prelude::*;

verus! {

broadcast use vstd::std_specs::hash::group_hash_axioms;

/// Owner of the block store, the shared current mark, the checked-out-bytes
/// counter, and the header memory of the heap.
pub struct Arena {
    store: BlockStore,
    current_mark: Mark,
    size: usize,
    headers: HashMap<usize, Header>,
}

impl Arena {
    /// The block store backing this arena.
    pub closed spec fn spec_store(&self) -> BlockStore {
        self.store
    }

    /// The arena's current epoch mark.
    pub closed spec fn spec_mark(&self) -> Mark {
        self.current_mark
    }

    /// Bytes currently checked out, at block granularity for bump blocks and
    /// exact for large spans.
    pub closed spec fn spec_size(&self) -> usize {
        self.size
    }

    /// The header memory: every header written so far, by header address.
    pub closed spec fn spec_headers(&self) -> Map<usize, Header> {
        self.headers@
    }

    /// The arena is well-formed when its block store is.
    pub open spec fn wf(&self) -> bool {
        self.spec_store().wf()
    }

    /// A standard block can still be supplied and accounted for.
    pub open spec fn can_supply_block(&self) -> bool {
        self.spec_store().can_acquire() && self.spec_size() + BLOCK_SIZE <= usize::MAX
    }

    /// A span for one large object of `size` bytes at `align` can still be
    /// supplied and accounted for.
    pub open spec fn can_supply_span(&self, size: int, align: int) -> bool {
        self.spec_store().can_acquire_span(size, align) && self.spec_size() + size <= usize::MAX
    }

    /// A fresh arena: nothing checked out, no headers written, the current
    /// mark at its initial colour.
    pub fn new() -> (a: Arena)
        ensures
            a.wf(),
            a.spec_size() == 0,
            a.spec_mark() == Mark::Red,
            a.spec_headers() == Map::<usize, Header>::empty(),
            a.spec_store().spec_free_count() == 0,
            a.spec_store().spec_next_base() == 0,
            a.can_supply_block(),
    {
        Arena {
            store: BlockStore::new(),
            current_mark: Mark::Red,
            size: 0,
            headers: HashMap::new(),
        }
    }

    /// The block-granularity heap size: the sum of the sizes of everything
    /// checked out of the block store.
    pub fn get_size(&self) -> (s: usize)
        ensures
            s == self.spec_size(),
    {
        self.size
    }

    /// The current epoch mark, shared by every allocator created against
    /// this arena.
    pub fn get_current_mark(&self) -> (m: Mark)
        ensures
            m == self.spec_mark(),
    {
        self.current_mark
    }

    /// Flips the shared epoch mark; called only at collection-epoch
    /// boundaries.
    pub fn set_current_mark(&mut self, mark: Mark)
        ensures
            final(self).spec_mark() == mark,
            final(self).spec_size() == old(self).spec_size(),
            final(self).spec_headers() == old(self).spec_headers(),
            final(self).spec_store() == old(self).spec_store(),
    {
        self.current_mark = mark;
    }

    /// Collapses the arena's outstanding blocks to exactly one block's
    /// worth.  The abandoned capacity is recycled; the model never re-issues
    /// its addresses, so the collapse shows only in the accounting.
    pub fn refresh(&mut self)
        ensures
            final(self).spec_size() == BLOCK_SIZE,
            final(self).spec_mark() == old(self).spec_mark(),
            final(self).spec_headers() == old(self).spec_headers(),
            final(self).spec_store() == old(self).spec_store(),
    {
        self.size = BLOCK_SIZE;
    }

    /// Checks one standard block out of the store, accounting one block's
    /// worth of heap growth.  Fails exactly when no block can be supplied.
    pub(crate) fn acquire_block(&mut self) -> (r: Result<Block, AllocError>)
        requires
            old(self).wf(),
        ensures
            final(self).wf(),
            r is Ok <==> old(self).can_supply_block(),
            r matches Ok(b) ==> b.wf() && final(self).spec_size() == old(self).spec_size()
                + BLOCK_SIZE,
            r is Err ==> r == Err::<Block, AllocError>(AllocError::OutOfMemory) && *final(self)
                == *old(self),
            final(self).spec_mark() == old(self).spec_mark(),
            final(self).spec_headers() == old(self).spec_headers(),
    {
        if self.size > usize::MAX - BLOCK_SIZE {
            return Err(AllocError::OutOfMemory);
        }
        match self.store.acquire_block() {
            Ok(block) => {
                self.size = self.size + BLOCK_SIZE;
                Ok(block)
            },
            Err(e) => Err(e),
        }
    }

    /// Checks a span for one large object out of the store, accounting the
    /// object's exact size.  Fails exactly when no such span can be
    /// supplied.
    pub(crate) fn acquire_span(&mut self, size: usize, align: usize) -> (r: Result<
        usize,
        AllocError,
    >)
        requires
            old(self).wf(),
            is_pow2(align as nat),
        ensures
            final(self).wf(),
            r is Ok <==> old(self).can_supply_span(size as int, align as int),
            r matches Ok(base) ==> base as int % align as int == 0 && base + size <= usize::MAX
                && final(self).spec_size() == old(self).spec_size() + size,
            r is Err ==> r == Err::<usize, AllocError>(AllocError::OutOfMemory) && *final(self)
                == *old(self),
            final(self).spec_mark() == old(self).spec_mark(),
            final(self).spec_headers() == old(self).spec_headers(),
    {
        if size > usize::MAX - self.size {
            return Err(AllocError::OutOfMemory);
        }
        match self.store.acquire_span(size, align) {
            Ok(base) => {
                self.size = self.size + size;
                Ok(base)
            },
            Err(e) => Err(e),
        }
    }

    /// Writes the header record at a header address.
    pub(crate) fn write_header(&mut self, addr: usize, header: Header)
        ensures
            final(self).spec_headers() == old(self).spec_headers().insert(addr, header),
            final(self).spec_size() == old(self).spec_size(),
            final(self).spec_mark() == old(self).spec_mark(),
            final(self).spec_store() == old(self).spec_store(),
    {
        self.headers.insert(addr, header);
    }

    /// Reads the header record at a header address, if one was ever written
    /// there.
    pub fn header_at(&self, addr: usize) -> (r: Option<Header>)
        ensures
            r matches Some(h) ==> self.spec_headers().contains_key(addr)
                && h == self.spec_headers()[addr],
            r is None ==> !self.spec_headers().contains_key(addr),
    {
        match self.headers.get(&addr) {
            Some(h) => Some(*h),
            None => None,
        }
    }
}

} // verus!
