use blockheap::allocator::Allocator;
use blockheap::arena::Arena;
use blockheap::block::BlockStore;
use blockheap::constants::{
    BLOCKS_PER_REGION, BLOCK_CAPACITY, BLOCK_SIZE, HEADER_SIZE, MAX_ALLOC_SIZE, REGION_SIZE,
    SMALL_OBJECT_MAX,
};
use blockheap::error::AllocError;
use blockheap::header::Mark;
use blockheap::layout::Layout;
use blockheap::region::Region;
use blockheap::size_class::SizeClass;

#[test]
fn size_class_exact_values() {
    assert_eq!(SizeClass::get_for_size(0), Ok(SizeClass::Small));
    assert_eq!(SizeClass::get_for_size(SMALL_OBJECT_MAX), Ok(SizeClass::Small));
    assert_eq!(
        SizeClass::get_for_size(SMALL_OBJECT_MAX + 1),
        Ok(SizeClass::Medium)
    );
    assert_eq!(SizeClass::get_for_size(BLOCK_CAPACITY), Ok(SizeClass::Medium));
    assert_eq!(
        SizeClass::get_for_size(BLOCK_CAPACITY + 1),
        Ok(SizeClass::Large)
    );
    assert_eq!(SizeClass::get_for_size(MAX_ALLOC_SIZE), Ok(SizeClass::Large));
    assert_eq!(
        SizeClass::get_for_size(MAX_ALLOC_SIZE + 1),
        Err(AllocError::BadRequest)
    );
}

#[test]
fn alloc_at_size_boundary() {
    let mut arena = Arena::new();
    let mut allocator = Allocator::new(&arena);
    // the header-inclusive total lands exactly on the boundary: succeeds
    let at_boundary = Layout::from_size_align(MAX_ALLOC_SIZE - HEADER_SIZE, 8).unwrap();
    assert!(allocator.allocate(&mut arena, at_boundary).is_ok());
    // one byte more and no size class is assignable
    let over = Layout::from_size_align(MAX_ALLOC_SIZE - HEADER_SIZE + 1, 8).unwrap();
    assert_eq!(
        allocator.allocate(&mut arena, over),
        Err(AllocError::BadRequest)
    );
}

#[test]
fn encoded_size_truncates_for_large() {
    let mut arena = Arena::new();
    let mut allocator = Allocator::new(&arena);
    // total size 70_008 overflows the 16-bit field, but the object is Large
    // and the allocation still succeeds
    let layout = Layout::from_size_align(70_000, 8).unwrap();
    let ptr = allocator.allocate(&mut arena, layout).unwrap();
    let header = arena.header_at(Allocator::get_header(ptr, 8)).unwrap();
    assert_eq!(header.get_size_class(), SizeClass::Large);
    assert_eq!(header.get_size(), ((70_000 + HEADER_SIZE) % 65536) as u16);
}

#[test]
fn encoded_size_exact_for_small_and_medium() {
    let mut arena = Arena::new();
    let mut allocator = Allocator::new(&arena);
    let layout = Layout::from_size_align(500, 4).unwrap();
    let ptr = allocator.allocate(&mut arena, layout).unwrap();
    let header = arena.header_at(Allocator::get_header(ptr, 4)).unwrap();
    assert_eq!(header.get_size_class(), SizeClass::Medium);
    assert_eq!(header.get_size(), (HEADER_SIZE + 500) as u16);
}

#[test]
fn mark_round_trip() {
    let mut arena = Arena::new();
    let mut allocator = Allocator::new(&arena);
    let layout = Layout::from_size_align(32, 8).unwrap();
    let ptr = allocator.allocate(&mut arena, layout).unwrap();

    // a fresh object is stamped with the arena's current mark
    assert_eq!(Allocator::get_mark(&arena, ptr, 8), Mark::Red);
    assert!(allocator.is_old(&arena, ptr, 8));

    // setting and reading a mark round-trips exactly
    Allocator::set_mark(&mut arena, ptr, 8, Mark::Blue);
    assert_eq!(Allocator::get_mark(&arena, ptr, 8), Mark::Blue);
    assert!(!allocator.is_old(&arena, ptr, 8));

    // setting it back to match the current mark flips the verdict again
    Allocator::set_mark(&mut arena, ptr, 8, Mark::Red);
    assert!(allocator.is_old(&arena, ptr, 8));
}

#[test]
fn epoch_flip_changes_old_status() {
    let mut arena = Arena::new();
    let mut allocator = Allocator::new(&arena);
    let layout = Layout::from_size_align(8, 8).unwrap();
    let ptr = allocator.allocate(&mut arena, layout).unwrap();
    assert_eq!(allocator.get_current_mark(&arena), Mark::Red);
    assert!(allocator.is_old(&arena, ptr, 8));

    // the collector flips the shared mark at an epoch boundary
    arena.set_current_mark(Mark::Blue);
    assert_eq!(allocator.get_current_mark(&arena), Mark::Blue);
    assert!(!allocator.is_old(&arena, ptr, 8));
}

#[test]
fn repeated_small_allocs_keep_size() {
    let mut arena = Arena::new();
    let mut allocator = Allocator::new(&arena);
    let layout = Layout::from_size_align(16, 8).unwrap();
    allocator.allocate(&mut arena, layout).unwrap();
    assert_eq!(arena.get_size(), BLOCK_SIZE);
    for _ in 0..100 {
        allocator.allocate(&mut arena, layout).unwrap();
    }
    assert_eq!(arena.get_size(), BLOCK_SIZE);
}

#[test]
fn header_recovery_matches_alloc_class() {
    let mut arena = Arena::new();
    let mut allocator = Allocator::new(&arena);
    for (size, align, class) in [
        (1, 1, SizeClass::Small),
        (100, 4, SizeClass::Small),
        (300, 8, SizeClass::Medium),
        (BLOCK_CAPACITY, 16, SizeClass::Large),
        (BLOCK_CAPACITY * 3, 64, SizeClass::Large),
    ] {
        let layout = Layout::from_size_align(size, align).unwrap();
        let ptr = allocator.allocate(&mut arena, layout).unwrap();
        let header = arena.header_at(Allocator::get_header(ptr, align)).unwrap();
        assert_eq!(header.get_size_class(), class);
    }
}

#[test]
fn layout_rejects_bad_alignments() {
    assert_eq!(Layout::from_size_align(8, 0), Err(AllocError::BadRequest));
    assert_eq!(Layout::from_size_align(8, 3), Err(AllocError::BadRequest));
    assert_eq!(Layout::from_size_align(8, 12), Err(AllocError::BadRequest));
    assert!(Layout::from_size_align(8, 1).is_ok());
    assert!(Layout::from_size_align(0, 4096).is_ok());
}

#[test]
fn block_store_supply_and_recycle() {
    let mut store = BlockStore::new();
    let first = store.acquire_block().unwrap();
    let second = store.acquire_block().unwrap();
    assert_eq!(first.base() % BLOCK_SIZE, 0);
    assert_eq!(second.base() % BLOCK_SIZE, 0);
    assert_ne!(first.base(), second.base());

    // a recycled block is handed out again before any fresh one
    let recycled_base = first.base();
    store.recycle_block(first);
    let third = store.acquire_block().unwrap();
    assert_eq!(third.base(), recycled_base);

    // draining a whole region's worth forces the next region
    let mut store = BlockStore::new();
    let mut bases = Vec::new();
    for _ in 0..BLOCKS_PER_REGION {
        bases.push(store.acquire_block().unwrap().base());
    }
    assert!(bases.iter().all(|b| b < &REGION_SIZE));
    let beyond = store.acquire_block().unwrap();
    assert!(beyond.base() >= REGION_SIZE);
}

#[test]
fn region_reservation() {
    let region = Region::default().unwrap();
    assert_eq!(region.get_size(), REGION_SIZE);
    assert_eq!(region.as_ptr(), 0);
    assert_eq!(region.at_offset(17), region.as_ptr() + 17);

    let layout = Layout::from_size_align(BLOCK_SIZE, BLOCK_SIZE).unwrap();
    let small_region = Region::new(layout).unwrap();
    assert_eq!(small_region.get_size(), BLOCK_SIZE);
}
