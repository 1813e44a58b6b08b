use blockheap::allocator::Allocator;
use blockheap::arena::Arena;
use blockheap::constants::{BLOCK_CAPACITY, BLOCK_SIZE, HEADER_ALIGN, HEADER_SIZE};
use blockheap::header::Mark;
use blockheap::layout::Layout;
use blockheap::size_class::SizeClass;

#[test]
fn hello_alloc() {
    let mut arena = Arena::new();
    let mut allocator = Allocator::new(&arena);
    let name = "Hello Alloc";
    let layout = Layout::from_size_align(
        std::mem::size_of_val(&name),
        std::mem::align_of_val(&name),
    )
    .unwrap();

    assert_eq!(arena.get_size(), 0);

    allocator.allocate(&mut arena, layout).unwrap();

    assert_eq!(arena.get_size(), BLOCK_SIZE);
}

#[test]
fn alloc_large() {
    let mut arena = Arena::new();
    let mut allocator = Allocator::new(&arena);
    let layout = Layout::from_size_align(
        std::mem::size_of::<usize>() * BLOCK_SIZE,
        std::mem::align_of::<usize>(),
    )
    .unwrap();

    assert_eq!(arena.get_size(), 0);

    allocator.allocate(&mut arena, layout).unwrap();
}

#[test]
fn alloc_many_single_bytes() {
    let mut arena = Arena::new();
    let mut allocator = Allocator::new(&arena);
    let layout = Layout::from_size_align(1, 1).unwrap();

    for _ in 0..100_000 {
        allocator.allocate(&mut arena, layout).unwrap();
    }
}

#[test]
fn alloc_too_big() {
    let mut arena = Arena::new();
    let mut allocator = Allocator::new(&arena);
    let layout = Layout::from_size_align(u32::MAX as usize, 8).unwrap();
    let result = allocator.allocate(&mut arena, layout);
    assert!(result.is_err());
}

#[test]
fn alloc_two_large_arrays() {
    let mut arena = Arena::new();
    let mut allocator = Allocator::new(&arena);
    let layout = Layout::from_size_align(BLOCK_CAPACITY / 2, 8).unwrap();
    allocator.allocate(&mut arena, layout).unwrap();
    assert_eq!(arena.get_size(), BLOCK_SIZE);
    allocator.allocate(&mut arena, layout).unwrap();
    assert_eq!(arena.get_size(), BLOCK_SIZE * 2);
}

#[test]
fn refresh_arena() {
    let mut arena = Arena::new();
    let mut allocator = Allocator::new(&arena);
    let layout = Layout::from_size_align(BLOCK_CAPACITY / 2, 8).unwrap();
    for _ in 0..20 {
        allocator.allocate(&mut arena, layout).unwrap();
    }
    assert!(arena.get_size() > 10 * BLOCK_SIZE);
    arena.refresh();
    assert_eq!(arena.get_size(), BLOCK_SIZE);
}

#[test]
fn object_align() {
    let mut arena = Arena::new();
    let mut allocator = Allocator::new(&arena);
    for i in 0..10 {
        let align: usize = 2_usize.pow(i);
        let layout = Layout::from_size_align(32, align).unwrap();
        let ptr = allocator.allocate(&mut arena, layout).unwrap();

        assert!((ptr % align) == 0)
    }
}

#[test]
fn clone_size_class() {
    // this is just for test coverage
    let foo = SizeClass::get_for_size(69);
    let clone = foo;

    assert!(foo == clone);
}

#[test]
fn large_object_align() {
    let mut arena = Arena::new();
    let mut allocator = Allocator::new(&arena);
    let layout = Layout::from_size_align(BLOCK_CAPACITY * 2, 128).unwrap();
    let ptr = allocator.allocate(&mut arena, layout).unwrap();

    assert!((ptr % 128) == 0)
}

#[test]
fn arena_get_size() {
    let mut arena = Arena::new();
    let mut alloc_front = Allocator::new(&arena);

    let small = Layout::from_size_align(1, 1).unwrap();
    let medium = Layout::from_size_align(512, 1).unwrap();
    let large = Layout::from_size_align(80_000, 1).unwrap();

    let p1 = alloc_front.allocate(&mut arena, small).unwrap();
    let p2 = alloc_front.allocate(&mut arena, medium).unwrap();
    let p3 = alloc_front.allocate(&mut arena, large).unwrap();
    Allocator::set_mark(&mut arena, p1, 1, Mark::Red);
    Allocator::set_mark(&mut arena, p2, 1, Mark::Red);
    Allocator::set_mark(&mut arena, p3, 1, Mark::Red);

    let small_header = Allocator::get_header(p1, 1);
    let med_header = Allocator::get_header(p2, 1);
    let large_header = Allocator::get_header(p3, 1);

    assert_eq!(
        arena.header_at(small_header).unwrap().get_size_class(),
        SizeClass::Small
    );
    assert_eq!(
        arena.header_at(med_header).unwrap().get_size_class(),
        SizeClass::Medium
    );
    assert_eq!(
        arena.header_at(large_header).unwrap().get_size_class(),
        SizeClass::Large
    );

    let align = if large.align() < HEADER_ALIGN {
        HEADER_ALIGN
    } else {
        large.align()
    };
    let header_size = HEADER_SIZE;
    let padding = (align - (header_size % align)) % align;
    let large_size = header_size + padding + large.size();

    assert_eq!(arena.get_size(), BLOCK_SIZE + large_size);
}
