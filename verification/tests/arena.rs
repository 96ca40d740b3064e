use bump_arena::allocator::BumpAllocator;
use bump_arena::region::{AllocError, Region};

#[test]
fn two_words_fill_sixteen_bytes() {
    let mut arena = BumpAllocator::new(16);
    assert_eq!(arena.allocate(8, 8), Ok(Region { start: 0, end: 8 }));
    assert_eq!(arena.offset(), 8);
    assert_eq!(arena.allocate(8, 8), Ok(Region { start: 8, end: 16 }));
    assert_eq!(arena.offset(), 16);
    assert_eq!(arena.allocate(1, 1), Err(AllocError::OutOfMemory));
    assert_eq!(arena.offset(), 16);
    arena.reset();
    assert_eq!(arena.allocate(8, 8), Ok(Region { start: 0, end: 8 }));
}

#[test]
fn reset_of_new_arena_changes_nothing() {
    let mut arena = BumpAllocator::new(64);
    assert_eq!(arena.offset(), 0);
    assert_eq!(arena.capacity(), 64);
    arena.reset();
    assert_eq!(arena.offset(), 0);
    assert_eq!(arena.capacity(), 64);
    assert_eq!(arena.bytes(), &[0u8; 64][..]);
}

#[test]
fn no_capacity_grants_no_byte() {
    let mut arena = BumpAllocator::new(0);
    let sizes: [usize; 5] = [1, 2, 8, 4096, usize::MAX];
    let aligns: [usize; 4] = [1, 2, 8, 4096];
    for size in sizes {
        for align in aligns {
            assert_eq!(arena.allocate(size, align), Err(AllocError::OutOfMemory));
            assert_eq!(arena.offset(), 0);
        }
    }
}

#[test]
fn no_capacity_still_grants_nothing_at_all() {
    let mut arena = BumpAllocator::new(0);
    assert_eq!(arena.allocate(0, 1), Ok(Region { start: 0, end: 0 }));
    assert_eq!(arena.offset(), 0);
}

#[test]
fn failure_leaves_cursor_and_repeats() {
    let mut arena = BumpAllocator::new(32);
    assert_eq!(arena.allocate(5, 1), Ok(Region { start: 0, end: 5 }));
    assert_eq!(arena.allocate(25, 8), Err(AllocError::OutOfMemory));
    assert_eq!(arena.offset(), 5);
    assert_eq!(arena.allocate(25, 8), Err(AllocError::OutOfMemory));
    assert_eq!(arena.offset(), 5);
    assert_eq!(arena.allocate(24, 8), Ok(Region { start: 8, end: 32 }));
    assert_eq!(arena.offset(), 32);
}

#[test]
fn exact_fit_succeeds_and_one_more_fails() {
    let mut arena = BumpAllocator::new(24);
    assert_eq!(arena.allocate(24, 8), Ok(Region { start: 0, end: 24 }));
    assert_eq!(arena.allocate(0, 8), Ok(Region { start: 24, end: 24 }));
    assert_eq!(arena.allocate(1, 1), Err(AllocError::OutOfMemory));
    assert_eq!(arena.offset(), 24);
}

#[test]
fn overflowing_size_is_out_of_memory() {
    let mut arena = BumpAllocator::new(64);
    assert_eq!(arena.allocate(3, 1), Ok(Region { start: 0, end: 3 }));
    assert_eq!(arena.allocate(usize::MAX, 8), Err(AllocError::OutOfMemory));
    assert_eq!(arena.allocate(usize::MAX - 7, 8), Err(AllocError::OutOfMemory));
    assert_eq!(arena.offset(), 3);
    let high: usize = 1 << (usize::BITS - 1);
    assert_eq!(arena.allocate(0, high), Err(AllocError::OutOfMemory));
    assert_eq!(arena.offset(), 3);
}

#[test]
fn reset_replays_first_request() {
    let requests: [(usize, usize); 4] = [(8, 8), (3, 1), (100, 64), (0, 16)];
    for (size, align) in requests {
        let mut arena = BumpAllocator::new(128);
        let first = arena.allocate(size, align);
        assert_eq!(first, Ok(Region { start: 0, end: size }));
        assert!(arena.allocate(7, 4).is_ok());
        assert!(arena.allocate(1, 2).is_ok());
        arena.reset();
        assert_eq!(arena.offset(), 0);
        assert_eq!(arena.allocate(size, align), first);
    }
}

#[test]
fn granted_regions_are_aligned_and_apart() {
    let requests: [(usize, usize); 8] =
        [(1, 1), (8, 8), (3, 2), (16, 16), (0, 4), (5, 1), (32, 32), (7, 8)];
    let mut arena = BumpAllocator::new(256);
    let mut granted: Vec<Region> = Vec::new();
    for (size, align) in requests {
        let region = arena.allocate(size, align).unwrap();
        assert_eq!(region.start % align, 0);
        assert_eq!(region.len(), size);
        assert!(region.end <= arena.capacity());
        assert_eq!(arena.offset(), region.end);
        granted.push(region);
    }
    assert_eq!(
        granted,
        vec![
            Region { start: 0, end: 1 },
            Region { start: 8, end: 16 },
            Region { start: 16, end: 19 },
            Region { start: 32, end: 48 },
            Region { start: 48, end: 48 },
            Region { start: 48, end: 53 },
            Region { start: 64, end: 96 },
            Region { start: 96, end: 103 },
        ]
    );
    for i in 0..granted.len() {
        for j in 0..granted.len() {
            if i != j {
                assert!(!granted[i].overlaps(&granted[j]));
            }
        }
    }
}

#[test]
fn fill_sets_only_the_region() {
    let mut arena = BumpAllocator::new(16);
    let a = arena.allocate(4, 4).unwrap();
    let b = arena.allocate(4, 8).unwrap();
    assert!(arena.fill(a, 7));
    assert!(arena.fill(b, 9));
    assert_eq!(
        arena.bytes(),
        &[7u8, 7, 7, 7, 0, 0, 0, 0, 9, 9, 9, 9, 0, 0, 0, 0][..]
    );
    assert_eq!(arena.offset(), 12);
}

#[test]
fn fill_outside_the_buffer_is_refused() {
    let mut arena = BumpAllocator::new(8);
    assert!(!arena.fill(Region { start: 4, end: 9 }, 1));
    assert!(!arena.fill(Region { start: 6, end: 2 }, 1));
    assert_eq!(arena.bytes(), &[0u8; 8][..]);
    assert!(arena.fill(Region { start: 8, end: 8 }, 1));
    assert!(arena.fill(Region { start: 0, end: 8 }, 1));
    assert_eq!(arena.bytes(), &[1u8; 8][..]);
}

#[test]
fn write_copies_to_the_start_of_the_region() {
    let mut arena = BumpAllocator::new(16);
    let _ = arena.allocate(3, 1).unwrap();
    let region = arena.allocate(8, 4).unwrap();
    assert_eq!(region, Region { start: 4, end: 12 });
    assert!(arena.write(region, &[1, 2, 3, 4, 5]));
    assert_eq!(
        arena.bytes(),
        &[0u8, 0, 0, 0, 1, 2, 3, 4, 5, 0, 0, 0, 0, 0, 0, 0][..]
    );
    assert!(!arena.write(region, &[9; 9]));
    assert!(!arena.write(Region { start: 12, end: 17 }, &[9]));
    assert!(!arena.write(Region { start: 12, end: 4 }, &[]));
    assert!(arena.write(region, &[]));
    assert_eq!(
        arena.bytes(),
        &[0u8, 0, 0, 0, 1, 2, 3, 4, 5, 0, 0, 0, 0, 0, 0, 0][..]
    );
}

#[test]
fn reset_and_allocate_keep_the_contents() {
    let mut arena = BumpAllocator::new(8);
    let region = arena.allocate(8, 8).unwrap();
    assert!(arena.write(region, &[1, 2, 3, 4, 5, 6, 7, 8]));
    arena.reset();
    assert_eq!(arena.bytes(), &[1u8, 2, 3, 4, 5, 6, 7, 8][..]);
    assert_eq!(arena.allocate(4, 4), Ok(Region { start: 0, end: 4 }));
    assert_eq!(arena.bytes(), &[1u8, 2, 3, 4, 5, 6, 7, 8][..]);
}

#[test]
fn many_words_then_reset_cycles() {
    let count: usize = 1000;
    let mut arena = BumpAllocator::new(count * 8 * 2);
    for _ in 0..10 {
        for i in 0..count {
            assert_eq!(arena.allocate(8, 8), Ok(Region { start: i * 8, end: i * 8 + 8 }));
        }
        assert_eq!(arena.offset(), count * 8);
        arena.reset();
    }
}

#[test]
fn allocate_until_out_of_memory() {
    let mut arena = BumpAllocator::new(1024);
    let mut granted: usize = 0;
    while arena.allocate(8, 8).is_ok() {
        granted += 1;
    }
    assert_eq!(granted, 128);
    assert_eq!(arena.offset(), 1024);
}
