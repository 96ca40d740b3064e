use bump_arena::align::align_up;
use bump_arena::bump::bump;
use bump_arena::region::{AllocError, Region};

#[test]
fn align_up_leaves_multiples_alone() {
    assert_eq!(align_up(0, 1), 0);
    assert_eq!(align_up(0, 8), 0);
    assert_eq!(align_up(16, 8), 16);
    assert_eq!(align_up(4096, 4096), 4096);
    assert_eq!(align_up(7, 1), 7);
}

#[test]
fn align_up_rounds_to_next_multiple() {
    assert_eq!(align_up(1, 8), 8);
    assert_eq!(align_up(7, 8), 8);
    assert_eq!(align_up(9, 8), 16);
    assert_eq!(align_up(13, 4), 16);
    assert_eq!(align_up(1, 2), 2);
    assert_eq!(align_up(4097, 4096), 8192);
    assert_eq!(align_up(100, 64), 128);
}

#[test]
fn align_up_at_the_top_of_the_word() {
    let top: usize = usize::MAX - 7;
    assert_eq!(align_up(top, 8), top);
    assert_eq!(align_up(top - 1, 8), top);
    assert_eq!(align_up(usize::MAX, 1), usize::MAX);
}

#[test]
fn align_up_result_is_least_multiple() {
    let aligns: [usize; 5] = [1, 2, 8, 64, 1024];
    for align in aligns {
        for offset in 0..3000usize {
            let r = align_up(offset, align);
            assert_eq!(r % align, 0);
            assert!(r >= offset);
            assert!(r - offset < align);
        }
    }
}

#[test]
fn bump_grants_aligned_span() {
    assert_eq!(bump(0, 16, 8, 8), Ok(Region { start: 0, end: 8 }));
    assert_eq!(bump(8, 16, 8, 8), Ok(Region { start: 8, end: 16 }));
    assert_eq!(bump(3, 64, 5, 4), Ok(Region { start: 4, end: 9 }));
    assert_eq!(bump(9, 64, 0, 16), Ok(Region { start: 16, end: 16 }));
    assert_eq!(bump(1, 16, 8, 8), Ok(Region { start: 8, end: 16 }));
}

#[test]
fn bump_turns_down_what_does_not_fit() {
    assert_eq!(bump(16, 16, 1, 1), Err(AllocError::OutOfMemory));
    assert_eq!(bump(9, 16, 1, 16), Err(AllocError::OutOfMemory));
    assert_eq!(bump(1, 16, 9, 8), Err(AllocError::OutOfMemory));
    assert_eq!(bump(0, 0, 1, 1), Err(AllocError::OutOfMemory));
}

#[test]
fn bump_turns_down_on_overflow() {
    assert_eq!(bump(8, usize::MAX, usize::MAX, 8), Err(AllocError::OutOfMemory));
    assert_eq!(bump(usize::MAX, usize::MAX, 0, 8), Err(AllocError::OutOfMemory));
    assert_eq!(bump(usize::MAX - 1, usize::MAX, 1, 4), Err(AllocError::OutOfMemory));
    assert_eq!(
        bump(usize::MAX, usize::MAX, 0, 1),
        Ok(Region { start: usize::MAX, end: usize::MAX })
    );
}

#[test]
fn bump_past_the_capacity_is_turned_down() {
    assert_eq!(bump(32, 16, 0, 1), Err(AllocError::OutOfMemory));
    assert_eq!(bump(17, 16, 0, 1), Err(AllocError::OutOfMemory));
}

#[test]
fn region_len_and_overlap() {
    let a = Region { start: 0, end: 8 };
    let b = Region { start: 8, end: 16 };
    let c = Region { start: 4, end: 12 };
    let empty = Region { start: 8, end: 8 };
    let inverted = Region { start: 9, end: 3 };
    assert_eq!(a.len(), 8);
    assert_eq!(empty.len(), 0);
    assert_eq!(inverted.len(), 0);
    assert!(!a.overlaps(&b));
    assert!(!b.overlaps(&a));
    assert!(a.overlaps(&c));
    assert!(c.overlaps(&b));
    assert!(!empty.overlaps(&c));
    assert!(!inverted.overlaps(&c));
    assert!(a.overlaps(&a));
}
