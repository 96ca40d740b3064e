//! The bump step: where the next region goes, given the cursor.
//!
//! Both arenas decide a request with [`bump`]; what they add is where the
//! cursor is kept.
use crate::align::{
    align_up, align_up_spec, is_power_of_two, lemma_align_up_bounds, lemma_align_up_is_multiple,
    lemma_align_up_overflow,
};
use crate::region::{AllocError, Region};
use vstd::prelude::*;

verus! {

/// Whether `size` bytes aligned to `align` fit between `cursor` and
/// `capacity`.
pub open spec fn fits(cursor: usize, capacity: usize, size: usize, align: usize) -> bool {
    align_up_spec(cursor as int, align as int) + size <= capacity
}

/// The outcome of a request made at `cursor`: the region that starts at the
/// cursor rounded up to `align` and spans `size` bytes, if that ends within
/// `capacity`.
pub open spec fn bump_spec(cursor: usize, capacity: usize, size: usize, align: usize) -> Result<
    Region,
    AllocError,
> {
    if fits(cursor, capacity, size, align) {
        Ok(
            Region {
                start: align_up_spec(cursor as int, align as int) as usize,
                end: (align_up_spec(cursor as int, align as int) + size) as usize,
            },
        )
    } else {
        Err(AllocError::OutOfMemory)
    }
}

/// Where the cursor stands after a request made at `cursor`: at the end of
/// the region granted, or where it was.
pub open spec fn cursor_after(cursor: usize, capacity: usize, size: usize, align: usize) -> usize {
    match bump_spec(cursor, capacity, size, align) {
        Ok(region) => region.end,
        Err(_) => cursor,
    }
}

/// A granted region starts at a multiple of the alignment, at or after the
/// cursor and less than one alignment step from it, spans the requested size
/// and ends within the capacity.
pub proof fn lemma_bump_grant(cursor: usize, capacity: usize, size: usize, align: usize)
    requires
        align > 0,
        fits(cursor, capacity, size, align),
    ensures
        bump_spec(cursor, capacity, size, align) matches Ok(region) && {
            &&& region.start % align == 0
            &&& cursor <= region.start < cursor + align
            &&& region.end == region.start + size
            &&& region.end <= capacity
        },
{
    lemma_align_up_bounds(cursor as int, align as int);
    lemma_align_up_is_multiple(cursor as int, align as int);
}

/// The cursor never moves back on a request.
pub proof fn lemma_cursor_monotonic(cursor: usize, capacity: usize, size: usize, align: usize)
    requires
        align > 0,
    ensures
        cursor <= cursor_after(cursor, capacity, size, align),
        cursor <= capacity ==> cursor_after(cursor, capacity, size, align) <= capacity,
{
    if fits(cursor, capacity, size, align) {
        lemma_bump_grant(cursor, capacity, size, align);
    }
}

/// A request that was turned down is turned down again: the cursor it left
/// behind is the cursor it met.
pub proof fn lemma_failure_repeats(cursor: usize, capacity: usize, size: usize, align: usize)
    requires
        bump_spec(cursor, capacity, size, align) is Err,
    ensures
        cursor_after(cursor, capacity, size, align) == cursor,
        bump_spec(
            cursor_after(cursor, capacity, size, align),
            capacity,
            size,
            align,
        ) == bump_spec(cursor, capacity, size, align),
{
}

/// With no capacity, no request for one byte or more is granted.
pub proof fn lemma_no_capacity(cursor: usize, size: usize, align: usize)
    requires
        align > 0,
        size > 0,
    ensures
        bump_spec(cursor, 0, size, align) == Err::<Region, AllocError>(AllocError::OutOfMemory),
{
    lemma_align_up_bounds(cursor as int, align as int);
}

/// A region granted at a cursor lies before every region granted at or after
/// the cursor that the first grant left behind.
pub proof fn lemma_later_grant_follows(
    cursor: usize,
    capacity: usize,
    size: usize,
    align: usize,
    later: usize,
    later_size: usize,
    later_align: usize,
)
    requires
        align > 0,
        later_align > 0,
        fits(cursor, capacity, size, align),
        cursor_after(cursor, capacity, size, align) <= later,
        fits(later, capacity, later_size, later_align),
    ensures
        bump_spec(cursor, capacity, size, align).unwrap().precedes(
            bump_spec(later, capacity, later_size, later_align).unwrap(),
        ),
        bump_spec(cursor, capacity, size, align).unwrap().disjoint(
            bump_spec(later, capacity, later_size, later_align).unwrap(),
        ),
{
    lemma_bump_grant(cursor, capacity, size, align);
    lemma_bump_grant(later, capacity, later_size, later_align);
}

/// Decides a request made at `cursor` against `capacity`: rounds the cursor up
/// to `align`, adds `size`, and grants the span between the two unless it ends
/// beyond the capacity or beyond what a word can hold.
///
/// `align` must be a power of two.
pub fn bump(cursor: usize, capacity: usize, size: usize, align: usize) -> (res: Result<
    Region,
    AllocError,
>)
    requires
        is_power_of_two(align),
    ensures
        res == bump_spec(cursor, capacity, size, align),
{
    if cursor.checked_add(align - 1).is_none() {
        proof {
            lemma_align_up_overflow(cursor, align);
        }
        return Err(AllocError::OutOfMemory);
    }
    let start: usize = align_up(cursor, align);
    match start.checked_add(size) {
        None => Err(AllocError::OutOfMemory),
        Some(end) => {
            if end > capacity {
                Err(AllocError::OutOfMemory)
            } else {
                Ok(Region { start, end })
            }
        },
    }
}

} // verus!
