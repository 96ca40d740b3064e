//! The arena for concurrent callers.
//!
//! The arena keeps a [`Cursor`] behind a lock and hands out offsets of a
//! buffer of `capacity` bytes that its caller owns. Each request and each
//! reset takes the lock, makes one step of the cursor and gives the cursor
//! back: what a step leaves behind is stated at [`Cursor::allocate`] and
//! [`Cursor::reset`].
use crate::align::is_power_of_two;
use crate::bump::{bump_spec, lemma_bump_grant};
use crate::cursor::Cursor;
use crate::region::{AllocError, Region};
use vstd::prelude::*;
use vstd::rwlock::{RwLock, RwLockPredicate};

verus! {

/// What the lock of a [`ThreadSafeBumpAllocator`] keeps true of the cursor it
/// guards: that it runs over the arena's capacity, lies within it, and has
/// handed out its live regions apart from one another.
pub struct CursorBound {
    pub capacity: usize,
}

impl RwLockPredicate<Cursor> for CursorBound {
    open spec fn inv(self, cursor: Cursor) -> bool {
        cursor@.capacity == self.capacity && cursor@.valid()
    }
}

/// Whether `res` is the outcome of a request for `size` bytes aligned to
/// `align` at some cursor within `capacity`.
pub open spec fn answered(capacity: usize, size: usize, align: usize, res: Result<
    Region,
    AllocError,
>) -> bool {
    exists|cursor: usize|
        cursor <= capacity && #[trigger] bump_spec(cursor, capacity, size, align) == res
}

/// Whatever the cursor was, a region granted starts at a multiple of the
/// alignment, spans the requested size and ends within the capacity; and a
/// request for more bytes than the capacity is turned down.
pub proof fn lemma_answered(capacity: usize, size: usize, align: usize, res: Result<
    Region,
    AllocError,
>)
    requires
        align > 0,
        answered(capacity, size, align, res),
    ensures
        res matches Ok(region) ==> {
            &&& region.start % align == 0
            &&& region.end == region.start + size
            &&& region.end <= capacity
        },
        size > capacity ==> res is Err,
{
    let cursor = choose|cursor: usize|
        cursor <= capacity && #[trigger] bump_spec(cursor, capacity, size, align) == res;
    if res is Ok {
        lemma_bump_grant(cursor, capacity, size, align);
    }
}

/// A bump arena that many threads may share: each request and each reset
/// takes the arena's lock, so that each meets a cursor that another has left
/// whole. The arena holds no bytes: its regions are offsets into a buffer of
/// `capacity` bytes that the caller owns.
pub struct ThreadSafeBumpAllocator {
    capacity: usize,
    offset: RwLock<Cursor, CursorBound>,
}

impl ThreadSafeBumpAllocator {
    #[verifier::type_invariant]
    spec fn well_formed(self) -> bool {
        self.offset.pred().capacity == self.capacity
    }

    /// The size in bytes of the buffer whose offsets the arena hands out.
    pub closed spec fn spec_capacity(&self) -> usize {
        self.capacity
    }

    /// Makes an arena over the offsets of a buffer of `capacity` bytes. The
    /// lock is given a cursor as [`Cursor::new`] makes it: at zero.
    pub fn new(capacity: usize) -> (arena: Self)
        ensures
            arena.spec_capacity() == capacity,
    {
        let cursor = Cursor::new(capacity);
        ThreadSafeBumpAllocator {
            capacity,
            offset: RwLock::new(cursor, Ghost(CursorBound { capacity })),
        }
    }

    /// Takes the lock, makes the step [`Cursor::allocate`] and gives the
    /// cursor back: hands out the next `size` bytes aligned to `align`, or
    /// turns the request down. The cursor that the request meets is whatever
    /// the calls before it, from any thread, have left.
    ///
    /// `align` must be a power of two.
    pub fn allocate(&self, size: usize, align: usize) -> (res: Result<Region, AllocError>)
        requires
            is_power_of_two(align),
        ensures
            answered(self.spec_capacity(), size, align, res),
    {
        proof {
            use_type_invariant(self);
        }
        let (mut cursor, handle) = self.offset.acquire_write();
        let res = cursor.allocate(size, align);
        handle.release_write(cursor);
        res
    }

    /// Takes the lock, makes the step [`Cursor::reset`] and gives the cursor
    /// back.
    pub fn reset(&self) {
        proof {
            use_type_invariant(self);
        }
        let (mut cursor, handle) = self.offset.acquire_write();
        cursor.reset();
        handle.release_write(cursor);
    }

    /// The size in bytes of the buffer whose offsets the arena hands out.
    pub fn capacity(&self) -> (n: usize)
        ensures
            n == self.spec_capacity(),
    {
        self.capacity
    }
}

} // verus!
