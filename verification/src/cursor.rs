//! The cursor of an arena by itself: how far a buffer of fixed size has been
//! handed out, and which regions of it are live.
//!
//! A [`Cursor`] keeps no bytes. It is the state that the shared arena keeps
//! behind its lock, and each of its steps says exactly what it leaves behind.
use crate::align::{is_power_of_two, lemma_align_up_of_multiple};
use crate::bump::{bump, bump_spec, cursor_after, fits, lemma_bump_grant};
use crate::region::{lemma_precedes_is_disjoint, AllocError, Region};
use vstd::prelude::*;

verus! {

/// A region that an arena has handed out, with the alignment it was asked
/// for.
pub struct Grant {
    pub region: Region,
    pub align: usize,
}

/// Whether each of the regions `live` starts at a multiple of the alignment
/// it was asked for and ends at or below `cursor`, and each ends where the
/// next begins, or before.
pub open spec fn in_order(live: Seq<Grant>, cursor: usize) -> bool {
    &&& forall|i: int|
        0 <= i < live.len() ==> {
            &&& (#[trigger] live[i]).align > 0
            &&& live[i].region.start % live[i].align == 0
            &&& live[i].region.start <= live[i].region.end
            &&& live[i].region.end <= cursor
        }
    &&& forall|i: int, j: int|
        0 <= i < j < live.len() ==> (#[trigger] live[i]).region.precedes(
            (#[trigger] live[j]).region,
        )
}

/// What a cursor is, to its callers.
pub struct CursorView {
    /// The size in bytes of the buffer that the cursor runs over.
    pub capacity: usize,
    /// The offset up to which the buffer has been handed out.
    pub offset: usize,
    /// The regions handed out since the cursor was made or last reset, oldest
    /// first.
    pub live: Seq<Grant>,
}

impl CursorView {
    /// A cursor as it is made: at zero, with no region live.
    pub open spec fn fresh(capacity: usize) -> CursorView {
        CursorView { capacity, offset: 0, live: Seq::empty() }
    }

    /// What holds of every cursor: it lies within the capacity, and the live
    /// regions are aligned as asked, lie below it, and follow one another in
    /// the order in which they were handed out.
    pub open spec fn valid(self) -> bool {
        &&& self.offset <= self.capacity
        &&& in_order(self.live, self.offset)
    }

    /// The cursor after a request for `size` bytes aligned to `align`: a
    /// granted region moves it to the region's end and joins the live
    /// regions; a request turned down changes nothing.
    pub open spec fn after_request(self, size: usize, align: usize) -> CursorView {
        match bump_spec(self.offset, self.capacity, size, align) {
            Ok(region) => CursorView {
                offset: region.end,
                live: self.live.push(Grant { region, align }),
                ..self
            },
            Err(_) => self,
        }
    }

    /// The cursor after a reset: at zero, with no region live.
    pub open spec fn after_reset(self) -> CursorView {
        CursorView { offset: 0, live: Seq::empty(), ..self }
    }
}

/// Any two of the regions handed out since the cursor was made or last reset
/// share no byte, and each starts at a multiple of the alignment it was asked
/// for and ends within the capacity.
pub proof fn lemma_grants_apart(state: CursorView, i: int, j: int)
    requires
        state.valid(),
        0 <= i < state.live.len(),
        0 <= j < state.live.len(),
        i != j,
    ensures
        state.live[i].region.disjoint(state.live[j].region),
        state.live[i].region.start % state.live[i].align == 0,
        state.live[i].region.start <= state.live[i].region.end <= state.capacity,
{
    if i < j {
        lemma_precedes_is_disjoint(state.live[i].region, state.live[j].region);
    } else {
        lemma_precedes_is_disjoint(state.live[j].region, state.live[i].region);
    }
}

/// Of two live regions the one handed out first starts lower, unless it is
/// empty: grants of a byte or more all start at different offsets.
pub proof fn lemma_grant_starts_rise(state: CursorView, i: int, j: int)
    requires
        state.valid(),
        0 <= i < j < state.live.len(),
        state.live[i].region.spec_len() > 0,
    ensures
        state.live[i].region.start < state.live[j].region.start,
{
    assert(state.live[i].region.precedes(state.live[j].region));
}

/// A request leaves a valid cursor valid and never moves it back: granted, it
/// moves the cursor to the end of the region, which becomes the newest live
/// region; turned down, it leaves the cursor and the live regions as they
/// were.
pub proof fn lemma_request_step(state: CursorView, size: usize, align: usize)
    requires
        state.valid(),
        align > 0,
    ensures
        state.after_request(size, align).valid(),
        state.after_request(size, align).capacity == state.capacity,
        state.after_request(size, align).offset == cursor_after(
            state.offset,
            state.capacity,
            size,
            align,
        ),
        state.after_request(size, align).offset >= state.offset,
        bump_spec(state.offset, state.capacity, size, align) matches Ok(region) ==> {
            &&& state.after_request(size, align).offset == region.end
            &&& state.after_request(size, align).live.len() == state.live.len() + 1
            &&& state.after_request(size, align).live.last() == (Grant { region, align })
        },
        bump_spec(state.offset, state.capacity, size, align) is Err ==> state.after_request(
            size,
            align,
        ) == state,
{
    if fits(state.offset, state.capacity, size, align) {
        lemma_bump_grant(state.offset, state.capacity, size, align);
    }
}

/// A reset leaves a valid cursor valid and as it was made: a reset right
/// after the making changes nothing, and the request that follows a reset is
/// answered as the first request ever was, at offset zero if it is granted.
pub proof fn lemma_reset_step(state: CursorView, size: usize, align: usize)
    requires
        align > 0,
    ensures
        state.after_reset() == CursorView::fresh(state.capacity),
        CursorView::fresh(state.capacity).valid(),
        CursorView::fresh(state.capacity).after_reset() == CursorView::fresh(state.capacity),
        bump_spec(state.after_reset().offset, state.capacity, size, align) == if size
            <= state.capacity {
            Ok::<Region, AllocError>(Region { start: 0, end: size })
        } else {
            Err::<Region, AllocError>(AllocError::OutOfMemory)
        },
{
    lemma_align_up_of_multiple(0, align as int);
}

/// How far a buffer of `capacity` bytes has been handed out. The buffer
/// itself belongs to whoever holds the cursor: a cursor hands out offsets.
pub struct Cursor {
    offset: usize,
    capacity: usize,
    live: Ghost<Seq<Grant>>,
}

impl View for Cursor {
    type V = CursorView;

    closed spec fn view(&self) -> CursorView {
        CursorView { capacity: self.capacity, offset: self.offset, live: self.live@ }
    }
}

impl Cursor {
    #[verifier::type_invariant]
    spec fn well_formed(self) -> bool {
        self@.valid()
    }

    /// Makes a cursor over `capacity` bytes, at zero and with no region live.
    pub fn new(capacity: usize) -> (cursor: Self)
        ensures
            cursor@ == CursorView::fresh(capacity),
            cursor@.valid(),
    {
        Cursor { offset: 0, capacity, live: Ghost(Seq::empty()) }
    }

    /// Hands out the next `size` bytes aligned to `align` and moves to their
    /// end, or turns the request down and stays.
    ///
    /// `align` must be a power of two.
    pub fn allocate(&mut self, size: usize, align: usize) -> (res: Result<Region, AllocError>)
        requires
            is_power_of_two(align),
        ensures
            res == bump_spec(old(self)@.offset, old(self)@.capacity, size, align),
            final(self)@ == old(self)@.after_request(size, align),
            final(self)@.offset == cursor_after(
                old(self)@.offset,
                old(self)@.capacity,
                size,
                align,
            ),
            final(self)@.valid(),
    {
        proof {
            use_type_invariant(&*self);
        }
        let res = bump(self.offset, self.capacity, size, align);
        if let Ok(region) = res {
            proof {
                lemma_bump_grant(self.offset, self.capacity, size, align);
            }
            self.offset = region.end;
            self.live = Ghost(self.live@.push(Grant { region, align }));
        }
        res
    }

    /// Moves back to zero. Every region handed out so far is no longer live.
    pub fn reset(&mut self)
        ensures
            final(self)@ == old(self)@.after_reset(),
            final(self)@.valid(),
    {
        proof {
            use_type_invariant(&*self);
        }
        self.live = Ghost(Seq::empty());
        self.offset = 0;
    }

    /// The size in bytes of the buffer that the cursor runs over.
    pub fn capacity(&self) -> (n: usize)
        ensures
            n == self@.capacity,
            self@.valid(),
    {
        proof {
            use_type_invariant(self);
        }
        self.capacity
    }

    /// The offset up to which the buffer has been handed out.
    pub fn offset(&self) -> (n: usize)
        ensures
            n == self@.offset,
            self@.valid(),
    {
        proof {
            use_type_invariant(self);
        }
        self.offset
    }
}

} // verus!
