//! The single-owner arena.
use crate::align::{is_power_of_two, lemma_align_up_of_multiple};
use crate::bump::{bump, bump_spec, fits, lemma_bump_grant};
use crate::cursor::{in_order, Grant};
use crate::region::{lemma_precedes_is_disjoint, AllocError, Region};
use vstd::prelude::*;

verus! {

/// What an arena is, to its callers.
pub struct ArenaView {
    /// The size of the buffer in bytes.
    pub capacity: usize,
    /// The offset up to which the buffer has been handed out.
    pub cursor: usize,
    /// The contents of the buffer.
    pub bytes: Seq<u8>,
    /// The regions handed out since the arena was made or last reset, oldest
    /// first.
    pub live: Seq<Grant>,
}

impl ArenaView {
    /// An arena as it is made: a zeroed buffer of `capacity` bytes, the
    /// cursor at zero, no region live.
    pub open spec fn fresh(capacity: usize) -> ArenaView {
        ArenaView {
            capacity,
            cursor: 0,
            bytes: Seq::new(capacity as nat, |i: int| 0u8),
            live: Seq::empty(),
        }
    }

    /// What holds of every arena: the cursor lies within the buffer, and the
    /// live regions are aligned as asked, lie below the cursor, and follow
    /// one another in the order in which they were handed out.
    pub open spec fn valid(self) -> bool {
        &&& self.cursor <= self.capacity
        &&& self.bytes.len() == self.capacity
        &&& in_order(self.live, self.cursor)
    }

    /// The arena after a request for `size` bytes aligned to `align`: a
    /// granted region moves the cursor to its end and joins the live regions;
    /// a request turned down changes nothing.
    pub open spec fn after_request(self, size: usize, align: usize) -> ArenaView {
        match bump_spec(self.cursor, self.capacity, size, align) {
            Ok(region) => ArenaView {
                cursor: region.end,
                live: self.live.push(Grant { region, align }),
                ..self
            },
            Err(_) => self,
        }
    }

    /// The arena after a reset: the cursor at zero and no region live, the
    /// buffer as it was.
    pub open spec fn after_reset(self) -> ArenaView {
        ArenaView { cursor: 0, live: Seq::empty(), ..self }
    }

    /// Whether `region` is a span of the buffer.
    pub open spec fn holds(self, region: Region) -> bool {
        region.start <= region.end <= self.capacity
    }

    /// The arena after every byte of `region` has been set to `value`.
    pub open spec fn after_fill(self, region: Region, value: u8) -> ArenaView {
        ArenaView {
            bytes: Seq::new(
                self.bytes.len(),
                |i: int|
                    if region.contains(i) {
                        value
                    } else {
                        self.bytes[i]
                    },
            ),
            ..self
        }
    }

    /// The arena after `data` has been copied to the start of `region`.
    pub open spec fn after_write(self, region: Region, data: Seq<u8>) -> ArenaView {
        ArenaView {
            bytes: Seq::new(
                self.bytes.len(),
                |i: int|
                    if region.start <= i < region.start + data.len() {
                        data[i - region.start]
                    } else {
                        self.bytes[i]
                    },
            ),
            ..self
        }
    }
}

/// Any two of the regions handed out since the arena was made or last reset
/// share no byte, and each starts at a multiple of the alignment it was asked
/// for and lies within the buffer.
pub proof fn lemma_live_regions_apart(arena: ArenaView, i: int, j: int)
    requires
        arena.valid(),
        0 <= i < arena.live.len(),
        0 <= j < arena.live.len(),
        i != j,
    ensures
        arena.live[i].region.disjoint(arena.live[j].region),
        arena.live[i].region.start % arena.live[i].align == 0,
        arena.holds(arena.live[i].region),
{
    if i < j {
        lemma_precedes_is_disjoint(arena.live[i].region, arena.live[j].region);
    } else {
        lemma_precedes_is_disjoint(arena.live[j].region, arena.live[i].region);
    }
}

/// Of two live regions the one handed out first starts lower, unless it is
/// empty: regions that hold a byte all start at different offsets.
pub proof fn lemma_live_starts_differ(arena: ArenaView, i: int, j: int)
    requires
        arena.valid(),
        0 <= i < j < arena.live.len(),
        arena.live[i].region.spec_len() > 0,
    ensures
        arena.live[i].region.start < arena.live[j].region.start,
{
    assert(arena.live[i].region.precedes(arena.live[j].region));
}

/// A request leaves a valid arena valid, with its capacity and its buffer as
/// they were and its cursor no lower; turned down, it leaves the arena as it
/// was.
pub proof fn lemma_request_keeps_valid(arena: ArenaView, size: usize, align: usize)
    requires
        arena.valid(),
        align > 0,
    ensures
        arena.after_request(size, align).valid(),
        arena.after_request(size, align).capacity == arena.capacity,
        arena.after_request(size, align).bytes == arena.bytes,
        arena.after_request(size, align).cursor >= arena.cursor,
        !fits(arena.cursor, arena.capacity, size, align) ==> arena.after_request(size, align)
            == arena,
{
    if fits(arena.cursor, arena.capacity, size, align) {
        lemma_bump_grant(arena.cursor, arena.capacity, size, align);
    }
}

/// A reset leaves a valid arena valid; on an arena whose cursor is at zero
/// and that has no live region, it changes nothing.
pub proof fn lemma_reset_keeps_valid(arena: ArenaView)
    requires
        arena.valid(),
    ensures
        arena.after_reset().valid(),
        arena.cursor == 0 && arena.live.len() == 0 ==> arena.after_reset() == arena,
        ArenaView::fresh(arena.capacity).after_reset() == ArenaView::fresh(arena.capacity),
{
    assert(arena.live.len() == 0 ==> arena.live =~= Seq::empty());
}

/// After a reset a request is answered as on a new arena of the same
/// capacity, whatever was asked of the arena before: if it is granted, the
/// region starts at offset zero.
pub proof fn lemma_reset_starts_over(arena: ArenaView, size: usize, align: usize)
    requires
        align > 0,
    ensures
        bump_spec(arena.after_reset().cursor, arena.capacity, size, align) == bump_spec(
            ArenaView::fresh(arena.capacity).cursor,
            arena.capacity,
            size,
            align,
        ),
        bump_spec(arena.after_reset().cursor, arena.capacity, size, align) == if size
            <= arena.capacity {
            Ok::<Region, AllocError>(Region { start: 0, end: size })
        } else {
            Err::<Region, AllocError>(AllocError::OutOfMemory)
        },
{
    lemma_align_up_of_multiple(0, align as int);
}

/// Sets the bytes of `buffer` from `start` up to `end` to `value`.
fn fill_span(buffer: &mut Vec<u8>, start: usize, end: usize, value: u8)
    requires
        start <= end <= old(buffer)@.len(),
    ensures
        final(buffer)@.len() == old(buffer)@.len(),
        forall|i: int|
            0 <= i < old(buffer)@.len() ==> final(buffer)@[i] == if start <= i < end {
                value
            } else {
                old(buffer)@[i]
            },
    no_unwind
{
    let mut at: usize = start;
    while at < end
        invariant
            start <= at <= end <= buffer@.len(),
            buffer@.len() == old(buffer)@.len(),
            forall|i: int|
                0 <= i < buffer@.len() ==> buffer@[i] == if start <= i < at {
                    value
                } else {
                    old(buffer)@[i]
                },
        decreases end - at,
    {
        buffer[at] = value;
        at = at + 1;
    }
}

/// Copies `data` over the bytes of `buffer` that start at `start`.
fn copy_into(buffer: &mut Vec<u8>, start: usize, data: &[u8], count: usize)
    requires
        count == data@.len(),
        start + data@.len() <= old(buffer)@.len() <= usize::MAX,
    ensures
        final(buffer)@.len() == old(buffer)@.len(),
        forall|i: int|
            0 <= i < old(buffer)@.len() ==> final(buffer)@[i] == if start <= i < start
                + data@.len() {
                data@[i - start]
            } else {
                old(buffer)@[i]
            },
    no_unwind
{
    let mut k: usize = 0;
    while k < count
        invariant
            count == data@.len(),
            k <= data@.len(),
            start + data@.len() <= buffer@.len() <= usize::MAX,
            buffer@.len() == old(buffer)@.len(),
            forall|i: int|
                0 <= i < buffer@.len() ==> buffer@[i] == if start <= i < start + k {
                    data@[i - start]
                } else {
                    old(buffer)@[i]
                },
        decreases data@.len() - k,
    {
        buffer[start + k] = data[k];
        k = k + 1;
    }
}

/// A bump arena for one owner: a buffer of fixed size and a cursor that only
/// moves forward until the arena is reset.
pub struct BumpAllocator {
    buffer: Vec<u8>,
    capacity: usize,
    offset: usize,
    live: Ghost<Seq<Grant>>,
}

impl View for BumpAllocator {
    type V = ArenaView;

    closed spec fn view(&self) -> ArenaView {
        ArenaView {
            capacity: self.capacity,
            cursor: self.offset,
            bytes: self.buffer@,
            live: self.live@,
        }
    }
}

impl BumpAllocator {
    #[verifier::type_invariant]
    spec fn well_formed(self) -> bool {
        self@.valid()
    }

    /// Makes an arena over a zeroed buffer of `capacity` bytes, with the
    /// cursor at zero and no region live.
    ///
    /// `capacity` rounded up to a whole number of words must not exceed
    /// `isize::MAX`: no buffer is larger.
    pub fn new(capacity: usize) -> (arena: Self)
        requires
            capacity + (usize::BITS / 8 - 1) <= isize::MAX,
        ensures
            arena@ == ArenaView::fresh(capacity),
            arena@.valid(),
    {
        let buffer: Vec<u8> = vec![0u8; capacity];
        assert(buffer@ =~= Seq::new(capacity as nat, |i: int| 0u8));
        BumpAllocator { buffer, capacity, offset: 0, live: Ghost(Seq::empty()) }
    }

    /// Hands out the next `size` bytes aligned to `align`, or turns the
    /// request down and leaves the arena as it was.
    ///
    /// `align` must be a power of two.
    pub fn allocate(&mut self, size: usize, align: usize) -> (res: Result<Region, AllocError>)
        requires
            is_power_of_two(align),
        ensures
            res == bump_spec(old(self)@.cursor, old(self)@.capacity, size, align),
            final(self)@ == old(self)@.after_request(size, align),
            final(self)@.valid(),
    {
        proof {
            use_type_invariant(&*self);
        }
        let res = bump(self.offset, self.capacity, size, align);
        if let Ok(region) = res {
            proof {
                lemma_bump_grant(self.offset, self.capacity, size, align);
            }
            self.offset = region.end;
            self.live = Ghost(self.live@.push(Grant { region, align }));
        }
        res
    }

    /// Moves the cursor back to zero. Every region handed out so far is no
    /// longer live; the buffer keeps its contents.
    pub fn reset(&mut self)
        ensures
            final(self)@ == old(self)@.after_reset(),
            final(self)@.valid(),
    {
        proof {
            use_type_invariant(&*self);
        }
        self.live = Ghost(Seq::empty());
        self.offset = 0;
    }

    /// Sets every byte of `region` to `value`, if the region is a span of the
    /// buffer; else changes nothing and returns `false`.
    ///
    /// Whether the region is live is not looked at: that is the caller's to
    /// know.
    pub fn fill(&mut self, region: Region, value: u8) -> (done: bool)
        ensures
            done == old(self)@.holds(region),
            final(self)@ == if done {
                old(self)@.after_fill(region, value)
            } else {
                old(self)@
            },
            final(self)@.valid(),
    {
        proof {
            use_type_invariant(&*self);
        }
        if region.start > region.end || region.end > self.capacity {
            return false;
        }
        fill_span(&mut self.buffer, region.start, region.end, value);
        assert(self.buffer@ =~= old(self)@.after_fill(region, value).bytes);
        true
    }

    /// Copies `data` to the start of `region`, if the region is a span of the
    /// buffer and long enough; else changes nothing and returns `false`.
    ///
    /// Whether the region is live is not looked at: that is the caller's to
    /// know.
    pub fn write(&mut self, region: Region, data: &[u8]) -> (done: bool)
        ensures
            done == (old(self)@.holds(region) && data@.len() <= region.spec_len()),
            final(self)@ == if done {
                old(self)@.after_write(region, data@)
            } else {
                old(self)@
            },
            final(self)@.valid(),
    {
        proof {
            use_type_invariant(&*self);
        }
        if region.start > region.end || region.end > self.capacity {
            return false;
        }
        if data.len() > region.end - region.start {
            return false;
        }
        copy_into(&mut self.buffer, region.start, data, data.len());
        assert(self.buffer@ =~= old(self)@.after_write(region, data@).bytes);
        true
    }

    /// The contents of the buffer.
    pub fn bytes(&self) -> (contents: &[u8])
        ensures
            contents@ == self@.bytes,
            self@.valid(),
    {
        proof {
            use_type_invariant(self);
        }
        self.buffer.as_slice()
    }

    /// The size of the buffer in bytes.
    pub fn capacity(&self) -> (n: usize)
        ensures
            n == self@.capacity,
            self@.valid(),
    {
        proof {
            use_type_invariant(self);
        }
        self.capacity
    }

    /// The cursor: the offset up to which the buffer has been handed out.
    pub fn offset(&self) -> (n: usize)
        ensures
            n == self@.cursor,
            self@.valid(),
    {
        proof {
            use_type_invariant(self);
        }
        self.offset
    }
}

} // verus!
