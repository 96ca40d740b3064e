//! The bump rule as a host runtime's allocation hook sees it: over the
//! addresses of the program heap, with the cursor kept in the heap's first
//! word.
use crate::align::is_power_of_two;
use crate::bump::{bump, bump_spec};
use crate::region::Region;
use vstd::prelude::*;

verus! {

/// Length of the memory region used for program heap.
pub const HEAP_LENGTH: usize = 8 * 32 * 1024;

/// Length of the word at the start of the heap in which the position is
/// kept.
pub const POSITION_WORD: usize = 8;

/// The address at which the program heap starts.
pub open spec fn heap_start() -> int {
    0x3_0000_0000
}

/// The address at which the program heap ends.
pub open spec fn heap_top() -> int {
    heap_start() + HEAP_LENGTH
}

/// The lowest address that is handed out: the first after the position word.
pub open spec fn heap_bottom() -> int {
    heap_start() + POSITION_WORD
}

/// The position from which a request is served: the stored position, or the
/// bottom of the heap while the stored position is still zero.
pub open spec fn effective_position(pos: usize) -> usize {
    if pos == 0 {
        heap_bottom() as usize
    } else {
        pos
    }
}

/// The answer to a request for `size` bytes aligned to `align` when the
/// stored position is `pos`: the span from the effective position rounded up
/// to `align` to `size` bytes further, unless that ends beyond the top of the
/// heap. Where the heap lies beyond what the machine can address, there is
/// none.
pub open spec fn host_alloc_spec(pos: usize, size: usize, align: usize) -> Option<Region> {
    if heap_top() > usize::MAX {
        None
    } else {
        match bump_spec(effective_position(pos), heap_top() as usize, size, align) {
            Ok(region) => Some(region),
            Err(_) => None,
        }
    }
}

/// Reads `HEAP_START_ADDRESS` of `anchor_lang::solana_program::entrypoint`,
/// the constant that fixes where a program's heap starts. The contract
/// claims its value, `0x300000000`.
#[verifier::external_body]
fn heap_start_address() -> (address: u64)
    ensures
        address == heap_start(),
{
    anchor_lang::solana_program::entrypoint::HEAP_START_ADDRESS
}

/// The allocation hook of a host runtime that hands out the program heap
/// front to back and never takes anything back.
pub struct CustomizeBumpAllocator;

impl CustomizeBumpAllocator {
    /// Answers a request for `size` bytes aligned to `align`, given the
    /// stored position `pos`. `Some(region)` says that the caller is given
    /// the address `region.start` and that `region.end` is the position to
    /// store; `None` says that no address is given and that the stored
    /// position stays.
    ///
    /// `align` must be a power of two.
    pub fn allocate(&self, pos: usize, size: usize, align: usize) -> (res: Option<Region>)
        requires
            is_power_of_two(align),
        ensures
            res == host_alloc_spec(pos, size, align),
    {
        let start: u64 = heap_start_address();
        if usize::BITS < 64 {
            return None;
        }
        let base: usize = start as usize;
        let top: usize = base + HEAP_LENGTH;
        let cursor: usize = if pos == 0 {
            base + POSITION_WORD
        } else {
            pos
        };
        match bump(cursor, top, size, align) {
            Ok(region) => Some(region),
            Err(_) => None,
        }
    }

    /// Takes a region back, which changes nothing: the position to store is
    /// the stored position `pos`.
    pub fn dealloc(&self, pos: usize, region: Region) -> (next: usize)
        ensures
            next == pos,
    {
        pos
    }
}

} // verus!
