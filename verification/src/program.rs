//! What the program's two instructions decide: how many bytes the runtime's
//! own heap gave, and whether the bump hook had room.
use crate::align::is_power_of_two;
use crate::customize_allocator::{host_alloc_spec, CustomizeBumpAllocator};
use crate::region::Region;
use vstd::prelude::*;

verus! {

/// The alignment at which the bump instruction asks for its bytes.
pub const WORD_ALIGN: usize = 8;

/// Why an instruction failed.
#[derive(Clone, Copy, Debug, PartialEq, Eq, Structural)]
pub enum ErrorCode {
    /// The bump hook had no room for the bytes asked for.
    AllocationFailed,
}

impl ErrorCode {
    /// The message that goes with the error.
    pub fn message(&self) -> (text: &'static str)
        ensures
            text@ == "Memory allocation failed."@,
    {
        match self {
            ErrorCode::AllocationFailed => "Memory allocation failed.",
        }
    }
}

/// The answer of the bump instruction to a request for `size` bytes when the
/// stored position is `pos`: what the hook answers to a request aligned to a
/// word, or the failure that the instruction reports where the hook has no
/// room.
pub open spec fn customize_allocate_spec(pos: usize, size: u64) -> Result<Region, ErrorCode> {
    match host_alloc_spec(pos, size as usize, WORD_ALIGN) {
        Some(region) => Ok(region),
        None => Err(ErrorCode::AllocationFailed),
    }
}

/// Allocates `size` zeroed bytes from the runtime's own heap and returns how
/// many it holds.
pub fn heap_allocate(size: u64) -> (len: u64)
    requires
        size <= isize::MAX,
    ensures
        len == size,
{
    let data: Vec<u8> = vec![0u8; size as usize];
    data.len() as u64
}

/// Asks the bump hook for `size` bytes aligned to a word, given the stored
/// position `pos`. `Ok(region)` says that the bytes from `region.start` are
/// the caller's to zero and that `region.end` is the position to store.
pub fn customize_allocate(pos: usize, size: u64) -> (res: Result<Region, ErrorCode>)
    requires
        size <= isize::MAX - 7,
    ensures
        res == customize_allocate_spec(pos, size),
{
    assert(is_power_of_two(8)) by (bit_vector);
    match CustomizeBumpAllocator.allocate(pos, size as usize, WORD_ALIGN) {
        Some(region) => Ok(region),
        None => Err(ErrorCode::AllocationFailed),
    }
}

} // verus!
