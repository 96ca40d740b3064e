//! Regions of an arena's buffer, and the one way a request for one can fail.
use vstd::prelude::*;

verus! {

/// A span of bytes `[start, end)` of an arena's buffer, given as offsets from
/// the start of the buffer.
#[derive(Clone, Copy, Debug, PartialEq, Eq, Structural)]
pub struct Region {
    pub start: usize,
    pub end: usize,
}

/// Why a request for a region was turned down.
#[derive(Clone, Copy, Debug, PartialEq, Eq, Structural)]
pub enum AllocError {
    /// The aligned start plus the requested size lies beyond the capacity, or
    /// beyond what a word can hold.
    OutOfMemory,
}

impl Region {
    /// The number of bytes in the span; an inverted span holds none.
    pub open spec fn spec_len(self) -> int {
        if self.start <= self.end {
            self.end - self.start
        } else {
            0
        }
    }

    /// Whether offset `at` lies inside the span.
    pub open spec fn contains(self, at: int) -> bool {
        self.start <= at < self.end
    }

    /// Whether the two spans share no byte.
    pub open spec fn disjoint(self, other: Region) -> bool {
        forall|at: int| !(#[trigger] self.contains(at) && other.contains(at))
    }

    /// Whether the span ends where `other` begins, or before.
    pub open spec fn precedes(self, other: Region) -> bool {
        self.end <= other.start
    }

    /// The number of bytes in the span.
    pub fn len(&self) -> (n: usize)
        ensures
            n == self.spec_len(),
    {
        if self.start <= self.end {
            self.end - self.start
        } else {
            0
        }
    }

    /// Whether the two spans share a byte.
    pub fn overlaps(&self, other: &Region) -> (b: bool)
        ensures
            b == !self.disjoint(*other),
    {
        let lo: usize = if self.start >= other.start {
            self.start
        } else {
            other.start
        };
        let hi: usize = if self.end <= other.end {
            self.end
        } else {
            other.end
        };
        proof {
            if lo < hi {
                assert(self.contains(lo as int) && other.contains(lo as int));
            }
        }
        lo < hi
    }
}

/// Spans laid out one after the other share no byte.
pub proof fn lemma_precedes_is_disjoint(a: Region, b: Region)
    requires
        a.precedes(b),
    ensures
        a.disjoint(b),
        b.disjoint(a),
{
}

} // verus!
