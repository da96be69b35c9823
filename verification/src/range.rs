use vstd::prelude::*;

verus! {

/// An inclusive, contiguous range of block heights.
///
/// Well-formed ranges satisfy `start <= end`; they always hold at least one
/// height.
#[derive(Clone, Copy, Debug, PartialEq, Eq, Structural)]
pub struct HeightRange {
    pub start: u64,
    pub end: u64,
}

impl HeightRange {
    /// The range invariant: inclusive bounds in order.
    pub open spec fn wf(self) -> bool {
        self.start <= self.end
    }

    /// Whether height `h` lies in the range.
    pub open spec fn contains(self, h: u64) -> bool {
        self.start <= h <= self.end
    }

    /// Number of heights in the range (as a mathematical integer, since a
    /// full `u64` range holds `2^64` heights).
    pub open spec fn len(self) -> int {
        self.end - self.start + 1
    }

    /// Builds a range, rejecting bounds that are out of order.
    pub fn new(start: u64, end: u64) -> (r: Option<HeightRange>)
        ensures
            start <= end ==> r == Some(HeightRange { start, end }),
            start > end ==> r is None,
    {
        if start <= end {
            Some(HeightRange { start, end })
        } else {
            None
        }
    }
}

} // verus!
