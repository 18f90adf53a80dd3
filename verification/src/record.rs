//! The trace record: one timed span.

use vstd::prelude::*;

verus! {

/// One timing record: a caller-chosen tag and two raw cycle-counter readings.
#[derive(Clone, Copy, Debug, PartialEq, Eq, Structural)]
pub struct Span {
    pub tag: u64,
    pub start: u64,
    pub stop: u64,
}

impl Span {
    /// The content of a slot that was never written.
    pub open spec fn zero() -> Span {
        Span { tag: 0, start: 0, stop: 0 }
    }

    /// `stop - start` in wrapping 64-bit unsigned arithmetic.
    pub open spec fn spec_elapsed(self) -> u64 {
        if self.stop >= self.start {
            (self.stop - self.start) as u64
        } else {
            (self.stop + 0x1_0000_0000_0000_0000 - self.start) as u64
        }
    }

    /// The number of cycles between the two readings. Where `stop < start` the
    /// difference wraps and comes out as a very large number.
    #[verifier::when_used_as_spec(spec_elapsed)]
    pub fn elapsed(self) -> (cycles: u64)
        ensures
            cycles == self.spec_elapsed(),
    {
        self.stop.wrapping_sub(self.start)
    }
}

} // verus!
