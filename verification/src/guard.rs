//! The span guard: one timing measurement in flight.

use crate::buffer::{TraceBuffer, _insert_trace};
use crate::record::Span;
use vstd::prelude::*;

verus! {

/// A measurement that has begun: the tag of the instrumented site and the
/// counter reading taken when it began. Ending it consumes it, so that it gives
/// one record and no more.
pub struct TraceSpan {
    tag: u64,
    start: u64,
}

impl TraceSpan {
    /// The tag that the span was begun with.
    pub closed spec fn spec_tag(&self) -> u64 {
        self.tag
    }

    /// The counter reading that the span was begun with.
    pub closed spec fn spec_start(&self) -> u64 {
        self.start
    }

    /// The record that the span gives when it ends at `stop`.
    pub open spec fn record(&self, stop: u64) -> Span {
        Span { tag: self.spec_tag(), start: self.spec_start(), stop }
    }

    /// Begins a span: keeps `tag` and the counter reading `start`.
    pub fn new(tag: u64, start: u64) -> (span: TraceSpan)
        ensures
            span.spec_tag() == tag,
            span.spec_start() == start,
    {
        TraceSpan { tag, start }
    }

    /// The tag that the span was begun with.
    #[verifier::when_used_as_spec(spec_tag)]
    pub fn tag(&self) -> (tag: u64)
        ensures
            tag == self.spec_tag(),
    {
        self.tag
    }

    /// The counter reading that the span was begun with.
    #[verifier::when_used_as_spec(spec_start)]
    pub fn start(&self) -> (start: u64)
        ensures
            start == self.spec_start(),
    {
        self.start
    }

    /// Ends the span at the counter reading `stop`: inserts its one record into
    /// `buffer`.
    pub fn end(self, buffer: &mut TraceBuffer, stop: u64)
        ensures
            final(buffer)@ == old(buffer)@.insert(self.record(stop)),
    {
        _insert_trace(buffer, self.tag, self.start, stop);
    }
}

} // verus!
