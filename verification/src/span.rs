//! Byte ranges of source text.
use vstd::prelude::*;

verus! {

/// A half-open range of byte offsets `[start, end)` into a source text.
#[derive(Clone, Copy, Debug, PartialEq, Eq, Structural)]
pub struct Span {
    pub start: usize,
    pub end: usize,
}

impl Span {
    /// Creates the span `[start, end)`.
    pub fn new(start: usize, end: usize) -> (r: Span)
        ensures
            r.start == start,
            r.end == end,
    {
        Span { start, end }
    }

    /// The span that starts where `start` starts and ends where `end` ends.
    pub fn from_start_and_end(start: &Span, end: &Span) -> (r: Span)
        ensures
            r.start == start.start,
            r.end == end.end,
    {
        Span { start: start.start, end: end.end }
    }

    /// An empty span located at `offset`.
    pub fn empty(offset: usize) -> (r: Span)
        ensures
            r.start == offset,
            r.end == offset,
    {
        Span { start: offset, end: offset }
    }
}

/// The span `[start, end)` built in specifications from integer positions.
pub open spec fn span_of(start: int, end: int) -> Span {
    Span { start: start as usize, end: end as usize }
}

} // verus!
