use vstd::prelude::*;

verus! {

/// A half-open range `[start, end)` of byte offsets into a source text.
#[derive(Debug, Clone, Copy, PartialEq, Eq, Structural)]
pub struct Span {
    pub start: usize,
    pub end: usize,
}

impl Span {
    /// The span from `start` up to, and without, `end`.
    pub fn new(start: usize, end: usize) -> (span: Self)
        ensures
            span == (Span { start, end }),
    {
        Self { start, end }
    }

    /// The one-byte span that starts at `pos`.
    pub fn single(pos: usize) -> (span: Self)
        requires
            pos < usize::MAX,
        ensures
            span == (Span { start: pos, end: (pos + 1) as usize }),
    {
        Self { start: pos, end: pos + 1 }
    }
}

} // verus!
