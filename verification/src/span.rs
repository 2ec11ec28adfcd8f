//! Spans of source text, as byte offsets.

use vstd::prelude::*;

verus! {

/// The bytes from `start` up to, but not with, `end`.
#[derive(Clone, Copy, Debug, PartialEq, Eq, Structural)]
pub struct Span {
    pub start: usize,
    pub end: usize,
}

impl Span {
    /// Whether the byte at `i` lies in the span.
    pub open spec fn holds(self, i: int) -> bool {
        self.start <= i < self.end
    }

    /// Whether `other` lies within this span.
    pub open spec fn covers(self, other: Span) -> bool {
        self.start <= other.start && other.end <= self.end
    }
}

/// Whether two spans overlap.
pub open spec fn overlap(a: Span, b: Span) -> bool {
    a.start < b.end && b.start < a.end
}

/// Whether two spans overlap.
pub fn intersects(a: Span, b: Span) -> (r: bool)
    ensures
        r == overlap(a, b),
{
    a.start < b.end && b.start < a.end
}

/// Overlapping is mutual.
pub proof fn law_overlap_is_symmetric(a: Span, b: Span)
    ensures
        overlap(a, b) == overlap(b, a),
{
}

/// Two spans that are not empty overlap exactly when they share a byte.
pub proof fn law_overlap_is_a_shared_byte(a: Span, b: Span)
    requires
        a.start < a.end,
        b.start < b.end,
    ensures
        overlap(a, b) == (exists|i: int| #[trigger] a.holds(i) && b.holds(i)),
{
    if overlap(a, b) {
        let i = if a.start < b.start {
            b.start as int
        } else {
            a.start as int
        };
        assert(a.holds(i) && b.holds(i));
    }
}

} // verus!
