//! Positions in source text.
use vstd::prelude::*;

verus! {

/// A range of bytes `start..end` in the source file with handle `source`.
/// `main` is the position that a diagnostic points at.
#[derive(Clone, Copy, Debug, PartialEq, Eq, Structural)]
pub struct Span {
    pub source: usize,
    pub main: usize,
    pub start: usize,
    pub end: usize,
}

/// The smaller of two positions.
pub open spec fn min_pos(a: usize, b: usize) -> usize {
    if a <= b {
        a
    } else {
        b
    }
}

/// The larger of two positions.
pub open spec fn max_pos(a: usize, b: usize) -> usize {
    if a >= b {
        a
    } else {
        b
    }
}

impl Span {
    /// The range is not reversed and holds the main position.
    pub open spec fn wf(&self) -> bool {
        self.start <= self.main <= self.end
    }

    /// The range lies inside a text of `len` bytes.
    pub open spec fn within(&self, len: int) -> bool {
        self.wf() && self.end <= len
    }

    /// The union of the two ranges, as a spec function.
    pub open spec fn spec_join(self, other: Span) -> Span {
        Span {
            source: self.source,
            main: self.main,
            start: min_pos(self.start, other.start),
            end: max_pos(self.end, other.end),
        }
    }

    /// This range, made to reach the end of `other`, as a spec function.
    pub open spec fn spec_upto(self, other: Span) -> Span {
        Span {
            source: self.source,
            main: self.main,
            start: self.start,
            end: max_pos(self.end, other.end),
        }
    }

    /// The span `start..end` of source `source`, pointing at `start`.
    pub fn new(source: usize, start: usize, end: usize) -> (r: Span)
        requires
            start <= end,
        ensures
            r == (Span { source, main: start, start, end }),
            r.wf(),
    {
        Span { source, main: start, start, end }
    }

    /// The smallest range that covers both `self` and `other`.
    pub fn join(&self, other: &Span) -> (r: Span)
        ensures
            r == self.spec_join(*other),
            r.start == min_pos(self.start, other.start),
            r.end == max_pos(self.end, other.end),
            self.wf() ==> r.wf(),
    {
        Span {
            source: self.source,
            main: self.main,
            start: if self.start <= other.start {
                self.start
            } else {
                other.start
            },
            end: if self.end >= other.end {
                self.end
            } else {
                other.end
            },
        }
    }

    /// `self`, extended to the end of `other` where that lies further on.
    pub fn upto(&self, other: &Span) -> (r: Span)
        ensures
            r == self.spec_upto(*other),
            r.start == self.start,
            r.end == max_pos(self.end, other.end),
            self.wf() ==> r.wf(),
    {
        Span {
            source: self.source,
            main: self.main,
            start: self.start,
            end: if self.end >= other.end {
                self.end
            } else {
                other.end
            },
        }
    }
}

/// Joining keeps spans well formed, and the joined range starts at the
/// smaller start and ends at the larger end; it covers both operands.
pub proof fn lemma_join_bounds(a: Span, b: Span)
    requires
        a.wf(),
        b.wf(),
    ensures
        a.spec_join(b).wf(),
        a.spec_join(b).end >= a.spec_join(b).start,
        a.spec_join(b).start == min_pos(a.start, b.start),
        a.spec_join(b).end == max_pos(a.end, b.end),
        a.spec_join(b).start <= a.start && a.end <= a.spec_join(b).end,
        a.spec_join(b).start <= b.start && b.end <= a.spec_join(b).end,
{
}

/// Joining is commutative and associative on the range, and idempotent.
pub proof fn lemma_join_algebra(a: Span, b: Span, c: Span)
    ensures
        a.spec_join(b).start == b.spec_join(a).start,
        a.spec_join(b).end == b.spec_join(a).end,
        a.spec_join(b).spec_join(c).start == a.spec_join(b.spec_join(c)).start,
        a.spec_join(b).spec_join(c).end == a.spec_join(b.spec_join(c)).end,
        a.spec_join(a) == a,
{
}

/// Extending keeps spans well formed and never shrinks the range.
pub proof fn lemma_upto_bounds(a: Span, b: Span)
    requires
        a.wf(),
    ensures
        a.spec_upto(b).wf(),
        a.spec_upto(b).end >= a.spec_upto(b).start,
        a.spec_upto(b).start == a.start,
        a.spec_upto(b).end >= a.end,
        a.spec_upto(b).end >= b.end,
{
}

} // verus!
