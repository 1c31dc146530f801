use vstd::prelude::*;

verus! {

/// A half-open range of character offsets into the source text,
/// attached to tokens, syntax-tree nodes and errors for diagnostics.
#[derive(Clone, Copy, PartialEq, Eq, Structural, Debug)]
pub struct Span {
    pub start: usize,
    pub end: usize,
}

impl Span {
    /// A span is ordered: it never ends before it starts.
    pub open spec fn wf(self) -> bool {
        self.start <= self.end
    }

    /// `self` lies inside `outer`.
    pub open spec fn within(self, outer: Span) -> bool {
        outer.start <= self.start && self.end <= outer.end
    }
}

} // verus!
