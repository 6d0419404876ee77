//! Half-open text ranges measured in character offsets.

use vstd::prelude::*;

verus! {

/// A half-open range `[start, end)` of character offsets into a document.
///
/// Ranges produced by the splitter are always well formed (`start <= end`)
/// and lie within the document they were produced from.
#[derive(Debug, Clone, Copy, PartialEq, Eq, Hash, Structural)]
pub struct TextRange {
    pub start: usize,
    pub end: usize,
}

impl TextRange {
    /// Whether the range is well formed, i.e. its start does not lie after
    /// its end.
    pub open spec fn wf(self) -> bool {
        self.start <= self.end
    }

    /// The number of characters covered by the range.
    pub open spec fn spec_len(self) -> int {
        self.end - self.start
    }

    pub fn new(start: usize, end: usize) -> (r: TextRange)
        requires
            start <= end,
        ensures
            r.start == start,
            r.end == end,
    {
        TextRange { start, end }
    }

    pub fn start(&self) -> (r: usize)
        ensures
            r == self.start,
    {
        self.start
    }

    pub fn end(&self) -> (r: usize)
        ensures
            r == self.end,
    {
        self.end
    }

    pub fn len(&self) -> (r: usize)
        requires
            self.wf(),
        ensures
            r == self.spec_len(),
    {
        self.end - self.start
    }

    pub fn is_empty(&self) -> (r: bool)
        requires
            self.wf(),
        ensures
            r == (self.spec_len() == 0),
    {
        self.start == self.end
    }

    /// Whether `pos` lies inside the half-open range.
    pub open spec fn spec_contains(self, pos: int) -> bool {
        self.start <= pos < self.end
    }

    pub fn contains(&self, pos: usize) -> (r: bool)
        ensures
            r == self.spec_contains(pos as int),
    {
        self.start <= pos && pos < self.end
    }

    /// Whether `other` lies entirely inside this range.
    pub open spec fn spec_contains_range(self, other: TextRange) -> bool {
        self.start <= other.start && other.end <= self.end
    }

    pub fn contains_range(&self, other: &TextRange) -> (r: bool)
        ensures
            r == self.spec_contains_range(*other),
    {
        self.start <= other.start && other.end <= self.end
    }

    /// Whether the two ranges share at least one position.
    pub open spec fn spec_overlaps(self, other: TextRange) -> bool {
        self.start < other.end && other.start < self.end
    }

    pub fn overlaps(&self, other: &TextRange) -> (r: bool)
        ensures
            r == self.spec_overlaps(*other),
    {
        self.start < other.end && other.start < self.end
    }

    /// The range shifted right by `delta` characters.
    pub fn shift_right(&self, delta: usize) -> (r: TextRange)
        requires
            self.wf(),
            self.end + delta <= usize::MAX,
        ensures
            r.start == self.start + delta,
            r.end == self.end + delta,
    {
        TextRange { start: self.start + delta, end: self.end + delta }
    }

    /// The range shifted left by `delta` characters.
    pub fn shift_left(&self, delta: usize) -> (r: TextRange)
        requires
            self.wf(),
            delta <= self.start,
        ensures
            r.start == self.start - delta,
            r.end == self.end - delta,
    {
        TextRange { start: self.start - delta, end: self.end - delta }
    }

    /// The range with its end extended by `slack`, as far as `usize` allows.
    pub fn expand_end(&self, slack: usize) -> (r: TextRange)
        requires
            self.wf(),
        ensures
            r.start == self.start,
            self.end + slack <= usize::MAX ==> r.end == self.end + slack,
            self.end + slack > usize::MAX ==> r.end == usize::MAX,
    {
        if slack <= usize::MAX - self.end {
            TextRange { start: self.start, end: self.end + slack }
        } else {
            TextRange { start: self.start, end: usize::MAX }
        }
    }
}

} // verus!
