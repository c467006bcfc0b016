//! Line and column spans inside a manifest document.

use crate::purl::Purl;
use vstd::prelude::*;

verus! {

/// A point in a document: zero-based line and column. The column counts
/// the bytes of the line before the point.
#[derive(Clone, Copy, Debug, PartialEq, Eq, Hash, Default, Structural)]
pub struct Position {
    pub row: usize,
    pub col: usize,
}

/// The span of one declaration, from `start` to `end`.
#[derive(Clone, Copy, Debug, PartialEq, Eq, Hash, Default, Structural)]
pub struct Range {
    pub start: Position,
    pub end: Position,
}

impl Range {
    pub fn new(start: Position, end: Position) -> (r: Self)
        ensures
            r.start == start,
            r.end == end,
    {
        Range { start, end }
    }

    /// Whether `line` lies between the first and the last line of the span.
    /// The test is by line only; columns play no part.
    pub open spec fn spec_contains(self, line: int) -> bool {
        self.start.row <= line <= self.end.row
    }

    pub fn contains_position(&self, line_number: usize) -> (b: bool)
        ensures
            b == self.spec_contains(line_number as int),
    {
        line_number >= self.start.row && line_number <= self.end.row
    }
}

/// A package identity with the span that it is reported at.
#[derive(Debug)]
pub struct PurlRange {
    pub purl: Purl,
    pub range: Range,
}

impl PurlRange {
    pub fn new(purl: Purl, range: Range) -> (r: Self)
        ensures
            r.purl == purl,
            r.range == range,
    {
        PurlRange { purl, range }
    }
}

impl Clone for PurlRange {
    fn clone(&self) -> (r: Self)
        ensures
            r == *self,
    {
        PurlRange { purl: self.purl.clone(), range: self.range }
    }
}

} // verus!
