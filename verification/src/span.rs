//! Source positions.
//!
//! A `Span` names a half-open byte range of the source text together with
//! 1-based line/column coordinates for both ends.  Every token and every
//! diagnostic carries one.

use vstd::prelude::*;

verus! {

/// A half-open range of the source text: byte offsets `start..end` plus
/// 1-based line/column coordinates of both endpoints.
#[derive(Clone, Copy, Debug, PartialEq, Eq, Structural)]
pub struct Span {
    /// Starting byte offset (inclusive).
    pub start: usize,
    /// Ending byte offset (exclusive).
    pub end: usize,
    /// Line of the start position, counting from 1.
    pub start_line: usize,
    /// Column of the start position, counting from 1.
    pub start_col: usize,
    /// Line of the end position, counting from 1.
    pub end_line: usize,
    /// Column of the end position, counting from 1.
    pub end_col: usize,
}

/// The degenerate span `0..0` at line 1, column 1, used for synthetic
/// diagnostics that have no better position.
pub open spec fn spec_default_span() -> Span {
    Span { start: 0, end: 0, start_line: 1, start_col: 1, end_line: 1, end_col: 1 }
}

impl Default for Span {
    /// The degenerate placeholder span.
    fn default() -> (s: Self)
        ensures
            s == spec_default_span(),
    {
        Span { start: 0, end: 0, start_line: 1, start_col: 1, end_line: 1, end_col: 1 }
    }
}

impl Span {
    /// A span with the given byte offsets and placeholder line/column
    /// coordinates (1:1 on both ends).
    pub fn new(start: usize, end: usize) -> (s: Self)
        ensures
            s == (Span { start, end, ..spec_default_span() }),
    {
        Span { start, end, start_line: 1, start_col: 1, end_line: 1, end_col: 1 }
    }

    /// A span with all six coordinates given.
    pub fn new_with_line_col(
        start: usize,
        end: usize,
        start_line: usize,
        start_col: usize,
        end_line: usize,
        end_col: usize,
    ) -> (s: Self)
        ensures
            s == (Span { start, end, start_line, start_col, end_line, end_col }),
    {
        Span { start, end, start_line, start_col, end_line, end_col }
    }
}

} // verus!
