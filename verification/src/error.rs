//! The diagnostic model shared by every stage of the pipeline.
//!
//! A diagnostic is a machine-readable code plus the span it points at.
//! Every stage fails fast: the first diagnostic aborts the stage and is
//! handed to the caller unchanged.

use vstd::prelude::*;
use crate::span::Span;

verus! {

/// A fatal pipeline diagnostic: a short machine-readable code and the
/// source position it refers to.
#[derive(Clone, Debug, PartialEq, Eq)]
pub struct Error {
    /// Machine-readable code, e.g. `UnexpectedChar` or `MissingElse`.
    pub code: String,
    /// Where in the source the problem was found.
    pub span: Span,
}

/// The mathematical image of an [`Error`]: the code as a character
/// sequence beside the span.  All stage models speak of this type.
pub struct ErrModel {
    pub code: Seq<char>,
    pub span: Span,
}

/// What an [`Error`] value denotes.
pub open spec fn err_view(e: Error) -> ErrModel {
    ErrModel { code: e.code@, span: e.span }
}

/// Shorthand for building an [`ErrModel`] in specifications.
pub open spec fn err_model(code: Seq<char>, span: Span) -> ErrModel {
    ErrModel { code, span }
}

impl Error {
    /// Creates a diagnostic from its code and position.
    pub fn new(code: &str, span: Span) -> (e: Self)
        ensures
            err_view(e) == err_model(code@, span),
    {
        Error { code: code.to_owned(), span }
    }
}

} // verus!
