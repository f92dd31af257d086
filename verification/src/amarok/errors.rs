use crate::amarok::span::Span;
use vstd::prelude::*;

verus! {

/// Why a program stopped while it ran, and where in the source, if that
/// is known.
#[derive(Debug, PartialEq, Eq)]
pub struct RuntimeError {
    pub message: String,
    pub span: Option<Span>,
}

impl RuntimeError {
    /// An error with the given message and no place.
    pub fn new(message: String) -> (error: Self)
        ensures
            error.message == message,
            error.span is None,
    {
        RuntimeError { message, span: None }
    }

    /// The same error, at `span`.
    pub fn with_span(self, span: Span) -> (error: Self)
        ensures
            error.message == self.message,
            error.span == Some(span),
    {
        RuntimeError { message: self.message, span: Some(span) }
    }
}

/// Why a source is no program, and where, if that is known.
#[derive(Debug, PartialEq, Eq)]
pub struct ParseError {
    pub message: String,
    pub span: Option<Span>,
}

impl ParseError {
    /// An error with the given message and no place.
    pub fn new(message: String) -> (error: Self)
        ensures
            error.message == message,
            error.span is None,
    {
        ParseError { message, span: None }
    }

    /// The same error, at `span`.
    pub fn with_span(self, span: Span) -> (error: Self)
        ensures
            error.message == self.message,
            error.span == Some(span),
    {
        ParseError { message: self.message, span: Some(span) }
    }
}

} // verus!
