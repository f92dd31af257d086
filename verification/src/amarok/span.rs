use vstd::prelude::*;
use vstd::std_specs::convert::FromSpecImpl;

verus! {

/// A stretch of the source, by the offsets of its first byte and of the
/// byte behind its last.
#[derive(Debug, Clone, Copy, PartialEq, Eq, Structural)]
pub struct Span {
    pub start: usize,
    pub end: usize,
}

impl Span {
    /// The span from `start` up to `end`.
    pub fn new(start: usize, end: usize) -> (span: Self)
        ensures
            span.start == start,
            span.end == end,
    {
        Span { start, end }
    }

    /// The empty span at the start of the source.
    pub fn zero() -> (span: Self)
        ensures
            span.start == 0,
            span.end == 0,
    {
        Span { start: 0, end: 0 }
    }
}

/// A value with the stretch of the source that it comes from.
#[derive(Debug, PartialEq)]
pub struct Spanned<T> {
    pub span: Span,
    pub value: T,
}

impl<T> Spanned<T> {
    /// `value`, from `span`.
    pub fn new(span: Span, value: T) -> (spanned: Self)
        ensures
            spanned.span == span,
            spanned.value == value,
    {
        Spanned { span, value }
    }

    /// The result of `f` on the value, from the same span.
    pub fn map<U, F: FnOnce(T) -> U>(self, f: F) -> (mapped: Spanned<U>)
        requires
            f.requires((self.value,)),
        ensures
            mapped.span == self.span,
            f.ensures((self.value,), mapped.value),
    {
        Spanned { span: self.span, value: f(self.value) }
    }

    /// `value`, from the empty span at the start of the source.
    pub fn with_zero_span(value: T) -> (spanned: Self)
        ensures
            spanned.span == (Span { start: 0, end: 0 }),
            spanned.value == value,
    {
        Spanned { span: Span::zero(), value }
    }
}

impl<T> From<T> for Spanned<T> {
    fn from(value: T) -> (spanned: Self) {
        Spanned::with_zero_span(value)
    }
}

impl<T> FromSpecImpl<T> for Spanned<T> {
    open spec fn obeys_from_spec() -> bool {
        true
    }

    open spec fn from_spec(value: T) -> Self {
        Spanned { span: Span { start: 0, end: 0 }, value }
    }
}

} // verus!
