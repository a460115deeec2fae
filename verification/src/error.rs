//! What can go wrong while a program is compiled. Every error is final: the
//! first one ends the compilation.
use crate::span::Span;
use vstd::prelude::*;

verus! {

/// A malformed token: an unknown character, a string without its closing
/// quote, a number that does not fit.
#[derive(Debug, PartialEq, Eq)]
pub struct LexError {
    pub span: Span,
    pub message: Vec<u8>,
}

pub struct LexErrorView {
    pub span: Span,
    pub message: Seq<u8>,
}

impl LexError {
    pub open spec fn view(&self) -> LexErrorView {
        LexErrorView { span: self.span, message: self.message@ }
    }
}

/// A token that the grammar does not allow where it stands.
#[derive(Debug, PartialEq, Eq)]
pub enum ParseError {
    InvalidToken { span: Span, expected: Vec<u8>, got: Vec<u8> },
    /// A backslash in a string followed by a byte that names no escape.
    InvalidEscape(Span, u8),
    NoSuchIntrinsic(Span, Vec<u8>),
}

pub enum ParseErrorView {
    InvalidToken { span: Span, expected: Seq<u8>, got: Seq<u8> },
    InvalidEscape(Span, u8),
    NoSuchIntrinsic(Span, Seq<u8>),
}

impl ParseErrorView {
    pub open spec fn span(self) -> Span {
        match self {
            ParseErrorView::InvalidToken { span, .. } => span,
            ParseErrorView::InvalidEscape(span, _) => span,
            ParseErrorView::NoSuchIntrinsic(span, _) => span,
        }
    }
}

impl ParseError {
    pub open spec fn view(&self) -> ParseErrorView {
        match self {
            ParseError::InvalidToken { span, expected, got } => ParseErrorView::InvalidToken {
                span: *span,
                expected: expected@,
                got: got@,
            },
            ParseError::InvalidEscape(span, c) => ParseErrorView::InvalidEscape(*span, *c),
            ParseError::NoSuchIntrinsic(span, name) => ParseErrorView::NoSuchIntrinsic(
                *span,
                name@,
            ),
        }
    }

    /// Where the error is.
    pub fn span(&self) -> (r: Span)
        ensures
            r == self@.span(),
    {
        match self {
            ParseError::InvalidToken { span, .. } => *span,
            ParseError::InvalidEscape(span, _) => *span,
            ParseError::NoSuchIntrinsic(span, _) => *span,
        }
    }
}

/// An error of any stage of the compilation.
#[derive(Debug, PartialEq, Eq)]
pub enum Error {
    /// Something else was found than what was needed: a type, a number of
    /// arguments, a name that is bound.
    Type { span: Span, expected: Vec<u8>, got: Vec<u8> },
    /// A global name is defined a second time.
    ConflictingDefinitions { span1: Span, span2: Span, name: Vec<u8> },
    Lex(LexError),
    Parse(ParseError),
}

pub enum ErrorView {
    Type { span: Span, expected: Seq<u8>, got: Seq<u8> },
    ConflictingDefinitions { span1: Span, span2: Span, name: Seq<u8> },
    Lex(LexErrorView),
    Parse(ParseErrorView),
}

impl Error {
    pub open spec fn view(&self) -> ErrorView {
        match self {
            Error::Type { span, expected, got } => ErrorView::Type {
                span: *span,
                expected: expected@,
                got: got@,
            },
            Error::ConflictingDefinitions { span1, span2, name } => {
                ErrorView::ConflictingDefinitions { span1: *span1, span2: *span2, name: name@ }
            },
            Error::Lex(e) => ErrorView::Lex(e@),
            Error::Parse(e) => ErrorView::Parse(e@),
        }
    }

    /// Where the error is. Of two conflicting definitions it is the second.
    pub fn span(&self) -> (r: Span)
        ensures
            r == self@.span(),
    {
        match self {
            Error::Type { span, .. } => *span,
            Error::ConflictingDefinitions { span2, .. } => *span2,
            Error::Lex(e) => e.span,
            Error::Parse(e) => e.span(),
        }
    }
}

impl ErrorView {
    pub open spec fn span(self) -> Span {
        match self {
            ErrorView::Type { span, .. } => span,
            ErrorView::ConflictingDefinitions { span2, .. } => span2,
            ErrorView::Lex(e) => e.span,
            ErrorView::Parse(e) => e.span(),
        }
    }
}

/// A type error, as a view.
pub open spec fn type_error(span: Span, expected: Seq<u8>, got: Seq<u8>) -> ErrorView {
    ErrorView::Type { span, expected, got }
}

} // verus!
