//! Diagnostics: where an error is, in words that a reader of the source
//! understands.
//!
//! A diagnostic starts with the name of the file, the line and the column,
//! says what went wrong, and shows the line with a mark under the place.
use crate::error::{Error, ErrorView, ParseError, ParseErrorView};
use crate::span::Span;
use crate::text::{copy_bytes, dec_digits, lit, push_bytes, push_dec, push_lit};
use vstd::prelude::*;
use vstd::slice::slice_subrange;

verus! {

/// The number of line feeds among the first `n` bytes.
pub open spec fn line_feeds(data: Seq<u8>, n: int) -> nat
    decreases n,
{
    if n <= 0 {
        0
    } else if data[n - 1] == 10 {
        line_feeds(data, n - 1) + 1
    } else {
        line_feeds(data, n - 1)
    }
}

/// The place where the line of place `pos` starts: behind the last line
/// feed before `pos`, or at the start of the text.
pub open spec fn line_start(data: Seq<u8>, pos: int) -> int
    decreases pos,
{
    if pos <= 0 {
        0
    } else if data[pos - 1] == 10 {
        pos
    } else {
        line_start(data, pos - 1)
    }
}

/// The place where the line of place `pos` ends: at the next line feed, or
/// at the end of the text.
pub open spec fn line_end(data: Seq<u8>, pos: int) -> int
    decreases data.len() - pos,
{
    if pos < 0 || pos >= data.len() {
        data.len() as int
    } else if data[pos] == 10 {
        pos
    } else {
        line_end(data, pos + 1)
    }
}

/// The place that a span points at, inside a text of `len` bytes.
pub open spec fn pointed(span: Span, len: int) -> int {
    if span.main <= len {
        span.main as int
    } else {
        len
    }
}

/// The number of marks under a span: one for each byte from the place it
/// points at to its end or to the end of the line, and one at least.
pub open spec fn marks(data: Seq<u8>, span: Span) -> int {
    let p = pointed(span, data.len() as int);
    let stop = if span.end <= line_end(data, p) {
        span.end as int
    } else {
        line_end(data, p)
    };
    if stop > p {
        stop - p
    } else {
        1
    }
}

/// `n` times the byte `b`.
pub open spec fn repeat(b: u8, n: int) -> Seq<u8> {
    Seq::new(
        if n >= 0 {
            n as nat
        } else {
            0
        },
        |i: int| b,
    )
}

/// The start of a diagnostic: the name of the file, the line and the
/// column of the place, each counted from 1, with colons behind them.
pub open spec fn place_text(name: Seq<u8>, data: Seq<u8>, span: Span) -> Seq<u8> {
    let p = pointed(span, data.len() as int);
    name + lit(":") + dec_digits(line_feeds(data, p) + 1) + lit(":") + dec_digits(
        (p - line_start(data, p) + 1) as nat,
    ) + lit(": ")
}

/// The line of the place with a line of marks under the place.
pub open spec fn excerpt(data: Seq<u8>, span: Span) -> Seq<u8> {
    let p = pointed(span, data.len() as int);
    data.subrange(line_start(data, p), line_end(data, p)) + seq![10u8] + repeat(
        32,
        p - line_start(data, p),
    ) + repeat(94, marks(data, span)) + seq![10u8]
}

/// A diagnostic: the place, the message, and the line with its marks.
pub open spec fn diagnostic(name: Seq<u8>, data: Seq<u8>, span: Span, message: Seq<u8>) -> Seq<u8> {
    place_text(name, data, span) + message + seq![10u8] + excerpt(data, span)
}

/// The line of a place starts at or before the place, and ends at or after
/// it, inside the text.
pub proof fn lemma_line_bounds(data: Seq<u8>, pos: int)
    requires
        0 <= pos <= data.len(),
    ensures
        0 <= line_start(data, pos) <= pos,
        pos <= line_end(data, pos) <= data.len(),
    decreases data.len(),
{
    lemma_line_start_bounds(data, pos);
    lemma_line_end_bounds(data, pos);
}

proof fn lemma_line_start_bounds(data: Seq<u8>, pos: int)
    requires
        0 <= pos,
    ensures
        0 <= line_start(data, pos) <= pos,
    decreases pos,
{
    if pos > 0 && data[pos - 1] != 10 {
        lemma_line_start_bounds(data, pos - 1);
    }
}

proof fn lemma_line_end_bounds(data: Seq<u8>, pos: int)
    requires
        0 <= pos <= data.len(),
    ensures
        pos <= line_end(data, pos) <= data.len(),
    decreases data.len() - pos,
{
    if pos < data.len() && data[pos] != 10 {
        lemma_line_end_bounds(data, pos + 1);
    }
}

fn find_line_start(data: &[u8], pos: usize) -> (r: usize)
    requires
        pos <= data.len(),
    ensures
        r == line_start(data@, pos as int),
        r <= pos,
{
    let mut i: usize = pos;
    while i > 0 && data[i - 1] != 10
        invariant
            0 <= i <= pos <= data.len(),
            line_start(data@, pos as int) == line_start(data@, i as int),
        decreases i,
    {
        i -= 1;
    }
    i
}

fn find_line_end(data: &[u8], pos: usize) -> (r: usize)
    requires
        pos <= data.len(),
    ensures
        r == line_end(data@, pos as int),
        pos <= r <= data.len(),
{
    let mut i: usize = pos;
    while i < data.len() && data[i] != 10
        invariant
            pos <= i <= data.len(),
            line_end(data@, pos as int) == line_end(data@, i as int),
        decreases data.len() - i,
    {
        i += 1;
    }
    i
}

fn count_line_feeds(data: &[u8], pos: usize) -> (r: usize)
    requires
        pos <= data.len(),
    ensures
        r == line_feeds(data@, pos as int),
        r <= pos,
{
    let mut n: usize = 0;
    let mut i: usize = 0;
    while i < pos
        invariant
            0 <= i <= pos <= data.len(),
            n == line_feeds(data@, i as int),
            n <= i,
        decreases pos - i,
    {
        if data[i] == 10 {
            n += 1;
        }
        i += 1;
    }
    n
}

fn push_repeat(buf: &mut Vec<u8>, b: u8, n: usize)
    ensures
        final(buf)@ == old(buf)@ + repeat(b, n as int),
{
    let mut i: usize = 0;
    assert(buf@ =~= old(buf)@ + repeat(b, 0));
    while i < n
        invariant
            0 <= i <= n,
            buf@ == old(buf)@ + repeat(b, i as int),
        decreases n - i,
    {
        buf.push(b);
        assert(buf@ =~= old(buf)@ + repeat(b, i + 1));
        i += 1;
    }
}

/// The diagnostic for an error with `message` at `span` in the file `name`
/// with the bytes `data`.
pub fn format_diagnostic(name: &[u8], data: &[u8], span: Span, message: &[u8]) -> (r: Vec<u8>)
    ensures
        r@ == diagnostic(name@, data@, span, message@),
{
    let p: usize = if span.main <= data.len() {
        span.main
    } else {
        data.len()
    };
    let start: usize = find_line_start(data, p);
    let end: usize = find_line_end(data, p);
    let line: usize = count_line_feeds(data, p);
    let stop: usize = if span.end <= end {
        span.end
    } else {
        end
    };
    let count: usize = if stop > p {
        stop - p
    } else {
        1
    };
    let mut r: Vec<u8> = Vec::new();
    push_bytes(&mut r, name);
    push_lit(&mut r, ":");
    push_dec(&mut r, line as u128 + 1);
    push_lit(&mut r, ":");
    push_dec(&mut r, (p - start) as u128 + 1);
    push_lit(&mut r, ": ");
    assert(r@ =~= place_text(name@, data@, span));
    push_bytes(&mut r, message);
    r.push(10u8);
    let ghost head = r@;
    assert(head =~= place_text(name@, data@, span) + message@ + seq![10u8]);
    push_bytes(&mut r, slice_subrange(data, start, end));
    r.push(10u8);
    push_repeat(&mut r, 32, p - start);
    push_repeat(&mut r, 94, count);
    r.push(10u8);
    assert(r@ =~= head + excerpt(data@, span));
    r
}

/// What a parse error says.
pub open spec fn parse_message(e: ParseErrorView) -> Seq<u8> {
    match e {
        ParseErrorView::InvalidToken { expected, got, .. } => lit("Expected ") + expected + lit(
            ", but got ",
        ) + got,
        ParseErrorView::InvalidEscape(_, c) => lit("Invalid escape char ") + seq![c],
        ParseErrorView::NoSuchIntrinsic(_, name) => lit("No such intrinsic: ") + name,
    }
}

/// What an error says.
pub open spec fn message(e: ErrorView) -> Seq<u8> {
    match e {
        ErrorView::Type { expected, got, .. } => lit("Expected ") + expected + lit(", but got ")
            + got,
        ErrorView::ConflictingDefinitions { name, .. } => lit("Conflicting definitions of ") + name,
        ErrorView::Lex(e) => e.message,
        ErrorView::Parse(e) => parse_message(e),
    }
}

impl ParseError {
    /// What the error says.
    pub fn message(&self) -> (r: Vec<u8>)
        ensures
            r@ == parse_message(self@),
    {
        let mut r: Vec<u8> = Vec::new();
        match self {
            ParseError::InvalidToken { expected, got, .. } => {
                push_lit(&mut r, "Expected ");
                push_bytes(&mut r, expected.as_slice());
                push_lit(&mut r, ", but got ");
                push_bytes(&mut r, got.as_slice());
                assert(r@ =~= parse_message(self@));
            },
            ParseError::InvalidEscape(_, c) => {
                push_lit(&mut r, "Invalid escape char ");
                r.push(*c);
                assert(r@ =~= parse_message(self@));
            },
            ParseError::NoSuchIntrinsic(_, name) => {
                push_lit(&mut r, "No such intrinsic: ");
                push_bytes(&mut r, name.as_slice());
                assert(r@ =~= parse_message(self@));
            },
        }
        r
    }

    /// The diagnostic for the error, which is in the file `name` with the
    /// bytes `data`.
    pub fn format(&self, name: &[u8], data: &[u8]) -> (r: Vec<u8>)
        ensures
            r@ == diagnostic(name@, data@, self@.span(), parse_message(self@)),
    {
        let message = self.message();
        format_diagnostic(name, data, self.span(), message.as_slice())
    }
}

impl Error {
    /// What the error says.
    pub fn message(&self) -> (r: Vec<u8>)
        ensures
            r@ == message(self@),
    {
        match self {
            Error::Type { expected, got, .. } => {
                let mut r: Vec<u8> = Vec::new();
                push_lit(&mut r, "Expected ");
                push_bytes(&mut r, expected.as_slice());
                push_lit(&mut r, ", but got ");
                push_bytes(&mut r, got.as_slice());
                assert(r@ =~= message(self@));
                r
            },
            Error::ConflictingDefinitions { name, .. } => {
                let mut r: Vec<u8> = Vec::new();
                push_lit(&mut r, "Conflicting definitions of ");
                push_bytes(&mut r, name.as_slice());
                assert(r@ =~= message(self@));
                r
            },
            Error::Lex(e) => copy_bytes(e.message.as_slice()),
            Error::Parse(e) => e.message(),
        }
    }

    /// The diagnostic for the error, which is in the file `name` with the
    /// bytes `data`: the file whose handle the span of the error holds.
    pub fn format(&self, name: &[u8], data: &[u8]) -> (r: Vec<u8>)
        ensures
            r@ == diagnostic(name@, data@, self@.span(), message(self@)),
    {
        let message = self.message();
        format_diagnostic(name, data, self.span(), message.as_slice())
    }
}

} // verus!
