//! The lexer: from the bytes of a source file to its tokens.
//!
//! Blanks, comments from `#` to the end of the line and a backslash before
//! a line feed are passed over. Everything else belongs to a token, or is an
//! error at its place.
use crate::error::{LexError, LexErrorView};
use crate::span::Span;
use crate::text::{lit, lit_vec};
use crate::token::{Spanned, Token};
use vstd::prelude::*;

verus! {

/// Classes of bytes that stand in a run.
#[derive(Clone, Copy, Debug, PartialEq, Eq, Structural)]
pub enum Class {
    /// A letter, a digit or an underscore.
    Word,
    Digit,
    HexDigit,
    BinDigit,
    /// Anything but a line feed.
    NotNewline,
}

pub open spec fn is_digit(b: u8) -> bool {
    48 <= b <= 57
}

pub open spec fn is_word_start(b: u8) -> bool {
    (65 <= b <= 90) || (97 <= b <= 122) || b == 95
}

/// Whether byte `b` belongs to class `c`.
pub open spec fn in_class(c: Class, b: u8) -> bool {
    match c {
        Class::Word => is_word_start(b) || is_digit(b),
        Class::Digit => is_digit(b),
        Class::HexDigit => is_digit(b) || (65 <= b <= 70) || (97 <= b <= 102),
        Class::BinDigit => b == 48 || b == 49,
        Class::NotNewline => b != 10,
    }
}

/// The number of bytes of class `c` that stand in a row at `i`.
pub open spec fn run(src: Seq<u8>, i: int, c: Class) -> nat
    decreases src.len() - i,
{
    if 0 <= i < src.len() && in_class(c, src[i]) {
        1 + run(src, i + 1, c)
    } else {
        0
    }
}

/// The value of a digit of a number in any base up to 16.
pub open spec fn digit_value(b: u8) -> nat {
    if is_digit(b) {
        (b - 48) as nat
    } else if 97 <= b <= 102 {
        (b - 87) as nat
    } else if 65 <= b <= 70 {
        (b - 55) as nat
    } else {
        0
    }
}

/// The value of a number from its digits in base `base`.
pub open spec fn digits_value(s: Seq<u8>, base: nat) -> nat
    decreases s.len(),
{
    if s.len() == 0 {
        0
    } else {
        digits_value(s.drop_last(), base) * base + digit_value(s.last())
    }
}

/// The place of the quote that closes a string which started before `i`;
/// a backslash and the byte after it are passed over together.
pub open spec fn string_end(src: Seq<u8>, i: int) -> Option<int>
    decreases src.len() - i,
{
    if i < 0 || i >= src.len() {
        None
    } else if src[i] == 34 {
        Some(i)
    } else if src[i] == 92 {
        if i + 1 < src.len() {
            string_end(src, i + 2)
        } else {
            None
        }
    } else {
        string_end(src, i + 1)
    }
}

/// The place of the quote that closes a raw string which started before
/// `i`: the next quote.
pub open spec fn raw_string_end(src: Seq<u8>, i: int) -> Option<int>
    decreases src.len() - i,
{
    if i < 0 || i >= src.len() {
        None
    } else if src[i] == 34 {
        Some(i)
    } else {
        raw_string_end(src, i + 1)
    }
}

/// The length of the exponent of a number at `i`: `e` or `E`, a sign or
/// none, and digits; 0 where no exponent stands.
pub open spec fn exponent_len(src: Seq<u8>, i: int) -> nat {
    if 0 <= i < src.len() && (src[i] == 101 || src[i] == 69) {
        let sign: nat = if i + 1 < src.len() && (src[i + 1] == 43 || src[i + 1] == 45) {
            1
        } else {
            0
        };
        let digits = run(src, i + 1 + sign, Class::Digit);
        if digits > 0 {
            1 + sign + digits
        } else {
            0
        }
    } else {
        0
    }
}

/// What stands at a place of the source.
pub enum Lexed {
    /// A token that ends before `end`.
    Token { token: Token, end: int },
    /// Something to pass over, up to `end`.
    Skip { end: int },
    /// An error in the bytes up to `end`.
    Error { message: Seq<u8>, end: int },
}

/// The number that starts at `pos`: digits in base 10, or in base 16 behind
/// `0x`, or in base 2 behind `0b`, which have to fit 64 bits with sign; or a
/// number with a fraction, which is digits, a dot, and digits or an exponent
/// or both.
pub open spec fn lex_number(src: Seq<u8>, pos: int) -> Lexed {
    if src[pos] == 48 && pos + 1 < src.len() && (src[pos + 1] == 120 || src[pos + 1] == 98) {
        let class = if src[pos + 1] == 120 {
            Class::HexDigit
        } else {
            Class::BinDigit
        };
        let base: nat = if src[pos + 1] == 120 {
            16
        } else {
            2
        };
        let n = run(src, pos + 2, class);
        let end = pos + 2 + n;
        if n == 0 {
            Lexed::Error { message: lit("number without digits"), end }
        } else if digits_value(src.subrange(pos + 2, end), base) > i64::MAX {
            Lexed::Error { message: lit("number too large"), end }
        } else {
            Lexed::Token {
                token: Token::Int(digits_value(src.subrange(pos + 2, end), base) as i64),
                end,
            }
        }
    } else {
        let n = run(src, pos, Class::Digit);
        let dot = pos + n;
        let fraction = run(src, dot + 1, Class::Digit);
        let exponent = exponent_len(src, dot + 1 + fraction);
        if dot < src.len() && src[dot] == 46 && (fraction > 0 || exponent > 0) {
            Lexed::Token { token: Token::Float, end: dot + 1 + fraction + exponent }
        } else if digits_value(src.subrange(pos, dot), 10) > i64::MAX {
            Lexed::Error { message: lit("number too large"), end: dot }
        } else {
            Lexed::Token {
                token: Token::Int(digits_value(src.subrange(pos, dot), 10) as i64),
                end: dot,
            }
        }
    }
}

/// The token of two bytes that starts with `a` and goes on with `b`.
pub open spec fn punct2(a: u8, b: u8) -> Option<Token> {
    if a == 47 && b == 47 {
        Some(Token::Slash2)
    } else if a == 60 && b == 60 {
        Some(Token::Lt2)
    } else if a == 62 && b == 62 {
        Some(Token::Gt2)
    } else if a == 61 && b == 61 {
        Some(Token::Eq2)
    } else if a == 33 && b == 61 {
        Some(Token::Ne)
    } else if a == 60 && b == 61 {
        Some(Token::Le)
    } else if a == 62 && b == 61 {
        Some(Token::Ge)
    } else if a == 46 && b == 46 {
        Some(Token::Dot2)
    } else {
        None
    }
}

/// The token of the one byte `a`.
pub open spec fn punct1(a: u8) -> Option<Token> {
    if a == 43 {
        Some(Token::Plus)
    } else if a == 45 {
        Some(Token::Minus)
    } else if a == 42 {
        Some(Token::Star)
    } else if a == 47 {
        Some(Token::Slash)
    } else if a == 37 {
        Some(Token::Percent)
    } else if a == 38 {
        Some(Token::Ampersand)
    } else if a == 124 {
        Some(Token::VerticalBar)
    } else if a == 94 {
        Some(Token::Caret)
    } else if a == 60 {
        Some(Token::Lt)
    } else if a == 62 {
        Some(Token::Gt)
    } else if a == 61 {
        Some(Token::Eq)
    } else if a == 40 {
        Some(Token::LParen)
    } else if a == 41 {
        Some(Token::RParen)
    } else if a == 123 {
        Some(Token::LBrace)
    } else if a == 125 {
        Some(Token::RBrace)
    } else if a == 91 {
        Some(Token::LBracket)
    } else if a == 93 {
        Some(Token::RBracket)
    } else if a == 44 {
        Some(Token::Comma)
    } else if a == 59 {
        Some(Token::Semicolon)
    } else if a == 46 {
        Some(Token::Dot)
    } else if a == 58 {
        Some(Token::Colon)
    } else if a == 36 {
        Some(Token::Dollar)
    } else if a == 33 {
        Some(Token::Exclamation)
    } else {
        None
    }
}

/// The operator or punctuation at `pos`: the longest that matches.
pub open spec fn lex_punct(src: Seq<u8>, pos: int) -> Lexed {
    if pos + 1 < src.len() && punct2(src[pos], src[pos + 1]) is Some {
        Lexed::Token { token: punct2(src[pos], src[pos + 1])->0, end: pos + 2 }
    } else if punct1(src[pos]) is Some {
        Lexed::Token { token: punct1(src[pos])->0, end: pos + 1 }
    } else {
        Lexed::Error { message: lit("unrecognized character"), end: pos + 1 }
    }
}

/// What stands at `pos`, a place inside the source.
pub open spec fn lex_at(src: Seq<u8>, pos: int) -> Lexed {
    let c = src[pos];
    if c == 32 || c == 9 || c == 13 {
        Lexed::Skip { end: pos + 1 }
    } else if c == 10 {
        Lexed::Token { token: Token::Newline, end: pos + 1 }
    } else if c == 92 {
        if pos + 1 < src.len() && src[pos + 1] == 10 {
            Lexed::Skip { end: pos + 2 }
        } else {
            Lexed::Error { message: lit("unrecognized character"), end: pos + 1 }
        }
    } else if c == 35 {
        Lexed::Skip { end: pos + 1 + run(src, pos + 1, Class::NotNewline) }
    } else if c == 114 && pos + 1 < src.len() && src[pos + 1] == 34 {
        match raw_string_end(src, pos + 2) {
            Some(j) => Lexed::Token { token: Token::RawString, end: j + 1 },
            None => Lexed::Error { message: lit("unterminated string"), end: src.len() as int },
        }
    } else if is_word_start(c) {
        Lexed::Token { token: Token::Name, end: pos + 1 + run(src, pos + 1, Class::Word) }
    } else if is_digit(c) {
        lex_number(src, pos)
    } else if c == 34 {
        match string_end(src, pos + 1) {
            Some(j) => Lexed::Token { token: Token::NormalString, end: j + 1 },
            None => Lexed::Error { message: lit("unterminated string"), end: src.len() as int },
        }
    } else {
        lex_punct(src, pos)
    }
}

/// The span of the bytes from `start` to `end` of source `source`.
pub open spec fn span_of(source: usize, start: int, end: int) -> Span {
    Span { source, main: start as usize, start: start as usize, end: end as usize }
}

/// The tokens of the source from `pos` on, behind those of `acc`; the last
/// token is the end of the file. The first error ends the lexing.
pub open spec fn lex_from(src: Seq<u8>, source: usize, pos: int, acc: Seq<Spanned>) -> Result<
    Seq<Spanned>,
    LexErrorView,
>
    decreases src.len() - pos,
{
    if pos < 0 || pos >= src.len() {
        Ok(acc.push((Token::EOF, span_of(source, src.len() as int, src.len() as int))))
    } else {
        proof {
            lemma_lex_at_progress(src, pos);
        }
        match lex_at(src, pos) {
            Lexed::Skip { end } => lex_from(src, source, end, acc),
            Lexed::Token { token, end } => lex_from(
                src,
                source,
                end,
                acc.push((token, span_of(source, pos, end))),
            ),
            Lexed::Error { message, end } => Err(
                LexErrorView { span: span_of(source, pos, end), message },
            ),
        }
    }
}

/// The tokens of a source file, or the first error in it.
pub open spec fn spec_lex(src: Seq<u8>, source: usize) -> Result<Seq<Spanned>, LexErrorView> {
    lex_from(src, source, 0, Seq::empty())
}

/// A run ends inside the source.
pub proof fn lemma_run_bound(src: Seq<u8>, i: int, c: Class)
    requires
        0 <= i,
    ensures
        i <= src.len() ==> i + run(src, i, c) <= src.len(),
        i >= src.len() ==> run(src, i, c) == 0,
    decreases src.len() - i,
{
    if i < src.len() && in_class(c, src[i]) {
        lemma_run_bound(src, i + 1, c);
    }
}

/// The quote that closes a string stands inside the source, at or after
/// the place where the search began.
pub proof fn lemma_string_end_bound(src: Seq<u8>, i: int)
    requires
        0 <= i,
    ensures
        string_end(src, i) matches Some(j) ==> i <= j < src.len() && src[j] == 34,
        raw_string_end(src, i) matches Some(j) ==> i <= j < src.len() && src[j] == 34,
    decreases src.len() - i,
{
    if i < src.len() {
        lemma_string_end_bound(src, i + 1);
        if i + 1 < src.len() {
            lemma_string_end_bound(src, i + 2);
        }
    }
}

/// The exponent of a number ends inside the source.
pub proof fn lemma_exponent_bound(src: Seq<u8>, i: int)
    requires
        0 <= i,
    ensures
        i <= src.len() ==> i + exponent_len(src, i) <= src.len(),
        i >= src.len() ==> exponent_len(src, i) == 0,
{
    if i < src.len() {
        lemma_run_bound(src, i + 1, Class::Digit);
        lemma_run_bound(src, i + 2, Class::Digit);
    }
}

/// Whatever stands at a place inside the source takes at least one byte
/// and ends inside the source: the lexer is never stuck, and an error has
/// its place.
pub proof fn lemma_lex_at_progress(src: Seq<u8>, pos: int)
    requires
        0 <= pos < src.len(),
    ensures
        match lex_at(src, pos) {
            Lexed::Token { token, end } => pos < end <= src.len() && token != Token::EOF && pos
                + min_len(token) <= end,
            Lexed::Skip { end } => pos < end <= src.len(),
            Lexed::Error { message, end } => pos < end <= src.len(),
        },
{
    lemma_run_bound(src, pos + 1, Class::NotNewline);
    lemma_run_bound(src, pos + 1, Class::Word);
    lemma_run_bound(src, pos, Class::Digit);
    lemma_run_bound(src, pos + 2, Class::HexDigit);
    lemma_run_bound(src, pos + 2, Class::BinDigit);
    lemma_string_end_bound(src, pos + 1);
    lemma_string_end_bound(src, pos + 2);
    let n = run(src, pos, Class::Digit);
    lemma_run_bound(src, pos + n + 1, Class::Digit);
    let f = run(src, pos + n + 1, Class::Digit);
    lemma_exponent_bound(src, pos + n + 1 + f);
}

/// The value of the first digits of a number is at most the value of all.
pub proof fn lemma_digits_prefix(s: Seq<u8>, k: int, base: nat)
    requires
        0 <= k <= s.len(),
        base >= 1,
    ensures
        digits_value(s.subrange(0, k), base) <= digits_value(s, base),
    decreases s.len() - k,
{
    if k < s.len() {
        lemma_digits_prefix(s.drop_last(), k, base);
        assert(s.drop_last().subrange(0, k) =~= s.subrange(0, k));
        let v = digits_value(s.drop_last(), base);
        assert(v * base >= v) by (nonlinear_arith)
            requires
                base >= 1,
                v >= 0,
        ;
    } else {
        assert(s.subrange(0, k) =~= s);
    }
}

/// Whether byte `b` belongs to class `c`.
pub fn byte_in_class(c: Class, b: u8) -> (r: bool)
    ensures
        r == in_class(c, b),
{
    match c {
        Class::Word => (65 <= b && b <= 90) || (97 <= b && b <= 122) || b == 95 || (48 <= b && b
            <= 57),
        Class::Digit => 48 <= b && b <= 57,
        Class::HexDigit => (48 <= b && b <= 57) || (65 <= b && b <= 70) || (97 <= b && b <= 102),
        Class::BinDigit => b == 48 || b == 49,
        Class::NotNewline => b != 10,
    }
}

fn scan(src: &[u8], i: usize, c: Class) -> (n: usize)
    requires
        i <= src.len(),
    ensures
        n == run(src@, i as int, c),
        i + n <= src.len(),
{
    let mut j: usize = i;
    while j < src.len() && byte_in_class(c, src[j])
        invariant
            i <= j <= src.len(),
            run(src@, i as int, c) == (j - i) + run(src@, j as int, c),
        decreases src.len() - j,
    {
        j += 1;
    }
    j - i
}

fn find_string_end(src: &[u8], i: usize) -> (r: Option<usize>)
    requires
        i <= src.len(),
    ensures
        match string_end(src@, i as int) {
            Some(j) => r == Some(j as usize) && i <= j < src.len(),
            None => r is None,
        },
{
    let mut j: usize = i;
    while j < src.len()
        invariant
            i <= j <= src.len(),
            string_end(src@, i as int) == string_end(src@, j as int),
        decreases src.len() - j,
    {
        if src[j] == 34 {
            return Some(j);
        } else if src[j] == 92 {
            if j + 1 < src.len() {
                j += 2;
            } else {
                return None;
            }
        } else {
            j += 1;
        }
    }
    None
}

fn find_raw_string_end(src: &[u8], i: usize) -> (r: Option<usize>)
    requires
        i <= src.len(),
    ensures
        match raw_string_end(src@, i as int) {
            Some(j) => r == Some(j as usize) && i <= j < src.len(),
            None => r is None,
        },
{
    let mut j: usize = i;
    while j < src.len()
        invariant
            i <= j <= src.len(),
            raw_string_end(src@, i as int) == raw_string_end(src@, j as int),
        decreases src.len() - j,
    {
        if src[j] == 34 {
            return Some(j);
        }
        j += 1;
    }
    None
}

fn exponent(src: &[u8], i: usize) -> (n: usize)
    requires
        i <= src.len(),
    ensures
        n == exponent_len(src@, i as int),
        i + n <= src.len(),
{
    if i < src.len() && (src[i] == 101 || src[i] == 69) {
        let sign: usize = if i + 1 < src.len() && (src[i + 1] == 43 || src[i + 1] == 45) {
            1
        } else {
            0
        };
        let digits: usize = scan(src, i + 1 + sign, Class::Digit);
        if digits > 0 {
            1 + sign + digits
        } else {
            0
        }
    } else {
        0
    }
}

fn digit_of(b: u8) -> (d: u64)
    ensures
        d == digit_value(b),
        d <= 15,
{
    if 48 <= b && b <= 57 {
        (b - 48) as u64
    } else if 97 <= b && b <= 102 {
        (b - 87) as u64
    } else if 65 <= b && b <= 70 {
        (b - 55) as u64
    } else {
        0
    }
}

fn number_value(src: &[u8], start: usize, end: usize, base: u64) -> (r: Option<i64>)
    requires
        start <= end <= src.len(),
        base == 2 || base == 10 || base == 16,
    ensures
        match r {
            Some(v) => v == digits_value(src@.subrange(start as int, end as int), base as nat),
            None => digits_value(src@.subrange(start as int, end as int), base as nat) > i64::MAX,
        },
{
    let ghost all = src@.subrange(start as int, end as int);
    let mut acc: u64 = 0;
    let mut i: usize = start;
    assert(src@.subrange(start as int, start as int) =~= Seq::<u8>::empty());
    while i < end
        invariant
            start <= i <= end <= src.len(),
            base == 2 || base == 10 || base == 16,
            all == src@.subrange(start as int, end as int),
            acc == digits_value(src@.subrange(start as int, i as int), base as nat),
            acc <= 0x7fff_ffff_ffff_ffff,
        decreases end - i,
    {
        let d: u64 = digit_of(src[i]);
        let ghost next = src@.subrange(start as int, i + 1);
        proof {
            assert(next.drop_last() =~= src@.subrange(start as int, i as int));
            assert(next.last() == src@[i as int]);
            assert(digits_value(next, base as nat) == acc * base + d);
            assert(all.subrange(0, i + 1 - start) =~= next);
            lemma_digits_prefix(all, i + 1 - start, base as nat);
        }
        if acc > (0x7fff_ffff_ffff_ffffu64 - d) / base {
            assert(acc * base + d > 0x7fff_ffff_ffff_ffff) by (nonlinear_arith)
                requires
                    acc > (0x7fff_ffff_ffff_ffff - d) / (base as int),
                    base == 2 || base == 10 || base == 16,
                    d <= 15,
            ;
            return None;
        }
        assert(acc * base + d <= 0x7fff_ffff_ffff_ffff) by (nonlinear_arith)
            requires
                acc <= (0x7fff_ffff_ffff_ffff - d) / (base as int),
                base == 2 || base == 10 || base == 16,
                d <= 15,
        ;
        acc = acc * base + d;
        i += 1;
    }
    assert(src@.subrange(start as int, end as int) =~= all);
    Some(acc as i64)
}

/// What the lexer found at a place.
pub enum Step {
    Token(Token, usize),
    Skip(usize),
    Error(&'static str, usize),
}

impl Step {
    pub open spec fn view(&self) -> Lexed {
        match self {
            Step::Token(token, end) => Lexed::Token { token: *token, end: *end as int },
            Step::Skip(end) => Lexed::Skip { end: *end as int },
            Step::Error(message, end) => Lexed::Error { message: lit(message), end: *end as int },
        }
    }
}

fn number_at(src: &[u8], pos: usize) -> (r: Step)
    requires
        pos < src.len(),
        is_digit(src@[pos as int]),
    ensures
        r@ == lex_number(src@, pos as int),
{
    proof {
        lemma_run_bound(src@, pos as int, Class::Digit);
    }
    if src[pos] == 48 && pos + 1 < src.len() && (src[pos + 1] == 120 || src[pos + 1] == 98) {
        let hex: bool = src[pos + 1] == 120;
        let n: usize = scan(
            src,
            pos + 2,
            if hex {
                Class::HexDigit
            } else {
                Class::BinDigit
            },
        );
        let end: usize = pos + 2 + n;
        if n == 0 {
            Step::Error("number without digits", end)
        } else {
            match number_value(
                src,
                pos + 2,
                end,
                if hex {
                    16
                } else {
                    2
                },
            ) {
                Some(v) => Step::Token(Token::Int(v), end),
                None => Step::Error("number too large", end),
            }
        }
    } else {
        let n: usize = scan(src, pos, Class::Digit);
        let dot: usize = pos + n;
        if dot < src.len() && src[dot] == 46 {
            let fraction: usize = scan(src, dot + 1, Class::Digit);
            let exp: usize = exponent(src, dot + 1 + fraction);
            if fraction > 0 || exp > 0 {
                return Step::Token(Token::Float, dot + 1 + fraction + exp);
            }
        }
        match number_value(src, pos, dot, 10) {
            Some(v) => Step::Token(Token::Int(v), dot),
            None => Step::Error("number too large", dot),
        }
    }
}

fn two_bytes(a: u8, b: u8) -> (r: Option<Token>)
    ensures
        r == punct2(a, b),
{
    if a == 47 && b == 47 {
        Some(Token::Slash2)
    } else if a == 60 && b == 60 {
        Some(Token::Lt2)
    } else if a == 62 && b == 62 {
        Some(Token::Gt2)
    } else if a == 61 && b == 61 {
        Some(Token::Eq2)
    } else if a == 33 && b == 61 {
        Some(Token::Ne)
    } else if a == 60 && b == 61 {
        Some(Token::Le)
    } else if a == 62 && b == 61 {
        Some(Token::Ge)
    } else if a == 46 && b == 46 {
        Some(Token::Dot2)
    } else {
        None
    }
}

fn one_byte(a: u8) -> (r: Option<Token>)
    ensures
        r == punct1(a),
{
    if a == 43 {
        Some(Token::Plus)
    } else if a == 45 {
        Some(Token::Minus)
    } else if a == 42 {
        Some(Token::Star)
    } else if a == 47 {
        Some(Token::Slash)
    } else if a == 37 {
        Some(Token::Percent)
    } else if a == 38 {
        Some(Token::Ampersand)
    } else if a == 124 {
        Some(Token::VerticalBar)
    } else if a == 94 {
        Some(Token::Caret)
    } else if a == 60 {
        Some(Token::Lt)
    } else if a == 62 {
        Some(Token::Gt)
    } else if a == 61 {
        Some(Token::Eq)
    } else if a == 40 {
        Some(Token::LParen)
    } else if a == 41 {
        Some(Token::RParen)
    } else if a == 123 {
        Some(Token::LBrace)
    } else if a == 125 {
        Some(Token::RBrace)
    } else if a == 91 {
        Some(Token::LBracket)
    } else if a == 93 {
        Some(Token::RBracket)
    } else if a == 44 {
        Some(Token::Comma)
    } else if a == 59 {
        Some(Token::Semicolon)
    } else if a == 46 {
        Some(Token::Dot)
    } else if a == 58 {
        Some(Token::Colon)
    } else if a == 36 {
        Some(Token::Dollar)
    } else if a == 33 {
        Some(Token::Exclamation)
    } else {
        None
    }
}

fn punct_at(src: &[u8], pos: usize) -> (r: Step)
    requires
        pos < src.len(),
    ensures
        r@ == lex_punct(src@, pos as int),
{
    if pos + 1 < src.len() {
        match two_bytes(src[pos], src[pos + 1]) {
            Some(t) => {
                return Step::Token(t, pos + 2);
            },
            None => {},
        }
    }
    match one_byte(src[pos]) {
        Some(t) => Step::Token(t, pos + 1),
        None => Step::Error("unrecognized character", pos + 1),
    }
}

/// What stands at `pos`: a token, something to pass over, or an error.
pub fn step_at(src: &[u8], pos: usize) -> (r: Step)
    requires
        pos < src.len(),
    ensures
        r@ == lex_at(src@, pos as int),
{
    let c: u8 = src[pos];
    if c == 32 || c == 9 || c == 13 {
        Step::Skip(pos + 1)
    } else if c == 10 {
        Step::Token(Token::Newline, pos + 1)
    } else if c == 92 {
        if pos + 1 < src.len() && src[pos + 1] == 10 {
            Step::Skip(pos + 2)
        } else {
            Step::Error("unrecognized character", pos + 1)
        }
    } else if c == 35 {
        Step::Skip(pos + 1 + scan(src, pos + 1, Class::NotNewline))
    } else if c == 114 && pos + 1 < src.len() && src[pos + 1] == 34 {
        match find_raw_string_end(src, pos + 2) {
            Some(j) => Step::Token(Token::RawString, j + 1),
            None => Step::Error("unterminated string", src.len()),
        }
    } else if (65 <= c && c <= 90) || (97 <= c && c <= 122) || c == 95 {
        Step::Token(Token::Name, pos + 1 + scan(src, pos + 1, Class::Word))
    } else if 48 <= c && c <= 57 {
        number_at(src, pos)
    } else if c == 34 {
        match find_string_end(src, pos + 1) {
            Some(j) => Step::Token(Token::NormalString, j + 1),
            None => Step::Error("unterminated string", src.len()),
        }
    } else {
        punct_at(src, pos)
    }
}

/// The least number of bytes that a token takes: a string has its quotes,
/// a raw string also its `r`.
pub open spec fn min_len(token: Token) -> int {
    match token {
        Token::NormalString => 2,
        Token::RawString => 3,
        Token::EOF => 0,
        _ => 1,
    }
}

/// The tokens of a source are in order, each inside the source, and the
/// last one, and only the last, is the end of the file.
pub open spec fn tokens_wf(toks: Seq<Spanned>, len: int) -> bool {
    &&& toks.len() >= 1
    &&& toks[toks.len() - 1].0 == Token::EOF
    &&& forall|i: int|
        0 <= i < toks.len() ==> {
            &&& (#[trigger] toks[i]).1.within(len)
            &&& toks[i].1.main == toks[i].1.start
            &&& toks[i].1.start + min_len(toks[i].0) <= toks[i].1.end
            &&& (i + 1 < toks.len() ==> toks[i].0 != Token::EOF)
        }
    &&& forall|i: int, j: int|
        0 <= i < j < toks.len() ==> (#[trigger] toks[i]).1.end <= (#[trigger] toks[j]).1.start
}

/// Whether every token lies in the source with the handle `source`.
pub open spec fn tokens_of(toks: Seq<Spanned>, source: usize) -> bool {
    forall|i: int| 0 <= i < toks.len() ==> (#[trigger] toks[i]).1.source == source
}

/// The tokens of the source `src`, which has the handle `source`, with the
/// end of the file as the last one; or the first error.
pub fn lex(source: usize, src: &[u8]) -> (r: Result<Vec<Spanned>, LexError>)
    ensures
        match spec_lex(src@, source) {
            Ok(toks) => r matches Ok(v) && v@ == toks,
            Err(e) => r matches Err(x) && x@ == e,
        },
        r matches Ok(v) ==> tokens_wf(v@, src.len() as int) && tokens_of(v@, source),
        r matches Err(x) ==> x.span.start < x.span.end <= src.len() && x.span.source == source,
{
    let n: usize = src.len();
    let mut tokens: Vec<Spanned> = Vec::new();
    let mut pos: usize = 0;
    while pos < n
        invariant
            n == src.len(),
            0 <= pos <= n,
            lex_from(src@, source, pos as int, tokens@) == spec_lex(src@, source),
            tokens_of(tokens@, source),
            forall|i: int|
                0 <= i < tokens.len() ==> {
                    &&& (#[trigger] tokens@[i]).1.within(n as int)
                    &&& tokens@[i].1.main == tokens@[i].1.start
                    &&& tokens@[i].0 != Token::EOF
                    &&& tokens@[i].1.start + min_len(tokens@[i].0) <= tokens@[i].1.end
                    &&& tokens@[i].1.end <= pos
                },
            forall|i: int, j: int|
                0 <= i < j < tokens.len() ==> (#[trigger] tokens@[i]).1.end <= (
                #[trigger] tokens@[j]).1.start,
        decreases n - pos,
    {
        proof {
            lemma_lex_at_progress(src@, pos as int);
        }
        match step_at(src, pos) {
            Step::Skip(end) => {
                pos = end;
            },
            Step::Token(token, end) => {
                tokens.push((token, Span { source, main: pos, start: pos, end }));
                pos = end;
            },
            Step::Error(message, end) => {
                return Err(
                    LexError {
                        span: Span { source, main: pos, start: pos, end },
                        message: lit_vec(message),
                    },
                );
            },
        }
    }
    tokens.push((Token::EOF, Span { source, main: n, start: n, end: n }));
    Ok(tokens)
}

/// The lexer is total: it gives the tokens of the whole source, in order
/// and ending with the end of the file, or an error whose span is a place in
/// the source.
pub proof fn lemma_lex_total(src: Seq<u8>, source: usize)
    requires
        src.len() <= usize::MAX,
    ensures
        match spec_lex(src, source) {
            Ok(toks) => tokens_wf(toks, src.len() as int) && tokens_of(toks, source),
            Err(e) => e.span.start < e.span.end <= src.len() && e.span.source == source,
        },
{
    lemma_lex_from_total(src, source, 0, Seq::empty());
}

/// The part of `lemma_lex_total` for the tokens from a place on.
pub proof fn lemma_lex_from_total(src: Seq<u8>, source: usize, pos: int, acc: Seq<Spanned>)
    requires
        src.len() <= usize::MAX,
        0 <= pos <= src.len(),
        tokens_of(acc, source),
        forall|i: int|
            0 <= i < acc.len() ==> {
                &&& (#[trigger] acc[i]).1.within(src.len() as int)
                &&& acc[i].1.main == acc[i].1.start
                &&& acc[i].0 != Token::EOF
                &&& acc[i].1.start + min_len(acc[i].0) <= acc[i].1.end
                &&& acc[i].1.end <= pos
            },
        forall|i: int, j: int|
            0 <= i < j < acc.len() ==> (#[trigger] acc[i]).1.end <= (#[trigger] acc[j]).1.start,
    ensures
        match lex_from(src, source, pos, acc) {
            Ok(toks) => tokens_wf(toks, src.len() as int) && tokens_of(toks, source),
            Err(e) => e.span.start < e.span.end <= src.len() && e.span.source == source,
        },
    decreases src.len() - pos,
{
    if pos < src.len() {
        lemma_lex_at_progress(src, pos);
        match lex_at(src, pos) {
            Lexed::Skip { end } => {
                lemma_lex_from_total(src, source, end, acc);
            },
            Lexed::Token { token, end } => {
                lemma_lex_from_total(
                    src,
                    source,
                    end,
                    acc.push((token, span_of(source, pos, end))),
                );
            },
            Lexed::Error { .. } => {},
        }
    }
}

/// Whether the bytes from `a` to `b` are passed over by the lexer: blanks,
/// comments, and backslashes before line feeds, and nothing else.
pub open spec fn skipped(src: Seq<u8>, a: int, b: int) -> bool
    decreases b - a,
{
    if a >= b {
        a == b
    } else {
        &&& 0 <= a < src.len()
        &&& lex_at(src, a) matches Lexed::Skip { end }
        &&& a < end <= b
        &&& skipped(src, end, b)
    }
}

/// Whether the tokens from the `i`-th on are the tokens of the source from
/// `pos` on: behind what is passed over stands the token that the rules
/// give there, it ends where its span ends, and so on to the end of the
/// file, which is the last token.
pub open spec fn covers(src: Seq<u8>, toks: Seq<Spanned>, i: int, pos: int) -> bool
    decreases toks.len() - i,
{
    if i < 0 || i >= toks.len() {
        false
    } else if i == toks.len() - 1 {
        toks[i].0 == Token::EOF && skipped(src, pos, src.len() as int) && toks[i].1.start
            == src.len()
    } else {
        &&& pos <= toks[i].1.start < src.len()
        &&& skipped(src, pos, toks[i].1.start as int)
        &&& lex_at(src, toks[i].1.start as int) == (Lexed::Token {
            token: toks[i].0,
            end: toks[i].1.end as int,
        })
        &&& covers(src, toks, i + 1, toks[i].1.end as int)
    }
}

/// What is passed over, and then passed over again, is passed over as a
/// whole.
pub proof fn lemma_skipped_on(src: Seq<u8>, a: int, b: int, c: int)
    requires
        skipped(src, a, b),
        skipped(src, b, c),
    ensures
        skipped(src, a, c),
    decreases b - a,
{
    if a < b {
        match lex_at(src, a) {
            Lexed::Skip { end } => {
                lemma_skipped_on(src, end, b, c);
                if end == b && b == c {
                } else {
                    lemma_skipped_bounds(src, b, c);
                }
            },
            _ => {},
        }
    }
}

/// What is passed over ends at or behind its start.
pub proof fn lemma_skipped_bounds(src: Seq<u8>, a: int, b: int)
    requires
        skipped(src, a, b),
    ensures
        a <= b,
{
}

/// The lexer consumes its input exactly: the tokens that it gives are, in
/// order, the tokens that its rules give at their places, with nothing
/// between them but what is passed over, up to the end of the source.
pub proof fn lemma_lex_covers(src: Seq<u8>, source: usize)
    requires
        src.len() <= usize::MAX,
    ensures
        spec_lex(src, source) matches Ok(toks) ==> covers(src, toks, 0, 0),
{
    lemma_lex_from_covers(src, source, 0, 0, Seq::empty());
}

/// The part of `lemma_lex_covers` for the tokens from a place on: the
/// tokens behind those of `acc` cover the source from `from` on, where the
/// lexer has passed over the bytes from `from` to `pos`.
pub proof fn lemma_lex_from_covers(
    src: Seq<u8>,
    source: usize,
    from: int,
    pos: int,
    acc: Seq<Spanned>,
)
    requires
        src.len() <= usize::MAX,
        0 <= from <= pos <= src.len(),
        skipped(src, from, pos),
    ensures
        lex_from(src, source, pos, acc) matches Ok(toks) ==> toks.len() > acc.len() && covers(
            src,
            toks,
            acc.len() as int,
            from,
        ) && forall|j: int| 0 <= j < acc.len() ==> toks[j] == acc[j],
    decreases src.len() - pos,
{
    if pos < src.len() {
        lemma_lex_at_progress(src, pos);
        match lex_at(src, pos) {
            Lexed::Skip { end } => {
                assert(skipped(src, pos, end)) by {
                    assert(skipped(src, end, end));
                }
                lemma_skipped_on(src, from, pos, end);
                lemma_lex_from_covers(src, source, from, end, acc);
            },
            Lexed::Token { token, end } => {
                let next = acc.push((token, span_of(source, pos, end)));
                assert(skipped(src, end, end));
                lemma_lex_from_covers(src, source, end, end, next);
                match lex_from(src, source, end, next) {
                    Ok(toks) => {
                        assert(toks[acc.len() as int] == next[acc.len() as int]);
                        assert(toks[acc.len() as int].1.start == pos);
                        assert(toks[acc.len() as int].1.end == end);
                        assert(covers(src, toks, acc.len() as int, from));
                    },
                    Err(_) => {},
                }
            },
            Lexed::Error { .. } => {},
        }
    } else {
        let toks = acc.push((Token::EOF, span_of(source, src.len() as int, src.len() as int)));
        assert(covers(src, toks, acc.len() as int, from));
    }
}

} // verus!
