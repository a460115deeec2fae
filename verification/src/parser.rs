//! The parser's hold on the tokens: what stands at the current place, and
//! the steps that take a token where the grammar expects it.
use crate::error::{LexError, ParseError, ParseErrorView};
use crate::ir::ConstValue;
use crate::lexer::{lex, min_len, spec_lex, tokens_of, tokens_wf};
use crate::span::Span;
use crate::text::{
    bytes_eq, copy_bytes, eq_lit, lit, lit_vec, push_bytes, push_lit, push_quoted, quoted,
};
use crate::token::{Spanned, Token};
use vstd::prelude::*;
use vstd::slice::slice_subrange;

verus! {

/// A source file: its name and its bytes.
#[derive(Debug, PartialEq, Eq)]
pub struct Source {
    pub name: Vec<u8>,
    pub data: Vec<u8>,
}

/// The constants known while a file is parsed, newest last.
pub type Consts = Seq<(Seq<u8>, ConstValue)>;

/// What the parser reads: the source with its tokens, and the constants
/// that are known so far.
pub struct Input {
    pub source: usize,
    pub src: Seq<u8>,
    pub toks: Seq<Spanned>,
    pub consts: Consts,
}

/// Whether a name is a word of the language, which no variable or function
/// can have as its name.
#[verifier::opaque]
pub open spec fn is_reserved(name: Seq<u8>) -> bool {
    name == lit("fn") || name == lit("trait") || name == lit("impl") || name == lit("record")
        || name == lit("enum") || name == lit("extern") || name == lit("import") || name == lit(
        "var",
    ) || name == lit("const") || name == lit("true") || name == lit("false") || name == lit("nil")
        || name == lit("and") || name == lit("or") || name == lit("is") || name == lit("not")
        || name == lit("in") || name == lit("if") || name == lit("else") || name == lit("for")
        || name == lit("while") || name == lit("break") || name == lit("continue") || name == lit(
        "return",
    ) || name == lit("switch") || name == lit("new")
}

/// The byte that an escape stands for: the byte behind the backslash names
/// a line feed, a carriage return, a tab, a zero byte, a quote or a
/// backslash.
pub open spec fn escape_of(b: u8) -> Option<u8> {
    if b == 110 {
        Some(10u8)
    } else if b == 114 {
        Some(13u8)
    } else if b == 116 {
        Some(9u8)
    } else if b == 48 {
        Some(0u8)
    } else if b == 34 {
        Some(34u8)
    } else if b == 39 {
        Some(39u8)
    } else if b == 92 {
        Some(92u8)
    } else {
        None
    }
}

/// The string `s` from its `i`-th byte on with its escapes resolved,
/// behind `acc`. A backslash at the very end stands for nothing.
pub open spec fn unescape(s: Seq<u8>, span: Span, i: int, acc: Seq<u8>) -> Result<
    Seq<u8>,
    ParseErrorView,
>
    decreases s.len() - i,
{
    if i < 0 || i >= s.len() {
        Ok(acc)
    } else if s[i] == 92 {
        if i + 1 < s.len() {
            match escape_of(s[i + 1]) {
                Some(b) => unescape(s, span, i + 2, acc.push(b)),
                None => Err(ParseErrorView::InvalidEscape(span, s[i + 1])),
            }
        } else {
            Ok(acc)
        }
    } else {
        unescape(s, span, i + 1, acc.push(s[i]))
    }
}

/// A string with its escapes resolved, or the error for a backslash before
/// a byte that names no escape.
pub fn resolve_escapes(s: &[u8], span: Span) -> (r: Result<Vec<u8>, ParseError>)
    ensures
        match unescape(s@, span, 0, Seq::empty()) {
            Ok(t) => r matches Ok(v) && v@ == t,
            Err(e) => r matches Err(x) && x@ == e,
        },
{
    let mut ret: Vec<u8> = Vec::new();
    let mut i: usize = 0;
    while i < s.len()
        invariant
            0 <= i <= s.len(),
            unescape(s@, span, i as int, ret@) == unescape(s@, span, 0, Seq::empty()),
        decreases s.len() - i,
    {
        if s[i] == 92 {
            if i + 1 < s.len() {
                let b: u8 = s[i + 1];
                let c: u8 = if b == 110 {
                    10
                } else if b == 114 {
                    13
                } else if b == 116 {
                    9
                } else if b == 48 {
                    0
                } else if b == 34 {
                    34
                } else if b == 39 {
                    39
                } else if b == 92 {
                    92
                } else {
                    return Err(ParseError::InvalidEscape(span, b));
                };
                ret.push(c);
                i += 2;
            } else {
                return Ok(ret);
            }
        } else {
            ret.push(s[i]);
            i += 1;
        }
    }
    Ok(ret)
}

/// What the grammar can expect at a place.
#[derive(Clone, Copy, Debug)]
pub enum Pattern<'a> {
    /// This very token.
    Exact(Token),
    /// The name that is spelled so.
    Word(&'a str),
    Name,
    Int,
    Float,
    String,
}

impl<'a> Pattern<'a> {
    /// Whether token `t`, which has the text `text`, is what is expected.
    pub open spec fn spec_matches(self, t: Token, text: Seq<u8>) -> bool {
        match self {
            Pattern::Exact(p) => t == p,
            Pattern::Word(w) => t is Name && text == lit(w),
            Pattern::Name => t is Name,
            Pattern::Int => t is Int,
            Pattern::Float => t is Float,
            Pattern::String => t is NormalString || t is RawString,
        }
    }

    /// The pattern as it is named in a diagnostic.
    pub open spec fn describe(self) -> Seq<u8> {
        match self {
            Pattern::Exact(p) => lit("Exact(") + p.describe_kind() + lit(")"),
            Pattern::Word(w) => lit("Exact(Name(") + quoted(lit(w)) + lit("))"),
            Pattern::Name => lit("Name"),
            Pattern::Int => lit("Int"),
            Pattern::Float => lit("Float"),
            Pattern::String => lit("String"),
        }
    }

    /// Whether token `t`, which has the text `text`, is what is expected.
    pub fn matches(&self, t: Token, text: &[u8]) -> (r: bool)
        ensures
            r == self.spec_matches(t, text@),
    {
        match self {
            Pattern::Exact(p) => t == *p,
            Pattern::Word(w) => match t {
                Token::Name => eq_lit(text, w),
                _ => false,
            },
            Pattern::Name => match t {
                Token::Name => true,
                _ => false,
            },
            Pattern::Int => match t {
                Token::Int(_) => true,
                _ => false,
            },
            Pattern::Float => match t {
                Token::Float => true,
                _ => false,
            },
            Pattern::String => match t {
                Token::NormalString | Token::RawString => true,
                _ => false,
            },
        }
    }

    /// The pattern as it is named in a diagnostic.
    pub fn description(&self) -> (r: Vec<u8>)
        ensures
            r@ == self.describe(),
    {
        match self {
            Pattern::Exact(p) => {
                let mut r = lit_vec("Exact(");
                let kind = p.kind_description();
                push_bytes(&mut r, kind.as_slice());
                push_lit(&mut r, ")");
                r
            },
            Pattern::Word(w) => {
                let mut r = lit_vec("Exact(Name(");
                push_quoted(&mut r, w.as_bytes());
                push_lit(&mut r, "))");
                r
            },
            Pattern::Name => lit_vec("Name"),
            Pattern::Int => lit_vec("Int"),
            Pattern::Float => lit_vec("Float"),
            Pattern::String => lit_vec("String"),
        }
    }
}

impl<'a> From<Token> for Pattern<'a> {
    /// The pattern that expects this very token.
    fn from(t: Token) -> (r: Self) {
        Pattern::Exact(t)
    }
}

impl<'a> vstd::std_specs::convert::FromSpecImpl<Token> for Pattern<'a> {
    open spec fn obeys_from_spec() -> bool {
        true
    }

    open spec fn from_spec(t: Token) -> Self {
        Pattern::Exact(t)
    }
}

impl Input {
    /// The tokens are those of a lexer, and the source fits the machine.
    pub closed spec fn wf(self) -> bool {
        tokens_wf(self.toks, self.src.len() as int) && tokens_of(self.toks, self.source)
            && self.src.len() <= usize::MAX
    }

    pub open spec fn tok(self, k: int) -> Token {
        self.toks[k].0
    }

    pub open spec fn span(self, k: int) -> Span {
        self.toks[k].1
    }

    /// The text of token `k` in the source.
    pub open spec fn text(self, k: int) -> Seq<u8> {
        self.src.subrange(self.span(k).start as int, self.span(k).end as int)
    }

    /// What stands in a string token between its quotes.
    pub open spec fn string_body(self, k: int) -> Seq<u8> {
        if self.tok(k) is RawString {
            self.src.subrange(self.span(k).start + 2, self.span(k).end - 1)
        } else {
            self.src.subrange(self.span(k).start + 1, self.span(k).end - 1)
        }
    }

    /// Token `k` as it is named in a diagnostic.
    #[verifier::opaque]
    pub open spec fn describe(self, k: int) -> Seq<u8> {
        if self.tok(k) is NormalString || self.tok(k) is RawString {
            self.tok(k).describe(self.string_body(k))
        } else {
            self.tok(k).describe(self.text(k))
        }
    }

    /// The place after token `k`. Behind the end of the file it is no place
    /// of a token any more.
    pub open spec fn next(self, k: int) -> int {
        k + 1
    }

    /// Whether token `k` is what `p` expects.
    pub open spec fn at(self, k: int, p: Pattern) -> bool {
        p.spec_matches(self.tok(k), self.text(k))
    }

    /// Whether token `k` is the name that is spelled `w`.
    pub open spec fn at_word(self, k: int, w: Seq<u8>) -> bool {
        self.tok(k) is Name && self.text(k) == w
    }

    /// The error that something else than `expected` stands at token `k`.
    #[verifier::opaque]
    pub open spec fn invalid(self, k: int, expected: Seq<u8>) -> ParseErrorView {
        ParseErrorView::InvalidToken { span: self.span(k), expected, got: self.describe(k) }
    }

    /// The place after token `k` where it is what `p` expects, and the
    /// place `k` itself where it is not.
    pub open spec fn consume(self, k: int, p: Pattern) -> int {
        if self.at(k, p) {
            self.next(k)
        } else {
            k
        }
    }

    /// Token `k` and the place after it, where the token is what `p`
    /// expects.
    #[verifier::opaque]
    pub open spec fn expect(self, k: int, p: Pattern) -> Result<(Token, int), ParseErrorView> {
        if self.at(k, p) {
            Ok((self.tok(k), self.next(k)))
        } else {
            Err(self.invalid(k, p.describe()))
        }
    }

    /// The name at token `k` and the place after it. A word of the language
    /// is no name.
    #[verifier::opaque]
    pub open spec fn expect_name(self, k: int) -> Result<(Seq<u8>, int), ParseErrorView> {
        if self.tok(k) is Name {
            if is_reserved(self.text(k)) {
                Err(
                    ParseErrorView::InvalidToken {
                        span: self.span(k),
                        expected: lit("Name"),
                        got: lit("reserved name ") + quoted(self.text(k)),
                    },
                )
            } else {
                Ok((self.text(k), self.next(k)))
            }
        } else {
            Err(self.invalid(k, lit("Name")))
        }
    }

    /// The string at token `k`, with its escapes resolved unless it is raw,
    /// and the place after it.
    #[verifier::opaque]
    pub open spec fn expect_string(self, k: int) -> Result<(Seq<u8>, int), ParseErrorView> {
        if self.tok(k) is RawString {
            Ok((self.string_body(k), self.next(k)))
        } else if self.tok(k) is NormalString {
            match unescape(self.string_body(k), self.span(k), 0, Seq::empty()) {
                Ok(s) => Ok((s, self.next(k))),
                Err(e) => Err(e),
            }
        } else {
            Err(self.invalid(k, lit("String")))
        }
    }

    /// The integer at token `k`, which has to fit 32 bits without sign, and
    /// the place after it.
    #[verifier::opaque]
    pub open spec fn expect_u32(self, k: int) -> Result<(u32, int), ParseErrorView> {
        match self.tok(k) {
            Token::Int(i) => if 0 <= i <= u32::MAX {
                Ok((i as u32, self.next(k)))
            } else {
                Err(self.invalid(k, lit("u32")))
            },
            _ => Err(self.invalid(k, lit("u32"))),
        }
    }
}

/// What makes an input well formed: its tokens are in order, each inside
/// the source, and the last one, and only the last, is the end of the file.
pub proof fn lemma_input_wf(inp: Input)
    ensures
        inp.wf() <==> tokens_wf(inp.toks, inp.src.len() as int) && tokens_of(inp.toks, inp.source)
            && inp.src.len() <= usize::MAX,
{
}

/// The span of a token lies in the source of the input, and it is not
/// empty unless the token is the end of the file.
pub proof fn lemma_token_span(inp: Input, k: int)
    requires
        inp.wf(),
        0 <= k < inp.toks.len(),
    ensures
        inp.span(k).source == inp.source,
        inp.span(k).wf(),
        inp.span(k).end <= inp.src.len(),
        inp.tok(k) != Token::EOF ==> inp.span(k).start < inp.span(k).end,
{
    assert(inp.toks[k].1.within(inp.src.len() as int));
    assert(inp.toks[k].1.start + min_len(inp.toks[k].0) <= inp.toks[k].1.end);
}

/// In a well-formed input a token stands behind every token but the end of
/// the file, which is the last one.
pub proof fn lemma_next(inp: Input, k: int)
    requires
        inp.wf(),
        0 <= k < inp.toks.len(),
    ensures
        inp.next(k) == k + 1,
        inp.tok(k) != Token::EOF <==> inp.next(k) < inp.toks.len(),
{
}

/// A token that is expected and found is taken: the parser stands behind
/// it.
pub proof fn lemma_expect(inp: Input, k: int, p: Pattern)
    requires
        inp.wf(),
        0 <= k < inp.toks.len(),
    ensures
        inp.expect(k, p) matches Ok((t, k1)) ==> t == inp.tok(k) && inp.at(k, p) && k1 == k + 1 && (
        t != Token::EOF ==> k1 < inp.toks.len()),
{
    reveal(Input::expect);
}

/// A name that is found is taken: the parser stands at the next token.
pub proof fn lemma_expect_name(inp: Input, k: int)
    requires
        inp.wf(),
        0 <= k < inp.toks.len(),
    ensures
        inp.expect_name(k) matches Ok((_, k1)) ==> k1 == k + 1 && k1 < inp.toks.len(),
{
    reveal(Input::expect_name);
}

/// A string that is found is taken: the parser stands at the next token.
pub proof fn lemma_expect_string(inp: Input, k: int)
    requires
        inp.wf(),
        0 <= k < inp.toks.len(),
    ensures
        inp.expect_string(k) matches Ok((_, k1)) ==> k1 == k + 1 && k1 < inp.toks.len(),
{
    reveal(Input::expect_string);
}

/// The views of the known constants.
pub open spec fn consts_view(s: Seq<(Vec<u8>, ConstValue)>) -> Consts {
    Seq::new(s.len(), |i: int| (s[i].0@, s[i].1))
}

/// The tokens of a source file with the place that the parser has reached.
pub struct Parser<'a> {
    source: usize,
    data: &'a [u8],
    i: usize,
    tokens_and_spans: Vec<Spanned>,
    constants: Vec<(Vec<u8>, ConstValue)>,
}

fn reserved(name: &[u8]) -> (r: bool)
    ensures
        r == is_reserved(name@),
{
    proof {
        reveal(is_reserved);
    }
    eq_lit(name, "fn") || eq_lit(name, "trait") || eq_lit(name, "impl") || eq_lit(name, "record")
        || eq_lit(name, "enum") || eq_lit(name, "extern") || eq_lit(name, "import") || eq_lit(
        name,
        "var",
    ) || eq_lit(name, "const") || eq_lit(name, "true") || eq_lit(name, "false") || eq_lit(
        name,
        "nil",
    ) || eq_lit(name, "and") || eq_lit(name, "or") || eq_lit(name, "is") || eq_lit(name, "not")
        || eq_lit(name, "in") || eq_lit(name, "if") || eq_lit(name, "else") || eq_lit(name, "for")
        || eq_lit(name, "while") || eq_lit(name, "break") || eq_lit(name, "continue") || eq_lit(
        name,
        "return",
    ) || eq_lit(name, "switch") || eq_lit(name, "new")
}

impl<'a> Parser<'a> {
    /// What the parser reads.
    pub closed spec fn input(&self) -> Input {
        Input {
            source: self.source,
            src: self.data@,
            toks: self.tokens_and_spans@,
            consts: consts_view(self.constants@),
        }
    }

    /// The index of the token at which the parser stands.
    pub closed spec fn pos(&self) -> int {
        self.i as int
    }

    /// The parser stands at a token of a well-formed input, or behind the
    /// last one.
    pub open spec fn wf(&self) -> bool {
        self.input().wf() && 0 <= self.pos() <= self.input().toks.len()
    }

    /// The parser is well formed and stands at a token.
    pub open spec fn at_token(&self) -> bool {
        self.wf() && self.pos() < self.input().toks.len()
    }

    /// Unless the parser stands at the end of the file, a token follows.
    pub open spec fn has_next(&self) -> bool {
        self.input().tok(self.pos()) != Token::EOF ==> self.pos() + 1 < self.input().toks.len()
    }

    /// A parser at the first token of `data`, the source with the handle
    /// `source`; or the error of the lexer.
    pub fn new(source: usize, data: &'a [u8]) -> (r: Result<Parser<'a>, LexError>)
        ensures
            match spec_lex(data@, source) {
                Ok(toks) => r matches Ok(p) && p.at_token() && p.pos() == 0 && p.input() == (Input {
                    source,
                    src: data@,
                    toks,
                    consts: Seq::empty(),
                }),
                Err(e) => r matches Err(x) && x@ == e,
            },
    {
        match lex(source, data) {
            Err(e) => Err(e),
            Ok(tokens_and_spans) => {
                let p = Parser { source, data, i: 0, tokens_and_spans, constants: Vec::new() };
                assert(p.input().consts =~= Seq::empty());
                Ok(p)
            },
        }
    }

    /// The token at the current place.
    pub fn peek(&self) -> (t: Token)
        requires
            self.at_token(),
        ensures
            t == self.input().tok(self.pos()),
            self.has_next(),
    {
        self.tokens_and_spans[self.i].0
    }

    /// The token `n` places on, if there is one.
    pub fn lookahaed(&self, n: usize) -> (t: Option<Token>)
        requires
            self.wf(),
        ensures
            t == if self.pos() + n < self.input().toks.len() {
                Some(self.input().tok(self.pos() + n))
            } else {
                None
            },
    {
        if n < self.tokens_and_spans.len() - self.i {
            Some(self.tokens_and_spans[self.i + n].0)
        } else {
            None
        }
    }

    /// The span of the token at the current place.
    pub fn span(&self) -> (s: Span)
        requires
            self.at_token(),
        ensures
            s == self.input().span(self.pos()),
            s.within(self.input().src.len() as int),
    {
        self.tokens_and_spans[self.i].1
    }

    /// The text of the token at the current place.
    pub fn text(&self) -> (s: &'a [u8])
        requires
            self.at_token(),
        ensures
            s@ == self.input().text(self.pos()),
    {
        let span = self.tokens_and_spans[self.i].1;
        assert(self.input().toks[self.pos()].1.within(self.input().src.len() as int));
        slice_subrange(self.data, span.start, span.end)
    }

    fn string_body(&self) -> (s: &'a [u8])
        requires
            self.at_token(),
            self.input().tok(self.pos()) is NormalString || self.input().tok(self.pos())
                is RawString,
        ensures
            s@ == self.input().string_body(self.pos()),
    {
        let (token, span) = self.tokens_and_spans[self.i];
        assert(self.input().toks[self.pos()].1.within(self.input().src.len() as int));
        match token {
            Token::RawString => slice_subrange(self.data, span.start + 2, span.end - 1),
            _ => slice_subrange(self.data, span.start + 1, span.end - 1),
        }
    }

    /// The token at the current place as it is named in a diagnostic.
    pub fn describe(&self) -> (r: Vec<u8>)
        requires
            self.at_token(),
        ensures
            r@ == self.input().describe(self.pos()),
    {
        proof {
            reveal(Input::describe);
        }
        let token = self.peek();
        match token {
            Token::NormalString | Token::RawString => token.description(self.string_body()),
            _ => token.description(self.text()),
        }
    }

    /// The error that something else than `expected` stands at the current
    /// place.
    pub fn invalid(&self, expected: &str) -> (e: ParseError)
        requires
            self.at_token(),
        ensures
            e@ == self.input().invalid(self.pos(), lit(expected)),
    {
        proof {
            reveal(Input::invalid);
        }
        ParseError::InvalidToken {
            span: self.span(),
            expected: lit_vec(expected),
            got: self.describe(),
        }
    }

    /// Takes the token at the current place and goes one place on. Behind
    /// the end of the file no token stands.
    pub fn gettok(&mut self) -> (t: Token)
        requires
            old(self).at_token(),
        ensures
            final(self).wf(),
            final(self).input() == old(self).input(),
            t == old(self).input().tok(old(self).pos()),
            final(self).pos() == old(self).pos() + 1,
            t != Token::EOF <==> final(self).at_token(),
            old(self).has_next(),
    {
        let token = self.tokens_and_spans[self.i].0;
        let n: usize = self.tokens_and_spans.len();
        assert(self.i < n);
        self.i += 1;
        token
    }

    /// Whether the token at the current place is what `p` expects.
    pub fn at(&self, p: Pattern) -> (b: bool)
        requires
            self.at_token(),
        ensures
            b == self.input().at(self.pos(), p),
            self.has_next(),
    {
        p.matches(self.peek(), self.text())
    }

    /// Whether the token at the current place is the name `name`.
    pub fn at_name(&self, name: &str) -> (b: bool)
        requires
            self.at_token(),
        ensures
            b == self.input().at_word(self.pos(), lit(name)),
            self.has_next(),
    {
        match self.peek() {
            Token::Name => eq_lit(self.text(), name),
            _ => false,
        }
    }

    /// Takes the token at the current place if it is what `p` expects, and
    /// says whether it did.
    pub fn consume(&mut self, p: Pattern) -> (b: bool)
        requires
            old(self).at_token(),
        ensures
            final(self).wf(),
            final(self).input() == old(self).input(),
            b == old(self).input().at(old(self).pos(), p),
            final(self).pos() == old(self).input().consume(old(self).pos(), p),
            final(self).pos() == if b {
                old(self).pos() + 1
            } else {
                old(self).pos()
            },
            final(self).at_token() <==> !(b && old(self).input().tok(old(self).pos())
                == Token::EOF),
            old(self).has_next(),
    {
        if self.at(p) {
            self.gettok();
            true
        } else {
            false
        }
    }

    /// Takes the token at the current place, which has to be what `p`
    /// expects.
    pub fn expect(&mut self, p: Pattern) -> (r: Result<Token, ParseError>)
        requires
            old(self).at_token(),
        ensures
            final(self).wf(),
            final(self).input() == old(self).input(),
            old(self).has_next(),
            r is Ok <==> old(self).input().at(old(self).pos(), p),
            r is Ok ==> final(self).pos() == old(self).pos() + 1,
            final(self).at_token() <==> !(r is Ok && old(self).input().tok(old(self).pos())
                == Token::EOF),
            match old(self).input().expect(old(self).pos(), p) {
                Ok((t, k)) => r == Ok::<Token, ParseError>(t) && final(self).pos() == k,
                Err(e) => r matches Err(x) && x@ == e && final(self).pos() == old(self).pos(),
            },
    {
        proof {
            reveal(Input::expect);
            reveal(Input::invalid);
        }
        if self.at(p) {
            Ok(self.gettok())
        } else {
            Err(
                ParseError::InvalidToken {
                    span: self.span(),
                    expected: p.description(),
                    got: self.describe(),
                },
            )
        }
    }

    /// Takes the name at the current place. A word of the language is no
    /// name.
    pub fn expect_name(&mut self) -> (r: Result<Vec<u8>, ParseError>)
        requires
            old(self).at_token(),
        ensures
            final(self).at_token(),
            final(self).input() == old(self).input(),
            old(self).has_next(),
            r is Ok ==> old(self).input().tok(old(self).pos()) is Name && final(self).pos() == old(
                self,
            ).pos() + 1,
            match old(self).input().expect_name(old(self).pos()) {
                Ok((name, k)) => r matches Ok(v) && v@ == name && final(self).pos() == k,
                Err(e) => r matches Err(x) && x@ == e && final(self).pos() == old(self).pos(),
            },
    {
        proof {
            reveal(Input::expect_name);
            reveal(Input::invalid);
        }
        match self.peek() {
            Token::Name => {
                let name = self.text();
                if reserved(name) {
                    let mut got = lit_vec("reserved name ");
                    push_quoted(&mut got, name);
                    Err(
                        ParseError::InvalidToken {
                            span: self.span(),
                            expected: lit_vec("Name"),
                            got,
                        },
                    )
                } else {
                    self.gettok();
                    Ok(copy_bytes(name))
                }
            },
            _ => Err(self.invalid("Name")),
        }
    }

    /// Takes the string at the current place and resolves its escapes,
    /// unless it is raw. A string with an escape that there is not is taken
    /// all the same.
    pub fn expect_string(&mut self) -> (r: Result<Vec<u8>, ParseError>)
        requires
            old(self).at_token(),
        ensures
            final(self).at_token(),
            final(self).input() == old(self).input(),
            old(self).has_next(),
            r is Ok ==> final(self).pos() == old(self).pos() + 1,
            match old(self).input().expect_string(old(self).pos()) {
                Ok((s, k)) => r matches Ok(v) && v@ == s && final(self).pos() == k,
                Err(e) => r matches Err(x) && x@ == e,
            },
            r is Err ==> final(self).pos() == if old(self).input().tok(old(self).pos())
                is NormalString {
                old(self).pos() + 1
            } else {
                old(self).pos()
            },
    {
        proof {
            reveal(Input::expect_string);
            reveal(Input::invalid);
        }
        match self.peek() {
            Token::RawString => {
                let s = self.string_body();
                self.gettok();
                Ok(copy_bytes(s))
            },
            Token::NormalString => {
                let span = self.span();
                let s = self.string_body();
                self.gettok();
                resolve_escapes(s, span)
            },
            _ => Err(self.invalid("String")),
        }
    }

    /// Takes the integer at the current place, which has to fit 32 bits
    /// without sign.
    pub fn expect_u32(&mut self) -> (r: Result<u32, ParseError>)
        requires
            old(self).at_token(),
        ensures
            final(self).at_token(),
            final(self).input() == old(self).input(),
            old(self).has_next(),
            r is Ok ==> final(self).pos() == old(self).pos() + 1,
            match old(self).input().expect_u32(old(self).pos()) {
                Ok((n, k)) => r == Ok::<u32, ParseError>(n) && final(self).pos() == k,
                Err(e) => r matches Err(x) && x@ == e && final(self).pos() == old(self).pos(),
            },
    {
        proof {
            reveal(Input::expect_u32);
            reveal(Input::invalid);
        }
        match self.peek() {
            Token::Int(i) => {
                if i < 0 || i > 0xffff_ffff {
                    Err(self.invalid("u32"))
                } else {
                    self.gettok();
                    Ok(i as u32)
                }
            },
            _ => Err(self.invalid("u32")),
        }
    }

    /// The value of the constant `name`, if it is known.
    pub fn constant(&self, name: &[u8]) -> (r: Option<ConstValue>)
        ensures
            r == find_const(self.input().consts, name@, self.input().consts.len() as int),
    {
        let ghost t = consts_view(self.constants@);
        let mut n: usize = self.constants.len();
        while n > 0
            invariant
                0 <= n <= self.constants.len(),
                t == consts_view(self.constants@),
                find_const(t, name@, self.constants@.len() as int) == find_const(
                    t,
                    name@,
                    n as int,
                ),
            decreases n,
        {
            assert(t[n - 1] == (self.constants@[n - 1].0@, self.constants@[n - 1].1));
            if bytes_eq(self.constants[n - 1].0.as_slice(), name) {
                return Some(self.constants[n - 1].1);
            }
            n -= 1;
        }
        None
    }

    /// Makes the constant `name` known.
    pub fn add_constant(&mut self, name: &[u8], value: ConstValue)
        requires
            old(self).wf(),
        ensures
            final(self).wf(),
            final(self).pos() == old(self).pos(),
            final(self).input() == (Input {
                consts: old(self).input().consts.push((name@, value)),
                ..old(self).input()
            }),
    {
        self.constants.push((copy_bytes(name), value));
        assert(self.input().consts =~= old(self).input().consts.push((name@, value)));
    }
}

/// The value of the newest constant named `name` among the first `n`.
pub open spec fn find_const(consts: Consts, name: Seq<u8>, n: int) -> Option<ConstValue>
    decreases n,
{
    if n <= 0 {
        None
    } else if consts[n - 1].0 == name {
        Some(consts[n - 1].1)
    } else {
        find_const(consts, name, n - 1)
    }
}

} // verus!
