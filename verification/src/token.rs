//! Tokens.
use crate::span::Span;
use crate::text::{dec_int, lit, lit_vec, push_bytes, push_dec_int, push_lit, push_quoted, quoted};
use vstd::prelude::*;

verus! {

/// A token. The text of a name, of a number with a fraction and of a string
/// is the text under the span of the token; for a string, what stands
/// between the quotes.
#[derive(Clone, Copy, Debug, PartialEq, Eq, Structural)]
pub enum Token {
    Int(i64),
    Float,
    Name,
    /// A string in double quotes, in which a backslash starts an escape.
    NormalString,
    /// A string in double quotes behind `r`, in which every byte stands for
    /// itself.
    RawString,
    Plus,
    Minus,
    Star,
    Slash,
    Slash2,
    Percent,
    Ampersand,
    VerticalBar,
    Caret,
    Lt2,
    Gt2,
    Eq2,
    Ne,
    Lt,
    Gt,
    Le,
    Ge,
    Eq,
    LParen,
    RParen,
    LBrace,
    RBrace,
    LBracket,
    RBracket,
    Comma,
    Semicolon,
    Dot,
    Dot2,
    Colon,
    Dollar,
    Exclamation,
    Newline,
    EOF,
}

impl Token {
    /// The name of the kind of the token.
    pub open spec fn kind_name(self) -> Seq<u8> {
        match self {
            Token::Int(_) => lit("Int"),
            Token::Float => lit("Float"),
            Token::Name => lit("Name"),
            Token::NormalString => lit("NormalString"),
            Token::RawString => lit("RawString"),
            Token::Plus => lit("Plus"),
            Token::Minus => lit("Minus"),
            Token::Star => lit("Star"),
            Token::Slash => lit("Slash"),
            Token::Slash2 => lit("Slash2"),
            Token::Percent => lit("Percent"),
            Token::Ampersand => lit("Ampersand"),
            Token::VerticalBar => lit("VerticalBar"),
            Token::Caret => lit("Caret"),
            Token::Lt2 => lit("Lt2"),
            Token::Gt2 => lit("Gt2"),
            Token::Eq2 => lit("Eq2"),
            Token::Ne => lit("Ne"),
            Token::Lt => lit("Lt"),
            Token::Gt => lit("Gt"),
            Token::Le => lit("Le"),
            Token::Ge => lit("Ge"),
            Token::Eq => lit("Eq"),
            Token::LParen => lit("LParen"),
            Token::RParen => lit("RParen"),
            Token::LBrace => lit("LBrace"),
            Token::RBrace => lit("RBrace"),
            Token::LBracket => lit("LBracket"),
            Token::RBracket => lit("RBracket"),
            Token::Comma => lit("Comma"),
            Token::Semicolon => lit("Semicolon"),
            Token::Dot => lit("Dot"),
            Token::Dot2 => lit("Dot2"),
            Token::Colon => lit("Colon"),
            Token::Dollar => lit("Dollar"),
            Token::Exclamation => lit("Exclamation"),
            Token::Newline => lit("Newline"),
            Token::EOF => lit("EOF"),
        }
    }

    /// The token as it is named in a diagnostic: the name of its kind, and
    /// in brackets what it holds. An integer holds its value; a number with
    /// a fraction holds `text` as it is written; a name holds `text` in
    /// quotes, and so does a string, whose `text` is what stands between
    /// its quotes in the source.
    pub open spec fn describe(self, text: Seq<u8>) -> Seq<u8> {
        match self {
            Token::Int(x) => lit("Int(") + dec_int(x as int) + lit(")"),
            Token::Float => lit("Float(") + text + lit(")"),
            Token::Name | Token::NormalString | Token::RawString => self.kind_name() + lit("(")
                + quoted(text) + lit(")"),
            _ => self.kind_name(),
        }
    }

    /// The token as a pattern names it, which knows the kind of the token
    /// and the value of an integer.
    pub open spec fn describe_kind(self) -> Seq<u8> {
        match self {
            Token::Int(x) => lit("Int(") + dec_int(x as int) + lit(")"),
            _ => self.kind_name(),
        }
    }

    /// The token as it is named in a diagnostic.
    pub fn description(self, text: &[u8]) -> (r: Vec<u8>)
        ensures
            r@ == self.describe(text@),
    {
        match self {
            Token::Int(x) => {
                let mut r = lit_vec("Int(");
                push_dec_int(&mut r, x);
                push_lit(&mut r, ")");
                r
            },
            Token::Float => {
                let mut r = lit_vec("Float(");
                push_bytes(&mut r, text);
                push_lit(&mut r, ")");
                r
            },
            Token::Name | Token::NormalString | Token::RawString => {
                let mut r = lit_vec(self.kind_str());
                push_lit(&mut r, "(");
                push_quoted(&mut r, text);
                push_lit(&mut r, ")");
                r
            },
            _ => lit_vec(self.kind_str()),
        }
    }

    /// The token as a pattern names it.
    pub fn kind_description(self) -> (r: Vec<u8>)
        ensures
            r@ == self.describe_kind(),
    {
        match self {
            Token::Int(x) => {
                let mut r = lit_vec("Int(");
                push_dec_int(&mut r, x);
                push_lit(&mut r, ")");
                r
            },
            _ => lit_vec(self.kind_str()),
        }
    }

    /// The name of the kind of the token.
    pub fn kind_str(self) -> (r: &'static str)
        ensures
            lit(r) == self.kind_name(),
    {
        match self {
            Token::Int(_) => "Int",
            Token::Float => "Float",
            Token::Name => "Name",
            Token::NormalString => "NormalString",
            Token::RawString => "RawString",
            Token::Plus => "Plus",
            Token::Minus => "Minus",
            Token::Star => "Star",
            Token::Slash => "Slash",
            Token::Slash2 => "Slash2",
            Token::Percent => "Percent",
            Token::Ampersand => "Ampersand",
            Token::VerticalBar => "VerticalBar",
            Token::Caret => "Caret",
            Token::Lt2 => "Lt2",
            Token::Gt2 => "Gt2",
            Token::Eq2 => "Eq2",
            Token::Ne => "Ne",
            Token::Lt => "Lt",
            Token::Gt => "Gt",
            Token::Le => "Le",
            Token::Ge => "Ge",
            Token::Eq => "Eq",
            Token::LParen => "LParen",
            Token::RParen => "RParen",
            Token::LBrace => "LBrace",
            Token::RBrace => "RBrace",
            Token::LBracket => "LBracket",
            Token::RBracket => "RBracket",
            Token::Comma => "Comma",
            Token::Semicolon => "Semicolon",
            Token::Dot => "Dot",
            Token::Dot2 => "Dot2",
            Token::Colon => "Colon",
            Token::Dollar => "Dollar",
            Token::Exclamation => "Exclamation",
            Token::Newline => "Newline",
            Token::EOF => "EOF",
        }
    }
}

/// A token with its place in the source.
pub type Spanned = (Token, Span);

} // verus!
