//! A compiler from a small statically typed procedural language to the
//! WebAssembly text format.
//!
//! The pipeline is: source bytes, tokens, syntax tree, WebAssembly text. Every
//! stage is specified by a mathematical model of its own: the lexer and the
//! parser by functions on sequences of bytes and tokens, the translator by a
//! function on an abstract emitter state, and the output by the in-order
//! reading of a tree of text sinks.
pub mod span;
pub mod text;
pub mod ir;
pub mod sink;
pub mod error;
pub mod diag;
pub mod token;
pub mod lexer;
pub mod parser;
pub mod grammar;
pub mod parsef;
pub mod scope;
pub mod out;
pub mod tr;

pub use crate::error::{Error, LexError, ParseError};
pub use crate::lexer::lex;
pub use crate::parsef::{parse_file, parse_source};
pub use crate::parser::{Parser, Pattern, Source};
pub use crate::span::Span;
pub use crate::token::Token;
pub use crate::tr::{translate, translate_files, Prelude};
