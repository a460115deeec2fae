//! The parser of the language: it reads the tokens as the grammar says and
//! builds the syntax tree.
use crate::error::{Error, ErrorView, ParseError};
use crate::grammar::{
    binop_of, binop_prec, const_binop, const_describe, const_operands, const_overflow, empty_file, eval_const,
    infix_prec, is_const_binop, lemma_file_spans, logic_expr, not_const, p_ascribe, p_asm,
    p_assign, p_atom,
    p_attr_items, p_attrs, p_binop, p_block, p_call, p_const_uint, p_constant, p_cstr, p_delims,
    last_branch, p_else, p_expect_delim, p_expr, p_exprs, p_file, p_func, p_function_type, p_globalvar, p_if,
    p_import, p_imports, p_infix, p_infix_step, p_intrinsic, p_item_const, p_item_func, p_item_var,
    p_items, p_logic, p_mark, p_offset, p_opt_return_type, p_opt_type, p_params, p_read,
    p_return_type, p_stmt, p_stmts, p_type, p_type_list, p_var, p_while, p_word, p_write,
    read_width, type_of_name, unop_of, with_last_const, wrap_i32, write_width, PR, PREC_ASSIGN,
    PREC_BITWISE_AND, PREC_BITWISE_OR, PREC_BITWISE_XOR, PREC_CMP, PREC_LOGICAL_AND,
    PREC_LOGICAL_OR, PREC_POSTFIX, PREC_PRODUCT, PREC_SHIFT, PREC_SUM, PREC_UNARY,
};
use crate::ir::{
    constants_view, exprs_view, functions_view, globalvars_view, imports_view,
    lemma_exprs_view_push, lemma_pairs_view_push, pairs_view, params_view, Binop, Constant,
    ConstValue, Expr, ExprView, File, FileView, Function, FunctionImport, FunctionType,
    GlobalVariable, Import, ReturnType, Type, Unop, Visibility, Width,
};
use crate::lexer::spec_lex;
use crate::parser::{Input, Parser, Pattern};
use crate::span::Span;
use crate::text::{copy_bytes, dec_int_vec, eq_lit, lit, lit_vec, push_bytes, push_lit};
use crate::token::Token;
use vstd::pervasive::unreached;
use vstd::prelude::*;

verus! {

/// What every parser keeps: the parser stands at a token of the same
/// input.
pub open spec fn kept(before: Parser, after: Parser) -> bool {
    after.at_token() && after.input() == before.input()
}

/// Whether a parser of an expression did what `spec` says, and stands at
/// `pos`.
pub open spec fn expr_parsed(r: Result<Expr, ParseError>, spec: PR<ExprView>, pos: int) -> bool {
    match spec {
        Ok((e, k)) => r matches Ok(x) && x@ == e && pos == k,
        Err(e) => r matches Err(x) && x@ == e,
    }
}

/// The type that a name stands for, if it is the name of a type.
pub fn type_from_name(name: &[u8]) -> (r: Option<Type>)
    ensures
        r == type_of_name(name@),
{
    proof {
        reveal(type_of_name);
    }
    if eq_lit(name, "i32") {
        Some(Type::I32)
    } else if eq_lit(name, "i64") {
        Some(Type::I64)
    } else if eq_lit(name, "f32") {
        Some(Type::F32)
    } else if eq_lit(name, "f64") {
        Some(Type::F64)
    } else if eq_lit(name, "bool") {
        Some(Type::Bool)
    } else if eq_lit(name, "type") {
        Some(Type::Type)
    } else if eq_lit(name, "str") {
        Some(Type::String)
    } else if eq_lit(name, "list") {
        Some(Type::List)
    } else if eq_lit(name, "id") {
        Some(Type::Id)
    } else {
        None
    }
}

/// Takes a type.
pub fn parse_type(parser: &mut Parser) -> (r: Result<Type, ParseError>)
    requires
        old(parser).at_token(),
    ensures
        kept(*old(parser), *final(parser)),
        match p_type(old(parser).input(), old(parser).pos()) {
            Ok((t, k)) => r == Ok::<Type, ParseError>(t) && final(parser).pos() == k && k == old(
                parser,
            ).pos() + 1,
            Err(e) => r matches Err(x) && x@ == e && final(parser).pos() == old(parser).pos(),
        },
{
    proof {
        reveal(p_type);
    }
    let found = match parser.peek() {
        Token::Name => type_from_name(parser.text()),
        _ => None,
    };
    match found {
        Some(t) => {
            parser.gettok();
            Ok(t)
        },
        None => Err(parser.invalid("Type")),
    }
}

/// Takes what a function returns: `void`, `noreturn`, or a type.
pub fn parse_return_type(parser: &mut Parser) -> (r: Result<ReturnType, ParseError>)
    requires
        old(parser).at_token(),
    ensures
        kept(*old(parser), *final(parser)),
        match p_return_type(old(parser).input(), old(parser).pos()) {
            Ok((t, k)) => r == Ok::<ReturnType, ParseError>(t) && final(parser).pos() == k && k
                == old(parser).pos() + 1,
            Err(e) => r matches Err(x) && x@ == e && final(parser).pos() == old(parser).pos(),
        },
{
    proof {
        reveal(p_return_type);
    }
    if parser.at_name("void") {
        parser.gettok();
        Ok(ReturnType::Void)
    } else if parser.at_name("noreturn") {
        parser.gettok();
        Ok(ReturnType::NoReturn)
    } else {
        match parse_type(parser) {
            Ok(t) => Ok(ReturnType::Value(t)),
            Err(e) => Err(e),
        }
    }
}

fn parse_opt_type(parser: &mut Parser) -> (r: Result<Option<Type>, ParseError>)
    requires
        old(parser).at_token(),
    ensures
        kept(*old(parser), *final(parser)),
        match p_opt_type(old(parser).input(), old(parser).pos()) {
            Ok((t, k)) => r == Ok::<Option<Type>, ParseError>(t) && final(parser).pos() == k && k
                >= old(parser).pos(),
            Err(e) => r matches Err(x) && x@ == e,
        },
{
    proof {
        reveal(p_opt_type);
    }
    match parser.peek() {
        Token::Name => match parse_type(parser) {
            Ok(t) => Ok(Some(t)),
            Err(e) => Err(e),
        },
        _ => Ok(None),
    }
}

fn parse_opt_return_type(parser: &mut Parser) -> (r: Result<ReturnType, ParseError>)
    requires
        old(parser).at_token(),
    ensures
        kept(*old(parser), *final(parser)),
        match p_opt_return_type(old(parser).input(), old(parser).pos()) {
            Ok((t, k)) => r == Ok::<ReturnType, ParseError>(t) && final(parser).pos() == k && k
                >= old(parser).pos(),
            Err(e) => r matches Err(x) && x@ == e,
        },
{
    proof {
        reveal(p_opt_return_type);
    }
    match parser.peek() {
        Token::Name => parse_return_type(parser),
        _ => Ok(ReturnType::Void),
    }
}

/// Passes over the line feeds and semicolons at the current place.
pub fn consume_delim(parser: &mut Parser)
    requires
        old(parser).at_token(),
    ensures
        kept(*old(parser), *final(parser)),
        final(parser).pos() == p_delims(old(parser).input(), old(parser).pos()),
        final(parser).pos() >= old(parser).pos(),
{
    loop
        invariant
            kept(*old(parser), *parser),
            parser.pos() >= old(parser).pos(),
            p_delims(parser.input(), parser.pos()) == p_delims(
                old(parser).input(),
                old(parser).pos(),
            ),
        decreases parser.input().toks.len() - parser.pos(),
    {
        match parser.peek() {
            Token::Newline | Token::Semicolon => {
                parser.gettok();
            },
            _ => {
                return ;
            },
        }
    }
}

/// Takes the end of a statement: a semicolon or a line feed, unless a
/// closing brace or the end of the file follows; and every line feed and
/// semicolon behind it.
pub fn expect_delim(parser: &mut Parser) -> (r: Result<(), ParseError>)
    requires
        old(parser).at_token(),
    ensures
        kept(*old(parser), *final(parser)),
        match p_expect_delim(old(parser).input(), old(parser).pos()) {
            Ok((_, k)) => r is Ok && final(parser).pos() == k && k >= old(parser).pos(),
            Err(e) => r matches Err(x) && x@ == e,
        },
{
    proof {
        reveal(p_expect_delim);
        reveal(Input::expect);
    }
    match parser.peek() {
        Token::RBrace | Token::EOF => {},
        Token::Semicolon | Token::Newline => {
            parser.gettok();
        },
        _ => {
            match parser.expect(Pattern::Exact(Token::Newline)) {
                Err(e) => {
                    return Err(e);
                },
                Ok(_) => {},
            }
        },
    }
    consume_delim(parser);
    Ok(())
}

fn parse_attrs(parser: &mut Parser, span: Span, what: &str) -> (r: Result<Visibility, ParseError>)
    requires
        old(parser).at_token(),
    ensures
        kept(*old(parser), *final(parser)),
        match p_attrs(old(parser).input(), old(parser).pos(), span, lit(what)) {
            Ok((v, k)) => r == Ok::<Visibility, ParseError>(v) && final(parser).pos() == k && k
                >= old(parser).pos(),
            Err(e) => r matches Err(x) && x@ == e,
        },
{
    proof {
        reveal(p_attrs);
    }
    let mut visibility = Visibility::Private;
    if !parser.consume(Pattern::Exact(Token::LBracket)) {
        return Ok(visibility);
    }
    let ghost total = p_attrs(parser.input(), old(parser).pos(), span, lit(what));
    loop
        invariant
            kept(*old(parser), *parser),
            parser.pos() >= old(parser).pos(),
            total == p_attrs(old(parser).input(), old(parser).pos(), span, lit(what)),
            total == p_attr_items(parser.input(), parser.pos(), span, lit(what), visibility),
        decreases parser.input().toks.len() - parser.pos(),
    {
        if parser.at_name("pub") {
            parser.gettok();
            visibility = Visibility::Public;
        } else {
            match parser.peek() {
                Token::RBracket => {
                    parser.gettok();
                    return Ok(visibility);
                },
                _ => {
                    return Err(
                        ParseError::InvalidToken {
                            span,
                            expected: lit_vec(what),
                            got: parser.describe(),
                        },
                    );
                },
            }
        }
    }
}

fn parse_type_list(parser: &mut Parser) -> (r: Result<Vec<Type>, ParseError>)
    requires
        old(parser).at_token(),
    ensures
        kept(*old(parser), *final(parser)),
        match p_type_list(old(parser).input(), old(parser).pos(), Seq::empty()) {
            Ok((v, k)) => r matches Ok(x) && x@ == v && final(parser).pos() == k && k >= old(
                parser,
            ).pos(),
            Err(e) => r matches Err(x) && x@ == e,
        },
{
    let mut types: Vec<Type> = Vec::new();
    let ghost total = p_type_list(parser.input(), parser.pos(), Seq::empty());
    loop
        invariant
            kept(*old(parser), *parser),
            parser.pos() >= old(parser).pos(),
            total == p_type_list(old(parser).input(), old(parser).pos(), Seq::empty()),
            total == p_type_list(parser.input(), parser.pos(), types@),
        decreases parser.input().toks.len() - parser.pos(),
    {
        if parser.consume(Pattern::Exact(Token::RParen)) {
            return Ok(types);
        }
        match parse_type(parser) {
            Err(e) => {
                return Err(e);
            },
            Ok(t) => {
                types.push(t);
            },
        }
        if !parser.consume(Pattern::Exact(Token::Comma)) {
            return match parser.expect(Pattern::Exact(Token::RParen)) {
                Err(e) => Err(e),
                Ok(_) => Ok(types),
            };
        }
    }
}

/// Takes the type of an imported function: the types of its parameters in
/// round brackets, and what it returns.
pub fn parse_function_type(parser: &mut Parser) -> (r: Result<FunctionType, ParseError>)
    requires
        old(parser).at_token(),
    ensures
        kept(*old(parser), *final(parser)),
        match p_function_type(old(parser).input(), old(parser).pos()) {
            Ok((t, k)) => r matches Ok(x) && x@ == t && final(parser).pos() == k && k >= old(
                parser,
            ).pos(),
            Err(e) => r matches Err(x) && x@ == e,
        },
{
    proof {
        reveal(p_function_type);
    }
    match parser.expect(Pattern::Exact(Token::LParen)) {
        Err(e) => Err(e),
        Ok(_) => match parse_type_list(parser) {
            Err(e) => Err(e),
            Ok(parameter_types) => match parse_opt_return_type(parser) {
                Err(e) => Err(e),
                Ok(return_type) => Ok(FunctionType { parameter_types, return_type }),
            },
        },
    }
}

fn parse_params(parser: &mut Parser) -> (r: Result<Vec<(Vec<u8>, Type)>, ParseError>)
    requires
        old(parser).at_token(),
    ensures
        kept(*old(parser), *final(parser)),
        match p_params(old(parser).input(), old(parser).pos(), Seq::empty()) {
            Ok((v, k)) => r matches Ok(x) && params_view(x@) == v && final(parser).pos() == k && k
                >= old(parser).pos(),
            Err(e) => r matches Err(x) && x@ == e,
        },
{
    let mut params: Vec<(Vec<u8>, Type)> = Vec::new();
    let ghost total = p_params(parser.input(), parser.pos(), Seq::empty());
    assert(params_view(params@) =~= Seq::empty());
    loop
        invariant
            kept(*old(parser), *parser),
            parser.pos() >= old(parser).pos(),
            total == p_params(old(parser).input(), old(parser).pos(), Seq::empty()),
            total == p_params(parser.input(), parser.pos(), params_view(params@)),
        decreases parser.input().toks.len() - parser.pos(),
    {
        if parser.consume(Pattern::Exact(Token::RParen)) {
            return Ok(params);
        }
        let name = match parser.expect_name() {
            Err(e) => {
                return Err(e);
            },
            Ok(name) => name,
        };
        let type_ = match parse_type(parser) {
            Err(e) => {
                return Err(e);
            },
            Ok(t) => t,
        };
        let ghost before = params_view(params@);
        params.push((name, type_));
        assert(params_view(params@) =~= before.push((name@, type_)));
        if !parser.consume(Pattern::Exact(Token::Comma)) {
            return match parser.expect(Pattern::Exact(Token::RParen)) {
                Err(e) => Err(e),
                Ok(_) => Ok(params),
            };
        }
    }
}

fn describe_const(value: ConstValue) -> (r: Vec<u8>)
    ensures
        r@ == const_describe(value),
{
    match value {
        ConstValue::I32(x) => {
            let mut r = lit_vec("I32(");
            let digits = dec_int_vec(x as i64);
            push_bytes(&mut r, digits.as_slice());
            push_lit(&mut r, ")");
            r
        },
        ConstValue::Type(t) => {
            let mut r = lit_vec("Type(");
            let name = t.name_vec();
            push_bytes(&mut r, name.as_slice());
            push_lit(&mut r, ")");
            r
        },
    }
}

fn not_const_error(span: Span) -> (r: ParseError)
    ensures
        r@ == not_const(span),
{
    ParseError::InvalidToken {
        span,
        expected: lit_vec("constexpr"),
        got: lit_vec("non-const expression"),
    }
}

fn const_overflow_error(span: Span) -> (r: ParseError)
    ensures
        r@ == const_overflow(span),
{
    ParseError::InvalidToken { span, expected: lit_vec("i32"), got: lit_vec("overflow") }
}

fn wrap_to_i32(x: i64) -> (r: i32)
    ensures
        r as int == wrap_i32(x as int),
{
    let m: i64 = 0x1_0000_0000;
    let low: i64 = if x >= 0 {
        x % m
    } else {
        m - 1 - (-(x + 1)) % m
    };
    assert(low == (x as int) % 0x1_0000_0000);
    if low >= 0x8000_0000 {
        (low - m) as i32
    } else {
        low as i32
    }
}

fn operands_str(op: Binop) -> (r: &'static str)
    ensures
        lit(r) == const_operands(op),
{
    match op {
        Binop::Add => "addable values",
        Binop::Subtract => "subtractable values",
        Binop::Multiply => "multiplicable values",
        Binop::TruncDivide => "trunc-dividable values",
        _ => "rem-able values",
    }
}

fn fold_binop(op: Binop, x: i32, y: i32) -> (r: Option<i64>)
    ensures
        r matches Some(v) ==> const_binop(op, x as int, y as int) == Some(v as int),
        r is None ==> const_binop(op, x as int, y as int) is None,
{
    let a: i64 = x as i64;
    let b: i64 = y as i64;
    match op {
        Binop::Add => Some(a + b),
        Binop::Subtract => Some(a - b),
        Binop::Multiply => {
            assert(-0x8000_0000 * 0x8000_0000 <= a * b <= 0x8000_0000 * 0x8000_0000)
                by (nonlinear_arith)
                requires
                    -0x8000_0000 <= a <= 0x7fff_ffff,
                    -0x8000_0000 <= b <= 0x7fff_ffff,
            ;
            Some(a * b)
        },
        Binop::TruncDivide => {
            if b == 0 {
                None
            } else {
                let ax: i64 = if a >= 0 {
                    a
                } else {
                    -a
                };
                let bx: i64 = if b > 0 {
                    b
                } else {
                    -b
                };
                let q: i64 = ax / bx;
                if (a >= 0) == (b > 0) {
                    Some(q)
                } else {
                    Some(-q)
                }
            }
        },
        Binop::Remainder => {
            if b == 0 {
                None
            } else {
                let bx: i64 = if b > 0 {
                    b
                } else {
                    -b
                };
                if a >= 0 {
                    Some(a % bx)
                } else {
                    Some(-((-a) % bx))
                }
            }
        },
        _ => None,
    }
}

fn const_operator(op: Binop) -> (r: bool)
    ensures
        r == is_const_binop(op),
{
    match op {
        Binop::Add
        | Binop::Subtract
        | Binop::Multiply
        | Binop::TruncDivide
        | Binop::Remainder => true,
        _ => false,
    }
}

/// The value of a constant expression, with the constants that the parser
/// knows.
pub fn eval_constexpr(expr: &Expr, parser: &Parser) -> (r: Result<ConstValue, ParseError>)
    ensures
        match eval_const(parser.input().consts, expr@) {
            Ok(v) => r == Ok::<ConstValue, ParseError>(v),
            Err(e) => r matches Err(x) && x@ == e,
        },
    decreases expr,
{
    proof {
        reveal(eval_const);
    }
    match expr {
        Expr::Int(_, value) => Ok(ConstValue::I32(wrap_to_i32(*value))),
        Expr::GetVar(span, name) => match parser.constant(name.as_slice()) {
            Some(value) => Ok(value),
            None => match type_from_name(name.as_slice()) {
                Some(t) => Ok(ConstValue::Type(t)),
                None => Err(
                    ParseError::InvalidToken {
                        span: *span,
                        expected: lit_vec("named constant"),
                        got: lit_vec("NotFound"),
                    },
                ),
            },
        },
        Expr::Unop(span, op, x) => {
            match op {
                Unop::Not => Err(not_const_error(*span)),
                _ => match eval_constexpr(x, parser) {
                    Err(e) => Err(e),
                    Ok(ConstValue::I32(i)) => match op {
                        Unop::Plus => Ok(ConstValue::I32(i)),
                        _ => {
                            if i == -0x8000_0000 {
                                Err(const_overflow_error(*span))
                            } else {
                                Ok(ConstValue::I32(-i))
                            }
                        },
                    },
                    Ok(v) => Err(
                        ParseError::InvalidToken {
                            span: *span,
                            expected: lit_vec("i32"),
                            got: describe_const(v),
                        },
                    ),
                },
            }
        },
        Expr::Binop(span, op, left, right) => {
            if !const_operator(*op) {
                return Err(not_const_error(*span));
            }
            match eval_constexpr(left, parser) {
                Err(e) => Err(e),
                Ok(a) => match eval_constexpr(right, parser) {
                    Err(e) => Err(e),
                    Ok(b) => match (a, b) {
                        (ConstValue::I32(x), ConstValue::I32(y)) => match fold_binop(*op, x, y) {
                            Some(v) => {
                                if -0x8000_0000 <= v && v <= 0x7fff_ffff {
                                    Ok(ConstValue::I32(v as i32))
                                } else {
                                    Err(const_overflow_error(*span))
                                }
                            },
                            None => Err(const_overflow_error(*span)),
                        },
                        _ => {
                            let mut got = describe_const(a);
                            push_lit(&mut got, ", ");
                            let second = describe_const(b);
                            push_bytes(&mut got, second.as_slice());
                            Err(
                                ParseError::InvalidToken {
                                    span: *span,
                                    expected: lit_vec(operands_str(*op)),
                                    got,
                                },
                            )
                        },
                    },
                },
            }
        },
        _ => Err(not_const_error(*expr.span())),
    }
}

fn infix_precedence(parser: &Parser) -> (r: Option<u32>)
    requires
        parser.at_token(),
    ensures
        r == infix_prec(parser.input(), parser.pos()),
        r matches Some(q) ==> q <= 1000,
{
    proof {
        reveal(infix_prec);
    }
    match parser.peek() {
        Token::LParen => Some(PREC_POSTFIX),
        Token::Dot => Some(PREC_POSTFIX),
        Token::Eq => Some(PREC_ASSIGN),
        Token::Name => {
            let text = parser.text();
            if eq_lit(text, "and") {
                Some(PREC_LOGICAL_AND)
            } else if eq_lit(text, "or") {
                Some(PREC_LOGICAL_OR)
            } else if eq_lit(text, "is") {
                Some(PREC_CMP)
            } else {
                None
            }
        },
        t => match binop_from(t) {
            Some(op) => Some(precedence(op)),
            None => None,
        },
    }
}

fn binop_from(t: Token) -> (r: Option<Binop>)
    ensures
        r == binop_of(t),
{
    match t {
        Token::Plus => Some(Binop::Add),
        Token::Minus => Some(Binop::Subtract),
        Token::Star => Some(Binop::Multiply),
        Token::Slash => Some(Binop::Divide),
        Token::Slash2 => Some(Binop::TruncDivide),
        Token::Percent => Some(Binop::Remainder),
        Token::Caret => Some(Binop::BitwiseXor),
        Token::Ampersand => Some(Binop::BitwiseAnd),
        Token::VerticalBar => Some(Binop::BitwiseOr),
        Token::Lt2 => Some(Binop::ShiftLeft),
        Token::Gt2 => Some(Binop::ShiftRight),
        Token::Eq2 => Some(Binop::Equal),
        Token::Ne => Some(Binop::NotEqual),
        Token::Lt => Some(Binop::Less),
        Token::Gt => Some(Binop::Greater),
        Token::Le => Some(Binop::LessOrEqual),
        Token::Ge => Some(Binop::GreaterOrEqual),
        _ => None,
    }
}

fn precedence(op: Binop) -> (r: u32)
    ensures
        r == binop_prec(op),
        r <= 1000,
{
    match op {
        Binop::Add | Binop::Subtract => PREC_SUM,
        Binop::Multiply | Binop::Divide | Binop::TruncDivide | Binop::Remainder => PREC_PRODUCT,
        Binop::BitwiseXor => PREC_BITWISE_XOR,
        Binop::BitwiseAnd => PREC_BITWISE_AND,
        Binop::BitwiseOr => PREC_BITWISE_OR,
        Binop::ShiftLeft | Binop::ShiftRight => PREC_SHIFT,
        _ => PREC_CMP,
    }
}

/// Takes a statement: an expression and its end.
fn parse_stmt(parser: &mut Parser) -> (r: Result<Expr, ParseError>)
    requires
        old(parser).at_token(),
    ensures
        kept(*old(parser), *final(parser)),
        expr_parsed(
            r,
            p_stmt(old(parser).input(), old(parser).pos()),
            final(parser).pos(),
        ),
        r is Ok ==> final(parser).pos() > old(parser).pos(),
    decreases old(parser).input().toks.len() - old(parser).pos(), 5nat,
{
    match parse_expr(parser, 0) {
        Err(e) => Err(e),
        Ok(expr) => match expect_delim(parser) {
            Err(e) => Err(e),
            Ok(()) => Ok(expr),
        },
    }
}

/// Takes a block: statements in braces.
fn parse_block(parser: &mut Parser) -> (r: Result<Expr, ParseError>)
    requires
        old(parser).at_token(),
    ensures
        kept(*old(parser), *final(parser)),
        expr_parsed(
            r,
            p_block(old(parser).input(), old(parser).pos()),
            final(parser).pos(),
        ),
        r is Ok ==> final(parser).pos() > old(parser).pos(),
    decreases old(parser).input().toks.len() - old(parser).pos(), 1nat,
{
    let span = parser.span();
    match parser.expect(Pattern::Exact(Token::LBrace)) {
        Err(e) => {
            return Err(e);
        },
        Ok(_) => {},
    }
    consume_delim(parser);
    let mut exprs: Vec<Expr> = Vec::new();
    let ghost total = p_block(old(parser).input(), old(parser).pos());
    assert(exprs_view(exprs@) =~= Seq::empty());
    loop
        invariant
            kept(*old(parser), *parser),
            parser.pos() > old(parser).pos(),
            total == p_block(old(parser).input(), old(parser).pos()),
            total == p_stmts(parser.input(), parser.pos(), span, exprs_view(exprs@)),
        decreases parser.input().toks.len() - parser.pos(),
    {
        if parser.consume(Pattern::Exact(Token::RBrace)) {
            let span = span.upto(&parser.span());
            return Ok(Expr::Block(span, exprs));
        }
        match parse_stmt(parser) {
            Err(e) => {
                return Err(e);
            },
            Ok(e) => {
                proof {
                    lemma_exprs_view_push(exprs@, e);
                }
                exprs.push(e);
            },
        }
    }
}

/// The view of an expression that may be there.
pub open spec fn option_view(e: Option<Expr>) -> Option<ExprView> {
    match e {
        Some(x) => Some(x@),
        None => None,
    }
}

/// Takes a conditional.
fn parse_if(parser: &mut Parser) -> (r: Result<Expr, ParseError>)
    requires
        old(parser).at_token(),
        old(parser).input().at_word(old(parser).pos(), lit("if")),
    ensures
        kept(*old(parser), *final(parser)),
        expr_parsed(
            r,
            p_if(old(parser).input(), old(parser).pos()),
            final(parser).pos(),
        ),
        r is Ok ==> final(parser).pos() > old(parser).pos(),
    decreases old(parser).input().toks.len() - old(parser).pos(), 1nat,
{
    let span = parser.span();
    parser.gettok();
    let cond = match parse_expr(parser, 0) {
        Err(e) => {
            return Err(e);
        },
        Ok(e) => e,
    };
    let body = match parse_block(parser) {
        Err(e) => {
            return Err(e);
        },
        Ok(e) => e,
    };
    let mut pairs: Vec<(Expr, Expr)> = Vec::new();
    proof {
        lemma_pairs_view_push(pairs@, cond, body);
        assert(pairs_view(pairs@) =~= Seq::empty());
        assert(Seq::<(ExprView, ExprView)>::empty().push((cond@, body@)) =~= seq![(cond@, body@)]);
    }
    pairs.push((cond, body));
    let mut other: Option<Expr> = None;
    let ghost total = p_if(old(parser).input(), old(parser).pos());
    loop
        invariant
            kept(*old(parser), *parser),
            parser.pos() > old(parser).pos(),
            total == p_if(old(parser).input(), old(parser).pos()),
            total == p_else(
                parser.input(),
                parser.pos(),
                span,
                pairs_view(pairs@),
                option_view(other),
            ),
        decreases parser.input().toks.len() - parser.pos(),
    {
        if !parser.at_name("else") {
            let span = span.upto(&parser.span());
            let ghost spec_other = option_view(other);
            let last = match other {
                Some(block) => block,
                None => {
                    let block = Expr::Block(span, Vec::new());
                    assert(exprs_view(Seq::<Expr>::empty()) =~= Seq::empty());
                    assert(block@ == ExprView::Block(span, Seq::empty()));
                    block
                },
            };
            assert(last@ == last_branch(span, spec_other));
            let ghost branches = pairs_view(pairs@);
            let ghost other_view = last@;
            let whole = Expr::If(span, pairs, Box::new(last));
            assert(whole@ == ExprView::If(span, branches, Box::new(other_view)));
            return Ok(whole);
        }
        parser.gettok();
        if parser.at_name("if") {
            parser.gettok();
            let cond = match parse_expr(parser, 0) {
                Err(e) => {
                    return Err(e);
                },
                Ok(e) => e,
            };
            let body = match parse_block(parser) {
                Err(e) => {
                    return Err(e);
                },
                Ok(e) => e,
            };
            proof {
                lemma_pairs_view_push(pairs@, cond, body);
            }
            pairs.push((cond, body));
        } else {
            match parser.peek() {
                Token::LBrace => {
                    other = match parse_block(parser) {
                        Err(e) => {
                            return Err(e);
                        },
                        Ok(e) => Some(e),
                    };
                },
                _ => {
                    return Err(
                        ParseError::InvalidToken {
                            span,
                            expected: lit_vec("if or block (in else-branch)"),
                            got: parser.describe(),
                        },
                    );
                },
            }
        }
    }
}

/// Takes a loop.
fn parse_while(parser: &mut Parser) -> (r: Result<Expr, ParseError>)
    requires
        old(parser).at_token(),
        old(parser).input().at_word(old(parser).pos(), lit("while")),
    ensures
        kept(*old(parser), *final(parser)),
        expr_parsed(
            r,
            p_while(old(parser).input(), old(parser).pos()),
            final(parser).pos(),
        ),
        r is Ok ==> final(parser).pos() > old(parser).pos(),
    decreases old(parser).input().toks.len() - old(parser).pos(), 1nat,
{
    let span = parser.span();
    parser.gettok();
    let cond = match parse_expr(parser, 0) {
        Err(e) => {
            return Err(e);
        },
        Ok(e) => e,
    };
    match parse_block(parser) {
        Err(e) => Err(e),
        Ok(body) => {
            let span = span.upto(&parser.span());
            Ok(Expr::While(span, Box::new(cond), Box::new(body)))
        },
    }
}

/// Takes the declaration of a local.
fn parse_var(parser: &mut Parser) -> (r: Result<Expr, ParseError>)
    requires
        old(parser).at_token(),
        old(parser).input().at_word(old(parser).pos(), lit("var")),
    ensures
        kept(*old(parser), *final(parser)),
        expr_parsed(
            r,
            p_var(old(parser).input(), old(parser).pos()),
            final(parser).pos(),
        ),
        r is Ok ==> final(parser).pos() > old(parser).pos(),
    decreases old(parser).input().toks.len() - old(parser).pos(), 1nat,
{
    let span = parser.span();
    parser.gettok();
    let name = match parser.expect_name() {
        Err(e) => {
            return Err(e);
        },
        Ok(name) => name,
    };
    let type_ = match parse_opt_type(parser) {
        Err(e) => {
            return Err(e);
        },
        Ok(t) => t,
    };
    match parser.expect(Pattern::Exact(Token::Eq)) {
        Err(e) => {
            return Err(e);
        },
        Ok(_) => {},
    }
    match parse_expr(parser, 0) {
        Err(e) => Err(e),
        Ok(init) => {
            let span = span.upto(&parser.span());
            Ok(Expr::DeclVar(span, name, type_, Box::new(init)))
        },
    }
}

/// Takes expressions with commas between them, up to the token `close`.
fn parse_exprs(parser: &mut Parser, close: Token) -> (r: Result<Vec<Expr>, ParseError>)
    requires
        old(parser).at_token(),
        close != Token::EOF,
    ensures
        kept(*old(parser), *final(parser)),
        match p_exprs(old(parser).input(), old(parser).pos(), close, Seq::empty()) {
            Ok((v, k)) => r matches Ok(x) && exprs_view(x@) == v && final(parser).pos() == k && k
                > old(parser).pos(),
            Err(e) => r matches Err(x) && x@ == e,
        },
    decreases old(parser).input().toks.len() - old(parser).pos(), 5nat,
{
    let mut exprs: Vec<Expr> = Vec::new();
    let ghost total = p_exprs(parser.input(), parser.pos(), close, Seq::empty());
    assert(exprs_view(exprs@) =~= Seq::empty());
    loop
        invariant
            kept(*old(parser), *parser),
            parser.pos() >= old(parser).pos(),
            close != Token::EOF,
            total == p_exprs(old(parser).input(), old(parser).pos(), close, Seq::empty()),
            total == p_exprs(parser.input(), parser.pos(), close, exprs_view(exprs@)),
        decreases parser.input().toks.len() - parser.pos(),
    {
        if parser.peek() == close {
            parser.gettok();
            return Ok(exprs);
        }
        match parse_expr(parser, 0) {
            Err(e) => {
                return Err(e);
            },
            Ok(e) => {
                proof {
                    lemma_exprs_view_push(exprs@, e);
                }
                exprs.push(e);
            },
        }
        match parser.peek() {
            Token::Comma => {
                parser.gettok();
            },
            _ => {
                return match parser.expect(Pattern::Exact(close)) {
                    Err(e) => Err(e),
                    Ok(_) => Ok(exprs),
                };
            },
        }
    }
}

/// Takes a number that is known while the file is parsed and is not
/// negative.
fn parse_const_uint(parser: &mut Parser) -> (r: Result<u32, ParseError>)
    requires
        old(parser).at_token(),
    ensures
        kept(*old(parser), *final(parser)),
        match p_const_uint(old(parser).input(), old(parser).pos()) {
            Ok((n, k)) => r == Ok::<u32, ParseError>(n) && final(parser).pos() == k && k > old(
                parser,
            ).pos(),
            Err(e) => r matches Err(x) && x@ == e,
        },
    decreases old(parser).input().toks.len() - old(parser).pos(), 5nat,
{
    let span = parser.span();
    match parse_expr(parser, PREC_UNARY - 1) {
        Err(e) => Err(e),
        Ok(expr) => match eval_constexpr(&expr, parser) {
            Err(e) => Err(e),
            Ok(ConstValue::I32(i)) => {
                if i >= 0 {
                    Ok(i as u32)
                } else {
                    Err(
                        ParseError::InvalidToken {
                            span,
                            expected: lit_vec("const uint"),
                            got: describe_const(ConstValue::I32(i)),
                        },
                    )
                }
            },
            Ok(v) => Err(
                ParseError::InvalidToken {
                    span,
                    expected: lit_vec("const uint"),
                    got: describe_const(v),
                },
            ),
        },
    }
}

/// Takes the offset of a load or store, where one is given, and the
/// closing bracket.
fn parse_offset(parser: &mut Parser) -> (r: Result<u32, ParseError>)
    requires
        old(parser).at_token(),
    ensures
        kept(*old(parser), *final(parser)),
        match p_offset(old(parser).input(), old(parser).pos()) {
            Ok((n, k)) => r == Ok::<u32, ParseError>(n) && final(parser).pos() == k && k > old(
                parser,
            ).pos(),
            Err(e) => r matches Err(x) && x@ == e,
        },
    decreases old(parser).input().toks.len() - old(parser).pos(), 5nat,
{
    let offset: u32 = if parser.consume(Pattern::Exact(Token::Comma)) && parser.consume(
        Pattern::Word("offset"),
    ) {
        match parser.expect(Pattern::Exact(Token::Colon)) {
            Err(e) => {
                return Err(e);
            },
            Ok(_) => {},
        }
        match parse_const_uint(parser) {
            Err(e) => {
                return Err(e);
            },
            Ok(n) => n,
        }
    } else {
        0
    };
    parser.consume(Pattern::Exact(Token::Comma));
    match parser.expect(Pattern::Exact(Token::RParen)) {
        Err(e) => Err(e),
        Ok(_) => Ok(offset),
    }
}

/// Takes what belongs to `$cstr`.
fn parse_cstr(parser: &mut Parser, span: Span) -> (r: Result<Expr, ParseError>)
    requires
        old(parser).at_token(),
        old(parser).input().tok(old(parser).pos()) is Name,
    ensures
        kept(*old(parser), *final(parser)),
        expr_parsed(
            r,
            p_cstr(old(parser).input(), old(parser).pos(), span),
            final(parser).pos(),
        ),
        r is Ok ==> final(parser).pos() > old(parser).pos(),
{
    proof {
        reveal(p_cstr);
    }
    parser.gettok();
    match parser.expect(Pattern::Exact(Token::LParen)) {
        Err(e) => {
            return Err(e);
        },
        Ok(_) => {},
    }
    let string = match parser.expect_string() {
        Err(e) => {
            return Err(e);
        },
        Ok(s) => s,
    };
    match parser.expect(Pattern::Exact(Token::RParen)) {
        Err(e) => Err(e),
        Ok(_) => {
            let span = span.upto(&parser.span());
            Ok(Expr::CString(span, string))
        },
    }
}

/// Takes what belongs to `$asm`.
fn parse_asm(parser: &mut Parser, span: Span) -> (r: Result<Expr, ParseError>)
    requires
        old(parser).at_token(),
        old(parser).input().tok(old(parser).pos()) is Name,
    ensures
        kept(*old(parser), *final(parser)),
        expr_parsed(
            r,
            p_asm(old(parser).input(), old(parser).pos(), span),
            final(parser).pos(),
        ),
        r is Ok ==> final(parser).pos() > old(parser).pos(),
    decreases old(parser).input().toks.len() - old(parser).pos(), 0nat,
{
    parser.gettok();
    match parser.expect(Pattern::Exact(Token::LParen)) {
        Err(e) => {
            return Err(e);
        },
        Ok(_) => {},
    }
    match parser.expect(Pattern::Exact(Token::LBracket)) {
        Err(e) => {
            return Err(e);
        },
        Ok(_) => {},
    }
    let args = match parse_exprs(parser, Token::RBracket) {
        Err(e) => {
            return Err(e);
        },
        Ok(args) => args,
    };
    match parser.expect(Pattern::Exact(Token::Comma)) {
        Err(e) => {
            return Err(e);
        },
        Ok(_) => {},
    }
    let type_ = match parse_return_type(parser) {
        Err(e) => {
            return Err(e);
        },
        Ok(t) => t,
    };
    match parser.expect(Pattern::Exact(Token::Comma)) {
        Err(e) => {
            return Err(e);
        },
        Ok(_) => {},
    }
    let asm_code = match parser.expect_string() {
        Err(e) => {
            return Err(e);
        },
        Ok(s) => s,
    };
    parser.consume(Pattern::Exact(Token::Comma));
    match parser.expect(Pattern::Exact(Token::RParen)) {
        Err(e) => Err(e),
        Ok(_) => Ok(Expr::Asm(span, args, type_, asm_code)),
    }
}

/// Takes what belongs to an intrinsic that loads.
fn parse_read(parser: &mut Parser, span: Span, width: Width) -> (r: Result<Expr, ParseError>)
    requires
        old(parser).at_token(),
        old(parser).input().tok(old(parser).pos()) is Name,
    ensures
        kept(*old(parser), *final(parser)),
        expr_parsed(
            r,
            p_read(old(parser).input(), old(parser).pos(), span, width),
            final(parser).pos(),
        ),
        r is Ok ==> final(parser).pos() > old(parser).pos(),
    decreases old(parser).input().toks.len() - old(parser).pos(), 0nat,
{
    parser.gettok();
    match parser.expect(Pattern::Exact(Token::LParen)) {
        Err(e) => {
            return Err(e);
        },
        Ok(_) => {},
    }
    let addr = match parse_expr(parser, 0) {
        Err(e) => {
            return Err(e);
        },
        Ok(e) => e,
    };
    match parse_offset(parser) {
        Err(e) => Err(e),
        Ok(offset) => {
            let span = span.upto(&parser.span());
            Ok(Expr::Read(span, width, Box::new(addr), offset))
        },
    }
}

/// Takes what belongs to an intrinsic that stores.
fn parse_write(parser: &mut Parser, span: Span, width: Width) -> (r: Result<Expr, ParseError>)
    requires
        old(parser).at_token(),
        old(parser).input().tok(old(parser).pos()) is Name,
    ensures
        kept(*old(parser), *final(parser)),
        expr_parsed(
            r,
            p_write(old(parser).input(), old(parser).pos(), span, width),
            final(parser).pos(),
        ),
        r is Ok ==> final(parser).pos() > old(parser).pos(),
    decreases old(parser).input().toks.len() - old(parser).pos(), 0nat,
{
    parser.gettok();
    match parser.expect(Pattern::Exact(Token::LParen)) {
        Err(e) => {
            return Err(e);
        },
        Ok(_) => {},
    }
    let addr = match parse_expr(parser, 0) {
        Err(e) => {
            return Err(e);
        },
        Ok(e) => e,
    };
    match parser.expect(Pattern::Exact(Token::Comma)) {
        Err(e) => {
            return Err(e);
        },
        Ok(_) => {},
    }
    let value = match parse_expr(parser, 0) {
        Err(e) => {
            return Err(e);
        },
        Ok(e) => e,
    };
    match parse_offset(parser) {
        Err(e) => Err(e),
        Ok(offset) => {
            let span = span.upto(&parser.span());
            Ok(Expr::Write(span, width, Box::new(addr), Box::new(value), offset))
        },
    }
}

fn width_of_read(name: &[u8]) -> (r: Option<Width>)
    ensures
        r == read_width(name@),
{
    proof {
        reveal(read_width);
    }
    if eq_lit(name, "read1") {
        Some(Width::One)
    } else if eq_lit(name, "read2") {
        Some(Width::Two)
    } else if eq_lit(name, "read4") {
        Some(Width::Four)
    } else if eq_lit(name, "read8") {
        Some(Width::Eight)
    } else {
        None
    }
}

fn width_of_write(name: &[u8]) -> (r: Option<Width>)
    ensures
        r == write_width(name@),
{
    proof {
        reveal(write_width);
    }
    if eq_lit(name, "write1") {
        Some(Width::One)
    } else if eq_lit(name, "write2") {
        Some(Width::Two)
    } else if eq_lit(name, "write4") {
        Some(Width::Four)
    } else if eq_lit(name, "write8") {
        Some(Width::Eight)
    } else {
        None
    }
}

/// Takes an intrinsic, whose dollar sign has the span `span`.
fn parse_intrinsic(parser: &mut Parser, span: Span) -> (r: Result<Expr, ParseError>)
    requires
        old(parser).at_token(),
    ensures
        kept(*old(parser), *final(parser)),
        expr_parsed(
            r,
            p_intrinsic(old(parser).input(), old(parser).pos(), span),
            final(parser).pos(),
        ),
        r is Ok ==> final(parser).pos() > old(parser).pos(),
    decreases old(parser).input().toks.len() - old(parser).pos(), 1nat,
{
    match parser.peek() {
        Token::Name => {},
        _ => {
            return Err(
                ParseError::InvalidToken {
                    span,
                    expected: lit_vec("intrinsic name"),
                    got: parser.describe(),
                },
            );
        },
    }
    let name = parser.text();
    if eq_lit(name, "cstr") {
        return parse_cstr(parser, span);
    }
    if eq_lit(name, "asm") {
        return parse_asm(parser, span);
    }
    match width_of_read(name) {
        Some(width) => {
            return parse_read(parser, span, width);
        },
        None => {},
    }
    match width_of_write(name) {
        Some(width) => parse_write(parser, span, width),
        None => Err(ParseError::NoSuchIntrinsic(span, copy_bytes(name))),
    }
}

/// Takes an atom that starts with a name.
fn parse_word(parser: &mut Parser) -> (r: Result<Expr, ParseError>)
    requires
        old(parser).at_token(),
        old(parser).input().tok(old(parser).pos()) is Name,
    ensures
        kept(*old(parser), *final(parser)),
        expr_parsed(
            r,
            p_word(old(parser).input(), old(parser).pos()),
            final(parser).pos(),
        ),
        r is Ok ==> final(parser).pos() > old(parser).pos(),
    decreases old(parser).input().toks.len() - old(parser).pos(), 2nat,
{
    let span = parser.span();
    let text = parser.text();
    if eq_lit(text, "true") {
        parser.gettok();
        Ok(Expr::Bool(span, true))
    } else if eq_lit(text, "false") {
        parser.gettok();
        Ok(Expr::Bool(span, false))
    } else if eq_lit(text, "if") {
        parse_if(parser)
    } else if eq_lit(text, "while") {
        parse_while(parser)
    } else if eq_lit(text, "var") {
        parse_var(parser)
    } else {
        match parser.expect_name() {
            Err(e) => Err(e),
            Ok(name) => Ok(Expr::GetVar(span, name)),
        }
    }
}

fn unop_from(t: Token) -> (r: Option<Unop>)
    ensures
        r == unop_of(t),
{
    match t {
        Token::Minus => Some(Unop::Minus),
        Token::Plus => Some(Unop::Plus),
        Token::Exclamation => Some(Unop::Not),
        _ => None,
    }
}

/// Takes an atom that starts with a sign or a bracket.
fn parse_mark(parser: &mut Parser) -> (r: Result<Expr, ParseError>)
    requires
        old(parser).at_token(),
    ensures
        kept(*old(parser), *final(parser)),
        expr_parsed(
            r,
            p_mark(old(parser).input(), old(parser).pos()),
            final(parser).pos(),
        ),
        r is Ok ==> final(parser).pos() > old(parser).pos(),
    decreases old(parser).input().toks.len() - old(parser).pos(), 2nat,
{
    let span = parser.span();
    let token = parser.peek();
    match unop_from(token) {
        Some(op) => {
            parser.gettok();
            return match parse_expr(parser, PREC_UNARY) {
                Err(e) => Err(e),
                Ok(expr) => Ok(Expr::Unop(span, op, Box::new(expr))),
            };
        },
        None => {},
    }
    match token {
        Token::Dollar => {
            parser.gettok();
            parse_intrinsic(parser, span)
        },
        Token::LBracket => {
            parser.gettok();
            match parse_exprs(parser, Token::RBracket) {
                Err(e) => Err(e),
                Ok(exprs) => Ok(Expr::List(span, exprs)),
            }
        },
        Token::LParen => {
            parser.gettok();
            match parse_expr(parser, 0) {
                Err(e) => Err(e),
                Ok(expr) => match parser.expect(Pattern::Exact(Token::RParen)) {
                    Err(e) => Err(e),
                    Ok(_) => Ok(expr),
                },
            }
        },
        Token::LBrace => parse_block(parser),
        _ => Err(parser.invalid("Expression")),
    }
}

/// Takes an atom: a literal, a name with what it starts, or what starts
/// with a sign or a bracket.
fn parse_atom(parser: &mut Parser) -> (r: Result<Expr, ParseError>)
    requires
        old(parser).at_token(),
    ensures
        kept(*old(parser), *final(parser)),
        expr_parsed(
            r,
            p_atom(old(parser).input(), old(parser).pos()),
            final(parser).pos(),
        ),
        r is Ok ==> final(parser).pos() > old(parser).pos(),
    decreases old(parser).input().toks.len() - old(parser).pos(), 3nat,
{
    let span = parser.span();
    match parser.peek() {
        Token::Int(x) => {
            parser.gettok();
            Ok(Expr::Int(span, x))
        },
        Token::Float => {
            let text = copy_bytes(parser.text());
            parser.gettok();
            Ok(Expr::Float(span, text))
        },
        Token::NormalString | Token::RawString => match parser.expect_string() {
            Err(e) => Err(e),
            Ok(s) => Ok(Expr::String(span, s)),
        },
        Token::Name => parse_word(parser),
        _ => parse_mark(parser),
    }
}

/// Takes an expression of operators that bind at least as tightly as
/// `prec`.
pub fn parse_expr(parser: &mut Parser, prec: u32) -> (r: Result<Expr, ParseError>)
    requires
        old(parser).at_token(),
    ensures
        kept(*old(parser), *final(parser)),
        expr_parsed(
            r,
            p_expr(old(parser).input(), old(parser).pos(), prec),
            final(parser).pos(),
        ),
        r is Ok ==> final(parser).pos() > old(parser).pos(),
    decreases old(parser).input().toks.len() - old(parser).pos(), 4nat,
{
    match parse_atom(parser) {
        Err(e) => Err(e),
        Ok(atom) => {
            let start = parser.span();
            parse_infix(parser, atom, prec, start)
        },
    }
}

/// Takes the arguments of a call of `lhs`.
fn parse_call(parser: &mut Parser, lhs: Expr, start: Span) -> (r: Result<Expr, ParseError>)
    requires
        old(parser).at_token(),
        old(parser).input().tok(old(parser).pos()) is LParen,
    ensures
        kept(*old(parser), *final(parser)),
        expr_parsed(
            r,
            p_call(old(parser).input(), old(parser).pos(), lhs@, start),
            final(parser).pos(),
        ),
        r is Ok ==> final(parser).pos() > old(parser).pos(),
    decreases old(parser).input().toks.len() - old(parser).pos(), 0nat,
{
    let span = parser.span();
    match lhs {
        Expr::GetVar(_, name) => {
            parser.gettok();
            match parse_exprs(parser, Token::RParen) {
                Err(e) => Err(e),
                Ok(args) => {
                    let end = parser.span();
                    let span = span.join(&start).upto(&end);
                    Ok(Expr::FunctionCall(span, name, args))
                },
            }
        },
        _ => Err(
            ParseError::InvalidToken {
                span,
                expected: lit_vec("Function call"),
                got: lit_vec("indirect function calls not yet supported"),
            },
        ),
    }
}

/// Takes the type that `lhs` is to have.
fn parse_ascribe(parser: &mut Parser, lhs: Expr) -> (r: Result<Expr, ParseError>)
    requires
        old(parser).at_token(),
        old(parser).input().tok(old(parser).pos()) is Dot,
    ensures
        kept(*old(parser), *final(parser)),
        expr_parsed(
            r,
            p_ascribe(old(parser).input(), old(parser).pos(), lhs@),
            final(parser).pos(),
        ),
        r is Ok ==> final(parser).pos() > old(parser).pos(),
{
    proof {
        reveal(p_ascribe);
    }
    let span = parser.span();
    parser.gettok();
    match parser.expect(Pattern::Exact(Token::LParen)) {
        Err(e) => {
            return Err(e);
        },
        Ok(_) => {},
    }
    let type_ = match parse_type(parser) {
        Err(e) => {
            return Err(e);
        },
        Ok(t) => t,
    };
    match parser.expect(Pattern::Exact(Token::RParen)) {
        Err(e) => Err(e),
        Ok(_) => Ok(Expr::AssertType(span, type_, Box::new(lhs))),
    }
}

/// Takes the new value of the variable `lhs`.
fn parse_assign(parser: &mut Parser, lhs: Expr, start: Span) -> (r: Result<Expr, ParseError>)
    requires
        old(parser).at_token(),
        old(parser).input().tok(old(parser).pos()) is Eq,
    ensures
        kept(*old(parser), *final(parser)),
        expr_parsed(
            r,
            p_assign(old(parser).input(), old(parser).pos(), lhs@, start),
            final(parser).pos(),
        ),
        r is Ok ==> final(parser).pos() > old(parser).pos(),
    decreases old(parser).input().toks.len() - old(parser).pos(), 0nat,
{
    let span = parser.span();
    match lhs {
        Expr::GetVar(_, name) => {
            parser.gettok();
            match parse_expr(parser, 0) {
                Err(e) => Err(e),
                Ok(value) => Ok(Expr::SetVar(span.join(&start), name, Box::new(value))),
            }
        },
        _ => Err(
            ParseError::InvalidToken {
                span,
                expected: lit_vec("Assignment"),
                got: lit_vec("assignments only supported for variables"),
            },
        ),
    }
}

/// The expression of `and`, `or` or `is` with its operands.
fn build_logic(word: &[u8], negated: bool, span: Span, lhs: Expr, rhs: Expr) -> (r: Expr)
    ensures
        r@ == logic_expr(word@, negated, span, lhs@, rhs@),
{
    proof {
        reveal(logic_expr);
    }
    if eq_lit(word, "and") {
        let mut pairs: Vec<(Expr, Expr)> = Vec::new();
        let body = Expr::AssertType(span, Type::Bool, Box::new(rhs));
        assert(body@ == ExprView::AssertType(span, Type::Bool, Box::new(rhs@)));
        proof {
            assert(pairs_view(pairs@) =~= Seq::empty());
            lemma_pairs_view_push(pairs@, lhs, body);
            assert(Seq::<(ExprView, ExprView)>::empty().push((lhs@, body@)) =~= seq![
                (lhs@, body@),
            ]);
        }
        pairs.push((lhs, body));
        let other = Expr::Bool(span, false);
        assert(other@ == ExprView::Bool(span, false));
        Expr::If(span, pairs, Box::new(other))
    } else if eq_lit(word, "or") {
        let mut pairs: Vec<(Expr, Expr)> = Vec::new();
        let body = Expr::Bool(span, true);
        assert(body@ == ExprView::Bool(span, true));
        proof {
            assert(pairs_view(pairs@) =~= Seq::empty());
            lemma_pairs_view_push(pairs@, lhs, body);
            assert(Seq::<(ExprView, ExprView)>::empty().push((lhs@, body@)) =~= seq![
                (lhs@, body@),
            ]);
        }
        pairs.push((lhs, body));
        Expr::If(span, pairs, Box::new(rhs))
    } else {
        let op = if negated {
            Binop::IsNot
        } else {
            Binop::Is
        };
        Expr::Binop(span, op, Box::new(lhs), Box::new(rhs))
    }
}

/// Takes the right operand of `and`, `or` or `is`.
fn parse_logic(parser: &mut Parser, lhs: Expr, start: Span) -> (r: Result<Expr, ParseError>)
    requires
        old(parser).at_token(),
        old(parser).input().tok(old(parser).pos()) is Name,
        infix_prec(old(parser).input(), old(parser).pos()) is Some,
    ensures
        kept(*old(parser), *final(parser)),
        expr_parsed(
            r,
            p_logic(old(parser).input(), old(parser).pos(), lhs@, start),
            final(parser).pos(),
        ),
        r is Ok ==> final(parser).pos() > old(parser).pos(),
    decreases old(parser).input().toks.len() - old(parser).pos(), 0nat,
{
    let span = parser.span();
    let word = parser.text();
    let prec: u32 = match infix_precedence(parser) {
        Some(q) => q,
        None => unreached(),
    };
    parser.gettok();
    let negated: bool = eq_lit(word, "is") && parser.consume(Pattern::Word("not"));
    match parse_expr(parser, prec + 1) {
        Err(e) => Err(e),
        Ok(rhs) => {
            let span = span.join(&start).upto(&parser.span());
            Ok(build_logic(word, negated, span, lhs, rhs))
        },
    }
}

/// Takes the right operand of a binary operator.
fn parse_binop(parser: &mut Parser, lhs: Expr, start: Span) -> (r: Result<Expr, ParseError>)
    requires
        old(parser).at_token(),
        binop_of(old(parser).input().tok(old(parser).pos())) is Some,
    ensures
        kept(*old(parser), *final(parser)),
        expr_parsed(
            r,
            p_binop(old(parser).input(), old(parser).pos(), lhs@, start),
            final(parser).pos(),
        ),
        r is Ok ==> final(parser).pos() > old(parser).pos(),
    decreases old(parser).input().toks.len() - old(parser).pos(), 0nat,
{
    let span = parser.span();
    let op = match binop_from(parser.peek()) {
        Some(op) => op,
        None => unreached(),
    };
    parser.gettok();
    match parse_expr(parser, precedence(op) + 1) {
        Err(e) => Err(e),
        Ok(rhs) => {
            let span = span.join(&start).upto(&parser.span());
            Ok(Expr::Binop(span, op, Box::new(lhs), Box::new(rhs)))
        },
    }
}

/// Takes the operator at the current place with what belongs to it.
fn parse_infix_step(parser: &mut Parser, lhs: Expr, start: Span) -> (r: Result<Expr, ParseError>)
    requires
        old(parser).at_token(),
        infix_prec(old(parser).input(), old(parser).pos()) is Some,
    ensures
        kept(*old(parser), *final(parser)),
        expr_parsed(
            r,
            p_infix_step(old(parser).input(), old(parser).pos(), lhs@, start),
            final(parser).pos(),
        ),
        r is Ok ==> final(parser).pos() > old(parser).pos(),
    decreases old(parser).input().toks.len() - old(parser).pos(), 1nat,
{
    proof {
        reveal(infix_prec);
    }
    match parser.peek() {
        Token::LParen => parse_call(parser, lhs, start),
        Token::Dot => parse_ascribe(parser, lhs),
        Token::Eq => parse_assign(parser, lhs, start),
        Token::Name => parse_logic(parser, lhs, start),
        _ => parse_binop(parser, lhs, start),
    }
}

/// Takes every operator behind the operand `lhs` that binds at least as
/// tightly as `prec`, each with its right operand.
fn parse_infix(parser: &mut Parser, lhs: Expr, prec: u32, start: Span) -> (r: Result<
    Expr,
    ParseError,
>)
    requires
        old(parser).at_token(),
    ensures
        kept(*old(parser), *final(parser)),
        expr_parsed(
            r,
            p_infix(old(parser).input(), old(parser).pos(), lhs@, prec, start),
            final(parser).pos(),
        ),
        r is Ok ==> final(parser).pos() >= old(parser).pos(),
    decreases old(parser).input().toks.len() - old(parser).pos(), 2nat,
{
    let ghost total = p_infix(parser.input(), parser.pos(), lhs@, prec, start);
    let mut left = lhs;
    loop
        invariant
            kept(*old(parser), *parser),
            parser.pos() >= old(parser).pos(),
            total == p_infix(old(parser).input(), old(parser).pos(), lhs@, prec, start),
            total == p_infix(parser.input(), parser.pos(), left@, prec, start),
        decreases parser.input().toks.len() - parser.pos(),
    {
        match infix_precedence(parser) {
            None => {
                return Ok(left);
            },
            Some(q) => {
                if prec > q {
                    return Ok(left);
                }
            },
        }
        left = match parse_infix_step(parser, left, start) {
            Err(e) => {
                return Err(e);
            },
            Ok(e) => e,
        };
    }
}

/// Takes an import.
pub fn parse_import(parser: &mut Parser) -> (r: Result<Import, ParseError>)
    requires
        old(parser).at_token(),
        old(parser).input().at_word(old(parser).pos(), lit("import")),
    ensures
        kept(*old(parser), *final(parser)),
        match p_import(old(parser).input(), old(parser).pos()) {
            Ok((i, k)) => r matches Ok(x) && x@ == i && final(parser).pos() == k && k > old(
                parser,
            ).pos(),
            Err(e) => r matches Err(x) && x@ == e,
        },
{
    proof {
        reveal(p_import);
    }
    let span = parser.span();
    parser.gettok();
    match parser.expect(Pattern::Word("fn")) {
        Err(e) => {
            return Err(e);
        },
        Ok(_) => {},
    }
    let module_name = match parser.expect_string() {
        Err(e) => {
            return Err(e);
        },
        Ok(s) => s,
    };
    let function_name = match parser.expect_string() {
        Err(e) => {
            return Err(e);
        },
        Ok(s) => s,
    };
    let alias = match parser.expect_name() {
        Err(e) => {
            return Err(e);
        },
        Ok(s) => s,
    };
    match parse_function_type(parser) {
        Err(e) => Err(e),
        Ok(type_) => {
            let span = span.upto(&parser.span());
            Ok(Import::Function(FunctionImport { span, module_name, function_name, alias, type_ }))
        },
    }
}

/// Takes a function.
pub fn parse_func(parser: &mut Parser) -> (r: Result<Function, ParseError>)
    requires
        old(parser).at_token(),
        old(parser).input().at_word(old(parser).pos(), lit("fn")),
    ensures
        kept(*old(parser), *final(parser)),
        match p_func(old(parser).input(), old(parser).pos()) {
            Ok((f, k)) => r matches Ok(x) && x@ == f && final(parser).pos() == k && k > old(
                parser,
            ).pos(),
            Err(e) => r matches Err(x) && x@ == e,
        },
{
    proof {
        reveal(p_func);
    }
    let span = parser.span();
    parser.gettok();
    let visibility = match parse_attrs(parser, span, "Function attribute") {
        Err(e) => {
            return Err(e);
        },
        Ok(v) => v,
    };
    let name = match parser.expect_name() {
        Err(e) => {
            return Err(e);
        },
        Ok(s) => s,
    };
    match parser.expect(Pattern::Exact(Token::LParen)) {
        Err(e) => {
            return Err(e);
        },
        Ok(_) => {},
    }
    let parameters = match parse_params(parser) {
        Err(e) => {
            return Err(e);
        },
        Ok(p) => p,
    };
    let return_type = match parse_opt_return_type(parser) {
        Err(e) => {
            return Err(e);
        },
        Ok(t) => t,
    };
    match parse_block(parser) {
        Err(e) => Err(e),
        Ok(body) => {
            let span = span.upto(&parser.span());
            Ok(Function { span, visibility, name, parameters, return_type, body })
        },
    }
}

/// Takes a global variable.
pub fn parse_globalvar(parser: &mut Parser) -> (r: Result<GlobalVariable, ParseError>)
    requires
        old(parser).at_token(),
        old(parser).input().at_word(old(parser).pos(), lit("var")),
    ensures
        kept(*old(parser), *final(parser)),
        match p_globalvar(old(parser).input(), old(parser).pos()) {
            Ok((v, k)) => r matches Ok(x) && x@ == v && final(parser).pos() == k && k > old(
                parser,
            ).pos(),
            Err(e) => r matches Err(x) && x@ == e,
        },
{
    proof {
        reveal(p_globalvar);
    }
    let span = parser.span();
    parser.gettok();
    let visibility = match parse_attrs(parser, span, "Global variable attribute") {
        Err(e) => {
            return Err(e);
        },
        Ok(v) => v,
    };
    let name = match parser.expect_name() {
        Err(e) => {
            return Err(e);
        },
        Ok(s) => s,
    };
    let type_ = match parse_opt_type(parser) {
        Err(e) => {
            return Err(e);
        },
        Ok(t) => t,
    };
    match parser.expect(Pattern::Exact(Token::Eq)) {
        Err(e) => {
            return Err(e);
        },
        Ok(_) => {},
    }
    match parse_expr(parser, 0) {
        Err(e) => Err(e),
        Ok(init) => Ok(GlobalVariable { span, visibility, name, type_, init }),
    }
}

/// Takes a constant. The parser does not know it yet.
pub fn parse_constant(parser: &mut Parser) -> (r: Result<Constant, ParseError>)
    requires
        old(parser).at_token(),
        old(parser).input().at_word(old(parser).pos(), lit("const")),
    ensures
        kept(*old(parser), *final(parser)),
        match p_constant(old(parser).input(), old(parser).pos()) {
            Ok((c, k)) => r matches Ok(x) && x@ == c && final(parser).pos() == k && k > old(
                parser,
            ).pos(),
            Err(e) => r matches Err(x) && x@ == e,
        },
{
    proof {
        reveal(p_constant);
    }
    let span = parser.span();
    parser.gettok();
    let name = match parser.expect_name() {
        Err(e) => {
            return Err(e);
        },
        Ok(s) => s,
    };
    match parser.expect(Pattern::Exact(Token::Eq)) {
        Err(e) => {
            return Err(e);
        },
        Ok(_) => {},
    }
    let expr = match parse_expr(parser, 0) {
        Err(e) => {
            return Err(e);
        },
        Ok(e) => e,
    };
    match eval_constexpr(&expr, parser) {
        Err(e) => Err(e),
        Ok(value) => {
            let span = span.upto(&parser.span());
            Ok(Constant { span, name, value })
        },
    }
}

fn parse_imports(parser: &mut Parser) -> (r: Result<Vec<Import>, ParseError>)
    requires
        old(parser).at_token(),
    ensures
        kept(*old(parser), *final(parser)),
        match p_imports(old(parser).input(), old(parser).pos(), Seq::empty()) {
            Ok((v, k)) => r matches Ok(x) && imports_view(x@) == v && final(parser).pos() == k,
            Err(e) => r matches Err(x) && x@ == e,
        },
{
    let mut imports: Vec<Import> = Vec::new();
    let ghost total = p_imports(parser.input(), parser.pos(), Seq::empty());
    assert(imports_view(imports@) =~= Seq::empty());
    while parser.at_name("import")
        invariant
            kept(*old(parser), *parser),
            total == p_imports(old(parser).input(), old(parser).pos(), Seq::empty()),
            total == p_imports(parser.input(), parser.pos(), imports_view(imports@)),
        decreases parser.input().toks.len() - parser.pos(),
    {
        match parse_import(parser) {
            Err(e) => {
                return Err(e);
            },
            Ok(imp) => {
                let ghost before = imports_view(imports@);
                imports.push(imp);
                assert(imports_view(imports@) =~= before.push(imp@));
            },
        }
        consume_delim(parser);
    }
    Ok(imports)
}

/// Whether a parser of an item did what `spec` says, and left `file` and
/// stands at `pos`.
pub open spec fn item_parsed(
    r: Result<(), ParseError>,
    spec: PR<FileView>,
    file: FileView,
    pos: int,
) -> bool {
    match spec {
        Ok((f, k)) => r is Ok && file == f && pos == k,
        Err(e) => r matches Err(x) && x@ == e,
    }
}

fn parse_item_func(parser: &mut Parser, file: &mut File) -> (r: Result<(), ParseError>)
    requires
        old(parser).at_token(),
        old(parser).input().at_word(old(parser).pos(), lit("fn")),
    ensures
        kept(*old(parser), *final(parser)),
        item_parsed(
            r,
            p_item_func(old(parser).input(), old(parser).pos(), old(file)@),
            final(file)@,
            final(parser).pos(),
        ),
        r is Ok ==> final(parser).pos() > old(parser).pos(),
{
    proof {
        reveal(p_item_func);
    }
    match parse_func(parser) {
        Err(e) => Err(e),
        Ok(f) => {
            let ghost before = functions_view(file.functions@);
            file.functions.push(f);
            assert(functions_view(file.functions@) =~= before.push(f@));
            consume_delim(parser);
            Ok(())
        },
    }
}

fn parse_item_var(parser: &mut Parser, file: &mut File) -> (r: Result<(), ParseError>)
    requires
        old(parser).at_token(),
        old(parser).input().at_word(old(parser).pos(), lit("var")),
    ensures
        kept(*old(parser), *final(parser)),
        item_parsed(
            r,
            p_item_var(old(parser).input(), old(parser).pos(), old(file)@),
            final(file)@,
            final(parser).pos(),
        ),
        r is Ok ==> final(parser).pos() > old(parser).pos(),
{
    proof {
        reveal(p_item_var);
    }
    match parse_globalvar(parser) {
        Err(e) => Err(e),
        Ok(v) => {
            let ghost before = globalvars_view(file.globalvars@);
            file.globalvars.push(v);
            assert(globalvars_view(file.globalvars@) =~= before.push(v@));
            consume_delim(parser);
            Ok(())
        },
    }
}

fn parse_item_const(parser: &mut Parser, file: &mut File) -> (r: Result<(), ParseError>)
    requires
        old(parser).at_token(),
        old(parser).input().at_word(old(parser).pos(), lit("const")),
    ensures
        final(parser).at_token(),
        item_parsed(
            r,
            p_item_const(old(parser).input(), old(parser).pos(), old(file)@),
            final(file)@,
            final(parser).pos(),
        ),
        r is Ok ==> final(parser).pos() > old(parser).pos() && final(parser).input()
            == with_last_const(old(parser).input(), final(file)@),
        r is Err ==> final(parser).input() == old(parser).input(),
{
    proof {
        reveal(p_item_const);
    }
    match parse_constant(parser) {
        Err(e) => Err(e),
        Ok(c) => {
            consume_delim(parser);
            parser.add_constant(c.name.as_slice(), c.value);
            let ghost before = constants_view(file.constants@);
            file.constants.push(c);
            assert(constants_view(file.constants@) =~= before.push(c@));
            Ok(())
        },
    }
}

fn parse_items(parser: &mut Parser, imports: Vec<Import>) -> (r: Result<File, ParseError>)
    requires
        old(parser).at_token(),
    ensures
        final(parser).at_token(),
        match p_items(
            old(parser).input(),
            old(parser).pos(),
            FileView { imports: imports_view(imports@), ..empty_file() },
        ) {
            Ok(f) => r matches Ok(x) && x@ == f,
            Err(e) => r matches Err(x) && x@ == e,
        },
{
    let ghost total = p_items(
        parser.input(),
        parser.pos(),
        FileView { imports: imports_view(imports@), ..empty_file() },
    );
    let mut file = File {
        imports,
        constants: Vec::new(),
        functions: Vec::new(),
        globalvars: Vec::new(),
    };
    proof {
        assert(constants_view(file.constants@) =~= Seq::empty());
        assert(functions_view(file.functions@) =~= Seq::empty());
        assert(globalvars_view(file.globalvars@) =~= Seq::empty());
    }
    loop
        invariant
            parser.at_token(),
            parser.input().toks == old(parser).input().toks,
            total == p_items(
                old(parser).input(),
                old(parser).pos(),
                FileView { imports: imports_view(imports@), ..empty_file() },
            ),
            total == p_items(parser.input(), parser.pos(), file@),
        decreases parser.input().toks.len() - parser.pos(),
    {
        match parser.peek() {
            Token::EOF => {
                return Ok(file);
            },
            _ => {},
        }
        let step = if parser.at_name("fn") {
            parse_item_func(parser, &mut file)
        } else if parser.at_name("var") {
            parse_item_var(parser, &mut file)
        } else if parser.at_name("const") {
            parse_item_const(parser, &mut file)
        } else {
            Err(parser.invalid("Function"))
        };
        match step {
            Err(e) => {
                return Err(e);
            },
            Ok(()) => {},
        }
    }
}

/// Takes a file from where the parser stands to the end: the imports, then
/// functions, global variables and constants.
pub fn parse_file(parser: &mut Parser) -> (r: Result<File, ParseError>)
    requires
        old(parser).at_token(),
    ensures
        final(parser).at_token(),
        match p_file(old(parser).input(), old(parser).pos()) {
            Ok(f) => r matches Ok(x) && x@ == f,
            Err(e) => r matches Err(x) && x@ == e,
        },
        r matches Ok(x) ==> x@.well_spanned(
            old(parser).input().source,
            old(parser).input().src.len() as int,
        ),
{
    proof {
        lemma_file_spans(parser.input(), parser.pos());
    }
    consume_delim(parser);
    match parse_imports(parser) {
        Err(e) => Err(e),
        Ok(imports) => {
            consume_delim(parser);
            parse_items(parser, imports)
        },
    }
}

/// The syntax tree of the source file `src`, which has the handle `source`;
/// or the first error of the lexer or of the parser.
pub open spec fn spec_parse(source: usize, src: Seq<u8>) -> Result<FileView, ErrorView> {
    match spec_lex(src, source) {
        Err(e) => Err(ErrorView::Lex(e)),
        Ok(toks) => match p_file(Input { source, src, toks, consts: Seq::empty() }, 0) {
            Err(e) => Err(ErrorView::Parse(e)),
            Ok(f) => Ok(f),
        },
    }
}

/// Lexes and parses a source file.
pub fn parse_source(source: usize, data: &[u8]) -> (r: Result<File, Error>)
    ensures
        match spec_parse(source, data@) {
            Ok(f) => r matches Ok(x) && x@ == f,
            Err(e) => r matches Err(x) && x@ == e,
        },
        r matches Ok(x) ==> x@.well_spanned(source, data.len() as int),
{
    match Parser::new(source, data) {
        Err(e) => Err(Error::Lex(e)),
        Ok(mut parser) => match parse_file(&mut parser) {
            Err(e) => Err(Error::Parse(e)),
            Ok(file) => Ok(file),
        },
    }
}

} // verus!
