//! The grammar of the language, as functions from the tokens at a place to
//! the syntax tree that stands there and the place behind it.
//!
//! Expressions are parsed by precedence: an atom, then every operator that
//! binds at least as tightly as the caller asks. All binary operators
//! associate to the left.
use crate::error::ParseErrorView;
use crate::ir::{
    span_in, Binop, ConstantView, ConstValue, ExprView, FileView, FunctionImportView,
    FunctionTypeView, FunctionView, GlobalVariableView, ImportView, ReturnType, Type, Unop,
    Visibility, Width,
};
use crate::parser::{
    find_const, lemma_expect, lemma_expect_name, lemma_expect_string, lemma_input_wf, lemma_next,
    lemma_token_span, Consts, Input, Pattern,
};
use crate::span::Span;
use crate::text::{dec_int, lit};
use crate::token::Token;
use vstd::prelude::*;

verus! {

pub const PREC_POSTFIX: u32 = 1000;

pub const PREC_UNARY: u32 = 900;

pub const PREC_PRODUCT: u32 = 600;

pub const PREC_SUM: u32 = 500;

pub const PREC_SHIFT: u32 = 400;

pub const PREC_BITWISE_AND: u32 = 300;

pub const PREC_BITWISE_XOR: u32 = 275;

pub const PREC_BITWISE_OR: u32 = 250;

pub const PREC_CMP: u32 = 200;

pub const PREC_LOGICAL_AND: u32 = 150;

pub const PREC_LOGICAL_OR: u32 = 140;

pub const PREC_ASSIGN: u32 = 100;

/// What a parser gives: a value and the place behind it, or an error.
pub type PR<T> = Result<(T, int), ParseErrorView>;

/// The error of a parser that did not move on. No parser of this grammar
/// gives it: each takes at least one token where it succeeds.
pub open spec fn stuck(inp: Input, k: int) -> ParseErrorView {
    inp.invalid(k, lit("progress"))
}

/// The type that a name stands for.
#[verifier::opaque]
pub open spec fn type_of_name(name: Seq<u8>) -> Option<Type> {
    if name == lit("i32") {
        Some(Type::I32)
    } else if name == lit("i64") {
        Some(Type::I64)
    } else if name == lit("f32") {
        Some(Type::F32)
    } else if name == lit("f64") {
        Some(Type::F64)
    } else if name == lit("bool") {
        Some(Type::Bool)
    } else if name == lit("type") {
        Some(Type::Type)
    } else if name == lit("str") {
        Some(Type::String)
    } else if name == lit("list") {
        Some(Type::List)
    } else if name == lit("id") {
        Some(Type::Id)
    } else {
        None
    }
}

/// A type: the name of one.
#[verifier::opaque]
pub open spec fn p_type(inp: Input, k: int) -> PR<Type> {
    if inp.tok(k) is Name && type_of_name(inp.text(k)) is Some {
        Ok((type_of_name(inp.text(k))->0, inp.next(k)))
    } else {
        Err(inp.invalid(k, lit("Type")))
    }
}

/// What a function returns: `void`, `noreturn`, or a type.
#[verifier::opaque]
pub open spec fn p_return_type(inp: Input, k: int) -> PR<ReturnType> {
    if inp.at_word(k, lit("void")) {
        Ok((ReturnType::Void, inp.next(k)))
    } else if inp.at_word(k, lit("noreturn")) {
        Ok((ReturnType::NoReturn, inp.next(k)))
    } else {
        match p_type(inp, k) {
            Ok((t, k1)) => Ok((ReturnType::Value(t), k1)),
            Err(e) => Err(e),
        }
    }
}

/// A type where a name stands, and none where none does.
#[verifier::opaque]
pub open spec fn p_opt_type(inp: Input, k: int) -> PR<Option<Type>> {
    if inp.tok(k) is Name {
        match p_type(inp, k) {
            Ok((t, k1)) => Ok((Some(t), k1)),
            Err(e) => Err(e),
        }
    } else {
        Ok((None, k))
    }
}

/// What a function returns where a name stands, and `void` where none does.
#[verifier::opaque]
pub open spec fn p_opt_return_type(inp: Input, k: int) -> PR<ReturnType> {
    if inp.tok(k) is Name {
        p_return_type(inp, k)
    } else {
        Ok((ReturnType::Void, k))
    }
}

/// The place behind the line feeds and semicolons at `k`.
pub open spec fn p_delims(inp: Input, k: int) -> int
    decreases inp.toks.len() - k,
{
    if 0 <= k && k + 1 < inp.toks.len() && (inp.tok(k) is Newline || inp.tok(k) is Semicolon) {
        p_delims(inp, k + 1)
    } else {
        k
    }
}

/// The end of a statement: a semicolon or a line feed, which may be left
/// out before a closing brace and at the end of the file; and every line
/// feed and semicolon that follows.
#[verifier::opaque]
pub open spec fn p_expect_delim(inp: Input, k: int) -> PR<()> {
    if inp.tok(k) is RBrace || inp.tok(k) is EOF {
        Ok(((), p_delims(inp, k)))
    } else if inp.tok(k) is Semicolon || inp.tok(k) is Newline {
        Ok(((), p_delims(inp, inp.next(k))))
    } else {
        Err(inp.invalid(k, Pattern::Exact(Token::Newline).describe()))
    }
}

/// The attributes in square brackets from `k` on, up to the closing
/// bracket: `pub` makes public what is declared.
pub open spec fn p_attr_items(inp: Input, k: int, span: Span, what: Seq<u8>, vis: Visibility) -> PR<
    Visibility,
>
    decreases inp.toks.len() - k,
{
    if inp.at_word(k, lit("pub")) {
        if 0 <= k && k + 1 < inp.toks.len() {
            p_attr_items(inp, k + 1, span, what, Visibility::Public)
        } else {
            Err(stuck(inp, k))
        }
    } else if inp.tok(k) is RBracket {
        Ok((vis, inp.next(k)))
    } else {
        Err(ParseErrorView::InvalidToken { span, expected: what, got: inp.describe(k) })
    }
}

/// The attributes of a declaration, where they stand.
#[verifier::opaque]
pub open spec fn p_attrs(inp: Input, k: int, span: Span, what: Seq<u8>) -> PR<Visibility> {
    if inp.tok(k) is LBracket {
        p_attr_items(inp, inp.next(k), span, what, Visibility::Private)
    } else {
        Ok((Visibility::Private, k))
    }
}

/// The types of the parameters of an import from `k` on, up to the closing
/// bracket, behind those of `acc`.
pub open spec fn p_type_list(inp: Input, k: int, acc: Seq<Type>) -> PR<Seq<Type>>
    decreases inp.toks.len() - k,
{
    if inp.tok(k) is RParen {
        Ok((acc, inp.next(k)))
    } else {
        match p_type(inp, k) {
            Err(e) => Err(e),
            Ok((t, k1)) => if inp.tok(k1) is Comma {
                if k < k1 && k1 + 1 < inp.toks.len() {
                    p_type_list(inp, k1 + 1, acc.push(t))
                } else {
                    Err(stuck(inp, k))
                }
            } else {
                match inp.expect(k1, Pattern::Exact(Token::RParen)) {
                    Err(e) => Err(e),
                    Ok((_, k2)) => Ok((acc.push(t), k2)),
                }
            },
        }
    }
}

/// The type of an imported function: the types of the parameters in round
/// brackets, and what it returns.
#[verifier::opaque]
pub open spec fn p_function_type(inp: Input, k: int) -> PR<FunctionTypeView> {
    match inp.expect(k, Pattern::Exact(Token::LParen)) {
        Err(e) => Err(e),
        Ok((_, k1)) => match p_type_list(inp, k1, Seq::empty()) {
            Err(e) => Err(e),
            Ok((parameter_types, k2)) => match p_opt_return_type(inp, k2) {
                Err(e) => Err(e),
                Ok((return_type, k3)) => Ok(
                    (FunctionTypeView { parameter_types, return_type }, k3),
                ),
            },
        },
    }
}

/// The parameters of a function from `k` on, each a name and a type, up to
/// the closing bracket, behind those of `acc`.
pub open spec fn p_params(inp: Input, k: int, acc: Seq<(Seq<u8>, Type)>) -> PR<
    Seq<(Seq<u8>, Type)>,
>
    decreases inp.toks.len() - k,
{
    if inp.tok(k) is RParen {
        Ok((acc, inp.next(k)))
    } else {
        match inp.expect_name(k) {
            Err(e) => Err(e),
            Ok((name, k1)) => match p_type(inp, k1) {
                Err(e) => Err(e),
                Ok((t, k2)) => if inp.tok(k2) is Comma {
                    if k < k2 && k2 + 1 < inp.toks.len() {
                        p_params(inp, k2 + 1, acc.push((name, t)))
                    } else {
                        Err(stuck(inp, k))
                    }
                } else {
                    match inp.expect(k2, Pattern::Exact(Token::RParen)) {
                        Err(e) => Err(e),
                        Ok((_, k3)) => Ok((acc.push((name, t)), k3)),
                    }
                },
            },
        }
    }
}

/// The error for an expression that is no constant.
pub open spec fn not_const(span: Span) -> ParseErrorView {
    ParseErrorView::InvalidToken {
        span,
        expected: lit("constexpr"),
        got: lit("non-const expression"),
    }
}

/// The error for a constant whose value does not fit 32 bits, or that is
/// divided by zero.
pub open spec fn const_overflow(span: Span) -> ParseErrorView {
    ParseErrorView::InvalidToken { span, expected: lit("i32"), got: lit("overflow") }
}

/// A constant as it is named in a diagnostic.
pub open spec fn const_describe(value: ConstValue) -> Seq<u8> {
    match value {
        ConstValue::I32(x) => lit("I32(") + dec_int(x as int) + lit(")"),
        ConstValue::Type(t) => lit("Type(") + t.name() + lit(")"),
    }
}

/// The number of 32 bits with sign that has the last 32 bits of `x`.
pub open spec fn wrap_i32(x: int) -> int {
    if x % 0x1_0000_0000 >= 0x8000_0000 {
        x % 0x1_0000_0000 - 0x1_0000_0000
    } else {
        x % 0x1_0000_0000
    }
}

/// What the operands of a binary operator on constants are expected to be.
pub open spec fn const_operands(op: Binop) -> Seq<u8> {
    match op {
        Binop::Add => lit("addable values"),
        Binop::Subtract => lit("subtractable values"),
        Binop::Multiply => lit("multiplicable values"),
        Binop::TruncDivide => lit("trunc-dividable values"),
        _ => lit("rem-able values"),
    }
}

/// Whether a number fits 32 bits with sign.
pub open spec fn fits_i32(x: int) -> bool {
    -0x8000_0000 <= x <= 0x7fff_ffff
}

/// The quotient of `a` by `b`, rounded towards zero; `b` is not zero.
pub open spec fn trunc_div(a: int, b: int) -> int {
    if (a >= 0) == (b > 0) {
        (if a >= 0 {
            a
        } else {
            -a
        }) / (if b > 0 {
            b
        } else {
            -b
        })
    } else {
        -((if a >= 0 {
            a
        } else {
            -a
        }) / (if b > 0 {
            b
        } else {
            -b
        }))
    }
}

/// The remainder of `a` by `b` that goes with `trunc_div`: it has the sign
/// of `a`; `b` is not zero.
pub open spec fn trunc_rem(a: int, b: int) -> int {
    if a >= 0 {
        a % (if b > 0 {
            b
        } else {
            -b
        })
    } else {
        -((-a) % (if b > 0 {
            b
        } else {
            -b
        }))
    }
}

/// The number that a binary operator gives for two constants.
pub open spec fn const_binop(op: Binop, a: int, b: int) -> Option<int> {
    match op {
        Binop::Add => Some(a + b),
        Binop::Subtract => Some(a - b),
        Binop::Multiply => Some(a * b),
        Binop::TruncDivide => if b != 0 {
            Some(trunc_div(a, b))
        } else {
            None
        },
        Binop::Remainder => if b != 0 {
            Some(trunc_rem(a, b))
        } else {
            None
        },
        _ => None,
    }
}

/// Whether constants are computed with a binary operator.
pub open spec fn is_const_binop(op: Binop) -> bool {
    op is Add || op is Subtract || op is Multiply || op is TruncDivide || op is Remainder
}

/// The error for an operand that is no number.
pub open spec fn const_operand(span: Span, expected: Seq<u8>, got: Seq<u8>) -> ParseErrorView {
    ParseErrorView::InvalidToken { span, expected, got }
}

/// The value of a constant expression: an integer, a known constant, the
/// name of a type, or a sum, difference, product, quotient or remainder of
/// numbers, with or without sign. Of an integer that is written the last
/// 32 bits count; a number that is computed has to fit 32 bits.
#[verifier::opaque]
pub open spec fn eval_const(consts: Consts, e: ExprView) -> Result<
    ConstValue,
    ParseErrorView,
>
    decreases e,
{
    match e {
        ExprView::Int(span, x) => Ok(ConstValue::I32(wrap_i32(x as int) as i32)),
        ExprView::GetVar(span, name) => match find_const(consts, name, consts.len() as int) {
            Some(v) => Ok(v),
            None => match type_of_name(name) {
                Some(t) => Ok(ConstValue::Type(t)),
                None => Err(
                    ParseErrorView::InvalidToken {
                        span,
                        expected: lit("named constant"),
                        got: lit("NotFound"),
                    },
                ),
            },
        },
        ExprView::Unop(span, op, x) => if op is Not {
            Err(not_const(span))
        } else {
            match eval_const(consts, *x) {
                Err(e) => Err(e),
                Ok(ConstValue::I32(i)) => if op is Plus {
                    Ok(ConstValue::I32(i))
                } else if fits_i32(-(i as int)) {
                    Ok(ConstValue::I32((-(i as int)) as i32))
                } else {
                    Err(const_overflow(span))
                },
                Ok(v) => Err(const_operand(span, lit("i32"), const_describe(v))),
            }
        },
        ExprView::Binop(span, op, left, right) => if !is_const_binop(op) {
            Err(not_const(span))
        } else {
            match eval_const(consts, *left) {
                Err(e) => Err(e),
                Ok(a) => match eval_const(consts, *right) {
                    Err(e) => Err(e),
                    Ok(b) => match (a, b) {
                        (ConstValue::I32(x), ConstValue::I32(y)) => match const_binop(
                            op,
                            x as int,
                            y as int,
                        ) {
                            Some(v) => if fits_i32(v) {
                                Ok(ConstValue::I32(v as i32))
                            } else {
                                Err(const_overflow(span))
                            },
                            None => Err(const_overflow(span)),
                        },
                        _ => Err(
                            const_operand(
                                span,
                                const_operands(op),
                                const_describe(a) + lit(", ") + const_describe(b),
                            ),
                        ),
                    },
                },
            }
        },
        _ => Err(not_const(e.span())),
    }
}

/// The width of the load that an intrinsic names.
#[verifier::opaque]
pub open spec fn read_width(name: Seq<u8>) -> Option<Width> {
    if name == lit("read1") {
        Some(Width::One)
    } else if name == lit("read2") {
        Some(Width::Two)
    } else if name == lit("read4") {
        Some(Width::Four)
    } else if name == lit("read8") {
        Some(Width::Eight)
    } else {
        None
    }
}

/// The width of the store that an intrinsic names.
#[verifier::opaque]
pub open spec fn write_width(name: Seq<u8>) -> Option<Width> {
    if name == lit("write1") {
        Some(Width::One)
    } else if name == lit("write2") {
        Some(Width::Two)
    } else if name == lit("write4") {
        Some(Width::Four)
    } else if name == lit("write8") {
        Some(Width::Eight)
    } else {
        None
    }
}

/// The binary operator of a token that stands between two operands.
pub open spec fn binop_of(t: Token) -> Option<Binop> {
    match t {
        Token::Plus => Some(Binop::Add),
        Token::Minus => Some(Binop::Subtract),
        Token::Star => Some(Binop::Multiply),
        Token::Slash => Some(Binop::Divide),
        Token::Slash2 => Some(Binop::TruncDivide),
        Token::Percent => Some(Binop::Remainder),
        Token::Caret => Some(Binop::BitwiseXor),
        Token::Ampersand => Some(Binop::BitwiseAnd),
        Token::VerticalBar => Some(Binop::BitwiseOr),
        Token::Lt2 => Some(Binop::ShiftLeft),
        Token::Gt2 => Some(Binop::ShiftRight),
        Token::Eq2 => Some(Binop::Equal),
        Token::Ne => Some(Binop::NotEqual),
        Token::Lt => Some(Binop::Less),
        Token::Gt => Some(Binop::Greater),
        Token::Le => Some(Binop::LessOrEqual),
        Token::Ge => Some(Binop::GreaterOrEqual),
        _ => None,
    }
}

/// How tightly a binary operator binds.
pub open spec fn binop_prec(op: Binop) -> u32 {
    match op {
        Binop::Add | Binop::Subtract => PREC_SUM,
        Binop::Multiply | Binop::Divide | Binop::TruncDivide | Binop::Remainder => PREC_PRODUCT,
        Binop::BitwiseXor => PREC_BITWISE_XOR,
        Binop::BitwiseAnd => PREC_BITWISE_AND,
        Binop::BitwiseOr => PREC_BITWISE_OR,
        Binop::ShiftLeft | Binop::ShiftRight => PREC_SHIFT,
        _ => PREC_CMP,
    }
}

/// The precedence with which the token at `k` continues an expression, if
/// it does: a bracket of a call, the dot before a type, a binary operator,
/// `and`, `or`, `is`, or the sign of an assignment.
#[verifier::opaque]
pub open spec fn infix_prec(inp: Input, k: int) -> Option<u32> {
    match inp.tok(k) {
        Token::LParen => Some(PREC_POSTFIX),
        Token::Dot => Some(PREC_POSTFIX),
        Token::Eq => Some(PREC_ASSIGN),
        Token::Name => if inp.text(k) == lit("and") {
            Some(PREC_LOGICAL_AND)
        } else if inp.text(k) == lit("or") {
            Some(PREC_LOGICAL_OR)
        } else if inp.text(k) == lit("is") {
            Some(PREC_CMP)
        } else {
            None
        },
        t => match binop_of(t) {
            Some(op) => Some(binop_prec(op)),
            None => None,
        },
    }
}

/// The condition under which the parsers of expressions are defined: the
/// input is well formed, and `k` is a place in it.
pub open spec fn at_place(inp: Input, k: int) -> bool {
    inp.wf() && 0 <= k < inp.toks.len()
}

/// A statement: an expression and its end.
pub open spec fn p_stmt(inp: Input, k: int) -> PR<ExprView>
    decreases inp.toks.len() - k, 5nat,
    when at_place(inp, k)
{
    match p_expr(inp, k, 0) {
        Err(e) => Err(e),
        Ok((e, k1)) => match p_expect_delim(inp, k1) {
            Err(e) => Err(e),
            Ok((_, k2)) => Ok((e, k2)),
        },
    }
}

/// The statements of a block from `k` on, up to the closing brace, behind
/// those of `acc`. The span of the block reaches to the end of the token
/// behind the brace.
pub open spec fn p_stmts(inp: Input, k: int, span: Span, acc: Seq<ExprView>) -> PR<ExprView>
    decreases inp.toks.len() - k, 6nat,
    when at_place(inp, k)
{
    if inp.tok(k) is RBrace {
        Ok((ExprView::Block(span.spec_upto(inp.span(inp.next(k))), acc), inp.next(k)))
    } else {
        match p_stmt(inp, k) {
            Err(e) => Err(e),
            Ok((e, k1)) => if k < k1 < inp.toks.len() {
                p_stmts(inp, k1, span, acc.push(e))
            } else {
                Err(stuck(inp, k))
            },
        }
    }
}

/// A block: statements in braces.
pub open spec fn p_block(inp: Input, k: int) -> PR<ExprView>
    decreases inp.toks.len() - k, 1nat,
    when at_place(inp, k)
{
    match inp.expect(k, Pattern::Exact(Token::LBrace)) {
        Err(e) => Err(e),
        Ok((_, k1)) => if k < p_delims(inp, k1) < inp.toks.len() {
            p_stmts(inp, p_delims(inp, k1), inp.span(k), Seq::empty())
        } else {
            Err(stuck(inp, k))
        },
    }
}

/// The last branch of a conditional with the span `span`: the block of its
/// `else`, or, where there is none, an empty block with the same span.
pub open spec fn last_branch(span: Span, other: Option<ExprView>) -> ExprView {
    match other {
        Some(block) => block,
        None => ExprView::Block(span, Seq::empty()),
    }
}

/// The rest of a conditional from `k` on: each `else if` adds a branch, and
/// an `else` with a block sets the last branch.
pub open spec fn p_else(
    inp: Input,
    k: int,
    span: Span,
    pairs: Seq<(ExprView, ExprView)>,
    other: Option<ExprView>,
) -> PR<ExprView>
    decreases inp.toks.len() - k, 5nat,
    when at_place(inp, k)
{
    if inp.at_word(k, lit("else")) {
        if k + 1 < inp.toks.len() {
            if inp.at_word(k + 1, lit("if")) {
                if k + 2 < inp.toks.len() {
                    match p_expr(inp, k + 2, 0) {
                        Err(e) => Err(e),
                        Ok((cond, k1)) => if k < k1 < inp.toks.len() {
                            match p_block(inp, k1) {
                                Err(e) => Err(e),
                                Ok((body, k2)) => if k < k2 < inp.toks.len() {
                                    p_else(inp, k2, span, pairs.push((cond, body)), other)
                                } else {
                                    Err(stuck(inp, k))
                                },
                            }
                        } else {
                            Err(stuck(inp, k))
                        },
                    }
                } else {
                    Err(stuck(inp, k))
                }
            } else if inp.tok(k + 1) is LBrace {
                match p_block(inp, k + 1) {
                    Err(e) => Err(e),
                    Ok((block, k2)) => if k < k2 < inp.toks.len() {
                        p_else(inp, k2, span, pairs, Some(block))
                    } else {
                        Err(stuck(inp, k))
                    },
                }
            } else {
                Err(
                    ParseErrorView::InvalidToken {
                        span,
                        expected: lit("if or block (in else-branch)"),
                        got: inp.describe(k + 1),
                    },
                )
            }
        } else {
            Err(stuck(inp, k))
        }
    } else {
        Ok(
            (
                ExprView::If(
                    span.spec_upto(inp.span(k)),
                    pairs,
                    Box::new(last_branch(span.spec_upto(inp.span(k)), other)),
                ),
                k,
            ),
        )
    }
}

/// A conditional: `if`, a condition, a block, and the rest. Where no
/// `else` with a block stands, the last branch is an empty block with the
/// span of the conditional.
pub open spec fn p_if(inp: Input, k: int) -> PR<ExprView>
    decreases inp.toks.len() - k, 1nat,
    when at_place(inp, k)
{
    if k + 1 < inp.toks.len() {
        match p_expr(inp, k + 1, 0) {
            Err(e) => Err(e),
            Ok((cond, k1)) => if k < k1 < inp.toks.len() {
                match p_block(inp, k1) {
                    Err(e) => Err(e),
                    Ok((body, k2)) => if k < k2 < inp.toks.len() {
                        p_else(inp, k2, inp.span(k), seq![(cond, body)], None)
                    } else {
                        Err(stuck(inp, k))
                    },
                }
            } else {
                Err(stuck(inp, k))
            },
        }
    } else {
        Err(stuck(inp, k))
    }
}

/// A loop: `while`, a condition, a block.
pub open spec fn p_while(inp: Input, k: int) -> PR<ExprView>
    decreases inp.toks.len() - k, 1nat,
    when at_place(inp, k)
{
    if k + 1 < inp.toks.len() {
        match p_expr(inp, k + 1, 0) {
            Err(e) => Err(e),
            Ok((cond, k1)) => if k < k1 < inp.toks.len() {
                match p_block(inp, k1) {
                    Err(e) => Err(e),
                    Ok((body, k2)) => Ok(
                        (
                            ExprView::While(
                                inp.span(k).spec_upto(inp.span(k2)),
                                Box::new(cond),
                                Box::new(body),
                            ),
                            k2,
                        ),
                    ),
                }
            } else {
                Err(stuck(inp, k))
            },
        }
    } else {
        Err(stuck(inp, k))
    }
}

/// The declaration of a local: `var`, a name, a type or none, `=`, and the
/// first value.
pub open spec fn p_var(inp: Input, k: int) -> PR<ExprView>
    decreases inp.toks.len() - k, 1nat,
    when at_place(inp, k)
{
    match inp.expect_name(inp.next(k)) {
        Err(e) => Err(e),
        Ok((name, k1)) => match p_opt_type(inp, k1) {
            Err(e) => Err(e),
            Ok((type_, k2)) => match inp.expect(k2, Pattern::Exact(Token::Eq)) {
                Err(e) => Err(e),
                Ok((_, k3)) => if k < k3 < inp.toks.len() {
                    match p_expr(inp, k3, 0) {
                        Err(e) => Err(e),
                        Ok((init, k4)) => Ok(
                            (
                                ExprView::DeclVar(
                                    inp.span(k).spec_upto(inp.span(k4)),
                                    name,
                                    type_,
                                    Box::new(init),
                                ),
                                k4,
                            ),
                        ),
                    }
                } else {
                    Err(stuck(inp, k))
                },
            },
        },
    }
}

/// Expressions from `k` on, with commas between them, up to the token
/// `close`, behind those of `acc`. A comma may stand behind the last one.
pub open spec fn p_exprs(inp: Input, k: int, close: Token, acc: Seq<ExprView>) -> PR<Seq<ExprView>>
    decreases inp.toks.len() - k, 5nat,
    when at_place(inp, k)
{
    if inp.tok(k) == close {
        Ok((acc, inp.next(k)))
    } else {
        match p_expr(inp, k, 0) {
            Err(e) => Err(e),
            Ok((e, k1)) => if k < k1 < inp.toks.len() {
                if inp.tok(k1) is Comma {
                    if k1 + 1 < inp.toks.len() {
                        p_exprs(inp, k1 + 1, close, acc.push(e))
                    } else {
                        Err(stuck(inp, k))
                    }
                } else {
                    match inp.expect(k1, Pattern::Exact(close)) {
                        Err(e) => Err(e),
                        Ok((_, k2)) => Ok((acc.push(e), k2)),
                    }
                }
            } else {
                Err(stuck(inp, k))
            },
        }
    }
}

/// A number that is known while the file is parsed and is not negative:
/// a constant expression of operands without binary operators.
pub open spec fn p_const_uint(inp: Input, k: int) -> PR<u32>
    decreases inp.toks.len() - k, 5nat,
    when at_place(inp, k)
{
    match p_expr(inp, k, (PREC_UNARY - 1) as u32) {
        Err(e) => Err(e),
        Ok((e, k1)) => match eval_const(inp.consts, e) {
            Err(e) => Err(e),
            Ok(ConstValue::I32(i)) => if i >= 0 {
                Ok((i as u32, k1))
            } else {
                Err(
                    const_operand(
                        inp.span(k),
                        lit("const uint"),
                        const_describe(ConstValue::I32(i)),
                    ),
                )
            },
            Ok(v) => Err(const_operand(inp.span(k), lit("const uint"), const_describe(v))),
        },
    }
}

/// The offset of a load or store from `k` on, and the closing bracket:
/// behind a comma, `offset`, a colon and a number; 0 where that is left
/// out. A comma may stand before the bracket.
pub open spec fn p_offset(inp: Input, k: int) -> PR<u32>
    decreases inp.toks.len() - k, 5nat,
    when at_place(inp, k)
{
    let k1 = inp.consume(k, Pattern::Exact(Token::Comma));
    if inp.tok(k) is Comma && inp.at_word(k1, lit("offset")) {
        match inp.expect(inp.next(k1), Pattern::Exact(Token::Colon)) {
            Err(e) => Err(e),
            Ok((_, k2)) => if k < k2 < inp.toks.len() {
                match p_const_uint(inp, k2) {
                    Err(e) => Err(e),
                    Ok((offset, k3)) => match inp.expect(
                        inp.consume(k3, Pattern::Exact(Token::Comma)),
                        Pattern::Exact(Token::RParen),
                    ) {
                        Err(e) => Err(e),
                        Ok((_, k4)) => Ok((offset, k4)),
                    },
                }
            } else {
                Err(stuck(inp, k))
            },
        }
    } else {
        match inp.expect(
            inp.consume(k1, Pattern::Exact(Token::Comma)),
            Pattern::Exact(Token::RParen),
        ) {
            Err(e) => Err(e),
            Ok((_, k4)) => Ok((0u32, k4)),
        }
    }
}

/// The intrinsic `$cstr`: a string in round brackets.
#[verifier::opaque]
pub open spec fn p_cstr(inp: Input, k: int, span: Span) -> PR<ExprView> {
    match inp.expect(inp.next(k), Pattern::Exact(Token::LParen)) {
        Err(e) => Err(e),
        Ok((_, k1)) => match inp.expect_string(k1) {
            Err(e) => Err(e),
            Ok((s, k2)) => match inp.expect(k2, Pattern::Exact(Token::RParen)) {
                Err(e) => Err(e),
                Ok((_, k3)) => Ok((ExprView::CString(span.spec_upto(inp.span(k3)), s), k3)),
            },
        },
    }
}

/// The intrinsic `$asm`: in round brackets the arguments in square
/// brackets, what the code gives, and the code as a string.
pub open spec fn p_asm(inp: Input, k: int, span: Span) -> PR<ExprView>
    decreases inp.toks.len() - k, 0nat,
    when at_place(inp, k)
{
    match inp.expect(inp.next(k), Pattern::Exact(Token::LParen)) {
        Err(e) => Err(e),
        Ok((_, k1)) => match inp.expect(k1, Pattern::Exact(Token::LBracket)) {
            Err(e) => Err(e),
            Ok((_, k2)) => if k < k2 < inp.toks.len() {
                match p_exprs(inp, k2, Token::RBracket, Seq::empty()) {
                    Err(e) => Err(e),
                    Ok((args, k3)) => match inp.expect(k3, Pattern::Exact(Token::Comma)) {
                        Err(e) => Err(e),
                        Ok((_, k4)) => match p_return_type(inp, k4) {
                            Err(e) => Err(e),
                            Ok((type_, k5)) => match inp.expect(k5, Pattern::Exact(Token::Comma)) {
                                Err(e) => Err(e),
                                Ok((_, k6)) => match inp.expect_string(k6) {
                                    Err(e) => Err(e),
                                    Ok((code, k7)) => match inp.expect(
                                        inp.consume(k7, Pattern::Exact(Token::Comma)),
                                        Pattern::Exact(Token::RParen),
                                    ) {
                                        Err(e) => Err(e),
                                        Ok((_, k8)) => Ok(
                                            (ExprView::Asm(span, args, type_, code), k8),
                                        ),
                                    },
                                },
                            },
                        },
                    },
                }
            } else {
                Err(stuck(inp, k))
            },
        },
    }
}

/// An intrinsic that loads: in round brackets the address and the offset.
pub open spec fn p_read(inp: Input, k: int, span: Span, width: Width) -> PR<ExprView>
    decreases inp.toks.len() - k, 0nat,
    when at_place(inp, k)
{
    match inp.expect(inp.next(k), Pattern::Exact(Token::LParen)) {
        Err(e) => Err(e),
        Ok((_, k1)) => if k < k1 < inp.toks.len() {
            match p_expr(inp, k1, 0) {
                Err(e) => Err(e),
                Ok((addr, k2)) => if k < k2 < inp.toks.len() {
                    match p_offset(inp, k2) {
                        Err(e) => Err(e),
                        Ok((offset, k3)) => Ok(
                            (
                                ExprView::Read(
                                    span.spec_upto(inp.span(k3)),
                                    width,
                                    Box::new(addr),
                                    offset,
                                ),
                                k3,
                            ),
                        ),
                    }
                } else {
                    Err(stuck(inp, k))
                },
            }
        } else {
            Err(stuck(inp, k))
        },
    }
}

/// An intrinsic that stores: in round brackets the address, the value and
/// the offset.
pub open spec fn p_write(inp: Input, k: int, span: Span, width: Width) -> PR<ExprView>
    decreases inp.toks.len() - k, 0nat,
    when at_place(inp, k)
{
    match inp.expect(inp.next(k), Pattern::Exact(Token::LParen)) {
        Err(e) => Err(e),
        Ok((_, k1)) => if k < k1 < inp.toks.len() {
            match p_expr(inp, k1, 0) {
                Err(e) => Err(e),
                Ok((addr, k2)) => match inp.expect(k2, Pattern::Exact(Token::Comma)) {
                    Err(e) => Err(e),
                    Ok((_, k3)) => if k < k3 < inp.toks.len() {
                        match p_expr(inp, k3, 0) {
                            Err(e) => Err(e),
                            Ok((value, k4)) => if k < k4 < inp.toks.len() {
                                match p_offset(inp, k4) {
                                    Err(e) => Err(e),
                                    Ok((offset, k5)) => Ok(
                                        (
                                            ExprView::Write(
                                                span.spec_upto(inp.span(k5)),
                                                width,
                                                Box::new(addr),
                                                Box::new(value),
                                                offset,
                                            ),
                                            k5,
                                        ),
                                    ),
                                }
                            } else {
                                Err(stuck(inp, k))
                            },
                        }
                    } else {
                        Err(stuck(inp, k))
                    },
                },
            }
        } else {
            Err(stuck(inp, k))
        },
    }
}

/// An intrinsic: its name at `k`, behind the dollar sign with span `span`,
/// and what belongs to it.
pub open spec fn p_intrinsic(inp: Input, k: int, span: Span) -> PR<ExprView>
    decreases inp.toks.len() - k, 1nat,
    when at_place(inp, k)
{
    if !(inp.tok(k) is Name) {
        Err(
            ParseErrorView::InvalidToken {
                span,
                expected: lit("intrinsic name"),
                got: inp.describe(k),
            },
        )
    } else if inp.text(k) == lit("cstr") {
        p_cstr(inp, k, span)
    } else if inp.text(k) == lit("asm") {
        p_asm(inp, k, span)
    } else if read_width(inp.text(k)) is Some {
        p_read(inp, k, span, read_width(inp.text(k))->0)
    } else if write_width(inp.text(k)) is Some {
        p_write(inp, k, span, write_width(inp.text(k))->0)
    } else {
        Err(ParseErrorView::NoSuchIntrinsic(span, inp.text(k)))
    }
}

/// An atom that starts with a name: a truth value, a conditional, a loop,
/// a declaration, or a variable.
pub open spec fn p_word(inp: Input, k: int) -> PR<ExprView>
    decreases inp.toks.len() - k, 2nat,
    when at_place(inp, k)
{
    if inp.text(k) == lit("true") {
        Ok((ExprView::Bool(inp.span(k), true), inp.next(k)))
    } else if inp.text(k) == lit("false") {
        Ok((ExprView::Bool(inp.span(k), false), inp.next(k)))
    } else if inp.text(k) == lit("if") {
        p_if(inp, k)
    } else if inp.text(k) == lit("while") {
        p_while(inp, k)
    } else if inp.text(k) == lit("var") {
        p_var(inp, k)
    } else {
        match inp.expect_name(k) {
            Err(e) => Err(e),
            Ok((name, k1)) => Ok((ExprView::GetVar(inp.span(k), name), k1)),
        }
    }
}

/// The unary operator of a token.
pub open spec fn unop_of(t: Token) -> Option<Unop> {
    match t {
        Token::Minus => Some(Unop::Minus),
        Token::Plus => Some(Unop::Plus),
        Token::Exclamation => Some(Unop::Not),
        _ => None,
    }
}

/// An atom that starts with a sign or a bracket: a unary operator with its
/// operand, an intrinsic, a list, an expression in round brackets, a block.
pub open spec fn p_mark(inp: Input, k: int) -> PR<ExprView>
    decreases inp.toks.len() - k, 2nat,
    when at_place(inp, k)
{
    if unop_of(inp.tok(k)) is Some {
        if k + 1 < inp.toks.len() {
            match p_expr(inp, k + 1, PREC_UNARY) {
                Err(e) => Err(e),
                Ok((x, k1)) => Ok(
                    (ExprView::Unop(inp.span(k), unop_of(inp.tok(k))->0, Box::new(x)), k1),
                ),
            }
        } else {
            Err(stuck(inp, k))
        }
    } else if inp.tok(k) is Dollar {
        if k + 1 < inp.toks.len() {
            p_intrinsic(inp, k + 1, inp.span(k))
        } else {
            Err(stuck(inp, k))
        }
    } else if inp.tok(k) is LBracket {
        if k + 1 < inp.toks.len() {
            match p_exprs(inp, k + 1, Token::RBracket, Seq::empty()) {
                Err(e) => Err(e),
                Ok((items, k1)) => Ok((ExprView::List(inp.span(k), items), k1)),
            }
        } else {
            Err(stuck(inp, k))
        }
    } else if inp.tok(k) is LParen {
        if k + 1 < inp.toks.len() {
            match p_expr(inp, k + 1, 0) {
                Err(e) => Err(e),
                Ok((e, k1)) => match inp.expect(k1, Pattern::Exact(Token::RParen)) {
                    Err(e) => Err(e),
                    Ok((_, k2)) => Ok((e, k2)),
                },
            }
        } else {
            Err(stuck(inp, k))
        }
    } else if inp.tok(k) is LBrace {
        p_block(inp, k)
    } else {
        Err(inp.invalid(k, lit("Expression")))
    }
}

/// An atom: a literal, a name with what it starts, or what starts with a
/// sign or a bracket.
pub open spec fn p_atom(inp: Input, k: int) -> PR<ExprView>
    decreases inp.toks.len() - k, 3nat,
    when at_place(inp, k)
{
    match inp.tok(k) {
        Token::Int(x) => Ok((ExprView::Int(inp.span(k), x), inp.next(k))),
        Token::Float => Ok((ExprView::Float(inp.span(k), inp.text(k)), inp.next(k))),
        Token::NormalString | Token::RawString => match inp.expect_string(k) {
            Err(e) => Err(e),
            Ok((s, k1)) => Ok((ExprView::String(inp.span(k), s), k1)),
        },
        Token::Name => p_word(inp, k),
        _ => p_mark(inp, k),
    }
}

/// An expression of operators that bind at least as tightly as `prec`.
pub open spec fn p_expr(inp: Input, k: int, prec: u32) -> PR<ExprView>
    decreases inp.toks.len() - k, 4nat,
    when at_place(inp, k)
{
    match p_atom(inp, k) {
        Err(e) => Err(e),
        Ok((atom, k1)) => if k < k1 < inp.toks.len() {
            p_infix(inp, k1, atom, prec, inp.span(k1))
        } else {
            Err(stuck(inp, k))
        },
    }
}

/// The span of an expression with an operator: from the start of the first
/// operator behind the first operand to the end of the token behind the
/// expression.
pub open spec fn op_span(inp: Input, k: int, start: Span, end: int) -> Span {
    inp.span(k).spec_join(start).spec_upto(inp.span(end))
}

/// A call: the arguments in round brackets behind the name of a function.
pub open spec fn p_call(inp: Input, k: int, lhs: ExprView, start: Span) -> PR<ExprView>
    decreases inp.toks.len() - k, 0nat,
    when at_place(inp, k)
{
    match lhs {
        ExprView::GetVar(_, name) => if k + 1 < inp.toks.len() {
            match p_exprs(inp, k + 1, Token::RParen, Seq::empty()) {
                Err(e) => Err(e),
                Ok((args, k1)) => Ok(
                    (ExprView::FunctionCall(op_span(inp, k, start, k1), name, args), k1),
                ),
            }
        } else {
            Err(stuck(inp, k))
        },
        _ => Err(
            ParseErrorView::InvalidToken {
                span: inp.span(k),
                expected: lit("Function call"),
                got: lit("indirect function calls not yet supported"),
            },
        ),
    }
}

/// The type that an expression is to have: behind a dot, in round
/// brackets.
#[verifier::opaque]
pub open spec fn p_ascribe(inp: Input, k: int, lhs: ExprView) -> PR<ExprView> {
    match inp.expect(inp.next(k), Pattern::Exact(Token::LParen)) {
        Err(e) => Err(e),
        Ok((_, k1)) => match p_type(inp, k1) {
            Err(e) => Err(e),
            Ok((t, k2)) => match inp.expect(k2, Pattern::Exact(Token::RParen)) {
                Err(e) => Err(e),
                Ok((_, k3)) => Ok((ExprView::AssertType(inp.span(k), t, Box::new(lhs)), k3)),
            },
        },
    }
}

/// An assignment: behind the name of a variable, `=` and the new value.
pub open spec fn p_assign(inp: Input, k: int, lhs: ExprView, start: Span) -> PR<ExprView>
    decreases inp.toks.len() - k, 0nat,
    when at_place(inp, k)
{
    match lhs {
        ExprView::GetVar(_, name) => if k + 1 < inp.toks.len() {
            match p_expr(inp, k + 1, 0) {
                Err(e) => Err(e),
                Ok((value, k1)) => Ok(
                    (ExprView::SetVar(inp.span(k).spec_join(start), name, Box::new(value)), k1),
                ),
            }
        } else {
            Err(stuck(inp, k))
        },
        _ => Err(
            ParseErrorView::InvalidToken {
                span: inp.span(k),
                expected: lit("Assignment"),
                got: lit("assignments only supported for variables"),
            },
        ),
    }
}

/// The expression of `and`, `or` or `is` with its operands, which has the
/// span `span`. `a and b` is `if a { b } else { false }` with `b` a truth
/// value; `a or b` is `if a { true } else { b }`: the right operand is
/// evaluated only where it decides.
#[verifier::opaque]
pub open spec fn logic_expr(word: Seq<u8>, negated: bool, span: Span, lhs: ExprView, rhs: ExprView)
    -> ExprView {
    if word == lit("and") {
        ExprView::If(
            span,
            seq![(lhs, ExprView::AssertType(span, Type::Bool, Box::new(rhs)))],
            Box::new(ExprView::Bool(span, false)),
        )
    } else if word == lit("or") {
        ExprView::If(span, seq![(lhs, ExprView::Bool(span, true))], Box::new(rhs))
    } else {
        ExprView::Binop(
            span,
            if negated {
                Binop::IsNot
            } else {
                Binop::Is
            },
            Box::new(lhs),
            Box::new(rhs),
        )
    }
}

/// The right operand of `and`, `or` or `is`, which binds more tightly than
/// the word, and the expression of both operands. `is not` is one operator.
pub open spec fn p_logic(inp: Input, k: int, lhs: ExprView, start: Span) -> PR<ExprView>
    decreases inp.toks.len() - k, 0nat,
    when at_place(inp, k)
{
    let negated = inp.text(k) == lit("is") && inp.at_word(inp.next(k), lit("not"));
    let k0 = if negated {
        inp.next(inp.next(k))
    } else {
        inp.next(k)
    };
    if k < k0 < inp.toks.len() {
        match p_expr(inp, k0, (infix_prec(inp, k)->0 + 1) as u32) {
            Err(e) => Err(e),
            Ok((rhs, k1)) => Ok(
                (logic_expr(inp.text(k), negated, op_span(inp, k, start, k1), lhs, rhs), k1),
            ),
        }
    } else {
        Err(stuck(inp, k))
    }
}

/// The right operand of a binary operator, which binds more tightly than
/// the operator, and the expression of both operands.
pub open spec fn p_binop(inp: Input, k: int, lhs: ExprView, start: Span) -> PR<ExprView>
    decreases inp.toks.len() - k, 0nat,
    when at_place(inp, k)
{
    if k + 1 < inp.toks.len() {
        match p_expr(inp, k + 1, (binop_prec(binop_of(inp.tok(k))->0) + 1) as u32) {
            Err(e) => Err(e),
            Ok((rhs, k1)) => Ok(
                (
                    ExprView::Binop(
                        op_span(inp, k, start, k1),
                        binop_of(inp.tok(k))->0,
                        Box::new(lhs),
                        Box::new(rhs),
                    ),
                    k1,
                ),
            ),
        }
    } else {
        Err(stuck(inp, k))
    }
}

/// The operator at `k` with what belongs to it, behind the operand `lhs`:
/// the expression of both.
pub open spec fn p_infix_step(inp: Input, k: int, lhs: ExprView, start: Span) -> PR<ExprView>
    decreases inp.toks.len() - k, 1nat,
    when at_place(inp, k)
{
    if inp.tok(k) is LParen {
        p_call(inp, k, lhs, start)
    } else if inp.tok(k) is Dot {
        p_ascribe(inp, k, lhs)
    } else if inp.tok(k) is Eq {
        p_assign(inp, k, lhs, start)
    } else if inp.tok(k) is Name {
        p_logic(inp, k, lhs, start)
    } else {
        p_binop(inp, k, lhs, start)
    }
}

/// What follows the operand `lhs`: every operator from `k` on that binds
/// at least as tightly as `prec`, each with its right operand. An operator
/// that binds less tightly is left where it stands.
pub open spec fn p_infix(inp: Input, k: int, lhs: ExprView, prec: u32, start: Span) -> PR<ExprView>
    decreases inp.toks.len() - k, 2nat,
    when at_place(inp, k)
{
    match infix_prec(inp, k) {
        None => Ok((lhs, k)),
        Some(q) => if prec > q {
            Ok((lhs, k))
        } else {
            match p_infix_step(inp, k, lhs, start) {
                Err(e) => Err(e),
                Ok((lhs1, k1)) => if k < k1 < inp.toks.len() {
                    p_infix(inp, k1, lhs1, prec, start)
                } else {
                    Err(stuck(inp, k))
                },
            }
        },
    }
}

/// An import: `import fn`, the module and the name in the host as strings,
/// the name in the program, and the type.
#[verifier::opaque]
pub open spec fn p_import(inp: Input, k: int) -> PR<ImportView> {
    match inp.expect(inp.next(k), Pattern::Word("fn")) {
        Err(e) => Err(e),
        Ok((_, k1)) => match inp.expect_string(k1) {
            Err(e) => Err(e),
            Ok((module_name, k2)) => match inp.expect_string(k2) {
                Err(e) => Err(e),
                Ok((function_name, k3)) => match inp.expect_name(k3) {
                    Err(e) => Err(e),
                    Ok((alias, k4)) => match p_function_type(inp, k4) {
                        Err(e) => Err(e),
                        Ok((type_, k5)) => Ok(
                            (
                                ImportView::Function(
                                    FunctionImportView {
                                        span: inp.span(k).spec_upto(inp.span(k5)),
                                        module_name,
                                        function_name,
                                        alias,
                                        type_,
                                    },
                                ),
                                k5,
                            ),
                        ),
                    },
                },
            },
        },
    }
}

/// A function: `fn`, attributes or none, the name, the parameters in round
/// brackets, what it returns, and the body.
#[verifier::opaque]
pub open spec fn p_func(inp: Input, k: int) -> PR<FunctionView> {
    match p_attrs(inp, inp.next(k), inp.span(k), lit("Function attribute")) {
        Err(e) => Err(e),
        Ok((visibility, k1)) => match inp.expect_name(k1) {
            Err(e) => Err(e),
            Ok((name, k2)) => match inp.expect(k2, Pattern::Exact(Token::LParen)) {
                Err(e) => Err(e),
                Ok((_, k3)) => match p_params(inp, k3, Seq::empty()) {
                    Err(e) => Err(e),
                    Ok((parameters, k4)) => match p_opt_return_type(inp, k4) {
                        Err(e) => Err(e),
                        Ok((return_type, k5)) => match p_block(inp, k5) {
                            Err(e) => Err(e),
                            Ok((body, k6)) => Ok(
                                (
                                    FunctionView {
                                        span: inp.span(k).spec_upto(inp.span(k6)),
                                        visibility,
                                        name,
                                        parameters,
                                        return_type,
                                        body,
                                    },
                                    k6,
                                ),
                            ),
                        },
                    },
                },
            },
        },
    }
}

/// A global variable: `var`, attributes or none, the name, a type or
/// none, `=`, and the expression that initialises it.
#[verifier::opaque]
pub open spec fn p_globalvar(inp: Input, k: int) -> PR<GlobalVariableView> {
    match p_attrs(inp, inp.next(k), inp.span(k), lit("Global variable attribute")) {
        Err(e) => Err(e),
        Ok((visibility, k1)) => match inp.expect_name(k1) {
            Err(e) => Err(e),
            Ok((name, k2)) => match p_opt_type(inp, k2) {
                Err(e) => Err(e),
                Ok((type_, k3)) => match inp.expect(k3, Pattern::Exact(Token::Eq)) {
                    Err(e) => Err(e),
                    Ok((_, k4)) => match p_expr(inp, k4, 0) {
                        Err(e) => Err(e),
                        Ok((init, k5)) => Ok(
                            (
                                GlobalVariableView {
                                    span: inp.span(k),
                                    visibility,
                                    name,
                                    type_,
                                    init,
                                },
                                k5,
                            ),
                        ),
                    },
                },
            },
        },
    }
}

/// A constant: `const`, the name, `=`, and a constant expression.
#[verifier::opaque]
pub open spec fn p_constant(inp: Input, k: int) -> PR<ConstantView> {
    match inp.expect_name(inp.next(k)) {
        Err(e) => Err(e),
        Ok((name, k1)) => match inp.expect(k1, Pattern::Exact(Token::Eq)) {
            Err(e) => Err(e),
            Ok((_, k2)) => match p_expr(inp, k2, 0) {
                Err(e) => Err(e),
                Ok((e, k3)) => match eval_const(inp.consts, e) {
                    Err(e) => Err(e),
                    Ok(value) => Ok(
                        (
                            ConstantView { span: inp.span(k).spec_upto(inp.span(k3)), name, value },
                            k3,
                        ),
                    ),
                },
            },
        },
    }
}

/// The imports from `k` on, each with the line feeds and semicolons behind
/// it, behind those of `acc`.
pub open spec fn p_imports(inp: Input, k: int, acc: Seq<ImportView>) -> PR<Seq<ImportView>>
    decreases inp.toks.len() - k,
{
    if inp.at_word(k, lit("import")) {
        match p_import(inp, k) {
            Err(e) => Err(e),
            Ok((imp, k1)) => if k < p_delims(inp, k1) < inp.toks.len() {
                p_imports(inp, p_delims(inp, k1), acc.push(imp))
            } else {
                Err(stuck(inp, k))
            },
        }
    } else {
        Ok((acc, k))
    }
}

/// A file without anything in it.
pub open spec fn empty_file() -> FileView {
    FileView {
        imports: Seq::empty(),
        constants: Seq::empty(),
        functions: Seq::empty(),
        globalvars: Seq::empty(),
    }
}

/// A function at `k` with the line feeds and semicolons behind it, added
/// to `file`.
#[verifier::opaque]
pub open spec fn p_item_func(inp: Input, k: int, file: FileView) -> PR<FileView> {
    match p_func(inp, k) {
        Err(e) => Err(e),
        Ok((f, k1)) => Ok(
            (FileView { functions: file.functions.push(f), ..file }, p_delims(inp, k1)),
        ),
    }
}

/// A global variable at `k` with the line feeds and semicolons behind it,
/// added to `file`.
#[verifier::opaque]
pub open spec fn p_item_var(inp: Input, k: int, file: FileView) -> PR<FileView> {
    match p_globalvar(inp, k) {
        Err(e) => Err(e),
        Ok((v, k1)) => Ok(
            (FileView { globalvars: file.globalvars.push(v), ..file }, p_delims(inp, k1)),
        ),
    }
}

/// A constant at `k` with the line feeds and semicolons behind it, added
/// to `file`.
#[verifier::opaque]
pub open spec fn p_item_const(inp: Input, k: int, file: FileView) -> PR<FileView> {
    match p_constant(inp, k) {
        Err(e) => Err(e),
        Ok((c, k1)) => Ok(
            (FileView { constants: file.constants.push(c), ..file }, p_delims(inp, k1)),
        ),
    }
}

/// The input in which the newest constant of `file` is known.
pub open spec fn with_last_const(inp: Input, file: FileView) -> Input {
    Input {
        consts: inp.consts.push((file.constants.last().name, file.constants.last().value)),
        ..inp
    }
}

/// The functions, global variables and constants from `k` on to the end of
/// the file, added to `file`. A constant is known from its declaration on.
pub open spec fn p_items(inp: Input, k: int, file: FileView) -> Result<FileView, ParseErrorView>
    decreases inp.toks.len() - k,
{
    if inp.tok(k) is EOF {
        Ok(file)
    } else if inp.at_word(k, lit("fn")) {
        match p_item_func(inp, k, file) {
            Err(e) => Err(e),
            Ok((file1, k1)) => if k < k1 < inp.toks.len() {
                p_items(inp, k1, file1)
            } else {
                Err(stuck(inp, k))
            },
        }
    } else if inp.at_word(k, lit("var")) {
        match p_item_var(inp, k, file) {
            Err(e) => Err(e),
            Ok((file1, k1)) => if k < k1 < inp.toks.len() {
                p_items(inp, k1, file1)
            } else {
                Err(stuck(inp, k))
            },
        }
    } else if inp.at_word(k, lit("const")) {
        match p_item_const(inp, k, file) {
            Err(e) => Err(e),
            Ok((file1, k1)) => if k < k1 < inp.toks.len() {
                p_items(with_last_const(inp, file1), k1, file1)
            } else {
                Err(stuck(inp, k))
            },
        }
    } else {
        Err(inp.invalid(k, lit("Function")))
    }
}

/// A file from token `k` on: the imports, then functions, global variables
/// and constants in any order, with line feeds and semicolons between them.
pub open spec fn p_file(inp: Input, k: int) -> Result<FileView, ParseErrorView> {
    match p_imports(inp, p_delims(inp, k), Seq::empty()) {
        Err(e) => Err(e),
        Ok((imports, k1)) => p_items(
            inp,
            p_delims(inp, k1),
            FileView { imports, ..empty_file() },
        ),
    }
}

/// An operator that binds less tightly than `prec` is not taken: where one
/// stands behind the operand, or no operator at all, the operand is the
/// whole expression and the parser stays where it is.
pub proof fn lemma_weaker_operator_is_left(
    inp: Input,
    k: int,
    lhs: ExprView,
    prec: u32,
    start: Span,
)
    requires
        at_place(inp, k),
        infix_prec(inp, k) matches Some(q) ==> q < prec,
    ensures
        p_infix(inp, k, lhs, prec, start) == Ok::<(ExprView, int), ParseErrorView>((lhs, k)),
{
}

/// Every operator that binds at least as tightly as `prec` is taken: behind
/// what `p_infix` gives stands no operator, or one that binds less tightly.
pub proof fn lemma_infix_takes_all(inp: Input, k: int, lhs: ExprView, prec: u32, start: Span)
    requires
        at_place(inp, k),
    ensures
        p_infix(inp, k, lhs, prec, start) matches Ok((_, k1)) ==> k <= k1 < inp.toks.len() && (
        infix_prec(inp, k1) matches Some(q) ==> q < prec),
    decreases inp.toks.len() - k,
{
    match infix_prec(inp, k) {
        None => {},
        Some(q) => {
            if prec <= q {
                match p_infix_step(inp, k, lhs, start) {
                    Err(_) => {},
                    Ok((lhs1, k1)) => {
                        if k < k1 < inp.toks.len() {
                            lemma_infix_takes_all(inp, k1, lhs1, prec, start);
                        }
                    },
                }
            }
        },
    }
}

/// An expression parsed for operators that bind at least as tightly as
/// `prec` ends before an operator that binds less tightly, or before what is
/// no operator: no operator of lower precedence is taken at its level, and
/// none of the same or a higher precedence is left.
pub proof fn lemma_expr_respects_precedence(inp: Input, k: int, prec: u32)
    requires
        at_place(inp, k),
    ensures
        p_expr(inp, k, prec) matches Ok((_, k1)) ==> k < k1 < inp.toks.len() && (infix_prec(
            inp,
            k1,
        ) matches Some(q) ==> q < prec),
{
    match p_atom(inp, k) {
        Err(_) => {},
        Ok((atom, k1)) => {
            if k < k1 < inp.toks.len() {
                lemma_infix_takes_all(inp, k1, atom, prec, inp.span(k1));
            }
        },
    }
}

/// A conditional without `else` has an empty block as its last branch, and
/// that block has the span of the conditional.
pub proof fn lemma_if_without_else(
    inp: Input,
    k: int,
    cond: ExprView,
    k1: int,
    body: ExprView,
    k2: int,
)
    requires
        at_place(inp, k),
        k + 1 < inp.toks.len(),
        p_expr(inp, k + 1, 0) == Ok::<(ExprView, int), ParseErrorView>((cond, k1)),
        k < k1 < inp.toks.len(),
        p_block(inp, k1) == Ok::<(ExprView, int), ParseErrorView>((body, k2)),
        k < k2 < inp.toks.len(),
        !inp.at_word(k2, lit("else")),
    ensures
        p_if(inp, k) == Ok::<(ExprView, int), ParseErrorView>(
            (
                ExprView::If(
                    inp.span(k).spec_upto(inp.span(k2)),
                    seq![(cond, body)],
                    Box::new(
                        ExprView::Block(inp.span(k).spec_upto(inp.span(k2)), Seq::empty()),
                    ),
                ),
                k2,
            ),
        ),
{
}

/// Whether a parser that started at `k` and succeeded stands at a later
/// place of the input.
pub open spec fn advanced<T>(r: PR<T>, inp: Input, k: int) -> bool {
    r matches Ok((_, k1)) ==> k < k1 < inp.toks.len()
}

/// Whether a parser that started at `k` and succeeded stands at `k` or at a
/// later place of the input.
pub open spec fn not_back<T>(r: PR<T>, inp: Input, k: int) -> bool {
    r matches Ok((_, k1)) ==> k <= k1 < inp.toks.len()
}

/// Passing over line feeds and semicolons never goes back, and never
/// passes the end of the file.
pub proof fn lemma_delims_not_back(inp: Input, k: int)
    requires
        at_place(inp, k),
    ensures
        k <= p_delims(inp, k) < inp.toks.len(),
    decreases inp.toks.len() - k,
{
    if k + 1 < inp.toks.len() && (inp.tok(k) is Newline || inp.tok(k) is Semicolon) {
        lemma_delims_not_back(inp, k + 1);
    }
}

/// The parsers of types take a token where they succeed; the parsers of
/// what may be left out never go back.
pub proof fn lemma_types_advance(inp: Input, k: int)
    requires
        at_place(inp, k),
    ensures
        advanced(p_type(inp, k), inp, k),
        advanced(p_return_type(inp, k), inp, k),
        not_back(p_opt_type(inp, k), inp, k),
        not_back(p_opt_return_type(inp, k), inp, k),
        not_back(p_expect_delim(inp, k), inp, k),
{
    reveal(p_type);
    reveal(p_return_type);
    reveal(p_opt_type);
    reveal(p_opt_return_type);
    reveal(p_expect_delim);
    lemma_next(inp, k);
    lemma_delims_not_back(inp, k);
    if inp.next(k) < inp.toks.len() {
        lemma_delims_not_back(inp, inp.next(k));
    }
}

/// Every parser of an expression takes at least one token where it
/// succeeds, and ends at a place of the input: no parser is ever stuck.
pub proof fn lemma_expr_advances(inp: Input, k: int, prec: u32)
    requires
        at_place(inp, k),
    ensures
        advanced(p_expr(inp, k, prec), inp, k),
    decreases inp.toks.len() - k, 4nat,
{
    lemma_atom_advances(inp, k);
    match p_atom(inp, k) {
        Err(_) => {},
        Ok((atom, k1)) => {
            lemma_infix_not_back(inp, k1, atom, prec, inp.span(k1));
        },
    }
}

/// The part of `lemma_expr_advances` for atoms.
pub proof fn lemma_atom_advances(inp: Input, k: int)
    requires
        at_place(inp, k),
    ensures
        advanced(p_atom(inp, k), inp, k),
    decreases inp.toks.len() - k, 3nat,
{
    lemma_next(inp, k);
    lemma_expect_string(inp, k);
    match inp.tok(k) {
        Token::Name => {
            lemma_word_advances(inp, k);
        },
        Token::Int(_) | Token::Float | Token::NormalString | Token::RawString => {},
        _ => {
            lemma_mark_advances(inp, k);
        },
    }
}

/// The part of `lemma_expr_advances` for atoms that start with a name.
pub proof fn lemma_word_advances(inp: Input, k: int)
    requires
        at_place(inp, k),
        inp.tok(k) is Name,
    ensures
        advanced(p_word(inp, k), inp, k),
    decreases inp.toks.len() - k, 2nat,
{
    lemma_next(inp, k);
    lemma_expect_name(inp, k);
    if inp.text(k) == lit("true") || inp.text(k) == lit("false") {
    } else if inp.text(k) == lit("if") {
        lemma_if_advances(inp, k);
    } else if inp.text(k) == lit("while") {
        lemma_while_advances(inp, k);
    } else if inp.text(k) == lit("var") {
        lemma_var_advances(inp, k);
    }
}

/// The part of `lemma_expr_advances` for atoms that start with a sign or a
/// bracket.
pub proof fn lemma_mark_advances(inp: Input, k: int)
    requires
        at_place(inp, k),
    ensures
        advanced(p_mark(inp, k), inp, k),
    decreases inp.toks.len() - k, 2nat,
{
    lemma_next(inp, k);
    if unop_of(inp.tok(k)) is Some {
        lemma_expr_advances(inp, k + 1, PREC_UNARY);
    } else if inp.tok(k) is Dollar {
        lemma_intrinsic_advances(inp, k + 1, inp.span(k));
    } else if inp.tok(k) is LBracket {
        lemma_exprs_advance(inp, k + 1, Token::RBracket, Seq::empty());
    } else if inp.tok(k) is LParen {
        lemma_expr_advances(inp, k + 1, 0);
        match p_expr(inp, k + 1, 0) {
            Err(_) => {},
            Ok((_, k1)) => {
                lemma_expect(inp, k1, Pattern::Exact(Token::RParen));
            },
        }
    } else if inp.tok(k) is LBrace {
        lemma_block_advances(inp, k);
    }
}

/// The part of `lemma_expr_advances` for blocks.
pub proof fn lemma_block_advances(inp: Input, k: int)
    requires
        at_place(inp, k),
    ensures
        advanced(p_block(inp, k), inp, k),
    decreases inp.toks.len() - k, 1nat,
{
    lemma_expect(inp, k, Pattern::Exact(Token::LBrace));
    match inp.expect(k, Pattern::Exact(Token::LBrace)) {
        Err(_) => {},
        Ok((_, k1)) => {
            lemma_delims_not_back(inp, k1);
            lemma_stmts_advance(inp, p_delims(inp, k1), inp.span(k), Seq::empty());
        },
    }
}

/// The part of `lemma_expr_advances` for the statements of a block.
pub proof fn lemma_stmts_advance(inp: Input, k: int, span: Span, acc: Seq<ExprView>)
    requires
        at_place(inp, k),
    ensures
        advanced(p_stmts(inp, k, span, acc), inp, k),
    decreases inp.toks.len() - k, 6nat,
{
    lemma_next(inp, k);
    if !(inp.tok(k) is RBrace) {
        lemma_stmt_advances(inp, k);
        match p_stmt(inp, k) {
            Err(_) => {},
            Ok((e, k1)) => {
                lemma_stmts_advance(inp, k1, span, acc.push(e));
            },
        }
    }
}

/// The part of `lemma_expr_advances` for statements.
pub proof fn lemma_stmt_advances(inp: Input, k: int)
    requires
        at_place(inp, k),
    ensures
        advanced(p_stmt(inp, k), inp, k),
    decreases inp.toks.len() - k, 5nat,
{
    lemma_expr_advances(inp, k, 0);
    match p_expr(inp, k, 0) {
        Err(_) => {},
        Ok((_, k1)) => {
            lemma_types_advance(inp, k1);
        },
    }
}

/// The part of `lemma_expr_advances` for conditionals.
pub proof fn lemma_if_advances(inp: Input, k: int)
    requires
        at_place(inp, k),
        inp.tok(k) is Name,
    ensures
        advanced(p_if(inp, k), inp, k),
    decreases inp.toks.len() - k, 1nat,
{
    lemma_next(inp, k);
    lemma_expr_advances(inp, k + 1, 0);
    match p_expr(inp, k + 1, 0) {
        Err(_) => {},
        Ok((cond, k1)) => {
            lemma_block_advances(inp, k1);
            match p_block(inp, k1) {
                Err(_) => {},
                Ok((body, k2)) => {
                    lemma_else_not_back(inp, k2, inp.span(k), seq![(cond, body)], None);
                },
            }
        },
    }
}

/// The part of `lemma_expr_advances` for the rest of a conditional.
pub proof fn lemma_else_not_back(
    inp: Input,
    k: int,
    span: Span,
    pairs: Seq<(ExprView, ExprView)>,
    other: Option<ExprView>,
)
    requires
        at_place(inp, k),
    ensures
        not_back(p_else(inp, k, span, pairs, other), inp, k),
    decreases inp.toks.len() - k, 5nat,
{
    lemma_next(inp, k);
    if inp.at_word(k, lit("else")) {
        lemma_next(inp, k + 1);
        if inp.at_word(k + 1, lit("if")) {
            lemma_expr_advances(inp, k + 2, 0);
            match p_expr(inp, k + 2, 0) {
                Err(_) => {},
                Ok((cond, k1)) => {
                    lemma_block_advances(inp, k1);
                    match p_block(inp, k1) {
                        Err(_) => {},
                        Ok((body, k2)) => {
                            lemma_else_not_back(inp, k2, span, pairs.push((cond, body)), other);
                        },
                    }
                },
            }
        } else if inp.tok(k + 1) is LBrace {
            lemma_block_advances(inp, k + 1);
            match p_block(inp, k + 1) {
                Err(_) => {},
                Ok((block, k2)) => {
                    lemma_else_not_back(inp, k2, span, pairs, Some(block));
                },
            }
        }
    }
}

/// The part of `lemma_expr_advances` for loops.
pub proof fn lemma_while_advances(inp: Input, k: int)
    requires
        at_place(inp, k),
        inp.tok(k) is Name,
    ensures
        advanced(p_while(inp, k), inp, k),
    decreases inp.toks.len() - k, 1nat,
{
    lemma_next(inp, k);
    lemma_expr_advances(inp, k + 1, 0);
    match p_expr(inp, k + 1, 0) {
        Err(_) => {},
        Ok((_, k1)) => {
            lemma_block_advances(inp, k1);
        },
    }
}

/// The part of `lemma_expr_advances` for declarations of locals.
pub proof fn lemma_var_advances(inp: Input, k: int)
    requires
        at_place(inp, k),
        inp.tok(k) is Name,
    ensures
        advanced(p_var(inp, k), inp, k),
    decreases inp.toks.len() - k, 1nat,
{
    lemma_next(inp, k);
    lemma_expect_name(inp, k + 1);
    match inp.expect_name(k + 1) {
        Err(_) => {},
        Ok((_, k1)) => {
            lemma_types_advance(inp, k1);
            match p_opt_type(inp, k1) {
                Err(_) => {},
                Ok((_, k2)) => {
                    lemma_expect(inp, k2, Pattern::Exact(Token::Eq));
                    match inp.expect(k2, Pattern::Exact(Token::Eq)) {
                        Err(_) => {},
                        Ok((_, k3)) => {
                            lemma_expr_advances(inp, k3, 0);
                        },
                    }
                },
            }
        },
    }
}

/// The part of `lemma_expr_advances` for lists of expressions.
pub proof fn lemma_exprs_advance(inp: Input, k: int, close: Token, acc: Seq<ExprView>)
    requires
        at_place(inp, k),
        close != Token::EOF,
    ensures
        advanced(p_exprs(inp, k, close, acc), inp, k),
    decreases inp.toks.len() - k, 5nat,
{
    lemma_next(inp, k);
    if inp.tok(k) != close {
        lemma_expr_advances(inp, k, 0);
        match p_expr(inp, k, 0) {
            Err(_) => {},
            Ok((e, k1)) => {
                lemma_next(inp, k1);
                if inp.tok(k1) is Comma {
                    lemma_exprs_advance(inp, k1 + 1, close, acc.push(e));
                } else {
                    lemma_expect(inp, k1, Pattern::Exact(close));
                }
            },
        }
    }
}

/// The part of `lemma_expr_advances` for numbers known while parsing.
pub proof fn lemma_const_uint_advances(inp: Input, k: int)
    requires
        at_place(inp, k),
    ensures
        advanced(p_const_uint(inp, k), inp, k),
    decreases inp.toks.len() - k, 5nat,
{
    lemma_expr_advances(inp, k, (PREC_UNARY - 1) as u32);
}

/// The part of `lemma_expr_advances` for the offset of a load or store.
pub proof fn lemma_offset_advances(inp: Input, k: int)
    requires
        at_place(inp, k),
    ensures
        advanced(p_offset(inp, k), inp, k),
    decreases inp.toks.len() - k, 5nat,
{
    lemma_next(inp, k);
    let comma = Pattern::Exact(Token::Comma);
    let close = Pattern::Exact(Token::RParen);
    let k1 = inp.consume(k, comma);
    lemma_next(inp, k1);
    if inp.tok(k) is Comma && inp.at_word(k1, lit("offset")) {
        lemma_expect(inp, inp.next(k1), Pattern::Exact(Token::Colon));
        match inp.expect(inp.next(k1), Pattern::Exact(Token::Colon)) {
            Err(_) => {},
            Ok((_, k2)) => {
                lemma_const_uint_advances(inp, k2);
                match p_const_uint(inp, k2) {
                    Err(_) => {},
                    Ok((_, k3)) => {
                        lemma_next(inp, k3);
                        lemma_expect(inp, inp.consume(k3, comma), close);
                    },
                }
            },
        }
    } else {
        let k2 = inp.consume(k1, comma);
        lemma_next(inp, k2);
        lemma_expect(inp, k2, close);
    }
}

/// The part of `lemma_expr_advances` for inline code.
pub proof fn lemma_asm_advances(inp: Input, k: int, span: Span)
    requires
        at_place(inp, k),
        inp.tok(k) is Name,
    ensures
        advanced(p_asm(inp, k, span), inp, k),
    decreases inp.toks.len() - k, 0nat,
{
    lemma_next(inp, k);
    let comma = Pattern::Exact(Token::Comma);
    lemma_expect(inp, inp.next(k), Pattern::Exact(Token::LParen));
    match inp.expect(inp.next(k), Pattern::Exact(Token::LParen)) {
        Err(_) => {},
        Ok((_, k1)) => {
            lemma_expect(inp, k1, Pattern::Exact(Token::LBracket));
            match inp.expect(k1, Pattern::Exact(Token::LBracket)) {
                Err(_) => {},
                Ok((_, k2)) => {
                    lemma_exprs_advance(inp, k2, Token::RBracket, Seq::empty());
                    match p_exprs(inp, k2, Token::RBracket, Seq::empty()) {
                        Err(_) => {},
                        Ok((_, k3)) => {
                            lemma_expect(inp, k3, comma);
                            match inp.expect(k3, comma) {
                                Err(_) => {},
                                Ok((_, k4)) => {
                                    lemma_types_advance(inp, k4);
                                    match p_return_type(inp, k4) {
                                        Err(_) => {},
                                        Ok((_, k5)) => {
                                            lemma_expect(inp, k5, comma);
                                            match inp.expect(k5, comma) {
                                                Err(_) => {},
                                                Ok((_, k6)) => {
                                                    lemma_expect_string(inp, k6);
                                                    match inp.expect_string(k6) {
                                                        Err(_) => {},
                                                        Ok((_, k7)) => {
                                                            lemma_next(inp, k7);
                                                            lemma_expect(
                                                                inp,
                                                                inp.consume(k7, comma),
                                                                Pattern::Exact(Token::RParen),
                                                            );
                                                        },
                                                    }
                                                },
                                            }
                                        },
                                    }
                                },
                            }
                        },
                    }
                },
            }
        },
    }
}

/// The part of `lemma_expr_advances` for loads.
pub proof fn lemma_read_advances(inp: Input, k: int, span: Span, width: Width)
    requires
        at_place(inp, k),
        inp.tok(k) is Name,
    ensures
        advanced(p_read(inp, k, span, width), inp, k),
    decreases inp.toks.len() - k, 0nat,
{
    lemma_next(inp, k);
    lemma_expect(inp, inp.next(k), Pattern::Exact(Token::LParen));
    match inp.expect(inp.next(k), Pattern::Exact(Token::LParen)) {
        Err(_) => {},
        Ok((_, k1)) => {
            lemma_expr_advances(inp, k1, 0);
            match p_expr(inp, k1, 0) {
                Err(_) => {},
                Ok((_, k2)) => {
                    lemma_offset_advances(inp, k2);
                },
            }
        },
    }
}

/// The part of `lemma_expr_advances` for stores.
pub proof fn lemma_write_advances(inp: Input, k: int, span: Span, width: Width)
    requires
        at_place(inp, k),
        inp.tok(k) is Name,
    ensures
        advanced(p_write(inp, k, span, width), inp, k),
    decreases inp.toks.len() - k, 0nat,
{
    lemma_next(inp, k);
    lemma_expect(inp, inp.next(k), Pattern::Exact(Token::LParen));
    match inp.expect(inp.next(k), Pattern::Exact(Token::LParen)) {
        Err(_) => {},
        Ok((_, k1)) => {
            lemma_expr_advances(inp, k1, 0);
            match p_expr(inp, k1, 0) {
                Err(_) => {},
                Ok((_, k2)) => {
                    lemma_expect(inp, k2, Pattern::Exact(Token::Comma));
                    match inp.expect(k2, Pattern::Exact(Token::Comma)) {
                        Err(_) => {},
                        Ok((_, k3)) => {
                            lemma_expr_advances(inp, k3, 0);
                            match p_expr(inp, k3, 0) {
                                Err(_) => {},
                                Ok((_, k4)) => {
                                    lemma_offset_advances(inp, k4);
                                },
                            }
                        },
                    }
                },
            }
        },
    }
}

/// The part of `lemma_expr_advances` for intrinsics.
pub proof fn lemma_intrinsic_advances(inp: Input, k: int, span: Span)
    requires
        at_place(inp, k),
    ensures
        advanced(p_intrinsic(inp, k, span), inp, k),
    decreases inp.toks.len() - k, 1nat,
{
    if inp.tok(k) is Name {
        lemma_next(inp, k);
        if inp.text(k) == lit("cstr") {
            reveal(p_cstr);
            lemma_expect(inp, inp.next(k), Pattern::Exact(Token::LParen));
            match inp.expect(inp.next(k), Pattern::Exact(Token::LParen)) {
                Err(_) => {},
                Ok((_, k1)) => {
                    lemma_expect_string(inp, k1);
                    match inp.expect_string(k1) {
                        Err(_) => {},
                        Ok((_, k2)) => {
                            lemma_expect(inp, k2, Pattern::Exact(Token::RParen));
                        },
                    }
                },
            }
        } else if inp.text(k) == lit("asm") {
            lemma_asm_advances(inp, k, span);
        } else if read_width(inp.text(k)) is Some {
            lemma_read_advances(inp, k, span, read_width(inp.text(k))->0);
        } else if write_width(inp.text(k)) is Some {
            lemma_write_advances(inp, k, span, write_width(inp.text(k))->0);
        }
    }
}

/// The part of `lemma_expr_advances` for one operator with what belongs to
/// it.
pub proof fn lemma_infix_step_advances(inp: Input, k: int, lhs: ExprView, start: Span)
    requires
        at_place(inp, k),
        infix_prec(inp, k) is Some,
    ensures
        advanced(p_infix_step(inp, k, lhs, start), inp, k),
    decreases inp.toks.len() - k, 1nat,
{
    reveal(infix_prec);
    lemma_next(inp, k);
    if inp.tok(k) is LParen {
        match lhs {
            ExprView::GetVar(..) => {
                lemma_exprs_advance(inp, k + 1, Token::RParen, Seq::empty());
            },
            _ => {},
        }
    } else if inp.tok(k) is Dot {
        reveal(p_ascribe);
        lemma_expect(inp, inp.next(k), Pattern::Exact(Token::LParen));
        match inp.expect(inp.next(k), Pattern::Exact(Token::LParen)) {
            Err(_) => {},
            Ok((_, k1)) => {
                lemma_types_advance(inp, k1);
                match p_type(inp, k1) {
                    Err(_) => {},
                    Ok((_, k2)) => {
                        lemma_expect(inp, k2, Pattern::Exact(Token::RParen));
                    },
                }
            },
        }
    } else if inp.tok(k) is Eq {
        match lhs {
            ExprView::GetVar(..) => {
                lemma_expr_advances(inp, k + 1, 0);
            },
            _ => {},
        }
    } else if inp.tok(k) is Name {
        let negated = inp.text(k) == lit("is") && inp.at_word(inp.next(k), lit("not"));
        lemma_next(inp, inp.next(k));
        let k0 = if negated {
            inp.next(inp.next(k))
        } else {
            inp.next(k)
        };
        lemma_expr_advances(inp, k0, (infix_prec(inp, k)->0 + 1) as u32);
    } else {
        lemma_expr_advances(inp, k + 1, (binop_prec(binop_of(inp.tok(k))->0) + 1) as u32);
    }
}

/// The part of `lemma_expr_advances` for the operators behind an operand.
pub proof fn lemma_infix_not_back(inp: Input, k: int, lhs: ExprView, prec: u32, start: Span)
    requires
        at_place(inp, k),
    ensures
        not_back(p_infix(inp, k, lhs, prec, start), inp, k),
    decreases inp.toks.len() - k, 2nat,
{
    match infix_prec(inp, k) {
        None => {},
        Some(q) => {
            if prec <= q {
                lemma_infix_step_advances(inp, k, lhs, start);
                match p_infix_step(inp, k, lhs, start) {
                    Err(_) => {},
                    Ok((lhs1, k1)) => {
                        lemma_infix_not_back(inp, k1, lhs1, prec, start);
                    },
                }
            }
        },
    }
}

/// The parsers of lists of types and of parameters take their closing
/// bracket where they succeed.
pub proof fn lemma_type_list_advances(inp: Input, k: int, acc: Seq<Type>)
    requires
        at_place(inp, k),
    ensures
        advanced(p_type_list(inp, k, acc), inp, k),
    decreases inp.toks.len() - k,
{
    lemma_next(inp, k);
    if !(inp.tok(k) is RParen) {
        lemma_types_advance(inp, k);
        match p_type(inp, k) {
            Err(_) => {},
            Ok((t, k1)) => {
                lemma_next(inp, k1);
                if inp.tok(k1) is Comma {
                    lemma_type_list_advances(inp, k1 + 1, acc.push(t));
                } else {
                    lemma_expect(inp, k1, Pattern::Exact(Token::RParen));
                }
            },
        }
    }
}

/// The part of `lemma_type_list_advances` for parameters.
pub proof fn lemma_params_advance(inp: Input, k: int, acc: Seq<(Seq<u8>, Type)>)
    requires
        at_place(inp, k),
    ensures
        advanced(p_params(inp, k, acc), inp, k),
    decreases inp.toks.len() - k,
{
    lemma_next(inp, k);
    if !(inp.tok(k) is RParen) {
        lemma_expect_name(inp, k);
        match inp.expect_name(k) {
            Err(_) => {},
            Ok((name, k1)) => {
                lemma_types_advance(inp, k1);
                match p_type(inp, k1) {
                    Err(_) => {},
                    Ok((t, k2)) => {
                        lemma_next(inp, k2);
                        if inp.tok(k2) is Comma {
                            lemma_params_advance(inp, k2 + 1, acc.push((name, t)));
                        } else {
                            lemma_expect(inp, k2, Pattern::Exact(Token::RParen));
                        }
                    },
                }
            },
        }
    }
}

/// The attributes of a declaration end behind their closing bracket.
pub proof fn lemma_attrs_not_back(inp: Input, k: int, span: Span, what: Seq<u8>, vis: Visibility)
    requires
        at_place(inp, k),
    ensures
        advanced(p_attr_items(inp, k, span, what, vis), inp, k),
        not_back(p_attrs(inp, k, span, what), inp, k),
    decreases inp.toks.len() - k,
{
    reveal(p_attrs);
    lemma_next(inp, k);
    if inp.at_word(k, lit("pub")) {
        lemma_attrs_not_back(inp, k + 1, span, what, Visibility::Public);
    }
    if inp.tok(k) is LBracket {
        lemma_attrs_not_back(inp, k + 1, span, what, Visibility::Private);
    }
}

/// The parsers of what stands at the top of a file take at least one token
/// where they succeed.
pub proof fn lemma_items_advance(inp: Input, k: int)
    requires
        at_place(inp, k),
        inp.tok(k) is Name,
    ensures
        advanced(p_import(inp, k), inp, k),
        advanced(p_func(inp, k), inp, k),
        advanced(p_globalvar(inp, k), inp, k),
        advanced(p_constant(inp, k), inp, k),
{
    lemma_next(inp, k);
    let k0 = inp.next(k);
    assert(advanced(p_import(inp, k), inp, k)) by {
        reveal(p_import);
        reveal(p_function_type);
        lemma_expect(inp, k0, Pattern::Word("fn"));
        match inp.expect(k0, Pattern::Word("fn")) {
            Err(_) => {},
            Ok((_, k1)) => {
                lemma_expect_string(inp, k1);
                match inp.expect_string(k1) {
                    Err(_) => {},
                    Ok((_, k2)) => {
                        lemma_expect_string(inp, k2);
                        match inp.expect_string(k2) {
                            Err(_) => {},
                            Ok((_, k3)) => {
                                lemma_expect_name(inp, k3);
                                match inp.expect_name(k3) {
                                    Err(_) => {},
                                    Ok((_, k4)) => {
                                        lemma_expect(inp, k4, Pattern::Exact(Token::LParen));
                                        match inp.expect(k4, Pattern::Exact(Token::LParen)) {
                                            Err(_) => {},
                                            Ok((_, k5)) => {
                                                lemma_type_list_advances(inp, k5, Seq::empty());
                                                match p_type_list(inp, k5, Seq::empty()) {
                                                    Err(_) => {},
                                                    Ok((_, k6)) => {
                                                        lemma_types_advance(inp, k6);
                                                    },
                                                }
                                            },
                                        }
                                    },
                                }
                            },
                        }
                    },
                }
            },
        }
    }
    assert(advanced(p_func(inp, k), inp, k)) by {
        reveal(p_func);
        lemma_attrs_not_back(
            inp,
            k0,
            inp.span(k),
            lit("Function attribute"),
            Visibility::Private,
        );
        match p_attrs(inp, k0, inp.span(k), lit("Function attribute")) {
            Err(_) => {},
            Ok((_, k1)) => {
                lemma_expect_name(inp, k1);
                match inp.expect_name(k1) {
                    Err(_) => {},
                    Ok((_, k2)) => {
                        lemma_expect(inp, k2, Pattern::Exact(Token::LParen));
                        match inp.expect(k2, Pattern::Exact(Token::LParen)) {
                            Err(_) => {},
                            Ok((_, k3)) => {
                                lemma_params_advance(inp, k3, Seq::empty());
                                match p_params(inp, k3, Seq::empty()) {
                                    Err(_) => {},
                                    Ok((_, k4)) => {
                                        lemma_types_advance(inp, k4);
                                        match p_opt_return_type(inp, k4) {
                                            Err(_) => {},
                                            Ok((_, k5)) => {
                                                lemma_block_advances(inp, k5);
                                            },
                                        }
                                    },
                                }
                            },
                        }
                    },
                }
            },
        }
    }
    assert(advanced(p_globalvar(inp, k), inp, k)) by {
        reveal(p_globalvar);
        lemma_attrs_not_back(
            inp,
            k0,
            inp.span(k),
            lit("Global variable attribute"),
            Visibility::Private,
        );
        match p_attrs(inp, k0, inp.span(k), lit("Global variable attribute")) {
            Err(_) => {},
            Ok((_, k1)) => {
                lemma_expect_name(inp, k1);
                match inp.expect_name(k1) {
                    Err(_) => {},
                    Ok((_, k2)) => {
                        lemma_types_advance(inp, k2);
                        match p_opt_type(inp, k2) {
                            Err(_) => {},
                            Ok((_, k3)) => {
                                lemma_expect(inp, k3, Pattern::Exact(Token::Eq));
                                match inp.expect(k3, Pattern::Exact(Token::Eq)) {
                                    Err(_) => {},
                                    Ok((_, k4)) => {
                                        lemma_expr_advances(inp, k4, 0);
                                    },
                                }
                            },
                        }
                    },
                }
            },
        }
    }
    assert(advanced(p_constant(inp, k), inp, k)) by {
        reveal(p_constant);
        lemma_expect_name(inp, k0);
        match inp.expect_name(k0) {
            Err(_) => {},
            Ok((_, k1)) => {
                lemma_expect(inp, k1, Pattern::Exact(Token::Eq));
                match inp.expect(k1, Pattern::Exact(Token::Eq)) {
                    Err(_) => {},
                    Ok((_, k2)) => {
                        lemma_expr_advances(inp, k2, 0);
                    },
                }
            },
        }
    }
}

/// Whether a span is a range of at least one byte of the source of the
/// input.
pub open spec fn in_source(s: Span, inp: Input) -> bool {
    span_in(s, inp.source, inp.src.len() as int)
}

/// Whether every node of every expression of a sequence has a span that is
/// not empty and lies in the source of the input.
pub open spec fn all_spanned(items: Seq<ExprView>, inp: Input) -> bool {
    forall|i: int|
        0 <= i < items.len() ==> (#[trigger] items[i]).well_spanned(
            inp.source,
            inp.src.len() as int,
        )
}

/// The same for the conditions and bodies of the branches of a conditional.
pub open spec fn pairs_spanned(pairs: Seq<(ExprView, ExprView)>, inp: Input) -> bool {
    forall|i: int|
        0 <= i < pairs.len() ==> (#[trigger] pairs[i]).0.well_spanned(
            inp.source,
            inp.src.len() as int,
        ) && pairs[i].1.well_spanned(inp.source, inp.src.len() as int)
}

/// Whether the expression that a parser gives, where it gives one, has only
/// spans that are not empty and lie in the source of the input.
pub open spec fn spanned(r: PR<ExprView>, inp: Input) -> bool {
    r matches Ok((e, _)) ==> e.well_spanned(inp.source, inp.src.len() as int)
}

/// The same for a parser that gives a sequence of expressions.
pub open spec fn list_spanned(r: PR<Seq<ExprView>>, inp: Input) -> bool {
    r matches Ok((v, _)) ==> all_spanned(v, inp)
}

/// Every node of a parsed expression has a span that is not empty and lies
/// in the source that was parsed.
pub proof fn lemma_expr_spans(inp: Input, k: int, prec: u32)
    requires
        at_place(inp, k),
    ensures
        spanned(p_expr(inp, k, prec), inp),
    decreases inp.toks.len() - k, 4nat,
{
    lemma_atom_advances(inp, k);
    lemma_atom_spans(inp, k);
    match p_atom(inp, k) {
        Err(_) => {},
        Ok((atom, k1)) => {
            lemma_token_span(inp, k1);
            lemma_infix_spans(inp, k1, atom, prec, inp.span(k1));
        },
    }
}

/// The part of `lemma_expr_spans` for atoms.
pub proof fn lemma_atom_spans(inp: Input, k: int)
    requires
        at_place(inp, k),
    ensures
        spanned(p_atom(inp, k), inp),
    decreases inp.toks.len() - k, 3nat,
{
    lemma_token_span(inp, k);
    match inp.tok(k) {
        Token::Name => {
            lemma_word_spans(inp, k);
        },
        Token::Int(_) | Token::Float | Token::NormalString | Token::RawString => {},
        _ => {
            lemma_mark_spans(inp, k);
        },
    }
}

/// The part of `lemma_expr_spans` for atoms that start with a name.
pub proof fn lemma_word_spans(inp: Input, k: int)
    requires
        at_place(inp, k),
        inp.tok(k) is Name,
    ensures
        spanned(p_word(inp, k), inp),
    decreases inp.toks.len() - k, 2nat,
{
    lemma_token_span(inp, k);
    if inp.text(k) == lit("true") || inp.text(k) == lit("false") {
    } else if inp.text(k) == lit("if") {
        lemma_if_spans(inp, k);
    } else if inp.text(k) == lit("while") {
        lemma_while_spans(inp, k);
    } else if inp.text(k) == lit("var") {
        lemma_var_spans(inp, k);
    }
}

/// The part of `lemma_expr_spans` for atoms that start with a sign or a
/// bracket.
pub proof fn lemma_mark_spans(inp: Input, k: int)
    requires
        at_place(inp, k),
    ensures
        spanned(p_mark(inp, k), inp),
    decreases inp.toks.len() - k, 2nat,
{
    lemma_next(inp, k);
    lemma_token_span(inp, k);
    if unop_of(inp.tok(k)) is Some {
        lemma_expr_spans(inp, k + 1, PREC_UNARY);
    } else if inp.tok(k) is Dollar {
        lemma_intrinsic_spans(inp, k + 1, inp.span(k));
    } else if inp.tok(k) is LBracket {
        lemma_exprs_spans(inp, k + 1, Token::RBracket, Seq::empty());
    } else if inp.tok(k) is LParen {
        lemma_expr_spans(inp, k + 1, 0);
    } else if inp.tok(k) is LBrace {
        lemma_block_spans(inp, k);
    }
}

/// The part of `lemma_expr_spans` for blocks.
pub proof fn lemma_block_spans(inp: Input, k: int)
    requires
        at_place(inp, k),
    ensures
        spanned(p_block(inp, k), inp),
    decreases inp.toks.len() - k, 1nat,
{
    lemma_token_span(inp, k);
    lemma_expect(inp, k, Pattern::Exact(Token::LBrace));
    match inp.expect(k, Pattern::Exact(Token::LBrace)) {
        Err(_) => {},
        Ok((_, k1)) => {
            lemma_delims_not_back(inp, k1);
            lemma_stmts_spans(inp, p_delims(inp, k1), inp.span(k), Seq::empty());
        },
    }
}

/// The part of `lemma_expr_spans` for the statements of a block.
pub proof fn lemma_stmts_spans(inp: Input, k: int, span: Span, acc: Seq<ExprView>)
    requires
        at_place(inp, k),
        in_source(span, inp),
        all_spanned(acc, inp),
    ensures
        spanned(p_stmts(inp, k, span, acc), inp),
    decreases inp.toks.len() - k, 6nat,
{
    lemma_next(inp, k);
    if inp.next(k) < inp.toks.len() {
        lemma_token_span(inp, inp.next(k));
    }
    if !(inp.tok(k) is RBrace) {
        lemma_stmt_advances(inp, k);
        lemma_stmt_spans(inp, k);
        match p_stmt(inp, k) {
            Err(_) => {},
            Ok((e, k1)) => {
                lemma_stmts_spans(inp, k1, span, acc.push(e));
            },
        }
    }
}

/// The part of `lemma_expr_spans` for statements.
pub proof fn lemma_stmt_spans(inp: Input, k: int)
    requires
        at_place(inp, k),
    ensures
        spanned(p_stmt(inp, k), inp),
    decreases inp.toks.len() - k, 5nat,
{
    lemma_expr_spans(inp, k, 0);
}

/// The part of `lemma_expr_spans` for conditionals.
pub proof fn lemma_if_spans(inp: Input, k: int)
    requires
        at_place(inp, k),
        inp.tok(k) is Name,
    ensures
        spanned(p_if(inp, k), inp),
    decreases inp.toks.len() - k, 1nat,
{
    lemma_next(inp, k);
    lemma_token_span(inp, k);
    lemma_expr_advances(inp, k + 1, 0);
    lemma_expr_spans(inp, k + 1, 0);
    match p_expr(inp, k + 1, 0) {
        Err(_) => {},
        Ok((cond, k1)) => {
            lemma_block_advances(inp, k1);
            lemma_block_spans(inp, k1);
            match p_block(inp, k1) {
                Err(_) => {},
                Ok((body, k2)) => {
                    lemma_else_spans(inp, k2, inp.span(k), seq![(cond, body)], None);
                },
            }
        },
    }
}

/// The part of `lemma_expr_spans` for the rest of a conditional.
pub proof fn lemma_else_spans(
    inp: Input,
    k: int,
    span: Span,
    pairs: Seq<(ExprView, ExprView)>,
    other: Option<ExprView>,
)
    requires
        at_place(inp, k),
        in_source(span, inp),
        pairs_spanned(pairs, inp),
        other matches Some(block) ==> block.well_spanned(inp.source, inp.src.len() as int),
    ensures
        spanned(p_else(inp, k, span, pairs, other), inp),
    decreases inp.toks.len() - k, 5nat,
{
    lemma_next(inp, k);
    lemma_token_span(inp, k);
    if inp.at_word(k, lit("else")) {
        lemma_next(inp, k + 1);
        if inp.at_word(k + 1, lit("if")) {
            lemma_expr_advances(inp, k + 2, 0);
            lemma_expr_spans(inp, k + 2, 0);
            match p_expr(inp, k + 2, 0) {
                Err(_) => {},
                Ok((cond, k1)) => {
                    lemma_block_advances(inp, k1);
                    lemma_block_spans(inp, k1);
                    match p_block(inp, k1) {
                        Err(_) => {},
                        Ok((body, k2)) => {
                            lemma_else_spans(inp, k2, span, pairs.push((cond, body)), other);
                        },
                    }
                },
            }
        } else if inp.tok(k + 1) is LBrace {
            lemma_block_advances(inp, k + 1);
            lemma_block_spans(inp, k + 1);
            match p_block(inp, k + 1) {
                Err(_) => {},
                Ok((block, k2)) => {
                    lemma_else_spans(inp, k2, span, pairs, Some(block));
                },
            }
        }
    } else {
        let whole = span.spec_upto(inp.span(k));
        let last = last_branch(whole, other);
        assert(in_source(whole, inp));
        assert(last.well_spanned(inp.source, inp.src.len() as int)) by {
            if other is None {
                assert(last == ExprView::Block(whole, Seq::empty()));
                assert(last.span() == whole);
            }
        }
        let e = ExprView::If(whole, pairs, Box::new(last));
        assert(e.span() == whole);
        assert(e.well_spanned(inp.source, inp.src.len() as int));
    }
}

/// The part of `lemma_expr_spans` for loops.
pub proof fn lemma_while_spans(inp: Input, k: int)
    requires
        at_place(inp, k),
        inp.tok(k) is Name,
    ensures
        spanned(p_while(inp, k), inp),
    decreases inp.toks.len() - k, 1nat,
{
    lemma_next(inp, k);
    lemma_token_span(inp, k);
    lemma_expr_advances(inp, k + 1, 0);
    lemma_expr_spans(inp, k + 1, 0);
    match p_expr(inp, k + 1, 0) {
        Err(_) => {},
        Ok((_, k1)) => {
            lemma_block_advances(inp, k1);
            lemma_block_spans(inp, k1);
            match p_block(inp, k1) {
                Err(_) => {},
                Ok((_, k2)) => {
                    lemma_token_span(inp, k2);
                },
            }
        },
    }
}

/// The part of `lemma_expr_spans` for declarations of locals.
pub proof fn lemma_var_spans(inp: Input, k: int)
    requires
        at_place(inp, k),
        inp.tok(k) is Name,
    ensures
        spanned(p_var(inp, k), inp),
    decreases inp.toks.len() - k, 1nat,
{
    lemma_next(inp, k);
    lemma_token_span(inp, k);
    lemma_expect_name(inp, k + 1);
    match inp.expect_name(k + 1) {
        Err(_) => {},
        Ok((_, k1)) => {
            lemma_types_advance(inp, k1);
            match p_opt_type(inp, k1) {
                Err(_) => {},
                Ok((_, k2)) => {
                    lemma_expect(inp, k2, Pattern::Exact(Token::Eq));
                    match inp.expect(k2, Pattern::Exact(Token::Eq)) {
                        Err(_) => {},
                        Ok((_, k3)) => {
                            lemma_expr_advances(inp, k3, 0);
                            lemma_expr_spans(inp, k3, 0);
                            match p_expr(inp, k3, 0) {
                                Err(_) => {},
                                Ok((_, k4)) => {
                                    lemma_token_span(inp, k4);
                                },
                            }
                        },
                    }
                },
            }
        },
    }
}

/// The part of `lemma_expr_spans` for lists of expressions.
pub proof fn lemma_exprs_spans(inp: Input, k: int, close: Token, acc: Seq<ExprView>)
    requires
        at_place(inp, k),
        close != Token::EOF,
        all_spanned(acc, inp),
    ensures
        list_spanned(p_exprs(inp, k, close, acc), inp),
    decreases inp.toks.len() - k, 5nat,
{
    lemma_next(inp, k);
    if inp.tok(k) != close {
        lemma_expr_advances(inp, k, 0);
        lemma_expr_spans(inp, k, 0);
        match p_expr(inp, k, 0) {
            Err(_) => {},
            Ok((e, k1)) => {
                lemma_next(inp, k1);
                if inp.tok(k1) is Comma {
                    lemma_exprs_spans(inp, k1 + 1, close, acc.push(e));
                }
            },
        }
    }
}

/// The part of `lemma_expr_spans` for inline code.
pub proof fn lemma_asm_spans(inp: Input, k: int, span: Span)
    requires
        at_place(inp, k),
        inp.tok(k) is Name,
        in_source(span, inp),
    ensures
        spanned(p_asm(inp, k, span), inp),
    decreases inp.toks.len() - k, 0nat,
{
    lemma_next(inp, k);
    lemma_expect(inp, inp.next(k), Pattern::Exact(Token::LParen));
    match inp.expect(inp.next(k), Pattern::Exact(Token::LParen)) {
        Err(_) => {},
        Ok((_, k1)) => {
            lemma_expect(inp, k1, Pattern::Exact(Token::LBracket));
            match inp.expect(k1, Pattern::Exact(Token::LBracket)) {
                Err(_) => {},
                Ok((_, k2)) => {
                    lemma_exprs_spans(inp, k2, Token::RBracket, Seq::empty());
                },
            }
        },
    }
}

/// The part of `lemma_expr_spans` for loads.
pub proof fn lemma_read_spans(inp: Input, k: int, span: Span, width: Width)
    requires
        at_place(inp, k),
        inp.tok(k) is Name,
        in_source(span, inp),
    ensures
        spanned(p_read(inp, k, span, width), inp),
    decreases inp.toks.len() - k, 0nat,
{
    lemma_next(inp, k);
    lemma_expect(inp, inp.next(k), Pattern::Exact(Token::LParen));
    match inp.expect(inp.next(k), Pattern::Exact(Token::LParen)) {
        Err(_) => {},
        Ok((_, k1)) => {
            lemma_expr_advances(inp, k1, 0);
            lemma_expr_spans(inp, k1, 0);
            match p_expr(inp, k1, 0) {
                Err(_) => {},
                Ok((_, k2)) => {
                    lemma_offset_advances(inp, k2);
                    match p_offset(inp, k2) {
                        Err(_) => {},
                        Ok((_, k3)) => {
                            lemma_token_span(inp, k3);
                        },
                    }
                },
            }
        },
    }
}

/// The part of `lemma_expr_spans` for stores.
pub proof fn lemma_write_spans(inp: Input, k: int, span: Span, width: Width)
    requires
        at_place(inp, k),
        inp.tok(k) is Name,
        in_source(span, inp),
    ensures
        spanned(p_write(inp, k, span, width), inp),
    decreases inp.toks.len() - k, 0nat,
{
    lemma_next(inp, k);
    lemma_expect(inp, inp.next(k), Pattern::Exact(Token::LParen));
    match inp.expect(inp.next(k), Pattern::Exact(Token::LParen)) {
        Err(_) => {},
        Ok((_, k1)) => {
            lemma_expr_advances(inp, k1, 0);
            lemma_expr_spans(inp, k1, 0);
            match p_expr(inp, k1, 0) {
                Err(_) => {},
                Ok((_, k2)) => {
                    lemma_expect(inp, k2, Pattern::Exact(Token::Comma));
                    match inp.expect(k2, Pattern::Exact(Token::Comma)) {
                        Err(_) => {},
                        Ok((_, k3)) => {
                            lemma_expr_advances(inp, k3, 0);
                            lemma_expr_spans(inp, k3, 0);
                            match p_expr(inp, k3, 0) {
                                Err(_) => {},
                                Ok((_, k4)) => {
                                    lemma_offset_advances(inp, k4);
                                    match p_offset(inp, k4) {
                                        Err(_) => {},
                                        Ok((_, k5)) => {
                                            lemma_token_span(inp, k5);
                                        },
                                    }
                                },
                            }
                        },
                    }
                },
            }
        },
    }
}

/// The part of `lemma_expr_spans` for intrinsics.
pub proof fn lemma_intrinsic_spans(inp: Input, k: int, span: Span)
    requires
        at_place(inp, k),
        in_source(span, inp),
    ensures
        spanned(p_intrinsic(inp, k, span), inp),
    decreases inp.toks.len() - k, 1nat,
{
    if inp.tok(k) is Name {
        lemma_next(inp, k);
        if inp.text(k) == lit("cstr") {
            reveal(p_cstr);
            lemma_expect(inp, inp.next(k), Pattern::Exact(Token::LParen));
            match inp.expect(inp.next(k), Pattern::Exact(Token::LParen)) {
                Err(_) => {},
                Ok((_, k1)) => {
                    lemma_expect_string(inp, k1);
                    match inp.expect_string(k1) {
                        Err(_) => {},
                        Ok((_, k2)) => {
                            lemma_expect(inp, k2, Pattern::Exact(Token::RParen));
                            match inp.expect(k2, Pattern::Exact(Token::RParen)) {
                                Err(_) => {},
                                Ok((_, k3)) => {
                                    lemma_token_span(inp, k3);
                                },
                            }
                        },
                    }
                },
            }
        } else if inp.text(k) == lit("asm") {
            lemma_asm_spans(inp, k, span);
        } else if read_width(inp.text(k)) is Some {
            lemma_read_spans(inp, k, span, read_width(inp.text(k))->0);
        } else if write_width(inp.text(k)) is Some {
            lemma_write_spans(inp, k, span, write_width(inp.text(k))->0);
        }
    }
}

/// The part of `lemma_expr_spans` for one operator with what belongs to it.
pub proof fn lemma_infix_step_spans(inp: Input, k: int, lhs: ExprView, start: Span)
    requires
        at_place(inp, k),
        infix_prec(inp, k) is Some,
        lhs.well_spanned(inp.source, inp.src.len() as int),
        start.end <= inp.src.len(),
    ensures
        spanned(p_infix_step(inp, k, lhs, start), inp),
    decreases inp.toks.len() - k, 1nat,
{
    reveal(infix_prec);
    lemma_next(inp, k);
    lemma_token_span(inp, k);
    if inp.tok(k) is LParen {
        match lhs {
            ExprView::GetVar(..) => {
                lemma_exprs_advance(inp, k + 1, Token::RParen, Seq::empty());
                lemma_exprs_spans(inp, k + 1, Token::RParen, Seq::empty());
                match p_exprs(inp, k + 1, Token::RParen, Seq::empty()) {
                    Err(_) => {},
                    Ok((_, k1)) => {
                        lemma_token_span(inp, k1);
                    },
                }
            },
            _ => {},
        }
    } else if inp.tok(k) is Dot {
        reveal(p_ascribe);
    } else if inp.tok(k) is Eq {
        match lhs {
            ExprView::GetVar(..) => {
                lemma_expr_spans(inp, k + 1, 0);
            },
            _ => {},
        }
    } else if inp.tok(k) is Name {
        reveal(logic_expr);
        let negated = inp.text(k) == lit("is") && inp.at_word(inp.next(k), lit("not"));
        lemma_next(inp, inp.next(k));
        let k0 = if negated {
            inp.next(inp.next(k))
        } else {
            inp.next(k)
        };
        let q = (infix_prec(inp, k)->0 + 1) as u32;
        lemma_expr_advances(inp, k0, q);
        lemma_expr_spans(inp, k0, q);
        match p_expr(inp, k0, q) {
            Err(_) => {},
            Ok((rhs, k1)) => {
                lemma_token_span(inp, k1);
                let span = op_span(inp, k, start, k1);
                assert(in_source(span, inp));
                let e = logic_expr(inp.text(k), negated, span, lhs, rhs);
                if inp.text(k) == lit("and") {
                    let body = ExprView::AssertType(span, Type::Bool, Box::new(rhs));
                    let other = ExprView::Bool(span, false);
                    let pairs = seq![(lhs, body)];
                    assert(body.well_spanned(inp.source, inp.src.len() as int));
                    assert(other.well_spanned(inp.source, inp.src.len() as int));
                    assert(pairs[0] == (lhs, body));
                    assert(pairs_spanned(pairs, inp));
                    assert(e == ExprView::If(span, pairs, Box::new(other)));
                    assert(e.well_spanned(inp.source, inp.src.len() as int));
                } else if inp.text(k) == lit("or") {
                    let body = ExprView::Bool(span, true);
                    let pairs = seq![(lhs, body)];
                    assert(body.well_spanned(inp.source, inp.src.len() as int));
                    assert(pairs[0] == (lhs, body));
                    assert(pairs_spanned(pairs, inp));
                    assert(e == ExprView::If(span, pairs, Box::new(rhs)));
                    assert(e.well_spanned(inp.source, inp.src.len() as int));
                } else {
                    assert(e.well_spanned(inp.source, inp.src.len() as int));
                }
            },
        }
    } else {
        let q = (binop_prec(binop_of(inp.tok(k))->0) + 1) as u32;
        lemma_expr_advances(inp, k + 1, q);
        lemma_expr_spans(inp, k + 1, q);
        match p_expr(inp, k + 1, q) {
            Err(_) => {},
            Ok((_, k1)) => {
                lemma_token_span(inp, k1);
            },
        }
    }
}

/// The part of `lemma_expr_spans` for the operators behind an operand.
pub proof fn lemma_infix_spans(inp: Input, k: int, lhs: ExprView, prec: u32, start: Span)
    requires
        at_place(inp, k),
        lhs.well_spanned(inp.source, inp.src.len() as int),
        start.end <= inp.src.len(),
    ensures
        spanned(p_infix(inp, k, lhs, prec, start), inp),
    decreases inp.toks.len() - k, 2nat,
{
    match infix_prec(inp, k) {
        None => {},
        Some(q) => {
            if prec <= q {
                lemma_infix_step_advances(inp, k, lhs, start);
                lemma_infix_step_spans(inp, k, lhs, start);
                match p_infix_step(inp, k, lhs, start) {
                    Err(_) => {},
                    Ok((lhs1, k1)) => {
                        lemma_infix_spans(inp, k1, lhs1, prec, start);
                    },
                }
            }
        },
    }
}

/// The spans of what stands at the top of a file are not empty and lie in
/// the source, and so do the spans of the expressions in it.
pub proof fn lemma_item_spans(inp: Input, k: int)
    requires
        at_place(inp, k),
        inp.tok(k) is Name,
    ensures
        p_import(inp, k) matches Ok((i, _)) ==> in_source(i.span(), inp),
        p_func(inp, k) matches Ok((f, _)) ==> in_source(f.span, inp) && f.body.well_spanned(
            inp.source,
            inp.src.len() as int,
        ),
        p_globalvar(inp, k) matches Ok((v, _)) ==> in_source(v.span, inp) && v.init.well_spanned(
            inp.source,
            inp.src.len() as int,
        ),
        p_constant(inp, k) matches Ok((c, _)) ==> in_source(c.span, inp),
{
    lemma_next(inp, k);
    lemma_token_span(inp, k);
    lemma_items_advance(inp, k);
    let k0 = inp.next(k);
    assert(p_import(inp, k) matches Ok((i, _)) ==> in_source(i.span(), inp)) by {
        reveal(p_import);
        match p_import(inp, k) {
            Err(_) => {},
            Ok((_, k5)) => {
                lemma_token_span(inp, k5);
            },
        }
    }
    assert(p_constant(inp, k) matches Ok((c, _)) ==> in_source(c.span, inp)) by {
        reveal(p_constant);
        match p_constant(inp, k) {
            Err(_) => {},
            Ok((_, k3)) => {
                lemma_token_span(inp, k3);
            },
        }
    }
    assert(p_func(inp, k) matches Ok((f, _)) ==> in_source(f.span, inp) && f.body.well_spanned(
        inp.source,
        inp.src.len() as int,
    )) by {
        reveal(p_func);
        lemma_attrs_not_back(
            inp,
            k0,
            inp.span(k),
            lit("Function attribute"),
            Visibility::Private,
        );
        match p_attrs(inp, k0, inp.span(k), lit("Function attribute")) {
            Err(_) => {},
            Ok((_, k1)) => {
                lemma_expect_name(inp, k1);
                match inp.expect_name(k1) {
                    Err(_) => {},
                    Ok((_, k2)) => {
                        lemma_expect(inp, k2, Pattern::Exact(Token::LParen));
                        match inp.expect(k2, Pattern::Exact(Token::LParen)) {
                            Err(_) => {},
                            Ok((_, k3)) => {
                                lemma_params_advance(inp, k3, Seq::empty());
                                match p_params(inp, k3, Seq::empty()) {
                                    Err(_) => {},
                                    Ok((_, k4)) => {
                                        lemma_types_advance(inp, k4);
                                        match p_opt_return_type(inp, k4) {
                                            Err(_) => {},
                                            Ok((_, k5)) => {
                                                lemma_block_advances(inp, k5);
                                                lemma_block_spans(inp, k5);
                                                match p_block(inp, k5) {
                                                    Err(_) => {},
                                                    Ok((_, k6)) => {
                                                        lemma_token_span(inp, k6);
                                                    },
                                                }
                                            },
                                        }
                                    },
                                }
                            },
                        }
                    },
                }
            },
        }
    }
    assert(p_globalvar(inp, k) matches Ok((v, _)) ==> in_source(v.span, inp)
        && v.init.well_spanned(inp.source, inp.src.len() as int)) by {
        reveal(p_globalvar);
        lemma_attrs_not_back(
            inp,
            k0,
            inp.span(k),
            lit("Global variable attribute"),
            Visibility::Private,
        );
        match p_attrs(inp, k0, inp.span(k), lit("Global variable attribute")) {
            Err(_) => {},
            Ok((_, k1)) => {
                lemma_expect_name(inp, k1);
                match inp.expect_name(k1) {
                    Err(_) => {},
                    Ok((_, k2)) => {
                        lemma_types_advance(inp, k2);
                        match p_opt_type(inp, k2) {
                            Err(_) => {},
                            Ok((_, k3)) => {
                                lemma_expect(inp, k3, Pattern::Exact(Token::Eq));
                                match inp.expect(k3, Pattern::Exact(Token::Eq)) {
                                    Err(_) => {},
                                    Ok((_, k4)) => {
                                        lemma_expr_spans(inp, k4, 0);
                                    },
                                }
                            },
                        }
                    },
                }
            },
        }
    }
}

/// The imports of a file have spans that are not empty and lie in the
/// source.
pub proof fn lemma_imports_spans(inp: Input, k: int, acc: Seq<ImportView>)
    requires
        at_place(inp, k),
        forall|i: int| 0 <= i < acc.len() ==> in_source((#[trigger] acc[i]).span(), inp),
    ensures
        p_imports(inp, k, acc) matches Ok((v, k1)) ==> k <= k1 < inp.toks.len() && forall|i: int|
            0 <= i < v.len() ==> in_source((#[trigger] v[i]).span(), inp),
    decreases inp.toks.len() - k,
{
    if inp.at_word(k, lit("import")) {
        lemma_item_spans(inp, k);
        lemma_items_advance(inp, k);
        match p_import(inp, k) {
            Err(_) => {},
            Ok((imp, k1)) => {
                lemma_delims_not_back(inp, k1);
                lemma_imports_spans(inp, p_delims(inp, k1), acc.push(imp));
            },
        }
    }
}

/// The input with other constants has the same tokens in the same source.
pub proof fn lemma_consts_keep_place(inp: Input, consts: Consts, k: int)
    requires
        at_place(inp, k),
    ensures
        at_place(Input { consts, ..inp }, k),
{
    lemma_input_wf(inp);
    lemma_input_wf(Input { consts, ..inp });
}

/// Every node of a parsed file has a span that is not empty and lies in the
/// source that was parsed.
pub proof fn lemma_items_spans(inp: Input, k: int, file: FileView)
    requires
        at_place(inp, k),
        file.well_spanned(inp.source, inp.src.len() as int),
    ensures
        p_items(inp, k, file) matches Ok(f) ==> f.well_spanned(inp.source, inp.src.len() as int),
    decreases inp.toks.len() - k,
{
    reveal(p_item_func);
    reveal(p_item_var);
    reveal(p_item_const);
    if inp.tok(k) is EOF {
    } else if inp.at_word(k, lit("fn")) {
        lemma_item_spans(inp, k);
        lemma_items_advance(inp, k);
        match p_item_func(inp, k, file) {
            Err(_) => {},
            Ok((file1, k1)) => {
                if k < k1 < inp.toks.len() {
                    lemma_items_spans(inp, k1, file1);
                }
            },
        }
    } else if inp.at_word(k, lit("var")) {
        lemma_item_spans(inp, k);
        lemma_items_advance(inp, k);
        match p_item_var(inp, k, file) {
            Err(_) => {},
            Ok((file1, k1)) => {
                if k < k1 < inp.toks.len() {
                    lemma_items_spans(inp, k1, file1);
                }
            },
        }
    } else if inp.at_word(k, lit("const")) {
        lemma_item_spans(inp, k);
        lemma_items_advance(inp, k);
        match p_item_const(inp, k, file) {
            Err(_) => {},
            Ok((file1, k1)) => {
                if k < k1 < inp.toks.len() {
                    let inp1 = with_last_const(inp, file1);
                    lemma_consts_keep_place(inp, inp1.consts, k1);
                    lemma_items_spans(inp1, k1, file1);
                }
            },
        }
    }
}

/// Every node of a parsed file has a span that is not empty and lies in the
/// source that was parsed.
pub proof fn lemma_file_spans(inp: Input, k: int)
    requires
        at_place(inp, k),
    ensures
        p_file(inp, k) matches Ok(f) ==> f.well_spanned(inp.source, inp.src.len() as int),
{
    lemma_delims_not_back(inp, k);
    lemma_imports_spans(inp, p_delims(inp, k), Seq::empty());
    match p_imports(inp, p_delims(inp, k), Seq::empty()) {
        Err(_) => {},
        Ok((imports, k1)) => {
            lemma_delims_not_back(inp, k1);
            lemma_items_spans(inp, p_delims(inp, k1), FileView { imports, ..empty_file() });
        },
    }
}

} // verus!
