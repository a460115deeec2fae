//! The type of an expression, found without translating it.
use crate::error::{type_error, Error, ErrorView};
use crate::ir::{Binop, Expr, ExprView, ReturnType, Type, Unop};
use crate::scope::{no_function, GlobalScopeView, LocalScope, LocalScopeView};
use crate::span::Span;
use crate::text::{lit, lit_vec};
use crate::tr::cast::{common_type, spec_common_type};
use vstd::prelude::*;

verus! {

/// The error for an expression that gives no value where one is needed.
pub open spec fn no_value(span: Span, got: Seq<u8>) -> ErrorView {
    type_error(span, lit("any-value"), got)
}

fn no_value_error(span: Span, got: &str) -> (r: Error)
    ensures
        r@ == no_value(span, lit(got)),
{
    Error::Type { span, expected: lit_vec("any-value"), got: lit_vec(got) }
}

/// The type of the result of a binary operator on operands whose types
/// have `a` and `b` as their guesses, where the operator fixes it alone.
pub open spec fn fixed_binop_type(op: Binop) -> Option<Type> {
    match op {
        Binop::Add | Binop::Subtract | Binop::Multiply | Binop::Remainder => None,
        Binop::Divide => Some(Type::F32),
        Binop::TruncDivide => Some(Type::I32),
        Binop::BitwiseAnd
        | Binop::BitwiseOr
        | Binop::BitwiseXor
        | Binop::ShiftLeft
        | Binop::ShiftRight => Some(Type::I32),
        Binop::Is
        | Binop::IsNot
        | Binop::Equal
        | Binop::NotEqual
        | Binop::Less
        | Binop::LessOrEqual
        | Binop::Greater
        | Binop::GreaterOrEqual => Some(Type::Bool),
    }
}

/// The type of the value of `e` in local scope `l` over global scope `g`.
///
/// A literal has the type of its kind; a name that of what it stands for; a
/// call that of what the function returns; a block that of its last
/// expression; a conditional that of its first branch; an arithmetic
/// operator the common type of its operands. An expression that gives no
/// value is an error.
#[verifier::opaque]
pub open spec fn spec_guess_type(l: LocalScopeView, g: GlobalScopeView, e: ExprView) -> Result<
    Type,
    ErrorView,
>
    decreases e,
{
    match e {
        ExprView::Bool(..) => Ok(Type::Bool),
        ExprView::Int(..) => Ok(Type::I32),
        ExprView::Float(..) => Ok(Type::F32),
        ExprView::String(..) => Ok(Type::String),
        ExprView::List(..) => Ok(Type::List),
        ExprView::GetVar(span, name) => match l.get_or_err(g, span, name) {
            Ok(entry) => Ok(entry.spec_type()),
            Err(e) => Err(e),
        },
        ExprView::SetVar(span, ..) => Err(no_value(span, lit("Void (setvar)"))),
        ExprView::DeclVar(span, ..) => Err(no_value(span, lit("Void (declvar)"))),
        ExprView::Block(span, items) => if items.len() == 0 {
            Err(no_value(span, lit("Void (empty-block)")))
        } else {
            spec_guess_type(l, g, items[items.len() - 1])
        },
        ExprView::FunctionCall(span, name, _) => match g.function(name) {
            None => Err(no_function(span, name)),
            Some(f) => match f.type_.return_type {
                ReturnType::Value(t) => Ok(t),
                ReturnType::Void => Err(no_value(span, lit("Void (void-returning-function)"))),
                ReturnType::NoReturn => Err(no_value(span, lit("NoReturn (noreturn-function)"))),
            },
        },
        ExprView::If(_, pairs, other) => if pairs.len() > 0 {
            spec_guess_type(l, g, pairs[0].1)
        } else {
            spec_guess_type(l, g, *other)
        },
        ExprView::While(span, ..) => Err(no_value(span, lit("Void (while)"))),
        ExprView::Binop(span, op, left, right) => match fixed_binop_type(op) {
            Some(t) => Ok(t),
            None => match spec_guess_type(l, g, *left) {
                Err(e) => Err(e),
                Ok(a) => match spec_guess_type(l, g, *right) {
                    Err(e) => Err(e),
                    Ok(b) => spec_common_type(span, a, b),
                },
            },
        },
        ExprView::Unop(_, op, x) => match op {
            Unop::Minus | Unop::Plus => spec_guess_type(l, g, *x),
            Unop::Not => Ok(Type::Bool),
        },
        ExprView::AssertType(_, t, _) => Ok(t),
        ExprView::CString(..) => Ok(Type::I32),
        ExprView::Asm(span, _, t, _) => match t {
            ReturnType::Value(t) => Ok(t),
            ReturnType::Void => Err(no_value(span, lit("Void (void-asm-expr)"))),
            ReturnType::NoReturn => Err(no_value(span, lit("NoReturn (noreturn-asm-expr)"))),
        },
        ExprView::Read(_, width, ..) => Ok(width.spec_value_type()),
        ExprView::Write(span, ..) => Err(no_value(span, lit("Void (write)"))),
    }
}

fn fixed_type(op: Binop) -> (r: Option<Type>)
    ensures
        r == fixed_binop_type(op),
{
    match op {
        Binop::Add | Binop::Subtract | Binop::Multiply | Binop::Remainder => None,
        Binop::Divide => Some(Type::F32),
        Binop::TruncDivide => Some(Type::I32),
        Binop::BitwiseAnd
        | Binop::BitwiseOr
        | Binop::BitwiseXor
        | Binop::ShiftLeft
        | Binop::ShiftRight => Some(Type::I32),
        Binop::Is
        | Binop::IsNot
        | Binop::Equal
        | Binop::NotEqual
        | Binop::Less
        | Binop::LessOrEqual
        | Binop::Greater
        | Binop::GreaterOrEqual => Some(Type::Bool),
    }
}

/// The type of the value of `expr`, or the error that it has none.
pub fn guess_type(lscope: &LocalScope, expr: &Expr) -> (r: Result<Type, Error>)
    requires
        lscope.wf(),
    ensures
        match spec_guess_type(lscope@, lscope.global(), expr@) {
            Ok(t) => r == Ok::<Type, Error>(t),
            Err(e) => r matches Err(x) && x@ == e,
        },
    decreases expr,
{
    proof {
        reveal_with_fuel(Expr::view, 2);
        reveal(spec_guess_type);
    }
    match expr {
        Expr::Bool(..) => Ok(Type::Bool),
        Expr::Int(..) => Ok(Type::I32),
        Expr::Float(..) => Ok(Type::F32),
        Expr::String(..) => Ok(Type::String),
        Expr::List(..) => Ok(Type::List),
        Expr::GetVar(span, name) => match lscope.get_or_err(*span, name.as_slice()) {
            Ok(entry) => Ok(entry.type_()),
            Err(e) => Err(e),
        },
        Expr::SetVar(span, ..) => Err(no_value_error(*span, "Void (setvar)")),
        Expr::DeclVar(span, ..) => Err(no_value_error(*span, "Void (declvar)")),
        Expr::Block(span, exprs) => {
            if exprs.len() == 0 {
                assert(expr@->Block_1.len() == exprs@.len());
                Err(no_value_error(*span, "Void (empty-block)"))
            } else {
                proof {
                    assert(decreases_to!(*expr => expr->Block_1));
                    assert(decreases_to!(*exprs => exprs@));
                    assert(decreases_to!(exprs@ => exprs@[exprs.len() - 1]));
                    assert(expr@->Block_1.len() == exprs@.len());
                    assert(expr@->Block_1[exprs.len() - 1] == exprs@[exprs.len() - 1]@);
                }
                guess_type(lscope, &exprs[exprs.len() - 1])
            }
        },
        Expr::FunctionCall(span, name, _) => match lscope.getf_or_err(*span, name.as_slice()) {
            Err(e) => Err(e),
            Ok(f) => match f.return_type {
                ReturnType::Value(t) => Ok(t),
                ReturnType::Void => Err(no_value_error(*span, "Void (void-returning-function)")),
                ReturnType::NoReturn => Err(no_value_error(*span, "NoReturn (noreturn-function)")),
            },
        },
        Expr::If(_, pairs, other) => {
            if pairs.len() > 0 {
                proof {
                    assert(decreases_to!(*expr => expr->If_1));
                    assert(decreases_to!(*pairs => pairs@));
                    assert(decreases_to!(pairs@ => pairs@[0]));
                    assert(decreases_to!(pairs@[0] => pairs@[0].1));
                    assert(expr@->If_1.len() == pairs@.len());
                    assert(expr@->If_1[0] == (pairs@[0].0@, pairs@[0].1@));
                }
                guess_type(lscope, &pairs[0].1)
            } else {
                assert(expr@->If_1.len() == pairs@.len());
                guess_type(lscope, other)
            }
        },
        Expr::While(span, ..) => Err(no_value_error(*span, "Void (while)")),
        Expr::Binop(span, op, left, right) => match fixed_type(*op) {
            Some(t) => Ok(t),
            None => match guess_type(lscope, left) {
                Err(e) => Err(e),
                Ok(a) => match guess_type(lscope, right) {
                    Err(e) => Err(e),
                    Ok(b) => common_type(*span, a, b),
                },
            },
        },
        Expr::Unop(_, op, x) => match op {
            Unop::Minus | Unop::Plus => guess_type(lscope, x),
            Unop::Not => Ok(Type::Bool),
        },
        Expr::AssertType(_, t, _) => Ok(*t),
        Expr::CString(..) => Ok(Type::I32),
        Expr::Asm(span, _, t, _) => match t {
            ReturnType::Value(t) => Ok(*t),
            ReturnType::Void => Err(no_value_error(*span, "Void (void-asm-expr)")),
            ReturnType::NoReturn => Err(no_value_error(*span, "NoReturn (noreturn-asm-expr)")),
        },
        Expr::Read(_, width, ..) => Ok(width.value_type()),
        Expr::Write(span, ..) => Err(no_value_error(*span, "Void (write)")),
    }
}

} // verus!
