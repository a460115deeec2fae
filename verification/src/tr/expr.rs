//! The translation of expressions.
//!
//! An expression is translated for a place that takes a value of a type,
//! takes nothing, or is never reached from it. The code leaves on the stack
//! what the place takes. A value on the heap that comes on the stack has
//! been retained once for it; where it leaves the stack for no new holder,
//! it is released.
use crate::error::{type_error, Error, ErrorView};
use crate::grammar::logic_expr;
use crate::ir::{
    exprs_view, pairs_view, Binop, ConstValue, Expr, ExprView, ReturnType, Type, Unop, WasmType,
    Width, TAG_BOOL, TAG_F32, TAG_I32,
};
use crate::out::{Out, OutView};
use crate::scope::{no_function, GlobalScopeView, LocalScope, LocalScopeView, ScopeEntry};
use crate::sink::SinkId;
use crate::span::Span;
use crate::text::{dec_digits, dec_int, dec_int_vec, dec_vec, lit, lit_vec, push_lit};
use crate::tr::cast::{
    auto_cast, cast_to_id, common_type, explicit_cast, spec_auto_cast, spec_cast_to_id,
    spec_common_type, spec_explicit_cast,
};
use crate::tr::guess::{guess_type, spec_guess_type};
use crate::tr::retain::{
    raw_dup, release, release_var, retain, spec_raw_dup, spec_release, spec_release_var,
    spec_retain, translate_type, var_get, var_set, write_var_get, write_var_set, DropPolicy, Scope,
};
use crate::tr::St;
use vstd::pervasive::unreached;
use vstd::prelude::*;
use vstd::string::is_ascii_spec_bytes;

verus! {

/// The result of a step of the translation: the next state, or the error
/// that ends it.
pub type Res = Result<St, ErrorView>;

/// Whether what a function did is what its spec function says: it returned
/// normally and left the state `(out, l)` that `spec` names, or it returned
/// the error that `spec` names.
pub open spec fn refines(r: Result<(), Error>, spec: Res, out: OutView, l: LocalScopeView) -> bool {
    match spec {
        Ok(st) => r is Ok && out == st.out && l == st.l,
        Err(e) => r matches Err(x) && x@ == e,
    }
}

/// The error for data that does not fit into 32-bit memory.
pub open spec fn data_overflow(span: Span) -> ErrorView {
    type_error(span, lit("data within 32-bit memory"), lit("data segment overflow"))
}

/// The error for a function with more loops than there are labels.
pub open spec fn label_overflow(span: Span) -> ErrorView {
    type_error(span, lit("fewer loops"), lit("label overflow"))
}

/// The output with a constant instruction in brackets.
#[verifier::opaque]
pub open spec fn w_const(o: OutView, sink: SinkId, t: Seq<u8>, text: Seq<u8>) -> OutView {
    o.w(sink, lit("(")).w(sink, t).w(sink, lit(".const ")).w(sink, text).w(sink, lit(")")).nl(sink)
}

/// The digit that stands for a truth value.
pub open spec fn bool_digit(x: bool) -> Seq<u8> {
    if x {
        lit("1")
    } else {
        lit("0")
    }
}

/// A truth value: `i32` 1 or 0, boxed where a boxed value is taken.
#[verifier::opaque]
pub open spec fn tr_bool(sink: SinkId, st: St, etype: ReturnType, span: Span, x: bool) -> Res {
    match etype {
        ReturnType::Value(Type::Bool) => Ok(
            St { out: w_const(st.out, sink, lit("i32"), bool_digit(x)), ..st },
        ),
        ReturnType::Value(Type::Id) => Ok(
            St {
                out: spec_cast_to_id(
                    w_const(st.out, sink, lit("i32"), bool_digit(x)),
                    sink,
                    TAG_BOOL,
                ),
                ..st
            },
        ),
        ReturnType::Void => Ok(st),
        _ => Err(type_error(span, etype.name(), lit("Bool"))),
    }
}

/// An integer: a constant of the number type that is taken, or a boxed
/// `i32`.
#[verifier::opaque]
pub open spec fn tr_int(sink: SinkId, st: St, etype: ReturnType, span: Span, x: i64) -> Res {
    match etype {
        ReturnType::Value(Type::I32) | ReturnType::Value(Type::I64) | ReturnType::Value(
            Type::F32,
        ) | ReturnType::Value(Type::F64) => Ok(
            St {
                out: w_const(st.out, sink, etype->Value_0.spec_wasm().name(), dec_int(x as int)),
                ..st
            },
        ),
        ReturnType::Value(Type::Id) => Ok(
            St {
                out: spec_cast_to_id(
                    w_const(st.out, sink, lit("i32"), dec_int(x as int)),
                    sink,
                    TAG_I32,
                ),
                ..st
            },
        ),
        ReturnType::Void => Ok(st),
        _ => Err(type_error(span, etype.name(), lit("Int"))),
    }
}

/// A number with a fraction, given as it is written: a constant of the
/// floating-point type that is taken, or a boxed `f32`.
#[verifier::opaque]
pub open spec fn tr_float(sink: SinkId, st: St, etype: ReturnType, span: Span, text: Seq<u8>)
    -> Res {
    match etype {
        ReturnType::Value(Type::F32) | ReturnType::Value(Type::F64) => Ok(
            St { out: w_const(st.out, sink, etype->Value_0.spec_wasm().name(), text), ..st },
        ),
        ReturnType::Value(Type::Id) => Ok(
            St {
                out: spec_cast_to_id(
                    w_const(st.out, sink, lit("f32"), text).wln(sink, lit("i32.reinterpret_f32")),
                    sink,
                    TAG_F32,
                ),
                ..st
            },
        ),
        ReturnType::Void => Ok(st),
        _ => Err(type_error(span, etype.name(), lit("Float"))),
    }
}

/// A string: the address of the interned literal, retained, and converted
/// to what is taken.
#[verifier::opaque]
pub open spec fn tr_string(sink: SinkId, st: St, etype: ReturnType, span: Span, value: Seq<u8>)
    -> Res {
    if etype == ReturnType::Void {
        Ok(st)
    } else {
        match st.out.intern_str(value) {
            None => Err(data_overflow(span)),
            Some((o, ptr)) => spec_auto_cast(
                spec_retain(
                    St { out: w_const(o, sink, lit("i32"), dec_digits(ptr as nat)), ..st },
                    sink,
                    Type::String,
                    DropPolicy::Keep,
                ),
                sink,
                span,
                ReturnType::Value(Type::String),
                etype,
            ),
        }
    }
}

/// A zero-terminated string: the address of the interned bytes, an `i32`.
#[verifier::opaque]
pub open spec fn tr_cstring(sink: SinkId, st: St, etype: ReturnType, span: Span, value: Seq<u8>)
    -> Res {
    match etype {
        ReturnType::Value(Type::I32) => match st.out.intern_cstr(value) {
            None => Err(data_overflow(span)),
            Some((o, ptr)) => Ok(
                St {
                    out: o.w(sink, lit("i32.const ")).w(sink, dec_digits(ptr as nat)).nl(sink),
                    ..st
                },
            ),
        },
        ReturnType::Void => Ok(st),
        _ => Err(type_error(span, etype.name(), lit("i32 (cstr)"))),
    }
}

/// Where a variable of a scope entry lives.
pub open spec fn entry_scope(entry: ScopeEntry) -> Scope {
    match entry {
        ScopeEntry::Global { .. } => Scope::Global,
        _ => Scope::Local,
    }
}

/// The number of the local of a scope entry; 0 for what is no local.
pub open spec fn entry_id(entry: ScopeEntry) -> usize {
    match entry {
        ScopeEntry::Local { id, .. } => id,
        _ => 0,
    }
}

/// A name that is read. A variable is read and retained, a constant is its
/// number; the value is converted to what is taken. Where nothing is taken
/// there is no code, but the name has to be in scope.
#[verifier::opaque]
pub open spec fn tr_getvar(
    g: GlobalScopeView,
    sink: SinkId,
    st: St,
    etype: ReturnType,
    span: Span,
    name: Seq<u8>,
) -> Res {
    match st.l.get_or_err(g, span, name) {
        Err(e) => Err(e),
        Ok(entry) => if etype == ReturnType::Void {
            Ok(st)
        } else {
            match entry {
                ScopeEntry::Constant { value, .. } => spec_auto_cast(
                    St {
                        out: st.out.w(sink, lit("i32.const ")).w(sink, dec_int(value.number())).nl(
                            sink,
                        ),
                        ..st
                    },
                    sink,
                    span,
                    ReturnType::Value(value.spec_type()),
                    etype,
                ),
                _ => spec_auto_cast(
                    spec_retain(
                        St {
                            out: var_get(
                                st.out,
                                sink,
                                entry_scope(entry),
                                entry_id(entry),
                                name,
                            ),
                            ..st
                        },
                        sink,
                        entry.spec_type(),
                        DropPolicy::Keep,
                    ),
                    sink,
                    span,
                    ReturnType::Value(entry.spec_type()),
                    etype,
                ),
            }
        },
    }
}

/// The variable that an assignment to `name` sets. The name has to be in
/// scope, the assignment has to stand where nothing is taken, and the name
/// has to stand for a variable.
#[verifier::opaque]
pub open spec fn setvar_target(
    g: GlobalScopeView,
    l: LocalScopeView,
    etype: ReturnType,
    span: Span,
    name: Seq<u8>,
) -> Result<ScopeEntry, ErrorView> {
    match l.get_or_err(g, span, name) {
        Err(e) => Err(e),
        Ok(entry) => if etype != ReturnType::Void {
            Err(type_error(span, etype.name(), lit("Void (setvar)")))
        } else if entry is Constant {
            Err(type_error(span, lit("variable"), lit("constant")))
        } else {
            Ok(entry)
        },
    }
}

/// The state after the new value, which is on the stack, went into the
/// variable: the old value is released, and the variable is set. The
/// reference that the stack held is now the variable's.
#[verifier::opaque]
pub open spec fn setvar_store(sink: SinkId, st: St, entry: ScopeEntry, name: Seq<u8>) -> St {
    St {
        out: var_set(
            spec_release_var(
                st.out,
                sink,
                entry_scope(entry),
                entry_id(entry),
                name,
                entry.spec_type(),
            ),
            sink,
            entry_scope(entry),
            entry_id(entry),
            name,
        ),
        ..st
    }
}

/// The type of a new local: the one that is written, or else the type of
/// the expression that gives the first value.
pub open spec fn declvar_type(
    g: GlobalScopeView,
    l: LocalScopeView,
    type_: Option<Type>,
    init: ExprView,
) -> Result<Type, ErrorView> {
    match type_ {
        Some(t) => Ok(t),
        None => spec_guess_type(l, g, init),
    }
}

/// The error for a call with another number of arguments than the function
/// has parameters.
pub open spec fn arity_error(span: Span, expected: nat, got: nat) -> ErrorView {
    type_error(span, dec_digits(expected) + lit(" args"), dec_digits(got) + lit(" args"))
}

/// The state at the start of a loop: two labels are taken, the first to
/// leave the loop and the second to go round, and the block and the loop are
/// opened. The labels are `st.l.nlabels` and the number after it.
#[verifier::opaque]
pub open spec fn while_enter(sink: SinkId, st: St, span: Span) -> Res {
    if st.l.nlabels >= u32::MAX - 1 {
        Err(label_overflow(span))
    } else {
        Ok(
            St {
                out: st.out.w(sink, lit("(block $lbl_")).w(
                    sink,
                    dec_digits(st.l.nlabels as nat),
                ).w(sink, lit(" (loop $lbl_")).w(sink, dec_digits((st.l.nlabels + 1) as nat)).nl(
                    sink,
                ),
                l: st.l.bump_label().bump_label().enter_loop(
                    st.l.nlabels,
                    (st.l.nlabels + 1) as u32,
                ),
            },
        )
    }
}

/// The state after the test of a loop: the loop is left where the condition
/// is false.
#[verifier::opaque]
pub open spec fn while_test(sink: SinkId, st: St, break_label: u32) -> St {
    St {
        out: st.out.wln(sink, lit("i32.eqz")).w(sink, lit("br_if $lbl_")).w(
            sink,
            dec_digits(break_label as nat),
        ).nl(sink),
        ..st
    }
}

/// The state after a loop: the body goes round, and the loop and the block
/// are closed.
#[verifier::opaque]
pub open spec fn while_exit(sink: SinkId, st: St, continue_label: u32) -> St {
    St {
        out: st.out.w(sink, lit("br $lbl_")).w(sink, dec_digits(continue_label as nat)).nl(
            sink,
        ).wln(sink, lit("))")),
        l: st.l.leave_loop(),
    }
}

/// The state after the head of a branch: `if`, with the type of the result
/// where the conditional gives a value.
#[verifier::opaque]
pub open spec fn if_head(sink: SinkId, st: St, etype: ReturnType) -> St {
    match etype {
        ReturnType::Value(t) => St {
            out: st.out.wln(sink, lit("if")).w(sink, lit(" (result ")).w(
                sink,
                t.spec_wasm().name(),
            ).w(sink, lit(")")).nl(sink),
            ..st
        },
        _ => st.wln(sink, lit("if")),
    }
}

/// The output with `n` lines that each hold `line`.
pub open spec fn w_lines(o: OutView, sink: SinkId, line: Seq<u8>, n: nat) -> OutView
    decreases n,
{
    if n == 0 {
        o
    } else {
        w_lines(o.wln(sink, line), sink, line, (n - 1) as nat)
    }
}

/// The word of an operator in an instruction.
pub open spec fn binop_word(op: Binop) -> Seq<u8> {
    match op {
        Binop::Add => lit("add"),
        Binop::Subtract => lit("sub"),
        Binop::Multiply => lit("mul"),
        Binop::Divide => lit("div"),
        Binop::TruncDivide => lit("div_s"),
        Binop::Remainder => lit("rem_s"),
        Binop::BitwiseAnd => lit("and"),
        Binop::BitwiseOr => lit("or"),
        Binop::BitwiseXor => lit("xor"),
        Binop::ShiftLeft => lit("shl"),
        Binop::ShiftRight => lit("shr_u"),
        Binop::Is => lit("eq"),
        Binop::IsNot => lit("ne"),
        Binop::Equal => lit("eq"),
        Binop::NotEqual => lit("ne"),
        Binop::Less => lit("lt"),
        Binop::LessOrEqual => lit("le"),
        Binop::Greater => lit("gt"),
        Binop::GreaterOrEqual => lit("ge"),
    }
}

/// The kinds of binary operators.
pub open spec fn is_arith(op: Binop) -> bool {
    op is Add || op is Subtract || op is Multiply || op is Remainder
}

pub open spec fn is_bitwise(op: Binop) -> bool {
    op is BitwiseAnd || op is BitwiseOr || op is BitwiseXor || op is ShiftLeft || op is ShiftRight
}

pub open spec fn is_order(op: Binop) -> bool {
    op is Less || op is LessOrEqual || op is Greater || op is GreaterOrEqual
}

pub open spec fn is_identity(op: Binop) -> bool {
    op is Is || op is IsNot
}

/// The type as which both operands of a binary operator are translated.
///
/// Arithmetic and identity take the common type of the operands; an order
/// takes the type of the left operand; division takes `f32`; division with
/// truncation takes `i32` for two `i32` and `f32` where an `f32` is among
/// `i32` and `f32`; the operators on bits take `i32`. Equality by `==` and
/// `!=` is no operator of the language.
#[verifier::opaque]
pub open spec fn binop_operand_type(
    g: GlobalScopeView,
    l: LocalScopeView,
    op: Binop,
    etype: ReturnType,
    span: Span,
    left: ExprView,
    right: ExprView,
) -> Result<Type, ErrorView> {
    if is_order(op) {
        spec_guess_type(l, g, left)
    } else if is_arith(op) || is_identity(op) || op is TruncDivide {
        match spec_guess_type(l, g, left) {
            Err(e) => Err(e),
            Ok(a) => match spec_guess_type(l, g, right) {
                Err(e) => Err(e),
                Ok(b) => if op is TruncDivide {
                    if a == Type::I32 && b == Type::I32 {
                        Ok(Type::I32)
                    } else if (a == Type::I32 || a == Type::F32) && (b == Type::I32 || b
                        == Type::F32) {
                        Ok(Type::F32)
                    } else {
                        Err(type_error(span, etype.name(), lit("Int")))
                    }
                } else {
                    spec_common_type(span, a, b)
                },
            },
        }
    } else if op is Divide {
        Ok(Type::F32)
    } else if is_bitwise(op) {
        Ok(Type::I32)
    } else {
        Err(type_error(span, lit("is or is not"), lit("== or !=")))
    }
}

/// The state between the operands of a binary operator. The test of
/// identity takes the bits of its operands and knows nothing of references:
/// each operand is released as soon as it is on the stack, and stays there.
pub open spec fn binop_between(sink: SinkId, st: St, op: Binop, t: Type) -> St {
    if is_identity(op) {
        spec_release(st, sink, t, DropPolicy::Keep)
    } else {
        st
    }
}

/// The output with an instruction of a type: the name of the type, a dot,
/// the word, and the suffix.
#[verifier::opaque]
pub open spec fn w_instr(o: OutView, sink: SinkId, t: Type, word: Seq<u8>, suffix: Seq<u8>)
    -> OutView {
    o.w(sink, t.spec_wasm().name()).w(sink, lit(".")).w(sink, word).w(sink, suffix).nl(sink)
}

/// Whether a type is a number type of WebAssembly.
pub open spec fn is_number(t: Type) -> bool {
    t == Type::I32 || t == Type::I64 || t == Type::F32 || t == Type::F64
}

/// The state after a binary operator whose operands, of type `t`, are on
/// the stack: the instruction, and the conversion of its result to what is
/// taken. An order is signed on integers; it is not defined on strings,
/// lists, types and boxed values. Arithmetic is defined on numbers, the
/// remainder on integers only.
#[verifier::opaque]
pub open spec fn binop_finish(
    sink: SinkId,
    st: St,
    op: Binop,
    t: Type,
    etype: ReturnType,
    span: Span,
) -> Res {
    if is_order(op) {
        if t == Type::Bool || t == Type::I32 || t == Type::I64 {
            spec_auto_cast(
                St { out: w_instr(st.out, sink, t, binop_word(op), lit("_s")), ..st },
                sink,
                span,
                ReturnType::Value(Type::Bool),
                etype,
            )
        } else if t == Type::F32 || t == Type::F64 {
            spec_auto_cast(
                St { out: w_instr(st.out, sink, t, binop_word(op), lit("")), ..st },
                sink,
                span,
                ReturnType::Value(Type::Bool),
                etype,
            )
        } else {
            Err(type_error(span, lit("ordered value"), t.name()))
        }
    } else if is_identity(op) {
        let st1 = spec_release(st, sink, t, DropPolicy::Keep);
        spec_auto_cast(
            St { out: w_instr(st1.out, sink, t, binop_word(op), lit("")), ..st1 },
            sink,
            span,
            ReturnType::Value(Type::Bool),
            etype,
        )
    } else if is_arith(op) {
        if !is_number(t) {
            Err(type_error(span, lit("numeric value"), t.name()))
        } else if op is Remainder && (t == Type::F32 || t == Type::F64) {
            Err(type_error(span, lit("integer value"), t.name()))
        } else {
            spec_auto_cast(
                St { out: w_instr(st.out, sink, t, binop_word(op), lit("")), ..st },
                sink,
                span,
                ReturnType::Value(t),
                etype,
            )
        }
    } else if op is Divide {
        spec_auto_cast(
            st.wln(sink, lit("f32.div")),
            sink,
            span,
            ReturnType::Value(Type::F32),
            etype,
        )
    } else if op is TruncDivide {
        if t == Type::I32 {
            spec_auto_cast(
                st.wln(sink, lit("i32.div_s")),
                sink,
                span,
                ReturnType::Value(Type::I32),
                etype,
            )
        } else {
            match spec_explicit_cast(
                st.wln(sink, lit("f32.div")),
                sink,
                span,
                ReturnType::Value(Type::F32),
                ReturnType::Value(Type::I32),
            ) {
                Err(e) => Err(e),
                Ok(st1) => spec_auto_cast(st1, sink, span, ReturnType::Value(Type::I32), etype),
            }
        }
    } else {
        spec_auto_cast(
            St { out: w_instr(st.out, sink, Type::I32, binop_word(op), lit("")), ..st },
            sink,
            span,
            ReturnType::Value(Type::I32),
            etype,
        )
    }
}

/// The type as which the operand of a unary operator is translated: a
/// number for a sign, a truth value for `!`.
#[verifier::opaque]
pub open spec fn unop_operand_type(
    g: GlobalScopeView,
    l: LocalScopeView,
    op: Unop,
    span: Span,
    x: ExprView,
) -> Result<Type, ErrorView> {
    match op {
        Unop::Not => Ok(Type::Bool),
        _ => match spec_guess_type(l, g, x) {
            Err(e) => Err(e),
            Ok(t) => if is_number(t) {
                Ok(t)
            } else {
                Err(type_error(span, lit("numeric"), t.name()))
            },
        },
    }
}

/// The state after a unary operator whose operand, of type `t`, is on the
/// stack.
#[verifier::opaque]
pub open spec fn unop_finish(sink: SinkId, st: St, op: Unop, t: Type, etype: ReturnType, span: Span)
    -> Res {
    match op {
        Unop::Plus => spec_auto_cast(st, sink, span, ReturnType::Value(t), etype),
        Unop::Minus => if t == Type::F32 || t == Type::F64 {
            spec_auto_cast(
                St { out: w_instr(st.out, sink, t, lit("neg"), lit("")), ..st },
                sink,
                span,
                ReturnType::Value(t),
                etype,
            )
        } else {
            spec_auto_cast(
                St {
                    out: w_instr(
                        w_instr(st.out, sink, t, lit("const -1"), lit("")),
                        sink,
                        t,
                        lit("mul"),
                        lit(""),
                    ),
                    ..st
                },
                sink,
                span,
                ReturnType::Value(t),
                etype,
            )
        },
        Unop::Not => spec_auto_cast(
            st.wln(sink, lit("i32.eqz")),
            sink,
            span,
            ReturnType::Value(Type::Bool),
            etype,
        ),
    }
}

/// The instruction that loads `width` bytes.
pub open spec fn load_word(width: Width) -> Seq<u8> {
    match width {
        Width::One => lit("i32.load8_u"),
        Width::Two => lit("i32.load16_u"),
        Width::Four => lit("i32.load"),
        Width::Eight => lit("i64.load"),
    }
}

/// The instruction that stores `width` bytes.
pub open spec fn store_word(width: Width) -> Seq<u8> {
    match width {
        Width::One => lit("i32.store8"),
        Width::Two => lit("i32.store16"),
        Width::Four => lit("i32.store"),
        Width::Eight => lit("i64.store"),
    }
}

/// The output with a load or store: the instruction, and the offset where
/// it is not 0.
#[verifier::opaque]
pub open spec fn w_memory(o: OutView, sink: SinkId, word: Seq<u8>, offset: u32) -> OutView {
    if offset != 0 {
        o.w(sink, word).w(sink, lit(" offset=")).w(sink, dec_digits(offset as nat)).nl(sink)
    } else {
        o.w(sink, word).nl(sink)
    }
}

/// The translation of the expressions of a block from the `i`-th on: each
/// but the last for a place that takes nothing, the last for the place of
/// the block.
pub open spec fn tr_block_items(
    g: GlobalScopeView,
    sink: SinkId,
    st: St,
    etype: ReturnType,
    items: Seq<ExprView>,
    i: int,
) -> Res
    decreases items, items.len() - i,
{
    if 0 <= i < items.len() {
        match tr_expr(
            g,
            sink,
            st,
            if i + 1 == items.len() {
                etype
            } else {
                ReturnType::Void
            },
            items[i],
        ) {
            Err(e) => Err(e),
            Ok(st1) => tr_block_items(g, sink, st1, etype, items, i + 1),
        }
    } else {
        Ok(st)
    }
}

/// The translation of the items of a list literal from the `i`-th on: the
/// address of the list is copied, the item is translated as a boxed value,
/// and the two are handed to the function that appends.
pub open spec fn tr_list_items(
    g: GlobalScopeView,
    sink: SinkId,
    st: St,
    items: Seq<ExprView>,
    i: int,
) -> Res
    decreases items, items.len() - i,
{
    if 0 <= i < items.len() {
        match tr_expr(
            g,
            sink,
            spec_raw_dup(st, sink, WasmType::I32),
            ReturnType::Value(Type::Id),
            items[i],
        ) {
            Err(e) => Err(e),
            Ok(st1) => tr_list_items(
                g,
                sink,
                st1.wln(sink, lit("call $f___list_push_raw_no_retain")),
                items,
                i + 1,
            ),
        }
    } else {
        Ok(st)
    }
}

/// The translation of the arguments of a call from the `i`-th on, each as
/// a value of the type of its parameter.
pub open spec fn tr_args(
    g: GlobalScopeView,
    sink: SinkId,
    st: St,
    ptypes: Seq<Type>,
    args: Seq<ExprView>,
    i: int,
) -> Res
    decreases args, args.len() - i,
{
    if 0 <= i < args.len() {
        match tr_expr(g, sink, st, ReturnType::Value(ptypes[i]), args[i]) {
            Err(e) => Err(e),
            Ok(st1) => tr_args(g, sink, st1, ptypes, args, i + 1),
        }
    } else {
        Ok(st)
    }
}

/// The translation of the arguments of inline code from the `i`-th on, each
/// as a value of its own type.
pub open spec fn tr_asm_args(g: GlobalScopeView, sink: SinkId, st: St, args: Seq<ExprView>, i: int)
    -> Res
    decreases args, args.len() - i,
{
    if 0 <= i < args.len() {
        match spec_guess_type(st.l, g, args[i]) {
            Err(e) => Err(e),
            Ok(t) => match tr_expr(g, sink, st, ReturnType::Value(t), args[i]) {
                Err(e) => Err(e),
                Ok(st1) => tr_asm_args(g, sink, st1, args, i + 1),
            },
        }
    } else {
        Ok(st)
    }
}

/// The translation of the branches of a conditional from the `i`-th on:
/// the condition as a truth value, `if`, the body for the place of the
/// conditional, `else`.
pub open spec fn tr_if_pairs(
    g: GlobalScopeView,
    sink: SinkId,
    st: St,
    etype: ReturnType,
    pairs: Seq<(ExprView, ExprView)>,
    i: int,
) -> Res
    decreases pairs, pairs.len() - i,
{
    if 0 <= i < pairs.len() {
        match tr_expr(g, sink, st, ReturnType::Value(Type::Bool), pairs[i].0) {
            Err(e) => Err(e),
            Ok(st1) => match tr_expr(g, sink, if_head(sink, st1, etype), etype, pairs[i].1) {
                Err(e) => Err(e),
                Ok(st2) => tr_if_pairs(g, sink, st2.wln(sink, lit("else")), etype, pairs, i + 1),
            },
        }
    } else {
        Ok(st)
    }
}

/// The state after the expressions of a block: the block of the scope is
/// closed.
pub open spec fn close_block(r: Res) -> Res {
    match r {
        Ok(st) => Ok(St { l: st.l.pop(), ..st }),
        Err(e) => Err(e),
    }
}

/// The translation of expression `e` for a place that takes `etype`, with
/// the code written to `sink`, from state `st` under the global names `g`.
#[verifier::opaque]
pub open spec fn tr_expr(g: GlobalScopeView, sink: SinkId, st: St, etype: ReturnType, e: ExprView)
    -> Res
    decreases e, 0nat,
{
    match e {
        ExprView::Bool(span, x) => tr_bool(sink, st, etype, span, x),
        ExprView::Int(span, x) => tr_int(sink, st, etype, span, x),
        ExprView::Float(span, text) => tr_float(sink, st, etype, span, text),
        ExprView::String(span, value) => tr_string(sink, st, etype, span, value),
        ExprView::List(span, items) => match tr_list_items(
            g,
            sink,
            st.wln(sink, lit("call $f___new_list")),
            items,
            0,
        ) {
            Err(e) => Err(e),
            Ok(st1) => spec_auto_cast(st1, sink, span, ReturnType::Value(Type::List), etype),
        },
        ExprView::GetVar(span, name) => tr_getvar(g, sink, st, etype, span, name),
        ExprView::SetVar(span, name, value) => match setvar_target(g, st.l, etype, span, name) {
            Err(e) => Err(e),
            Ok(entry) => match tr_expr(
                g,
                sink,
                st,
                ReturnType::Value(entry.spec_type()),
                *value,
            ) {
                Err(e) => Err(e),
                Ok(st1) => Ok(setvar_store(sink, st1, entry, name)),
            },
        },
        ExprView::DeclVar(span, name, type_, init) => match declvar_type(g, st.l, type_, *init) {
            Err(e) => Err(e),
            Ok(t) => if etype != ReturnType::Void {
                Err(type_error(span, etype.name(), lit("Void (declvar)")))
            } else {
                match tr_expr(
                    g,
                    sink,
                    St { l: st.l.decl(span, name, t), ..st },
                    ReturnType::Value(t),
                    *init,
                ) {
                    Err(e) => Err(e),
                    Ok(st1) => Ok(
                        St {
                            out: var_set(st1.out, sink, Scope::Local, st.l.next_id(), name),
                            ..st1
                        },
                    ),
                }
            },
        },
        ExprView::Block(span, items) => if items.len() == 0 {
            spec_auto_cast(st, sink, span, ReturnType::Void, etype)
        } else {
            close_block(tr_block_items(g, sink, St { l: st.l.push(), ..st }, etype, items, 0))
        },
        ExprView::FunctionCall(span, name, args) => match g.function(name) {
            None => Err(no_function(span, name)),
            Some(f) => if args.len() != f.type_.parameter_types.len() {
                Err(arity_error(span, f.type_.parameter_types.len(), args.len()))
            } else {
                match tr_args(g, sink, st, f.type_.parameter_types, args, 0) {
                    Err(e) => Err(e),
                    Ok(st1) => spec_auto_cast(
                        st1.w(sink, lit("call $f_")).w(sink, name).nl(sink),
                        sink,
                        span,
                        f.type_.return_type,
                        etype,
                    ),
                }
            },
        },
        ExprView::If(_, pairs, other) => match tr_if_pairs(g, sink, st, etype, pairs, 0) {
            Err(e) => Err(e),
            Ok(st1) => match tr_expr(g, sink, st1, etype, *other) {
                Err(e) => Err(e),
                Ok(st2) => Ok(St { out: w_lines(st2.out, sink, lit("end"), pairs.len()), ..st2 }),
            },
        },
        ExprView::While(span, cond, body) => match while_enter(sink, st, span) {
            Err(e) => Err(e),
            Ok(st1) => match tr_expr(g, sink, st1, ReturnType::Value(Type::Bool), *cond) {
                Err(e) => Err(e),
                Ok(st2) => match tr_expr(
                    g,
                    sink,
                    while_test(sink, st2, st.l.nlabels),
                    ReturnType::Void,
                    *body,
                ) {
                    Err(e) => Err(e),
                    Ok(st3) => spec_auto_cast(
                        while_exit(sink, st3, (st.l.nlabels + 1) as u32),
                        sink,
                        span,
                        ReturnType::Void,
                        etype,
                    ),
                },
            },
        },
        ExprView::Binop(span, op, left, right) => match binop_operand_type(
            g,
            st.l,
            op,
            etype,
            span,
            *left,
            *right,
        ) {
            Err(e) => Err(e),
            Ok(t) => match tr_expr(g, sink, st, ReturnType::Value(t), *left) {
                Err(e) => Err(e),
                Ok(st1) => match tr_expr(
                    g,
                    sink,
                    binop_between(sink, st1, op, t),
                    ReturnType::Value(t),
                    *right,
                ) {
                    Err(e) => Err(e),
                    Ok(st2) => binop_finish(sink, st2, op, t, etype, span),
                },
            },
        },
        ExprView::Unop(span, op, x) => match unop_operand_type(g, st.l, op, span, *x) {
            Err(e) => Err(e),
            Ok(t) => match tr_expr(g, sink, st, ReturnType::Value(t), *x) {
                Err(e) => Err(e),
                Ok(st1) => unop_finish(sink, st1, op, t, etype, span),
            },
        },
        ExprView::AssertType(span, t, x) => match tr_expr(g, sink, st, ReturnType::Value(t), *x) {
            Err(e) => Err(e),
            Ok(st1) => spec_auto_cast(st1, sink, span, ReturnType::Value(t), etype),
        },
        ExprView::CString(span, value) => tr_cstring(sink, st, etype, span, value),
        ExprView::Asm(span, args, t, code) => match tr_asm_args(g, sink, st, args, 0) {
            Err(e) => Err(e),
            Ok(st1) => spec_auto_cast(st1.w(sink, code).nl(sink), sink, span, t, etype),
        },
        ExprView::Read(span, width, addr, offset) => match tr_expr(
            g,
            sink,
            st,
            ReturnType::Value(Type::I32),
            *addr,
        ) {
            Err(e) => Err(e),
            Ok(st1) => spec_auto_cast(
                St { out: w_memory(st1.out, sink, load_word(width), offset), ..st1 },
                sink,
                span,
                ReturnType::Value(width.spec_value_type()),
                etype,
            ),
        },
        ExprView::Write(span, width, addr, value, offset) => match tr_expr(
            g,
            sink,
            st,
            ReturnType::Value(Type::I32),
            *addr,
        ) {
            Err(e) => Err(e),
            Ok(st1) => match tr_expr(
                g,
                sink,
                st1,
                ReturnType::Value(width.spec_value_type()),
                *value,
            ) {
                Err(e) => Err(e),
                Ok(st2) => spec_auto_cast(
                    St { out: w_memory(st2.out, sink, store_word(width), offset), ..st2 },
                    sink,
                    span,
                    ReturnType::Void,
                    etype,
                ),
            },
        },
    }
}

/// Whether the translation of `e` ends with an error before any code is
/// written: a literal of a kind that is not taken, a name that is not
/// known, an assignment without a target, a declaration where a value is
/// taken or of no type, a call with the wrong number of arguments, an empty
/// block where a value is taken.
#[verifier::opaque]
pub open spec fn refused(g: GlobalScopeView, sink: SinkId, st: St, etype: ReturnType, e: ExprView)
    -> bool {
    match e {
        ExprView::Bool(span, x) => tr_bool(sink, st, etype, span, x) is Err,
        ExprView::Int(span, x) => tr_int(sink, st, etype, span, x) is Err,
        ExprView::Float(span, text) => tr_float(sink, st, etype, span, text) is Err,
        ExprView::CString(span, value) => tr_cstring(sink, st, etype, span, value) is Err,
        ExprView::GetVar(span, name) => st.l.get_or_err(g, span, name) is Err,
        ExprView::SetVar(span, name, _) => setvar_target(g, st.l, etype, span, name) is Err,
        ExprView::DeclVar(span, name, type_, init) => declvar_type(g, st.l, type_, *init) is Err
            || etype != ReturnType::Void,
        ExprView::Block(span, items) => items.len() == 0 && spec_auto_cast(
            st,
            sink,
            span,
            ReturnType::Void,
            etype,
        ) is Err,
        ExprView::FunctionCall(span, name, args) => match g.function(name) {
            None => true,
            Some(f) => args.len() != f.type_.parameter_types.len(),
        },
        _ => false,
    }
}

/// What every step of the translation keeps: the output and the scope stay
/// well formed, the global names are the same, no sink is made, and the
/// root sink is as it was.
pub open spec fn stable(out0: Out, l0: LocalScope, out1: Out, l1: LocalScope) -> bool {
    &&& out1.wf()
    &&& l1.wf()
    &&& l1.global() == l0.global()
    &&& out1@.tree.nodes.len() == out0@.tree.nodes.len()
    &&& out1@.tree.nodes[0] == out0@.tree.nodes[0]
}

fn data_overflow_error(span: Span) -> (r: Error)
    ensures
        r@ == data_overflow(span),
{
    Error::Type {
        span,
        expected: lit_vec("data within 32-bit memory"),
        got: lit_vec("data segment overflow"),
    }
}

fn label_overflow_error(span: Span) -> (r: Error)
    ensures
        r@ == label_overflow(span),
{
    Error::Type { span, expected: lit_vec("fewer loops"), got: lit_vec("label overflow") }
}

fn mismatch(span: Span, etype: ReturnType, got: &str) -> (r: Error)
    ensures
        r@ == type_error(span, etype.name(), lit(got)),
{
    Error::Type { span, expected: etype.name_vec(), got: lit_vec(got) }
}

fn write_const(out: &mut Out, sink: SinkId, t: &str, text: &[u8])
    requires
        old(out).wf(),
        old(out)@.tree.has(sink),
        sink != 0,
    ensures
        final(out).wf(),
        final(out)@ == w_const(old(out)@, sink, lit(t), text@),
        final(out)@.tree.nodes.len() == old(out)@.tree.nodes.len(),
        final(out)@.tree.nodes[0] == old(out)@.tree.nodes[0],
{
    proof {
        reveal(w_const);
    }
    out.write_lit(sink, "(");
    out.write_lit(sink, t);
    out.write_lit(sink, ".const ");
    out.write(sink, text);
    out.write_lit(sink, ")");
    out.newline(sink);
}

fn write_instr(out: &mut Out, sink: SinkId, t: Type, word: &str, suffix: &str)
    requires
        old(out).wf(),
        old(out)@.tree.has(sink),
        sink != 0,
    ensures
        final(out).wf(),
        final(out)@ == w_instr(old(out)@, sink, t, lit(word), lit(suffix)),
        final(out)@.tree.nodes.len() == old(out)@.tree.nodes.len(),
        final(out)@.tree.nodes[0] == old(out)@.tree.nodes[0],
{
    proof {
        reveal(w_instr);
    }
    out.write_lit(sink, translate_type(t));
    out.write_lit(sink, ".");
    out.write_lit(sink, word);
    out.write_lit(sink, suffix);
    out.newline(sink);
}

fn write_memory(out: &mut Out, sink: SinkId, word: &str, offset: u32)
    requires
        old(out).wf(),
        old(out)@.tree.has(sink),
        sink != 0,
    ensures
        final(out).wf(),
        final(out)@ == w_memory(old(out)@, sink, lit(word), offset),
        final(out)@.tree.nodes.len() == old(out)@.tree.nodes.len(),
        final(out)@.tree.nodes[0] == old(out)@.tree.nodes[0],
{
    proof {
        reveal(w_memory);
    }
    out.write_lit(sink, word);
    if offset != 0 {
        out.write_lit(sink, " offset=");
        out.write_dec(sink, offset as u64);
    }
    out.newline(sink);
}

fn write_lines(out: &mut Out, sink: SinkId, line: &str, n: usize)
    requires
        old(out).wf(),
        old(out)@.tree.has(sink),
        sink != 0,
    ensures
        final(out).wf(),
        final(out)@ == w_lines(old(out)@, sink, lit(line), n as nat),
        final(out)@.tree.nodes.len() == old(out)@.tree.nodes.len(),
        final(out)@.tree.nodes[0] == old(out)@.tree.nodes[0],
{
    let mut k: usize = n;
    while k > 0
        invariant
            out.wf(),
            out@.tree.has(sink),
            sink != 0,
            out@.tree.nodes.len() == old(out)@.tree.nodes.len(),
            out@.tree.nodes[0] == old(out)@.tree.nodes[0],
            w_lines(out@, sink, lit(line), k as nat) == w_lines(
                old(out)@,
                sink,
                lit(line),
                n as nat,
            ),
        decreases k,
    {
        out.writeln_lit(sink, line);
        k -= 1;
    }
}

fn binop_str(op: Binop) -> (r: &'static str)
    ensures
        lit(r) == binop_word(op),
{
    match op {
        Binop::Add => "add",
        Binop::Subtract => "sub",
        Binop::Multiply => "mul",
        Binop::Divide => "div",
        Binop::TruncDivide => "div_s",
        Binop::Remainder => "rem_s",
        Binop::BitwiseAnd => "and",
        Binop::BitwiseOr => "or",
        Binop::BitwiseXor => "xor",
        Binop::ShiftLeft => "shl",
        Binop::ShiftRight => "shr_u",
        Binop::Is => "eq",
        Binop::IsNot => "ne",
        Binop::Equal => "eq",
        Binop::NotEqual => "ne",
        Binop::Less => "lt",
        Binop::LessOrEqual => "le",
        Binop::Greater => "gt",
        Binop::GreaterOrEqual => "ge",
    }
}

fn load_str(width: Width) -> (r: &'static str)
    ensures
        lit(r) == load_word(width),
{
    match width {
        Width::One => "i32.load8_u",
        Width::Two => "i32.load16_u",
        Width::Four => "i32.load",
        Width::Eight => "i64.load",
    }
}

fn store_str(width: Width) -> (r: &'static str)
    ensures
        lit(r) == store_word(width),
{
    match width {
        Width::One => "i32.store8",
        Width::Two => "i32.store16",
        Width::Four => "i32.store",
        Width::Eight => "i64.store",
    }
}

fn translate_bool(out: &mut Out, sink: SinkId, etype: ReturnType, span: Span, x: bool) -> (r:
    Result<(), Error>)
    requires
        old(out).wf(),
        old(out)@.tree.has(sink),
        sink != 0,
    ensures
        final(out).wf(),
        final(out)@.tree.nodes.len() == old(out)@.tree.nodes.len(),
        final(out)@.tree.nodes[0] == old(out)@.tree.nodes[0],
        forall|l: LocalScopeView|
            refines(
                r,
                #[trigger] tr_bool(sink, St { out: old(out)@, l }, etype, span, x),
                final(out)@,
                l,
            ),
        r is Err ==> final(out)@ == old(out)@,
{
    proof {
        reveal(tr_bool);
    }
    let digit = if x {
        "1"
    } else {
        "0"
    };
    match etype {
        ReturnType::Value(Type::Bool) => {
            write_const(out, sink, "i32", digit.as_bytes());
            Ok(())
        },
        ReturnType::Value(Type::Id) => {
            write_const(out, sink, "i32", digit.as_bytes());
            cast_to_id(out, sink, TAG_BOOL);
            Ok(())
        },
        ReturnType::Void => Ok(()),
        _ => Err(mismatch(span, etype, "Bool")),
    }
}

fn translate_int(out: &mut Out, sink: SinkId, etype: ReturnType, span: Span, x: i64) -> (r: Result<
    (),
    Error,
>)
    requires
        old(out).wf(),
        old(out)@.tree.has(sink),
        sink != 0,
    ensures
        final(out).wf(),
        final(out)@.tree.nodes.len() == old(out)@.tree.nodes.len(),
        final(out)@.tree.nodes[0] == old(out)@.tree.nodes[0],
        forall|l: LocalScopeView|
            refines(
                r,
                #[trigger] tr_int(sink, St { out: old(out)@, l }, etype, span, x),
                final(out)@,
                l,
            ),
        r is Err ==> final(out)@ == old(out)@,
{
    proof {
        reveal(tr_int);
    }
    let text = dec_int_vec(x);
    match etype {
        ReturnType::Value(t) => match t {
            Type::I32 | Type::I64 | Type::F32 | Type::F64 => {
                write_const(out, sink, translate_type(t), text.as_slice());
                Ok(())
            },
            Type::Id => {
                write_const(out, sink, "i32", text.as_slice());
                cast_to_id(out, sink, TAG_I32);
                Ok(())
            },
            _ => Err(mismatch(span, etype, "Int")),
        },
        ReturnType::Void => Ok(()),
        ReturnType::NoReturn => Err(mismatch(span, etype, "Int")),
    }
}

fn translate_float(out: &mut Out, sink: SinkId, etype: ReturnType, span: Span, text: &[u8]) -> (r:
    Result<(), Error>)
    requires
        old(out).wf(),
        old(out)@.tree.has(sink),
        sink != 0,
    ensures
        final(out).wf(),
        final(out)@.tree.nodes.len() == old(out)@.tree.nodes.len(),
        final(out)@.tree.nodes[0] == old(out)@.tree.nodes[0],
        forall|l: LocalScopeView|
            refines(
                r,
                #[trigger] tr_float(sink, St { out: old(out)@, l }, etype, span, text@),
                final(out)@,
                l,
            ),
        r is Err ==> final(out)@ == old(out)@,
{
    proof {
        reveal(tr_float);
    }
    match etype {
        ReturnType::Value(t) => match t {
            Type::F32 | Type::F64 => {
                write_const(out, sink, translate_type(t), text);
                Ok(())
            },
            Type::Id => {
                write_const(out, sink, "f32", text);
                out.writeln_lit(sink, "i32.reinterpret_f32");
                cast_to_id(out, sink, TAG_F32);
                Ok(())
            },
            _ => Err(mismatch(span, etype, "Float")),
        },
        ReturnType::Void => Ok(()),
        ReturnType::NoReturn => Err(mismatch(span, etype, "Float")),
    }
}

fn translate_string(
    out: &mut Out,
    sink: SinkId,
    lscope: &mut LocalScope,
    etype: ReturnType,
    span: Span,
    value: &[u8],
) -> (r: Result<(), Error>)
    requires
        old(out).wf(),
        old(out)@.tree.has(sink),
        sink != 0,
        old(lscope).wf(),
    ensures
        stable(*old(out), *old(lscope), *final(out), *final(lscope)),
        final(lscope)@.frames == old(lscope)@.frames,
        refines(
            r,
            tr_string(sink, St { out: old(out)@, l: old(lscope)@ }, etype, span, value@),
            final(out)@,
            final(lscope)@,
        ),
{
    proof {
        reveal(tr_string);
    }
    if etype == ReturnType::Void {
        return Ok(());
    }
    match out.intern_str(value) {
        None => Err(data_overflow_error(span)),
        Some(ptr) => {
            let digits = dec_vec(ptr as u64);
            write_const(out, sink, "i32", digits.as_slice());
            retain(lscope, out, sink, Type::String, DropPolicy::Keep);
            auto_cast(out, sink, span, lscope, ReturnType::Value(Type::String), etype)
        },
    }
}

fn translate_cstring(out: &mut Out, sink: SinkId, etype: ReturnType, span: Span, value: &[u8]) -> (r:
    Result<(), Error>)
    requires
        old(out).wf(),
        old(out)@.tree.has(sink),
        sink != 0,
    ensures
        final(out).wf(),
        final(out)@.tree.nodes.len() == old(out)@.tree.nodes.len(),
        final(out)@.tree.nodes[0] == old(out)@.tree.nodes[0],
        forall|l: LocalScopeView|
            refines(
                r,
                #[trigger] tr_cstring(sink, St { out: old(out)@, l }, etype, span, value@),
                final(out)@,
                l,
            ),
        r is Err ==> final(out)@ == old(out)@,
{
    proof {
        reveal(tr_cstring);
    }
    match etype {
        ReturnType::Value(Type::I32) => match out.intern_cstr(value) {
            None => Err(data_overflow_error(span)),
            Some(ptr) => {
                out.write_lit(sink, "i32.const ");
                out.write_dec(sink, ptr as u64);
                out.newline(sink);
                Ok(())
            },
        },
        ReturnType::Void => Ok(()),
        _ => Err(mismatch(span, etype, "i32 (cstr)")),
    }
}

fn scope_of(entry: ScopeEntry) -> (r: Scope)
    ensures
        r == entry_scope(entry),
{
    match entry {
        ScopeEntry::Global { .. } => Scope::Global,
        _ => Scope::Local,
    }
}

fn id_of(entry: ScopeEntry) -> (r: usize)
    ensures
        r == entry_id(entry),
{
    match entry {
        ScopeEntry::Local { id, .. } => id,
        _ => 0,
    }
}

fn translate_getvar(
    out: &mut Out,
    sink: SinkId,
    lscope: &mut LocalScope,
    etype: ReturnType,
    span: Span,
    name: &[u8],
) -> (r: Result<(), Error>)
    requires
        old(out).wf(),
        old(out)@.tree.has(sink),
        sink != 0,
        old(lscope).wf(),
    ensures
        stable(*old(out), *old(lscope), *final(out), *final(lscope)),
        final(lscope)@.frames == old(lscope)@.frames,
        refines(
            r,
            tr_getvar(
                old(lscope).global(),
                sink,
                St { out: old(out)@, l: old(lscope)@ },
                etype,
                span,
                name@,
            ),
            final(out)@,
            final(lscope)@,
        ),
        old(lscope)@.get_or_err(old(lscope).global(), span, name@) is Err ==> final(out)@ == old(
            out,
        )@ && final(lscope)@ == old(lscope)@,
{
    proof {
        reveal(tr_getvar);
    }
    match lscope.get_or_err(span, name) {
        Err(e) => Err(e),
        Ok(entry) => {
            if etype == ReturnType::Void {
                return Ok(());
            }
            match entry {
                ScopeEntry::Constant { value, .. } => {
                    let number: i64 = match value {
                        ConstValue::I32(x) => x as i64,
                        ConstValue::Type(t) => t.tag() as i64,
                    };
                    out.write_lit(sink, "i32.const ");
                    out.write_int(sink, number);
                    out.newline(sink);
                    auto_cast(out, sink, span, lscope, ReturnType::Value(value.type_()), etype)
                },
                _ => {
                    write_var_get(out, sink, scope_of(entry), id_of(entry), name);
                    retain(lscope, out, sink, entry.type_(), DropPolicy::Keep);
                    auto_cast(out, sink, span, lscope, ReturnType::Value(entry.type_()), etype)
                },
            }
        },
    }
}

fn find_setvar_target(lscope: &LocalScope, etype: ReturnType, span: Span, name: &[u8]) -> (r: Result<
    ScopeEntry,
    Error,
>)
    requires
        lscope.wf(),
    ensures
        match setvar_target(lscope.global(), lscope@, etype, span, name@) {
            Ok(e) => r == Ok::<ScopeEntry, Error>(e),
            Err(e) => r matches Err(x) && x@ == e,
        },
{
    proof {
        reveal(setvar_target);
    }
    match lscope.get_or_err(span, name) {
        Err(e) => Err(e),
        Ok(entry) => {
            if etype != ReturnType::Void {
                Err(mismatch(span, etype, "Void (setvar)"))
            } else {
                match entry {
                    ScopeEntry::Constant { .. } => Err(
                        Error::Type {
                            span,
                            expected: lit_vec("variable"),
                            got: lit_vec("constant"),
                        },
                    ),
                    _ => Ok(entry),
                }
            }
        },
    }
}

fn store_setvar(out: &mut Out, sink: SinkId, entry: ScopeEntry, name: &[u8])
    requires
        old(out).wf(),
        old(out)@.tree.has(sink),
        sink != 0,
    ensures
        final(out).wf(),
        final(out)@.tree.nodes.len() == old(out)@.tree.nodes.len(),
        final(out)@.tree.nodes[0] == old(out)@.tree.nodes[0],
        forall|l: LocalScopeView|
            (St { out: final(out)@, l }) == #[trigger] setvar_store(
                sink,
                St { out: old(out)@, l },
                entry,
                name@,
            ),
{
    proof {
        reveal(setvar_store);
    }
    release_var(out, sink, scope_of(entry), id_of(entry), name, entry.type_());
    write_var_set(out, sink, scope_of(entry), id_of(entry), name);
}

fn operand_type(
    lscope: &LocalScope,
    op: Binop,
    etype: ReturnType,
    span: Span,
    left: &Expr,
    right: &Expr,
) -> (r: Result<Type, Error>)
    requires
        lscope.wf(),
    ensures
        match binop_operand_type(lscope.global(), lscope@, op, etype, span, left@, right@) {
            Ok(t) => r == Ok::<Type, Error>(t),
            Err(e) => r matches Err(x) && x@ == e,
        },
{
    proof {
        reveal(binop_operand_type);
    }
    match op {
        Binop::Less | Binop::LessOrEqual | Binop::Greater | Binop::GreaterOrEqual => guess_type(
            lscope,
            left,
        ),
        Binop::Add
        | Binop::Subtract
        | Binop::Multiply
        | Binop::Remainder
        | Binop::Is
        | Binop::IsNot
        | Binop::TruncDivide => {
            match guess_type(lscope, left) {
                Err(e) => Err(e),
                Ok(a) => match guess_type(lscope, right) {
                    Err(e) => Err(e),
                    Ok(b) => {
                        if op == Binop::TruncDivide {
                            if a == Type::I32 && b == Type::I32 {
                                Ok(Type::I32)
                            } else if (a == Type::I32 || a == Type::F32) && (b == Type::I32 || b
                                == Type::F32) {
                                Ok(Type::F32)
                            } else {
                                Err(mismatch(span, etype, "Int"))
                            }
                        } else {
                            common_type(span, a, b)
                        }
                    },
                },
            }
        },
        Binop::Divide => Ok(Type::F32),
        Binop::BitwiseAnd
        | Binop::BitwiseOr
        | Binop::BitwiseXor
        | Binop::ShiftLeft
        | Binop::ShiftRight => Ok(Type::I32),
        Binop::Equal | Binop::NotEqual => Err(
            Error::Type { span, expected: lit_vec("is or is not"), got: lit_vec("== or !=") },
        ),
    }
}

fn finish_binop(
    out: &mut Out,
    sink: SinkId,
    lscope: &mut LocalScope,
    op: Binop,
    t: Type,
    etype: ReturnType,
    span: Span,
) -> (r: Result<(), Error>)
    requires
        old(out).wf(),
        old(out)@.tree.has(sink),
        sink != 0,
        old(lscope).wf(),
    ensures
        stable(*old(out), *old(lscope), *final(out), *final(lscope)),
        final(lscope)@.frames == old(lscope)@.frames,
        refines(
            r,
            binop_finish(sink, St { out: old(out)@, l: old(lscope)@ }, op, t, etype, span),
            final(out)@,
            final(lscope)@,
        ),
{
    proof {
        reveal(binop_finish);
    }
    let bool_type = ReturnType::Value(Type::Bool);
    match op {
        Binop::Less | Binop::LessOrEqual | Binop::Greater | Binop::GreaterOrEqual => {
            match t {
                Type::Bool | Type::I32 | Type::I64 => {
                    write_instr(out, sink, t, binop_str(op), "_s");
                    auto_cast(out, sink, span, lscope, bool_type, etype)
                },
                Type::F32 | Type::F64 => {
                    write_instr(out, sink, t, binop_str(op), "");
                    auto_cast(out, sink, span, lscope, bool_type, etype)
                },
                _ => Err(
                    Error::Type { span, expected: lit_vec("ordered value"), got: t.name_vec() },
                ),
            }
        },
        Binop::Is | Binop::IsNot => {
            release(lscope, out, sink, t, DropPolicy::Keep);
            write_instr(out, sink, t, binop_str(op), "");
            auto_cast(out, sink, span, lscope, bool_type, etype)
        },
        Binop::Add | Binop::Subtract | Binop::Multiply | Binop::Remainder => {
            match t {
                Type::I32 | Type::I64 | Type::F32 | Type::F64 => {
                    if op == Binop::Remainder && (t == Type::F32 || t == Type::F64) {
                        Err(
                            Error::Type {
                                span,
                                expected: lit_vec("integer value"),
                                got: t.name_vec(),
                            },
                        )
                    } else {
                        write_instr(out, sink, t, binop_str(op), "");
                        auto_cast(out, sink, span, lscope, ReturnType::Value(t), etype)
                    }
                },
                _ => Err(
                    Error::Type { span, expected: lit_vec("numeric value"), got: t.name_vec() },
                ),
            }
        },
        Binop::Divide => {
            out.writeln_lit(sink, "f32.div");
            auto_cast(out, sink, span, lscope, ReturnType::Value(Type::F32), etype)
        },
        Binop::TruncDivide => {
            if t == Type::I32 {
                out.writeln_lit(sink, "i32.div_s");
                auto_cast(out, sink, span, lscope, ReturnType::Value(Type::I32), etype)
            } else {
                out.writeln_lit(sink, "f32.div");
                match explicit_cast(
                    out,
                    sink,
                    span,
                    lscope,
                    ReturnType::Value(Type::F32),
                    ReturnType::Value(Type::I32),
                ) {
                    Err(e) => Err(e),
                    Ok(()) => auto_cast(
                        out,
                        sink,
                        span,
                        lscope,
                        ReturnType::Value(Type::I32),
                        etype,
                    ),
                }
            }
        },
        _ => {
            write_instr(out, sink, Type::I32, binop_str(op), "");
            auto_cast(out, sink, span, lscope, ReturnType::Value(Type::I32), etype)
        },
    }
}

fn unop_type(lscope: &LocalScope, op: Unop, span: Span, x: &Expr) -> (r: Result<Type, Error>)
    requires
        lscope.wf(),
    ensures
        match unop_operand_type(lscope.global(), lscope@, op, span, x@) {
            Ok(t) => r == Ok::<Type, Error>(t),
            Err(e) => r matches Err(x) && x@ == e,
        },
{
    proof {
        reveal(unop_operand_type);
    }
    match op {
        Unop::Not => Ok(Type::Bool),
        _ => match guess_type(lscope, x) {
            Err(e) => Err(e),
            Ok(t) => match t {
                Type::I32 | Type::I64 | Type::F32 | Type::F64 => Ok(t),
                _ => Err(Error::Type { span, expected: lit_vec("numeric"), got: t.name_vec() }),
            },
        },
    }
}

fn finish_unop(
    out: &mut Out,
    sink: SinkId,
    lscope: &mut LocalScope,
    op: Unop,
    t: Type,
    etype: ReturnType,
    span: Span,
) -> (r: Result<(), Error>)
    requires
        old(out).wf(),
        old(out)@.tree.has(sink),
        sink != 0,
        old(lscope).wf(),
    ensures
        stable(*old(out), *old(lscope), *final(out), *final(lscope)),
        final(lscope)@.frames == old(lscope)@.frames,
        refines(
            r,
            unop_finish(sink, St { out: old(out)@, l: old(lscope)@ }, op, t, etype, span),
            final(out)@,
            final(lscope)@,
        ),
{
    proof {
        reveal(unop_finish);
    }
    match op {
        Unop::Plus => auto_cast(out, sink, span, lscope, ReturnType::Value(t), etype),
        Unop::Minus => {
            if t == Type::F32 || t == Type::F64 {
                write_instr(out, sink, t, "neg", "");
            } else {
                write_instr(out, sink, t, "const -1", "");
                write_instr(out, sink, t, "mul", "");
            }
            auto_cast(out, sink, span, lscope, ReturnType::Value(t), etype)
        },
        Unop::Not => {
            out.writeln_lit(sink, "i32.eqz");
            auto_cast(out, sink, span, lscope, ReturnType::Value(Type::Bool), etype)
        },
    }
}

fn enter_while(out: &mut Out, sink: SinkId, lscope: &mut LocalScope, span: Span) -> (r: Result<
    (u32, u32),
    Error,
>)
    requires
        old(out).wf(),
        old(out)@.tree.has(sink),
        sink != 0,
        old(lscope).wf(),
    ensures
        stable(*old(out), *old(lscope), *final(out), *final(lscope)),
        final(lscope)@.frames == old(lscope)@.frames,
        match while_enter(sink, St { out: old(out)@, l: old(lscope)@ }, span) {
            Ok(st) => r == Ok::<(u32, u32), Error>(
                (old(lscope)@.nlabels, (old(lscope)@.nlabels + 1) as u32),
            ) && final(out)@ == st.out && final(lscope)@ == st.l,
            Err(e) => r matches Err(x) && x@ == e,
        },
{
    proof {
        reveal(while_enter);
    }
    let break_label: u32 = match lscope.new_label_id() {
        Some(id) => id,
        None => {
            return Err(label_overflow_error(span));
        },
    };
    let continue_label: u32 = match lscope.new_label_id() {
        Some(id) => id,
        None => {
            return Err(label_overflow_error(span));
        },
    };
    lscope.enter_loop(break_label, continue_label);
    out.write_lit(sink, "(block $lbl_");
    out.write_dec(sink, break_label as u64);
    out.write_lit(sink, " (loop $lbl_");
    out.write_dec(sink, continue_label as u64);
    out.newline(sink);
    Ok((break_label, continue_label))
}

fn test_while(out: &mut Out, sink: SinkId, break_label: u32)
    requires
        old(out).wf(),
        old(out)@.tree.has(sink),
        sink != 0,
    ensures
        final(out).wf(),
        final(out)@.tree.nodes.len() == old(out)@.tree.nodes.len(),
        final(out)@.tree.nodes[0] == old(out)@.tree.nodes[0],
        forall|l: LocalScopeView|
            (St { out: final(out)@, l }) == #[trigger] while_test(
                sink,
                St { out: old(out)@, l },
                break_label,
            ),
{
    proof {
        reveal(while_test);
    }
    out.writeln_lit(sink, "i32.eqz");
    out.write_lit(sink, "br_if $lbl_");
    out.write_dec(sink, break_label as u64);
    out.newline(sink);
}

fn exit_while(out: &mut Out, sink: SinkId, lscope: &mut LocalScope, continue_label: u32)
    requires
        old(out).wf(),
        old(out)@.tree.has(sink),
        sink != 0,
        old(lscope).wf(),
    ensures
        stable(*old(out), *old(lscope), *final(out), *final(lscope)),
        final(lscope)@.frames == old(lscope)@.frames,
        (St { out: final(out)@, l: final(lscope)@ }) == while_exit(
            sink,
            St { out: old(out)@, l: old(lscope)@ },
            continue_label,
        ),
{
    proof {
        reveal(while_exit);
    }
    out.write_lit(sink, "br $lbl_");
    out.write_dec(sink, continue_label as u64);
    out.newline(sink);
    out.writeln_lit(sink, "))");
    lscope.leave_loop();
}

fn head_if(out: &mut Out, sink: SinkId, etype: ReturnType)
    requires
        old(out).wf(),
        old(out)@.tree.has(sink),
        sink != 0,
    ensures
        final(out).wf(),
        final(out)@.tree.nodes.len() == old(out)@.tree.nodes.len(),
        final(out)@.tree.nodes[0] == old(out)@.tree.nodes[0],
        forall|l: LocalScopeView|
            (St { out: final(out)@, l }) == #[trigger] if_head(
                sink,
                St { out: old(out)@, l },
                etype,
            ),
{
    proof {
        reveal(if_head);
    }
    out.writeln_lit(sink, "if");
    match etype {
        ReturnType::Value(t) => {
            out.write_lit(sink, " (result ");
            out.write_lit(sink, translate_type(t));
            out.write_lit(sink, ")");
            out.newline(sink);
        },
        _ => {},
    }
}

fn arity_mismatch(span: Span, expected: usize, got: usize) -> (r: Error)
    ensures
        r@ == arity_error(span, expected as nat, got as nat),
{
    let mut e = dec_vec(expected as u64);
    push_lit(&mut e, " args");
    let mut g = dec_vec(got as u64);
    push_lit(&mut g, " args");
    Error::Type { span, expected: e, got: g }
}

/// Translates the items of a list literal and appends each to the list.
fn translate_list_items(
    out: &mut Out,
    sink: SinkId,
    lscope: &mut LocalScope,
    exprs: &Vec<Expr>,
) -> (r: Result<(), Error>)
    requires
        old(out).wf(),
        old(out)@.tree.has(sink),
        sink != 0,
        old(lscope).wf(),
    ensures
        stable(*old(out), *old(lscope), *final(out), *final(lscope)),
        r is Ok ==> final(lscope)@.frames.len() == old(lscope)@.frames.len(),
        refines(
            r,
            tr_list_items(
                old(lscope).global(),
                sink,
                St { out: old(out)@, l: old(lscope)@ },
                exprs_view(exprs@),
                0,
            ),
            final(out)@,
            final(lscope)@,
        ),
    decreases exprs, 0nat,
{
    proof {
        reveal(tr_expr);
    }
    let ghost g = lscope.global();
    let ghost st0 = St { out: out@, l: lscope@ };
    let ghost items = exprs_view(exprs@);
    let ghost total = tr_list_items(g, sink, st0, items, 0);
    let n: usize = exprs.len();
    let mut i: usize = 0;
    while i < n
        invariant
            out.wf(),
            lscope.wf(),
            out@.tree.has(sink),
            sink != 0,
            lscope.global() == g,
            out@.tree.nodes.len() == st0.out.tree.nodes.len(),
            out@.tree.nodes[0] == st0.out.tree.nodes[0],
            lscope@.frames.len() == st0.l.frames.len(),
            st0.out == old(out)@,
            st0.l == old(lscope)@,
            g == old(lscope).global(),
            n == exprs.len(),
            0 <= i <= n,
            items == exprs_view(exprs@),
            total == tr_list_items(g, sink, st0, items, 0),
            total == tr_list_items(g, sink, St { out: out@, l: lscope@ }, items, i as int),
        decreases n - i,
    {
        proof {
            reveal(tr_expr);
            assert(decreases_to!(*exprs => exprs@));
            assert(decreases_to!(exprs@ => exprs@[i as int]));
            assert(items[i as int] == exprs@[i as int]@);
        }
        raw_dup(lscope, out, sink, WasmType::I32);
        match translate_expr(out, sink, lscope, ReturnType::Value(Type::Id), &exprs[i]) {
            Err(e) => {
                return Err(e);
            },
            Ok(()) => {},
        }
        out.writeln_lit(sink, "call $f___list_push_raw_no_retain");
        i += 1;
    }
    Ok(())
}

/// Translates the expressions of a block: all but the last as statements.
fn translate_block_items(
    out: &mut Out,
    sink: SinkId,
    lscope: &mut LocalScope,
    etype: ReturnType,
    exprs: &Vec<Expr>,
) -> (r: Result<(), Error>)
    requires
        old(out).wf(),
        old(out)@.tree.has(sink),
        sink != 0,
        old(lscope).wf(),
    ensures
        stable(*old(out), *old(lscope), *final(out), *final(lscope)),
        r is Ok ==> final(lscope)@.frames.len() == old(lscope)@.frames.len(),
        refines(
            r,
            tr_block_items(
                old(lscope).global(),
                sink,
                St { out: old(out)@, l: old(lscope)@ },
                etype,
                exprs_view(exprs@),
                0,
            ),
            final(out)@,
            final(lscope)@,
        ),
    decreases exprs, 0nat,
{
    proof {
        reveal(tr_expr);
    }
    let ghost g = lscope.global();
    let ghost st0 = St { out: out@, l: lscope@ };
    let ghost items = exprs_view(exprs@);
    let ghost total = tr_block_items(g, sink, st0, etype, items, 0);
    let n: usize = exprs.len();
    let mut i: usize = 0;
    while i < n
        invariant
            out.wf(),
            lscope.wf(),
            out@.tree.has(sink),
            sink != 0,
            lscope.global() == g,
            out@.tree.nodes.len() == st0.out.tree.nodes.len(),
            out@.tree.nodes[0] == st0.out.tree.nodes[0],
            lscope@.frames.len() == st0.l.frames.len(),
            st0.out == old(out)@,
            st0.l == old(lscope)@,
            g == old(lscope).global(),
            n == exprs.len(),
            0 <= i <= n,
            items == exprs_view(exprs@),
            total == tr_block_items(g, sink, st0, etype, items, 0),
            total == tr_block_items(g, sink, St { out: out@, l: lscope@ }, etype, items, i as int),
        decreases n - i,
    {
        proof {
            reveal(tr_expr);
            assert(decreases_to!(*exprs => exprs@));
            assert(decreases_to!(exprs@ => exprs@[i as int]));
            assert(items[i as int] == exprs@[i as int]@);
        }
        let et = if i + 1 == n {
            etype
        } else {
            ReturnType::Void
        };
        match translate_expr(out, sink, lscope, et, &exprs[i]) {
            Err(e) => {
                return Err(e);
            },
            Ok(()) => {},
        }
        i += 1;
    }
    Ok(())
}

/// Translates the arguments of a call, each for the type of its parameter.
fn translate_args(
    out: &mut Out,
    sink: SinkId,
    lscope: &mut LocalScope,
    ptypes: &Vec<Type>,
    exprs: &Vec<Expr>,
) -> (r: Result<(), Error>)
    requires
        old(out).wf(),
        old(out)@.tree.has(sink),
        sink != 0,
        old(lscope).wf(),
        ptypes.len() == exprs.len(),
    ensures
        stable(*old(out), *old(lscope), *final(out), *final(lscope)),
        r is Ok ==> final(lscope)@.frames.len() == old(lscope)@.frames.len(),
        refines(
            r,
            tr_args(
                old(lscope).global(),
                sink,
                St { out: old(out)@, l: old(lscope)@ },
                ptypes@,
                exprs_view(exprs@),
                0,
            ),
            final(out)@,
            final(lscope)@,
        ),
    decreases exprs, 0nat,
{
    proof {
        reveal(tr_expr);
    }
    let ghost g = lscope.global();
    let ghost st0 = St { out: out@, l: lscope@ };
    let ghost items = exprs_view(exprs@);
    let ghost total = tr_args(g, sink, st0, ptypes@, items, 0);
    let n: usize = exprs.len();
    let mut i: usize = 0;
    while i < n
        invariant
            out.wf(),
            lscope.wf(),
            out@.tree.has(sink),
            sink != 0,
            lscope.global() == g,
            out@.tree.nodes.len() == st0.out.tree.nodes.len(),
            out@.tree.nodes[0] == st0.out.tree.nodes[0],
            lscope@.frames.len() == st0.l.frames.len(),
            st0.out == old(out)@,
            st0.l == old(lscope)@,
            g == old(lscope).global(),
            n == exprs.len(),
            0 <= i <= n,
            items == exprs_view(exprs@),
            total == tr_args(g, sink, st0, ptypes@, items, 0),
            ptypes.len() == n,
            total == tr_args(g, sink, St { out: out@, l: lscope@ }, ptypes@, items, i as int),
        decreases n - i,
    {
        proof {
            reveal(tr_expr);
            assert(decreases_to!(*exprs => exprs@));
            assert(decreases_to!(exprs@ => exprs@[i as int]));
            assert(items[i as int] == exprs@[i as int]@);
        }
        match translate_expr(out, sink, lscope, ReturnType::Value(ptypes[i]), &exprs[i]) {
            Err(e) => {
                return Err(e);
            },
            Ok(()) => {},
        }
        i += 1;
    }
    Ok(())
}

/// Translates the arguments of inline code, each for its own type.
fn translate_asm_args(
    out: &mut Out,
    sink: SinkId,
    lscope: &mut LocalScope,
    exprs: &Vec<Expr>,
) -> (r: Result<(), Error>)
    requires
        old(out).wf(),
        old(out)@.tree.has(sink),
        sink != 0,
        old(lscope).wf(),
    ensures
        stable(*old(out), *old(lscope), *final(out), *final(lscope)),
        r is Ok ==> final(lscope)@.frames.len() == old(lscope)@.frames.len(),
        refines(
            r,
            tr_asm_args(
                old(lscope).global(),
                sink,
                St { out: old(out)@, l: old(lscope)@ },
                exprs_view(exprs@),
                0,
            ),
            final(out)@,
            final(lscope)@,
        ),
    decreases exprs, 0nat,
{
    proof {
        reveal(tr_expr);
    }
    let ghost g = lscope.global();
    let ghost st0 = St { out: out@, l: lscope@ };
    let ghost items = exprs_view(exprs@);
    let ghost total = tr_asm_args(g, sink, st0, items, 0);
    let n: usize = exprs.len();
    let mut i: usize = 0;
    while i < n
        invariant
            out.wf(),
            lscope.wf(),
            out@.tree.has(sink),
            sink != 0,
            lscope.global() == g,
            out@.tree.nodes.len() == st0.out.tree.nodes.len(),
            out@.tree.nodes[0] == st0.out.tree.nodes[0],
            lscope@.frames.len() == st0.l.frames.len(),
            st0.out == old(out)@,
            st0.l == old(lscope)@,
            g == old(lscope).global(),
            n == exprs.len(),
            0 <= i <= n,
            items == exprs_view(exprs@),
            total == tr_asm_args(g, sink, st0, items, 0),
            total == tr_asm_args(g, sink, St { out: out@, l: lscope@ }, items, i as int),
        decreases n - i,
    {
        proof {
            reveal(tr_expr);
            assert(decreases_to!(*exprs => exprs@));
            assert(decreases_to!(exprs@ => exprs@[i as int]));
            assert(items[i as int] == exprs@[i as int]@);
        }
        let argtype: Type = match guess_type(lscope, &exprs[i]) {
            Ok(t) => t,
            Err(e) => {
                return Err(e);
            },
        };
        match translate_expr(out, sink, lscope, ReturnType::Value(argtype), &exprs[i]) {
            Err(e) => {
                return Err(e);
            },
            Ok(()) => {},
        }
        i += 1;
    }
    Ok(())
}

/// Translates the branches of a conditional, each up to its `else`.
fn translate_if_pairs(
    out: &mut Out,
    sink: SinkId,
    lscope: &mut LocalScope,
    etype: ReturnType,
    pairs: &Vec<(Expr, Expr)>,
) -> (r: Result<(), Error>)
    requires
        old(out).wf(),
        old(out)@.tree.has(sink),
        sink != 0,
        old(lscope).wf(),
    ensures
        stable(*old(out), *old(lscope), *final(out), *final(lscope)),
        r is Ok ==> final(lscope)@.frames.len() == old(lscope)@.frames.len(),
        refines(
            r,
            tr_if_pairs(
                old(lscope).global(),
                sink,
                St { out: old(out)@, l: old(lscope)@ },
                etype,
                pairs_view(pairs@),
                0,
            ),
            final(out)@,
            final(lscope)@,
        ),
    decreases pairs, 0nat,
{
    proof {
        reveal(tr_expr);
    }
    let ghost g = lscope.global();
    let ghost st0 = St { out: out@, l: lscope@ };
    let ghost items = pairs_view(pairs@);
    let ghost total = tr_if_pairs(g, sink, st0, etype, items, 0);
    let n: usize = pairs.len();
    let mut i: usize = 0;
    while i < n
        invariant
            out.wf(),
            lscope.wf(),
            out@.tree.has(sink),
            sink != 0,
            lscope.global() == g,
            out@.tree.nodes.len() == st0.out.tree.nodes.len(),
            out@.tree.nodes[0] == st0.out.tree.nodes[0],
            lscope@.frames.len() == st0.l.frames.len(),
            st0.out == old(out)@,
            st0.l == old(lscope)@,
            g == old(lscope).global(),
            n == pairs.len(),
            0 <= i <= n,
            items == pairs_view(pairs@),
            total == tr_if_pairs(g, sink, st0, etype, items, 0),
            total == tr_if_pairs(g, sink, St { out: out@, l: lscope@ }, etype, items, i as int),
        decreases n - i,
    {
        proof {
            reveal(tr_expr);
            assert(decreases_to!(*pairs => pairs@));
            assert(decreases_to!(pairs@ => pairs@[i as int]));
            assert(decreases_to!(pairs@[i as int] => pairs@[i as int].0));
            assert(decreases_to!(pairs@[i as int] => pairs@[i as int].1));
            assert(items[i as int] == (pairs@[i as int].0@, pairs@[i as int].1@));
        }
        match translate_expr(out, sink, lscope, ReturnType::Value(Type::Bool), &pairs[i].0) {
            Err(e) => {
                return Err(e);
            },
            Ok(()) => {},
        }
        head_if(out, sink, etype);
        match translate_expr(out, sink, lscope, etype, &pairs[i].1) {
            Err(e) => {
                return Err(e);
            },
            Ok(()) => {},
        }
        out.writeln_lit(sink, "else");
        i += 1;
    }
    Ok(())
}

/// A list literal: a new list, and each item appended to it.
fn translate_list(
    out: &mut Out,
    sink: SinkId,
    lscope: &mut LocalScope,
    etype: ReturnType,
    expr: &Expr,
) -> (r: Result<(), Error>)
    requires
        old(out).wf(),
        old(out)@.tree.has(sink),
        sink != 0,
        old(lscope).wf(),
        *expr is List,
    ensures
        stable(*old(out), *old(lscope), *final(out), *final(lscope)),
        r is Ok ==> final(lscope)@.frames.len() == old(lscope)@.frames.len(),
        refines(
            r,
            tr_expr(
                old(lscope).global(),
                sink,
                St { out: old(out)@, l: old(lscope)@ },
                etype,
                expr@,
            ),
            final(out)@,
            final(lscope)@,
        ),
        refused(
            old(lscope).global(),
            sink,
            St { out: old(out)@, l: old(lscope)@ },
            etype,
            expr@,
        ) ==> final(out)@ == old(out)@ && final(lscope)@ == old(lscope)@,
    decreases expr, 0nat,
{
    proof {
        reveal(tr_expr);
        reveal(refused);
    }
    match expr {
        Expr::List(span, exprs) => {
            out.writeln_lit(sink, "call $f___new_list");
            match translate_list_items(out, sink, lscope, exprs) {
                Err(e) => Err(e),
                Ok(()) => auto_cast(
                    out,
                    sink,
                    *span,
                    lscope,
                    ReturnType::Value(Type::List),
                    etype,
                ),
            }
        },
        _ => unreached(),
    }
}

/// An assignment to a variable.
fn translate_setvar(
    out: &mut Out,
    sink: SinkId,
    lscope: &mut LocalScope,
    etype: ReturnType,
    expr: &Expr,
) -> (r: Result<(), Error>)
    requires
        old(out).wf(),
        old(out)@.tree.has(sink),
        sink != 0,
        old(lscope).wf(),
        *expr is SetVar,
    ensures
        stable(*old(out), *old(lscope), *final(out), *final(lscope)),
        r is Ok ==> final(lscope)@.frames.len() == old(lscope)@.frames.len(),
        refines(
            r,
            tr_expr(
                old(lscope).global(),
                sink,
                St { out: old(out)@, l: old(lscope)@ },
                etype,
                expr@,
            ),
            final(out)@,
            final(lscope)@,
        ),
        refused(
            old(lscope).global(),
            sink,
            St { out: old(out)@, l: old(lscope)@ },
            etype,
            expr@,
        ) ==> final(out)@ == old(out)@ && final(lscope)@ == old(lscope)@,
    decreases expr, 0nat,
{
    proof {
        reveal(tr_expr);
        reveal(refused);
    }
    match expr {
        Expr::SetVar(span, name, value) => {
            match find_setvar_target(lscope, etype, *span, name.as_slice()) {
                Err(e) => Err(e),
                Ok(entry) => {
                    match translate_expr(
                        out,
                        sink,
                        lscope,
                        ReturnType::Value(entry.type_()),
                        value,
                    ) {
                        Err(e) => Err(e),
                        Ok(()) => {
                            store_setvar(out, sink, entry, name.as_slice());
                            Ok(())
                        },
                    }
                },
            }
        },
        _ => unreached(),
    }
}

/// The declaration of a local with its first value.
fn translate_declvar(
    out: &mut Out,
    sink: SinkId,
    lscope: &mut LocalScope,
    etype: ReturnType,
    expr: &Expr,
) -> (r: Result<(), Error>)
    requires
        old(out).wf(),
        old(out)@.tree.has(sink),
        sink != 0,
        old(lscope).wf(),
        *expr is DeclVar,
    ensures
        stable(*old(out), *old(lscope), *final(out), *final(lscope)),
        r is Ok ==> final(lscope)@.frames.len() == old(lscope)@.frames.len(),
        refines(
            r,
            tr_expr(
                old(lscope).global(),
                sink,
                St { out: old(out)@, l: old(lscope)@ },
                etype,
                expr@,
            ),
            final(out)@,
            final(lscope)@,
        ),
        refused(
            old(lscope).global(),
            sink,
            St { out: old(out)@, l: old(lscope)@ },
            etype,
            expr@,
        ) ==> final(out)@ == old(out)@ && final(lscope)@ == old(lscope)@,
    decreases expr, 0nat,
{
    proof {
        reveal(tr_expr);
        reveal(refused);
    }
    match expr {
        Expr::DeclVar(span, name, type_, init) => {
            let t: Type = match type_ {
                Some(t) => *t,
                None => match guess_type(lscope, init) {
                    Ok(t) => t,
                    Err(e) => {
                        return Err(e);
                    },
                },
            };
            if etype != ReturnType::Void {
                return Err(mismatch(*span, etype, "Void (declvar)"));
            }
            let id: usize = lscope.decl(*span, name.as_slice(), t);
            match translate_expr(out, sink, lscope, ReturnType::Value(t), init) {
                Err(e) => Err(e),
                Ok(()) => {
                    write_var_set(out, sink, Scope::Local, id, name.as_slice());
                    Ok(())
                },
            }
        },
        _ => unreached(),
    }
}

/// A block: its expressions in a scope of their own.
fn translate_block(
    out: &mut Out,
    sink: SinkId,
    lscope: &mut LocalScope,
    etype: ReturnType,
    expr: &Expr,
) -> (r: Result<(), Error>)
    requires
        old(out).wf(),
        old(out)@.tree.has(sink),
        sink != 0,
        old(lscope).wf(),
        *expr is Block,
    ensures
        stable(*old(out), *old(lscope), *final(out), *final(lscope)),
        r is Ok ==> final(lscope)@.frames.len() == old(lscope)@.frames.len(),
        refines(
            r,
            tr_expr(
                old(lscope).global(),
                sink,
                St { out: old(out)@, l: old(lscope)@ },
                etype,
                expr@,
            ),
            final(out)@,
            final(lscope)@,
        ),
        refused(
            old(lscope).global(),
            sink,
            St { out: old(out)@, l: old(lscope)@ },
            etype,
            expr@,
        ) ==> final(out)@ == old(out)@ && final(lscope)@ == old(lscope)@,
    decreases expr, 0nat,
{
    proof {
        reveal(tr_expr);
        reveal(refused);
    }
    match expr {
        Expr::Block(span, exprs) => {
            if exprs.len() == 0 {
                assert(exprs_view(exprs@).len() == 0);
                return auto_cast(out, sink, *span, lscope, ReturnType::Void, etype);
            }
            assert(exprs_view(exprs@).len() != 0);
            lscope.push();
            match translate_block_items(out, sink, lscope, etype, exprs) {
                Err(e) => Err(e),
                Ok(()) => {
                    lscope.pop();
                    Ok(())
                },
            }
        },
        _ => unreached(),
    }
}

/// A call of a function.
fn translate_call(
    out: &mut Out,
    sink: SinkId,
    lscope: &mut LocalScope,
    etype: ReturnType,
    expr: &Expr,
) -> (r: Result<(), Error>)
    requires
        old(out).wf(),
        old(out)@.tree.has(sink),
        sink != 0,
        old(lscope).wf(),
        *expr is FunctionCall,
    ensures
        stable(*old(out), *old(lscope), *final(out), *final(lscope)),
        r is Ok ==> final(lscope)@.frames.len() == old(lscope)@.frames.len(),
        refines(
            r,
            tr_expr(
                old(lscope).global(),
                sink,
                St { out: old(out)@, l: old(lscope)@ },
                etype,
                expr@,
            ),
            final(out)@,
            final(lscope)@,
        ),
        refused(
            old(lscope).global(),
            sink,
            St { out: old(out)@, l: old(lscope)@ },
            etype,
            expr@,
        ) ==> final(out)@ == old(out)@ && final(lscope)@ == old(lscope)@,
    decreases expr, 0nat,
{
    proof {
        reveal(tr_expr);
        reveal(refused);
    }
    match expr {
        Expr::FunctionCall(span, name, args) => {
            match lscope.getf_or_err(*span, name.as_slice()) {
                Err(e) => Err(e),
                Ok(ftype) => {
                    assert(exprs_view(args@).len() == args.len());
                    if args.len() != ftype.parameter_types.len() {
                        return Err(
                            arity_mismatch(*span, ftype.parameter_types.len(), args.len()),
                        );
                    }
                    match translate_args(out, sink, lscope, &ftype.parameter_types, args) {
                        Err(e) => Err(e),
                        Ok(()) => {
                            out.write_lit(sink, "call $f_");
                            out.write(sink, name.as_slice());
                            out.newline(sink);
                            auto_cast(out, sink, *span, lscope, ftype.return_type, etype)
                        },
                    }
                },
            }
        },
        _ => unreached(),
    }
}

/// A conditional.
fn translate_if(
    out: &mut Out,
    sink: SinkId,
    lscope: &mut LocalScope,
    etype: ReturnType,
    expr: &Expr,
) -> (r: Result<(), Error>)
    requires
        old(out).wf(),
        old(out)@.tree.has(sink),
        sink != 0,
        old(lscope).wf(),
        *expr is If,
    ensures
        stable(*old(out), *old(lscope), *final(out), *final(lscope)),
        r is Ok ==> final(lscope)@.frames.len() == old(lscope)@.frames.len(),
        refines(
            r,
            tr_expr(
                old(lscope).global(),
                sink,
                St { out: old(out)@, l: old(lscope)@ },
                etype,
                expr@,
            ),
            final(out)@,
            final(lscope)@,
        ),
        refused(
            old(lscope).global(),
            sink,
            St { out: old(out)@, l: old(lscope)@ },
            etype,
            expr@,
        ) ==> final(out)@ == old(out)@ && final(lscope)@ == old(lscope)@,
    decreases expr, 0nat,
{
    proof {
        reveal(tr_expr);
        reveal(refused);
    }
    match expr {
        Expr::If(_, pairs, other) => {
            assert(pairs_view(pairs@).len() == pairs.len());
            match translate_if_pairs(out, sink, lscope, etype, pairs) {
                Err(e) => Err(e),
                Ok(()) => {
                    match translate_expr(out, sink, lscope, etype, other) {
                        Err(e) => Err(e),
                        Ok(()) => {
                            write_lines(out, sink, "end", pairs.len());
                            Ok(())
                        },
                    }
                },
            }
        },
        _ => unreached(),
    }
}

/// A loop.
fn translate_while(
    out: &mut Out,
    sink: SinkId,
    lscope: &mut LocalScope,
    etype: ReturnType,
    expr: &Expr,
) -> (r: Result<(), Error>)
    requires
        old(out).wf(),
        old(out)@.tree.has(sink),
        sink != 0,
        old(lscope).wf(),
        *expr is While,
    ensures
        stable(*old(out), *old(lscope), *final(out), *final(lscope)),
        r is Ok ==> final(lscope)@.frames.len() == old(lscope)@.frames.len(),
        refines(
            r,
            tr_expr(
                old(lscope).global(),
                sink,
                St { out: old(out)@, l: old(lscope)@ },
                etype,
                expr@,
            ),
            final(out)@,
            final(lscope)@,
        ),
        refused(
            old(lscope).global(),
            sink,
            St { out: old(out)@, l: old(lscope)@ },
            etype,
            expr@,
        ) ==> final(out)@ == old(out)@ && final(lscope)@ == old(lscope)@,
    decreases expr, 0nat,
{
    proof {
        reveal(tr_expr);
        reveal(refused);
    }
    match expr {
        Expr::While(span, cond, body) => {
            match enter_while(out, sink, lscope, *span) {
                Err(e) => Err(e),
                Ok((break_label, continue_label)) => {
                    match translate_expr(out, sink, lscope, ReturnType::Value(Type::Bool), cond) {
                        Err(e) => Err(e),
                        Ok(()) => {
                            test_while(out, sink, break_label);
                            match translate_expr(out, sink, lscope, ReturnType::Void, body) {
                                Err(e) => Err(e),
                                Ok(()) => {
                                    exit_while(out, sink, lscope, continue_label);
                                    auto_cast(out, sink, *span, lscope, ReturnType::Void, etype)
                                },
                            }
                        },
                    }
                },
            }
        },
        _ => unreached(),
    }
}

/// A binary operator.
fn translate_binop(
    out: &mut Out,
    sink: SinkId,
    lscope: &mut LocalScope,
    etype: ReturnType,
    expr: &Expr,
) -> (r: Result<(), Error>)
    requires
        old(out).wf(),
        old(out)@.tree.has(sink),
        sink != 0,
        old(lscope).wf(),
        *expr is Binop,
    ensures
        stable(*old(out), *old(lscope), *final(out), *final(lscope)),
        r is Ok ==> final(lscope)@.frames.len() == old(lscope)@.frames.len(),
        refines(
            r,
            tr_expr(
                old(lscope).global(),
                sink,
                St { out: old(out)@, l: old(lscope)@ },
                etype,
                expr@,
            ),
            final(out)@,
            final(lscope)@,
        ),
        refused(
            old(lscope).global(),
            sink,
            St { out: old(out)@, l: old(lscope)@ },
            etype,
            expr@,
        ) ==> final(out)@ == old(out)@ && final(lscope)@ == old(lscope)@,
    decreases expr, 0nat,
{
    proof {
        reveal(tr_expr);
        reveal(refused);
    }
    match expr {
        Expr::Binop(span, op, left, right) => {
            match operand_type(lscope, *op, etype, *span, left, right) {
                Err(e) => Err(e),
                Ok(t) => {
                    match translate_expr(out, sink, lscope, ReturnType::Value(t), left) {
                        Err(e) => Err(e),
                        Ok(()) => {
                            match op {
                                Binop::Is | Binop::IsNot => release(
                                    lscope,
                                    out,
                                    sink,
                                    t,
                                    DropPolicy::Keep,
                                ),
                                _ => {},
                            }
                            match translate_expr(out, sink, lscope, ReturnType::Value(t), right) {
                                Err(e) => Err(e),
                                Ok(()) => finish_binop(out, sink, lscope, *op, t, etype, *span),
                            }
                        },
                    }
                },
            }
        },
        _ => unreached(),
    }
}

/// A unary operator.
fn translate_unop(
    out: &mut Out,
    sink: SinkId,
    lscope: &mut LocalScope,
    etype: ReturnType,
    expr: &Expr,
) -> (r: Result<(), Error>)
    requires
        old(out).wf(),
        old(out)@.tree.has(sink),
        sink != 0,
        old(lscope).wf(),
        *expr is Unop,
    ensures
        stable(*old(out), *old(lscope), *final(out), *final(lscope)),
        r is Ok ==> final(lscope)@.frames.len() == old(lscope)@.frames.len(),
        refines(
            r,
            tr_expr(
                old(lscope).global(),
                sink,
                St { out: old(out)@, l: old(lscope)@ },
                etype,
                expr@,
            ),
            final(out)@,
            final(lscope)@,
        ),
        refused(
            old(lscope).global(),
            sink,
            St { out: old(out)@, l: old(lscope)@ },
            etype,
            expr@,
        ) ==> final(out)@ == old(out)@ && final(lscope)@ == old(lscope)@,
    decreases expr, 0nat,
{
    proof {
        reveal(tr_expr);
        reveal(refused);
    }
    match expr {
        Expr::Unop(span, op, x) => {
            match unop_type(lscope, *op, *span, x) {
                Err(e) => Err(e),
                Ok(t) => {
                    match translate_expr(out, sink, lscope, ReturnType::Value(t), x) {
                        Err(e) => Err(e),
                        Ok(()) => finish_unop(out, sink, lscope, *op, t, etype, *span),
                    }
                },
            }
        },
        _ => unreached(),
    }
}

/// An expression with the type that it is to have.
fn translate_assert_type(
    out: &mut Out,
    sink: SinkId,
    lscope: &mut LocalScope,
    etype: ReturnType,
    expr: &Expr,
) -> (r: Result<(), Error>)
    requires
        old(out).wf(),
        old(out)@.tree.has(sink),
        sink != 0,
        old(lscope).wf(),
        *expr is AssertType,
    ensures
        stable(*old(out), *old(lscope), *final(out), *final(lscope)),
        r is Ok ==> final(lscope)@.frames.len() == old(lscope)@.frames.len(),
        refines(
            r,
            tr_expr(
                old(lscope).global(),
                sink,
                St { out: old(out)@, l: old(lscope)@ },
                etype,
                expr@,
            ),
            final(out)@,
            final(lscope)@,
        ),
        refused(
            old(lscope).global(),
            sink,
            St { out: old(out)@, l: old(lscope)@ },
            etype,
            expr@,
        ) ==> final(out)@ == old(out)@ && final(lscope)@ == old(lscope)@,
    decreases expr, 0nat,
{
    proof {
        reveal(tr_expr);
        reveal(refused);
    }
    match expr {
        Expr::AssertType(span, t, x) => {
            match translate_expr(out, sink, lscope, ReturnType::Value(*t), x) {
                Err(e) => Err(e),
                Ok(()) => auto_cast(out, sink, *span, lscope, ReturnType::Value(*t), etype),
            }
        },
        _ => unreached(),
    }
}

/// Inline code with its arguments.
fn translate_asm(
    out: &mut Out,
    sink: SinkId,
    lscope: &mut LocalScope,
    etype: ReturnType,
    expr: &Expr,
) -> (r: Result<(), Error>)
    requires
        old(out).wf(),
        old(out)@.tree.has(sink),
        sink != 0,
        old(lscope).wf(),
        *expr is Asm,
    ensures
        stable(*old(out), *old(lscope), *final(out), *final(lscope)),
        r is Ok ==> final(lscope)@.frames.len() == old(lscope)@.frames.len(),
        refines(
            r,
            tr_expr(
                old(lscope).global(),
                sink,
                St { out: old(out)@, l: old(lscope)@ },
                etype,
                expr@,
            ),
            final(out)@,
            final(lscope)@,
        ),
        refused(
            old(lscope).global(),
            sink,
            St { out: old(out)@, l: old(lscope)@ },
            etype,
            expr@,
        ) ==> final(out)@ == old(out)@ && final(lscope)@ == old(lscope)@,
    decreases expr, 0nat,
{
    proof {
        reveal(tr_expr);
        reveal(refused);
    }
    match expr {
        Expr::Asm(span, args, t, code) => {
            match translate_asm_args(out, sink, lscope, args) {
                Err(e) => Err(e),
                Ok(()) => {
                    out.write(sink, code.as_slice());
                    out.newline(sink);
                    auto_cast(out, sink, *span, lscope, *t, etype)
                },
            }
        },
        _ => unreached(),
    }
}

/// A load from memory.
fn translate_read(
    out: &mut Out,
    sink: SinkId,
    lscope: &mut LocalScope,
    etype: ReturnType,
    expr: &Expr,
) -> (r: Result<(), Error>)
    requires
        old(out).wf(),
        old(out)@.tree.has(sink),
        sink != 0,
        old(lscope).wf(),
        *expr is Read,
    ensures
        stable(*old(out), *old(lscope), *final(out), *final(lscope)),
        r is Ok ==> final(lscope)@.frames.len() == old(lscope)@.frames.len(),
        refines(
            r,
            tr_expr(
                old(lscope).global(),
                sink,
                St { out: old(out)@, l: old(lscope)@ },
                etype,
                expr@,
            ),
            final(out)@,
            final(lscope)@,
        ),
        refused(
            old(lscope).global(),
            sink,
            St { out: old(out)@, l: old(lscope)@ },
            etype,
            expr@,
        ) ==> final(out)@ == old(out)@ && final(lscope)@ == old(lscope)@,
    decreases expr, 0nat,
{
    proof {
        reveal(tr_expr);
        reveal(refused);
    }
    match expr {
        Expr::Read(span, width, addr, offset) => {
            match translate_expr(out, sink, lscope, ReturnType::Value(Type::I32), addr) {
                Err(e) => Err(e),
                Ok(()) => {
                    write_memory(out, sink, load_str(*width), *offset);
                    auto_cast(
                        out,
                        sink,
                        *span,
                        lscope,
                        ReturnType::Value(width.value_type()),
                        etype,
                    )
                },
            }
        },
        _ => unreached(),
    }
}

/// A store to memory.
fn translate_write(
    out: &mut Out,
    sink: SinkId,
    lscope: &mut LocalScope,
    etype: ReturnType,
    expr: &Expr,
) -> (r: Result<(), Error>)
    requires
        old(out).wf(),
        old(out)@.tree.has(sink),
        sink != 0,
        old(lscope).wf(),
        *expr is Write,
    ensures
        stable(*old(out), *old(lscope), *final(out), *final(lscope)),
        r is Ok ==> final(lscope)@.frames.len() == old(lscope)@.frames.len(),
        refines(
            r,
            tr_expr(
                old(lscope).global(),
                sink,
                St { out: old(out)@, l: old(lscope)@ },
                etype,
                expr@,
            ),
            final(out)@,
            final(lscope)@,
        ),
        refused(
            old(lscope).global(),
            sink,
            St { out: old(out)@, l: old(lscope)@ },
            etype,
            expr@,
        ) ==> final(out)@ == old(out)@ && final(lscope)@ == old(lscope)@,
    decreases expr, 0nat,
{
    proof {
        reveal(tr_expr);
        reveal(refused);
    }
    match expr {
        Expr::Write(span, width, addr, value, offset) => {
            match translate_expr(out, sink, lscope, ReturnType::Value(Type::I32), addr) {
                Err(e) => Err(e),
                Ok(()) => {
                    match translate_expr(
                        out,
                        sink,
                        lscope,
                        ReturnType::Value(width.value_type()),
                        value,
                    ) {
                        Err(e) => Err(e),
                        Ok(()) => {
                            write_memory(out, sink, store_str(*width), *offset);
                            auto_cast(out, sink, *span, lscope, ReturnType::Void, etype)
                        },
                    }
                },
            }
        },
        _ => unreached(),
    }
}

/// A truth value.
fn translate_bool_literal(
    out: &mut Out,
    sink: SinkId,
    lscope: &mut LocalScope,
    etype: ReturnType,
    expr: &Expr,
) -> (r: Result<(), Error>)
    requires
        old(out).wf(),
        old(out)@.tree.has(sink),
        sink != 0,
        old(lscope).wf(),
        *expr is Bool,
    ensures
        stable(*old(out), *old(lscope), *final(out), *final(lscope)),
        r is Ok ==> final(lscope)@.frames.len() == old(lscope)@.frames.len(),
        refines(
            r,
            tr_expr(
                old(lscope).global(),
                sink,
                St { out: old(out)@, l: old(lscope)@ },
                etype,
                expr@,
            ),
            final(out)@,
            final(lscope)@,
        ),
        refused(
            old(lscope).global(),
            sink,
            St { out: old(out)@, l: old(lscope)@ },
            etype,
            expr@,
        ) ==> final(out)@ == old(out)@ && final(lscope)@ == old(lscope)@,
{
    proof {
        reveal(tr_expr);
        reveal(refused);
    }
    match expr {
        Expr::Bool(span, x) => translate_bool(out, sink, etype, *span, *x),
        _ => unreached(),
    }
}

/// An integer.
fn translate_int_literal(
    out: &mut Out,
    sink: SinkId,
    lscope: &mut LocalScope,
    etype: ReturnType,
    expr: &Expr,
) -> (r: Result<(), Error>)
    requires
        old(out).wf(),
        old(out)@.tree.has(sink),
        sink != 0,
        old(lscope).wf(),
        *expr is Int,
    ensures
        stable(*old(out), *old(lscope), *final(out), *final(lscope)),
        r is Ok ==> final(lscope)@.frames.len() == old(lscope)@.frames.len(),
        refines(
            r,
            tr_expr(
                old(lscope).global(),
                sink,
                St { out: old(out)@, l: old(lscope)@ },
                etype,
                expr@,
            ),
            final(out)@,
            final(lscope)@,
        ),
        refused(
            old(lscope).global(),
            sink,
            St { out: old(out)@, l: old(lscope)@ },
            etype,
            expr@,
        ) ==> final(out)@ == old(out)@ && final(lscope)@ == old(lscope)@,
{
    proof {
        reveal(tr_expr);
        reveal(refused);
    }
    match expr {
        Expr::Int(span, x) => translate_int(out, sink, etype, *span, *x),
        _ => unreached(),
    }
}

/// A number with a fraction.
fn translate_float_literal(
    out: &mut Out,
    sink: SinkId,
    lscope: &mut LocalScope,
    etype: ReturnType,
    expr: &Expr,
) -> (r: Result<(), Error>)
    requires
        old(out).wf(),
        old(out)@.tree.has(sink),
        sink != 0,
        old(lscope).wf(),
        *expr is Float,
    ensures
        stable(*old(out), *old(lscope), *final(out), *final(lscope)),
        r is Ok ==> final(lscope)@.frames.len() == old(lscope)@.frames.len(),
        refines(
            r,
            tr_expr(
                old(lscope).global(),
                sink,
                St { out: old(out)@, l: old(lscope)@ },
                etype,
                expr@,
            ),
            final(out)@,
            final(lscope)@,
        ),
        refused(
            old(lscope).global(),
            sink,
            St { out: old(out)@, l: old(lscope)@ },
            etype,
            expr@,
        ) ==> final(out)@ == old(out)@ && final(lscope)@ == old(lscope)@,
{
    proof {
        reveal(tr_expr);
        reveal(refused);
    }
    match expr {
        Expr::Float(span, text) => translate_float(out, sink, etype, *span, text.as_slice()),
        _ => unreached(),
    }
}

/// A string.
fn translate_string_literal(
    out: &mut Out,
    sink: SinkId,
    lscope: &mut LocalScope,
    etype: ReturnType,
    expr: &Expr,
) -> (r: Result<(), Error>)
    requires
        old(out).wf(),
        old(out)@.tree.has(sink),
        sink != 0,
        old(lscope).wf(),
        *expr is String,
    ensures
        stable(*old(out), *old(lscope), *final(out), *final(lscope)),
        r is Ok ==> final(lscope)@.frames.len() == old(lscope)@.frames.len(),
        refines(
            r,
            tr_expr(
                old(lscope).global(),
                sink,
                St { out: old(out)@, l: old(lscope)@ },
                etype,
                expr@,
            ),
            final(out)@,
            final(lscope)@,
        ),
        refused(
            old(lscope).global(),
            sink,
            St { out: old(out)@, l: old(lscope)@ },
            etype,
            expr@,
        ) ==> final(out)@ == old(out)@ && final(lscope)@ == old(lscope)@,
{
    proof {
        reveal(tr_expr);
        reveal(refused);
    }
    match expr {
        Expr::String(span, value) => translate_string(
            out,
            sink,
            lscope,
            etype,
            *span,
            value.as_slice(),
        ),
        _ => unreached(),
    }
}

/// A name that is read.
fn translate_variable(
    out: &mut Out,
    sink: SinkId,
    lscope: &mut LocalScope,
    etype: ReturnType,
    expr: &Expr,
) -> (r: Result<(), Error>)
    requires
        old(out).wf(),
        old(out)@.tree.has(sink),
        sink != 0,
        old(lscope).wf(),
        *expr is GetVar,
    ensures
        stable(*old(out), *old(lscope), *final(out), *final(lscope)),
        r is Ok ==> final(lscope)@.frames.len() == old(lscope)@.frames.len(),
        refines(
            r,
            tr_expr(
                old(lscope).global(),
                sink,
                St { out: old(out)@, l: old(lscope)@ },
                etype,
                expr@,
            ),
            final(out)@,
            final(lscope)@,
        ),
        refused(
            old(lscope).global(),
            sink,
            St { out: old(out)@, l: old(lscope)@ },
            etype,
            expr@,
        ) ==> final(out)@ == old(out)@ && final(lscope)@ == old(lscope)@,
{
    proof {
        reveal(tr_expr);
        reveal(refused);
    }
    match expr {
        Expr::GetVar(span, name) => translate_getvar(
            out,
            sink,
            lscope,
            etype,
            *span,
            name.as_slice(),
        ),
        _ => unreached(),
    }
}

/// A zero-terminated string.
fn translate_cstring_intrinsic(
    out: &mut Out,
    sink: SinkId,
    lscope: &mut LocalScope,
    etype: ReturnType,
    expr: &Expr,
) -> (r: Result<(), Error>)
    requires
        old(out).wf(),
        old(out)@.tree.has(sink),
        sink != 0,
        old(lscope).wf(),
        *expr is CString,
    ensures
        stable(*old(out), *old(lscope), *final(out), *final(lscope)),
        r is Ok ==> final(lscope)@.frames.len() == old(lscope)@.frames.len(),
        refines(
            r,
            tr_expr(
                old(lscope).global(),
                sink,
                St { out: old(out)@, l: old(lscope)@ },
                etype,
                expr@,
            ),
            final(out)@,
            final(lscope)@,
        ),
        refused(
            old(lscope).global(),
            sink,
            St { out: old(out)@, l: old(lscope)@ },
            etype,
            expr@,
        ) ==> final(out)@ == old(out)@ && final(lscope)@ == old(lscope)@,
{
    proof {
        reveal(tr_expr);
        reveal(refused);
    }
    match expr {
        Expr::CString(span, value) => translate_cstring(out, sink, etype, *span, value.as_slice()),
        _ => unreached(),
    }
}

/// A literal.
fn translate_literal(
    out: &mut Out,
    sink: SinkId,
    lscope: &mut LocalScope,
    etype: ReturnType,
    expr: &Expr,
) -> (r: Result<(), Error>)
    requires
        old(out).wf(),
        old(out)@.tree.has(sink),
        sink != 0,
        old(lscope).wf(),
        *expr is Bool || *expr is Int || *expr is Float || *expr is String || *expr is CString,
    ensures
        stable(*old(out), *old(lscope), *final(out), *final(lscope)),
        r is Ok ==> final(lscope)@.frames.len() == old(lscope)@.frames.len(),
        refines(
            r,
            tr_expr(
                old(lscope).global(),
                sink,
                St { out: old(out)@, l: old(lscope)@ },
                etype,
                expr@,
            ),
            final(out)@,
            final(lscope)@,
        ),
        refused(
            old(lscope).global(),
            sink,
            St { out: old(out)@, l: old(lscope)@ },
            etype,
            expr@,
        ) ==> final(out)@ == old(out)@ && final(lscope)@ == old(lscope)@,
    decreases expr, 1nat,
{
    match expr {
        Expr::Bool(..) => translate_bool_literal(out, sink, lscope, etype, expr),
        Expr::Int(..) => translate_int_literal(out, sink, lscope, etype, expr),
        Expr::Float(..) => translate_float_literal(out, sink, lscope, etype, expr),
        Expr::String(..) => translate_string_literal(out, sink, lscope, etype, expr),
        _ => translate_cstring_intrinsic(out, sink, lscope, etype, expr),
    }
}

/// An expression around a variable or a single operand.
fn translate_simple(
    out: &mut Out,
    sink: SinkId,
    lscope: &mut LocalScope,
    etype: ReturnType,
    expr: &Expr,
) -> (r: Result<(), Error>)
    requires
        old(out).wf(),
        old(out)@.tree.has(sink),
        sink != 0,
        old(lscope).wf(),
        *expr is GetVar || *expr is SetVar || *expr is DeclVar || *expr is AssertType
            || *expr is Unop,
    ensures
        stable(*old(out), *old(lscope), *final(out), *final(lscope)),
        r is Ok ==> final(lscope)@.frames.len() == old(lscope)@.frames.len(),
        refines(
            r,
            tr_expr(
                old(lscope).global(),
                sink,
                St { out: old(out)@, l: old(lscope)@ },
                etype,
                expr@,
            ),
            final(out)@,
            final(lscope)@,
        ),
        refused(
            old(lscope).global(),
            sink,
            St { out: old(out)@, l: old(lscope)@ },
            etype,
            expr@,
        ) ==> final(out)@ == old(out)@ && final(lscope)@ == old(lscope)@,
    decreases expr, 1nat,
{
    match expr {
        Expr::GetVar(..) => translate_variable(out, sink, lscope, etype, expr),
        Expr::SetVar(..) => translate_setvar(out, sink, lscope, etype, expr),
        Expr::DeclVar(..) => translate_declvar(out, sink, lscope, etype, expr),
        Expr::AssertType(..) => translate_assert_type(out, sink, lscope, etype, expr),
        _ => translate_unop(out, sink, lscope, etype, expr),
    }
}

/// An expression that holds a sequence of expressions.
fn translate_flow(
    out: &mut Out,
    sink: SinkId,
    lscope: &mut LocalScope,
    etype: ReturnType,
    expr: &Expr,
) -> (r: Result<(), Error>)
    requires
        old(out).wf(),
        old(out)@.tree.has(sink),
        sink != 0,
        old(lscope).wf(),
        *expr is List || *expr is Block || *expr is FunctionCall || *expr is If || *expr is While,
    ensures
        stable(*old(out), *old(lscope), *final(out), *final(lscope)),
        r is Ok ==> final(lscope)@.frames.len() == old(lscope)@.frames.len(),
        refines(
            r,
            tr_expr(
                old(lscope).global(),
                sink,
                St { out: old(out)@, l: old(lscope)@ },
                etype,
                expr@,
            ),
            final(out)@,
            final(lscope)@,
        ),
        refused(
            old(lscope).global(),
            sink,
            St { out: old(out)@, l: old(lscope)@ },
            etype,
            expr@,
        ) ==> final(out)@ == old(out)@ && final(lscope)@ == old(lscope)@,
    decreases expr, 1nat,
{
    match expr {
        Expr::List(..) => translate_list(out, sink, lscope, etype, expr),
        Expr::Block(..) => translate_block(out, sink, lscope, etype, expr),
        Expr::FunctionCall(..) => translate_call(out, sink, lscope, etype, expr),
        Expr::If(..) => translate_if(out, sink, lscope, etype, expr),
        _ => translate_while(out, sink, lscope, etype, expr),
    }
}

/// An operator, inline code, or an access to memory.
fn translate_operation(
    out: &mut Out,
    sink: SinkId,
    lscope: &mut LocalScope,
    etype: ReturnType,
    expr: &Expr,
) -> (r: Result<(), Error>)
    requires
        old(out).wf(),
        old(out)@.tree.has(sink),
        sink != 0,
        old(lscope).wf(),
        *expr is Binop || *expr is Asm || *expr is Read || *expr is Write,
    ensures
        stable(*old(out), *old(lscope), *final(out), *final(lscope)),
        r is Ok ==> final(lscope)@.frames.len() == old(lscope)@.frames.len(),
        refines(
            r,
            tr_expr(
                old(lscope).global(),
                sink,
                St { out: old(out)@, l: old(lscope)@ },
                etype,
                expr@,
            ),
            final(out)@,
            final(lscope)@,
        ),
        refused(
            old(lscope).global(),
            sink,
            St { out: old(out)@, l: old(lscope)@ },
            etype,
            expr@,
        ) ==> final(out)@ == old(out)@ && final(lscope)@ == old(lscope)@,
    decreases expr, 1nat,
{
    match expr {
        Expr::Binop(..) => translate_binop(out, sink, lscope, etype, expr),
        Expr::Asm(..) => translate_asm(out, sink, lscope, etype, expr),
        Expr::Read(..) => translate_read(out, sink, lscope, etype, expr),
        _ => translate_write(out, sink, lscope, etype, expr),
    }
}

/// Translates `expr` for a place that takes `etype`: writes the code to
/// `sink`, interns its literals, and declares its locals in `lscope`.
pub fn translate_expr(
    out: &mut Out,
    sink: SinkId,
    lscope: &mut LocalScope,
    etype: ReturnType,
    expr: &Expr,
) -> (r: Result<(), Error>)
    requires
        old(out).wf(),
        old(out)@.tree.has(sink),
        sink != 0,
        old(lscope).wf(),
    ensures
        stable(*old(out), *old(lscope), *final(out), *final(lscope)),
        r is Ok ==> final(lscope)@.frames.len() == old(lscope)@.frames.len(),
        refines(
            r,
            tr_expr(
                old(lscope).global(),
                sink,
                St { out: old(out)@, l: old(lscope)@ },
                etype,
                expr@,
            ),
            final(out)@,
            final(lscope)@,
        ),
        refused(
            old(lscope).global(),
            sink,
            St { out: old(out)@, l: old(lscope)@ },
            etype,
            expr@,
        ) ==> final(out)@ == old(out)@ && final(lscope)@ == old(lscope)@,
    decreases expr, 2nat,
{
    match expr {
        Expr::Bool(..)
        | Expr::Int(..)
        | Expr::Float(..)
        | Expr::String(..)
        | Expr::CString(..) => translate_literal(out, sink, lscope, etype, expr),
        Expr::GetVar(..)
        | Expr::SetVar(..)
        | Expr::DeclVar(..)
        | Expr::AssertType(..)
        | Expr::Unop(..) => translate_simple(out, sink, lscope, etype, expr),
        Expr::List(..)
        | Expr::Block(..)
        | Expr::FunctionCall(..)
        | Expr::If(..)
        | Expr::While(..) => translate_flow(out, sink, lscope, etype, expr),
        Expr::Binop(..) | Expr::Asm(..) | Expr::Read(..) | Expr::Write(..) => translate_operation(
            out,
            sink,
            lscope,
            etype,
            expr,
        ),
    }
}

/// A block without expressions gives nothing: where a value is taken, its
/// translation is the error that names `Void`.
pub proof fn lemma_empty_block_is_void(
    g: GlobalScopeView,
    sink: SinkId,
    st: St,
    span: Span,
    t: Type,
)
    ensures
        tr_expr(g, sink, st, ReturnType::Value(t), ExprView::Block(span, Seq::empty())) == Err::<
            St,
            ErrorView,
        >(type_error(span, t.name(), lit("Void"))),
        tr_expr(g, sink, st, ReturnType::Void, ExprView::Block(span, Seq::empty())) == Ok::<
            St,
            ErrorView,
        >(st),
{
    reveal(tr_expr);
    reveal(spec_auto_cast);
}

/// A constant cannot be set: an assignment to a name that stands for a
/// constant is a type error at the assignment, whatever is assigned and
/// wherever the assignment stands. Where it stands as a statement, the error
/// says that a variable was expected and a constant found.
pub proof fn lemma_set_constant_fails(
    g: GlobalScopeView,
    sink: SinkId,
    st: St,
    etype: ReturnType,
    span: Span,
    name: Seq<u8>,
    value: ExprView,
)
    requires
        st.l.get(g, name) matches Some(e) && e is Constant,
    ensures
        tr_expr(g, sink, st, etype, ExprView::SetVar(span, name, Box::new(value))) matches Err(
            ErrorView::Type { span: s, .. },
        ) && s == span,
        etype == ReturnType::Void ==> tr_expr(
            g,
            sink,
            st,
            etype,
            ExprView::SetVar(span, name, Box::new(value)),
        ) == Err::<St, ErrorView>(type_error(span, lit("variable"), lit("constant"))),
{
    reveal(tr_expr);
    reveal(setvar_target);
}

/// A call of a name that stands for no function is the type error that the
/// function was expected and not found, whatever the arguments and wherever
/// the call stands.
pub proof fn lemma_unknown_function_fails(
    g: GlobalScopeView,
    sink: SinkId,
    st: St,
    etype: ReturnType,
    span: Span,
    name: Seq<u8>,
    args: Seq<ExprView>,
)
    requires
        g.function(name) is None,
    ensures
        tr_expr(g, sink, st, etype, ExprView::FunctionCall(span, name, args)) == Err::<
            St,
            ErrorView,
        >(type_error(span, lit("Function ") + name, lit("NotFound"))),
{
    reveal(tr_expr);
}

/// A name that is read has to be in scope: otherwise the translation is the
/// type error that the variable was expected and not found.
pub proof fn lemma_unknown_variable_fails(
    g: GlobalScopeView,
    sink: SinkId,
    st: St,
    etype: ReturnType,
    span: Span,
    name: Seq<u8>,
)
    requires
        st.l.get(g, name) is None,
    ensures
        tr_expr(g, sink, st, etype, ExprView::GetVar(span, name)) == Err::<St, ErrorView>(
            type_error(span, lit("Variable ") + name, lit("NotFound")),
        ),
{
    reveal(tr_expr);
    reveal(tr_getvar);
}

/// A literal of a type that the place does not take is a type error that
/// names the type of the place and the kind of the literal: a number with a
/// fraction where an `i32` is taken is `expected I32, got Float`.
pub proof fn lemma_float_needs_float(
    g: GlobalScopeView,
    sink: SinkId,
    st: St,
    span: Span,
    text: Seq<u8>,
    t: Type,
)
    requires
        t != Type::F32 && t != Type::F64 && t != Type::Id,
    ensures
        tr_expr(g, sink, st, ReturnType::Value(t), ExprView::Float(span, text)) == Err::<
            St,
            ErrorView,
        >(type_error(span, t.name(), lit("Float"))),
{
    reveal(tr_expr);
    reveal(tr_float);
}

/// A variable that is read for a place of its own type is read and
/// retained, and nothing more: the value on the stack holds a reference of
/// its own.
pub proof fn lemma_read_retains(
    g: GlobalScopeView,
    sink: SinkId,
    st: St,
    span: Span,
    name: Seq<u8>,
    entry: ScopeEntry,
)
    requires
        st.l.get(g, name) == Some(entry),
        !(entry is Constant),
    ensures
        tr_expr(g, sink, st, ReturnType::Value(entry.spec_type()), ExprView::GetVar(span, name))
            == Ok::<St, ErrorView>(
            spec_retain(
                St {
                    out: var_get(st.out, sink, entry_scope(entry), entry_id(entry), name),
                    ..st
                },
                sink,
                entry.spec_type(),
                DropPolicy::Keep,
            ),
        ),
{
    reveal(tr_expr);
    reveal(tr_getvar);
    reveal(spec_auto_cast);
}

/// An assignment to a variable hands the reference of the new value from
/// the stack to the variable: behind the code for the value, the old value
/// of the variable is released and the variable is set, and the new value is
/// not retained again.
pub proof fn lemma_assignment_moves_reference(
    g: GlobalScopeView,
    sink: SinkId,
    st: St,
    span: Span,
    name: Seq<u8>,
    value: ExprView,
    entry: ScopeEntry,
    st1: St,
)
    requires
        st.l.get(g, name) == Some(entry),
        !(entry is Constant),
        tr_expr(g, sink, st, ReturnType::Value(entry.spec_type()), value) == Ok::<St, ErrorView>(
            st1,
        ),
    ensures
        tr_expr(g, sink, st, ReturnType::Void, ExprView::SetVar(span, name, Box::new(value)))
            == Ok::<St, ErrorView>(
            St {
                out: var_set(
                    spec_release_var(
                        st1.out,
                        sink,
                        entry_scope(entry),
                        entry_id(entry),
                        name,
                        entry.spec_type(),
                    ),
                    sink,
                    entry_scope(entry),
                    entry_id(entry),
                    name,
                ),
                ..st1
            },
        ),
{
    reveal(tr_expr);
    reveal(setvar_target);
    reveal(setvar_store);
}

/// `and` takes its right operand only where the left one holds: the code
/// of the right operand stands in the branch behind `if`, the branch behind
/// `else` gives `false`, and the code of the left operand comes first and
/// once.
pub proof fn lemma_and_short_circuits(
    g: GlobalScopeView,
    sink: SinkId,
    st: St,
    etype: ReturnType,
    span: Span,
    lhs: ExprView,
    rhs: ExprView,
)
    ensures
        tr_expr(g, sink, st, etype, logic_expr(lit("and"), false, span, lhs, rhs)) == (match tr_expr(
            g,
            sink,
            st,
            ReturnType::Value(Type::Bool),
            lhs,
        ) {
            Err(e) => Err(e),
            Ok(st1) => match tr_expr(
                g,
                sink,
                if_head(sink, st1, etype),
                etype,
                ExprView::AssertType(span, Type::Bool, Box::new(rhs)),
            ) {
                Err(e) => Err(e),
                Ok(st2) => match tr_expr(
                    g,
                    sink,
                    st2.wln(sink, lit("else")),
                    etype,
                    ExprView::Bool(span, false),
                ) {
                    Err(e) => Err(e),
                    Ok(st3) => Ok(St { out: st3.out.wln(sink, lit("end")), ..st3 }),
                },
            },
        }),
{
    reveal(logic_expr);
    let pairs = seq![(lhs, ExprView::AssertType(span, Type::Bool, Box::new(rhs)))];
    lemma_one_branch(g, sink, st, etype, span, pairs, ExprView::Bool(span, false));
}

/// `or` takes its right operand only where the left one does not hold: the
/// branch behind `if` gives `true`, and the code of the right operand
/// stands in the branch behind `else`.
pub proof fn lemma_or_short_circuits(
    g: GlobalScopeView,
    sink: SinkId,
    st: St,
    etype: ReturnType,
    span: Span,
    lhs: ExprView,
    rhs: ExprView,
)
    ensures
        tr_expr(g, sink, st, etype, logic_expr(lit("or"), false, span, lhs, rhs)) == (match tr_expr(
            g,
            sink,
            st,
            ReturnType::Value(Type::Bool),
            lhs,
        ) {
            Err(e) => Err(e),
            Ok(st1) => match tr_expr(
                g,
                sink,
                if_head(sink, st1, etype),
                etype,
                ExprView::Bool(span, true),
            ) {
                Err(e) => Err(e),
                Ok(st2) => match tr_expr(g, sink, st2.wln(sink, lit("else")), etype, rhs) {
                    Err(e) => Err(e),
                    Ok(st3) => Ok(St { out: st3.out.wln(sink, lit("end")), ..st3 }),
                },
            },
        }),
{
    reveal(logic_expr);
    reveal_strlit("and");
    reveal_strlit("or");
    is_ascii_spec_bytes("and");
    is_ascii_spec_bytes("or");
    assert(lit("or").len() == 2 && lit("and").len() == 3);
    let pairs = seq![(lhs, ExprView::Bool(span, true))];
    lemma_one_branch(g, sink, st, etype, span, pairs, rhs);
}

/// A conditional with one condition: the condition, `if`, the branch,
/// `else`, the other branch, `end`.
pub proof fn lemma_one_branch(
    g: GlobalScopeView,
    sink: SinkId,
    st: St,
    etype: ReturnType,
    span: Span,
    pairs: Seq<(ExprView, ExprView)>,
    other: ExprView,
)
    requires
        pairs.len() == 1,
    ensures
        tr_expr(g, sink, st, etype, ExprView::If(span, pairs, Box::new(other))) == (match tr_expr(
            g,
            sink,
            st,
            ReturnType::Value(Type::Bool),
            pairs[0].0,
        ) {
            Err(e) => Err(e),
            Ok(st1) => match tr_expr(g, sink, if_head(sink, st1, etype), etype, pairs[0].1) {
                Err(e) => Err(e),
                Ok(st2) => match tr_expr(g, sink, st2.wln(sink, lit("else")), etype, other) {
                    Err(e) => Err(e),
                    Ok(st3) => Ok(St { out: st3.out.wln(sink, lit("end")), ..st3 }),
                },
            },
        }),
{
    reveal(tr_expr);
    let bool_type = ReturnType::Value(Type::Bool);
    match tr_expr(g, sink, st, bool_type, pairs[0].0) {
        Err(_) => {},
        Ok(st1) => match tr_expr(g, sink, if_head(sink, st1, etype), etype, pairs[0].1) {
            Err(_) => {},
            Ok(st2) => {
                let st3 = st2.wln(sink, lit("else"));
                assert(tr_if_pairs(g, sink, st3, etype, pairs, 1) == Ok::<St, ErrorView>(st3));
                assert(tr_if_pairs(g, sink, st, etype, pairs, 0) == Ok::<St, ErrorView>(st3));
                match tr_expr(g, sink, st3, etype, other) {
                    Err(_) => {},
                    Ok(st4) => {
                        let line = st4.out.wln(sink, lit("end"));
                        assert(w_lines(line, sink, lit("end"), 0) == line);
                        assert(w_lines(st4.out, sink, lit("end"), 1) == line);
                    },
                }
            },
        },
    }
}

} // verus!
