//! Conversions between types: the implicit ones, where a value flows into a
//! place of another type, and the explicit ones.
use crate::error::{type_error, Error, ErrorView};
use crate::ir::{ReturnType, Type, TAG_BOOL, TAG_F32, TAG_I32, TAG_LIST, TAG_STRING, TAG_TYPE};
use crate::out::{Out, OutView};
use crate::scope::LocalScope;
use crate::sink::SinkId;
use crate::span::Span;
use crate::text::{dec_int, lit};
use crate::tr::retain::{release, spec_release, DropPolicy};
use crate::tr::St;
use vstd::prelude::*;

verus! {

/// The type into which values of both types can be widened: the type
/// itself where the two are the same, `f32` for `i32` and `f32`.
pub open spec fn spec_common_type(span: Span, a: Type, b: Type) -> Result<Type, ErrorView> {
    if a == b {
        Ok(a)
    } else if (a == Type::I32 && b == Type::F32) || (a == Type::F32 && b == Type::I32) {
        Ok(Type::F32)
    } else {
        Err(type_error(span, a.name(), b.name()))
    }
}

/// The type into which values of both types can be widened, or the error
/// that there is none.
pub fn common_type(span: Span, a: Type, b: Type) -> (r: Result<Type, Error>)
    ensures
        match spec_common_type(span, a, b) {
            Ok(t) => r == Ok::<Type, Error>(t),
            Err(e) => r matches Err(x) && x@ == e,
        },
{
    if a == b {
        Ok(a)
    } else if (a == Type::I32 && b == Type::F32) || (a == Type::F32 && b == Type::I32) {
        Ok(Type::F32)
    } else {
        Err(Error::Type { span, expected: a.name_vec(), got: b.name_vec() })
    }
}

/// The output after code that boxes the 32-bit value on top of the stack:
/// the value is extended to 64 bits without sign, and the tag is put into
/// the high 32 bits.
#[verifier::opaque]
pub open spec fn spec_cast_to_id(o: OutView, sink: SinkId, tag: i32) -> OutView {
    o.wln(sink, lit("i64.extend_i32_u")).w(sink, lit("i64.const ")).w(sink, dec_int(tag as int)).nl(
        sink,
    ).wln(sink, lit("i64.const 32")).wln(sink, lit("i64.shl")).wln(sink, lit("i64.or"))
}

/// Writes code that boxes the 32-bit value on top of the stack with `tag`.
pub fn cast_to_id(out: &mut Out, sink: SinkId, tag: i32)
    requires
        old(out).wf(),
        old(out)@.tree.has(sink),
        sink != 0,
    ensures
        final(out).wf(),
        final(out)@ == spec_cast_to_id(old(out)@, sink, tag),
        final(out)@.tree.nodes.len() == old(out)@.tree.nodes.len(),
        final(out)@.tree.nodes[0] == old(out)@.tree.nodes[0],
{
    proof {
        reveal(spec_cast_to_id);
    }
    out.writeln_lit(sink, "i64.extend_i32_u");
    out.write_lit(sink, "i64.const ");
    out.write_int(sink, tag as i64);
    out.newline(sink);
    out.writeln_lit(sink, "i64.const 32");
    out.writeln_lit(sink, "i64.shl");
    out.writeln_lit(sink, "i64.or");
}

/// The output after code that turns a value of type `src` into one of the
/// different type `dst`, where the language converts between the two by
/// itself: `i32` to `f32`; a 32-bit value to a boxed one; a boxed value to
/// `i32`, `f32`, `bool`, `str` or `list`, by a helper that tests the tag.
#[verifier::opaque]
pub open spec fn spec_convert(o: OutView, sink: SinkId, src: Type, dst: Type) -> Option<OutView> {
    match (src, dst) {
        (Type::I32, Type::F32) => Some(o.wln(sink, lit("f32.convert_i32_s"))),
        (Type::I32, Type::Id) => Some(spec_cast_to_id(o, sink, TAG_I32)),
        (Type::F32, Type::Id) => Some(
            spec_cast_to_id(o.wln(sink, lit("i32.reinterpret_f32")), sink, TAG_F32),
        ),
        (Type::Bool, Type::Id) => Some(spec_cast_to_id(o, sink, TAG_BOOL)),
        (Type::Type, Type::Id) => Some(spec_cast_to_id(o, sink, TAG_TYPE)),
        (Type::String, Type::Id) => Some(spec_cast_to_id(o, sink, TAG_STRING)),
        (Type::List, Type::Id) => Some(spec_cast_to_id(o, sink, TAG_LIST)),
        (Type::Id, Type::I32) => Some(o.wln(sink, lit("call $f___WAC_raw_id_to_i32"))),
        (Type::Id, Type::F32) => Some(o.wln(sink, lit("call $f___WAC_raw_id_to_f32"))),
        (Type::Id, Type::Bool) => Some(o.wln(sink, lit("call $f___WAC_raw_id_to_bool"))),
        (Type::Id, Type::String) => Some(o.wln(sink, lit("call $f___WAC_raw_id_to_str"))),
        (Type::Id, Type::List) => Some(o.wln(sink, lit("call $f___WAC_raw_id_to_list"))),
        _ => None,
    }
}

fn convert(out: &mut Out, sink: SinkId, src: Type, dst: Type) -> (r: bool)
    requires
        old(out).wf(),
        old(out)@.tree.has(sink),
        sink != 0,
    ensures
        final(out).wf(),
        final(out)@.tree.nodes.len() == old(out)@.tree.nodes.len(),
        final(out)@.tree.nodes[0] == old(out)@.tree.nodes[0],
        match spec_convert(old(out)@, sink, src, dst) {
            Some(o) => r && final(out)@ == o,
            None => !r && final(out)@ == old(out)@,
        },
{
    proof {
        reveal(spec_convert);
    }
    match (src, dst) {
        (Type::I32, Type::F32) => {
            out.writeln_lit(sink, "f32.convert_i32_s");
            true
        },
        (Type::I32, Type::Id) => {
            cast_to_id(out, sink, TAG_I32);
            true
        },
        (Type::F32, Type::Id) => {
            out.writeln_lit(sink, "i32.reinterpret_f32");
            cast_to_id(out, sink, TAG_F32);
            true
        },
        (Type::Bool, Type::Id) => {
            cast_to_id(out, sink, TAG_BOOL);
            true
        },
        (Type::Type, Type::Id) => {
            cast_to_id(out, sink, TAG_TYPE);
            true
        },
        (Type::String, Type::Id) => {
            cast_to_id(out, sink, TAG_STRING);
            true
        },
        (Type::List, Type::Id) => {
            cast_to_id(out, sink, TAG_LIST);
            true
        },
        (Type::Id, Type::I32) => {
            out.writeln_lit(sink, "call $f___WAC_raw_id_to_i32");
            true
        },
        (Type::Id, Type::F32) => {
            out.writeln_lit(sink, "call $f___WAC_raw_id_to_f32");
            true
        },
        (Type::Id, Type::Bool) => {
            out.writeln_lit(sink, "call $f___WAC_raw_id_to_bool");
            true
        },
        (Type::Id, Type::String) => {
            out.writeln_lit(sink, "call $f___WAC_raw_id_to_str");
            true
        },
        (Type::Id, Type::List) => {
            out.writeln_lit(sink, "call $f___WAC_raw_id_to_list");
            true
        },
        _ => false,
    }
}

/// The state after the implicit conversion of what an expression gives,
/// `src`, to what its place takes, `dst`.
///
/// Where the two are the same there is no code. What never returns fits
/// every place. A value that nothing takes is released or dropped. A value
/// of another type is converted where the language does so by itself. All
/// else is an error: a value where none may come back, nothing where a value
/// is needed, a type that does not convert.
#[verifier::opaque]
pub open spec fn spec_auto_cast(st: St, sink: SinkId, span: Span, src: ReturnType, dst: ReturnType)
    -> Result<St, ErrorView> {
    if src == dst {
        Ok(st)
    } else {
        match (src, dst) {
            (ReturnType::NoReturn, _) => Ok(st.wln(sink, lit("unreachable"))),
            (_, ReturnType::NoReturn) => Err(type_error(span, dst.name(), src.name())),
            (ReturnType::Value(s), ReturnType::Void) => Ok(
                spec_release(st, sink, s, DropPolicy::Drop),
            ),
            (ReturnType::Value(s), ReturnType::Value(d)) => match spec_convert(st.out, sink, s, d) {
                Some(o) => Ok(St { out: o, ..st }),
                None => Err(type_error(span, d.name(), s.name())),
            },
            _ => Err(type_error(span, dst.name(), src.name())),
        }
    }
}

/// Writes the implicit conversion from `src` to `dst`, or returns the error
/// that there is none and writes nothing.
pub fn auto_cast(
    out: &mut Out,
    sink: SinkId,
    span: Span,
    lscope: &mut LocalScope,
    src: ReturnType,
    dst: ReturnType,
) -> (r: Result<(), Error>)
    requires
        old(out).wf(),
        old(out)@.tree.has(sink),
        sink != 0,
    ensures
        final(out).wf(),
        old(lscope).wf() ==> final(lscope).wf(),
        final(lscope).global() == old(lscope).global(),
        final(out)@.tree.nodes.len() == old(out)@.tree.nodes.len(),
        final(out)@.tree.nodes[0] == old(out)@.tree.nodes[0],
        final(lscope)@.frames == old(lscope)@.frames,
        match spec_auto_cast(St { out: old(out)@, l: old(lscope)@ }, sink, span, src, dst) {
            Ok(st) => r is Ok && final(out)@ == st.out && final(lscope)@ == st.l,
            Err(e) => r matches Err(x) && x@ == e,
        },
        r is Err ==> final(out)@ == old(out)@ && final(lscope)@ == old(lscope)@,
{
    proof {
        reveal(spec_auto_cast);
    }
    if src == dst {
        return Ok(());
    }
    match (src, dst) {
        (ReturnType::NoReturn, _) => {
            out.writeln_lit(sink, "unreachable");
            Ok(())
        },
        (_, ReturnType::NoReturn) => Err(
            Error::Type { span, expected: dst.name_vec(), got: src.name_vec() },
        ),
        (ReturnType::Value(s), ReturnType::Void) => {
            release(lscope, out, sink, s, DropPolicy::Drop);
            Ok(())
        },
        (ReturnType::Value(s), ReturnType::Value(d)) => {
            if convert(out, sink, s, d) {
                Ok(())
            } else {
                Err(Error::Type { span, expected: d.name_vec(), got: s.name_vec() })
            }
        },
        _ => Err(Error::Type { span, expected: dst.name_vec(), got: src.name_vec() }),
    }
}

/// The state after the conversion from `src` to `dst` that the program asks
/// for: `f32` to `i32` by truncation, and every implicit conversion.
#[verifier::opaque]
pub open spec fn spec_explicit_cast(
    st: St,
    sink: SinkId,
    span: Span,
    src: ReturnType,
    dst: ReturnType,
) -> Result<St, ErrorView> {
    if src == ReturnType::Value(Type::F32) && dst == ReturnType::Value(Type::I32) {
        Ok(st.wln(sink, lit("i32.trunc_f32_s")))
    } else {
        spec_auto_cast(st, sink, span, src, dst)
    }
}

/// Writes the conversion from `src` to `dst` that the program asks for, or
/// returns the error that there is none and writes nothing.
pub fn explicit_cast(
    out: &mut Out,
    sink: SinkId,
    span: Span,
    lscope: &mut LocalScope,
    src: ReturnType,
    dst: ReturnType,
) -> (r: Result<(), Error>)
    requires
        old(out).wf(),
        old(out)@.tree.has(sink),
        sink != 0,
    ensures
        final(out).wf(),
        old(lscope).wf() ==> final(lscope).wf(),
        final(lscope).global() == old(lscope).global(),
        final(out)@.tree.nodes.len() == old(out)@.tree.nodes.len(),
        final(out)@.tree.nodes[0] == old(out)@.tree.nodes[0],
        final(lscope)@.frames == old(lscope)@.frames,
        match spec_explicit_cast(St { out: old(out)@, l: old(lscope)@ }, sink, span, src, dst) {
            Ok(st) => r is Ok && final(out)@ == st.out && final(lscope)@ == st.l,
            Err(e) => r matches Err(x) && x@ == e,
        },
        r is Err ==> final(out)@ == old(out)@ && final(lscope)@ == old(lscope)@,
{
    proof {
        reveal(spec_explicit_cast);
    }
    if src == ReturnType::Value(Type::F32) && dst == ReturnType::Value(Type::I32) {
        out.writeln_lit(sink, "i32.trunc_f32_s");
        Ok(())
    } else {
        auto_cast(out, sink, span, lscope, src, dst)
    }
}

/// A conversion from a type to itself is no code at all: the state stays as
/// it is, whatever the type.
pub proof fn lemma_auto_cast_same(st: St, sink: SinkId, span: Span, t: ReturnType)
    ensures
        spec_auto_cast(st, sink, span, t, t) == Ok::<St, ErrorView>(st),
{
    reveal(spec_auto_cast);
}

/// A value never flows into a place that takes none of its kind: where
/// nothing comes back and a value is needed, the conversion is the error
/// that names `Void`.
pub proof fn lemma_auto_cast_void_to_value(st: St, sink: SinkId, span: Span, t: Type)
    ensures
        spec_auto_cast(st, sink, span, ReturnType::Void, ReturnType::Value(t)) == Err::<
            St,
            ErrorView,
        >(type_error(span, t.name(), lit("Void"))),
{
    reveal(spec_auto_cast);
}

/// A value that nothing takes is let go: the code for it is that of a
/// release that takes the value off the stack, whatever its type.
pub proof fn lemma_unused_value_is_released(st: St, sink: SinkId, span: Span, t: Type)
    ensures
        spec_auto_cast(st, sink, span, ReturnType::Value(t), ReturnType::Void) == Ok::<
            St,
            ErrorView,
        >(spec_release(st, sink, t, DropPolicy::Drop)),
{
    reveal(spec_auto_cast);
}

/// What never returns fits every place that it is not itself: the code is
/// one `unreachable`, and there is no error.
pub proof fn lemma_noreturn_fits(st: St, sink: SinkId, span: Span, dst: ReturnType)
    requires
        dst != ReturnType::NoReturn,
    ensures
        spec_auto_cast(st, sink, span, ReturnType::NoReturn, dst) == Ok::<St, ErrorView>(
            st.wln(sink, lit("unreachable")),
        ),
{
    reveal(spec_auto_cast);
}

} // verus!
