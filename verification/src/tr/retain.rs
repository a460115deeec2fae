//! Code that counts references: a retain for each new holder of a value on
//! the heap, a release for each holder that lets go.
use crate::ir::{Type, WasmType};
use crate::out::{Out, OutView};
use crate::scope::LocalScope;
use crate::sink::SinkId;
use crate::text::{dec_digits, lit};
use crate::tr::St;
use vstd::prelude::*;

verus! {

/// What becomes of the value on top of the stack when it is retained or
/// released: it is taken off, or it stays.
#[derive(Clone, Copy, Debug, PartialEq, Eq, Structural)]
pub enum DropPolicy {
    Drop,
    Keep,
}

/// Where a variable lives.
#[derive(Clone, Copy, Debug, PartialEq, Eq, Structural)]
pub enum Scope {
    Local,
    Global,
}

impl Scope {
    /// The word for the scope in an instruction.
    pub open spec fn name(self) -> Seq<u8> {
        match self {
            Scope::Local => lit("local"),
            Scope::Global => lit("global"),
        }
    }

    /// The word for the scope in an instruction.
    pub fn word(self) -> (r: &'static str)
        ensures
            lit(r) == self.name(),
    {
        match self {
            Scope::Local => "local",
            Scope::Global => "global",
        }
    }
}

/// The name of a WebAssembly type.
pub fn translate_wasm_type(wt: WasmType) -> (r: &'static str)
    ensures
        lit(r) == wt.name(),
{
    match wt {
        WasmType::I32 => "i32",
        WasmType::I64 => "i64",
        WasmType::F32 => "f32",
        WasmType::F64 => "f64",
    }
}

/// The name of the WebAssembly type that holds a value of type `t`.
pub fn translate_type(t: Type) -> (r: &'static str)
    ensures
        lit(r) == t.spec_wasm().name(),
{
    translate_wasm_type(t.wasm())
}

/// The output with the name of a variable in emitted code: for a local
/// `$l_`, its number, `_` and its name; for a global `$g_` and its name.
pub open spec fn w_var_name(o: OutView, sink: SinkId, scope: Scope, id: usize, name: Seq<u8>)
    -> OutView {
    match scope {
        Scope::Local => o.w(sink, lit("$l_")).w(sink, dec_digits(id as nat)).w(sink, lit("_")).w(
            sink,
            name,
        ),
        Scope::Global => o.w(sink, lit("$g_")).w(sink, name),
    }
}

/// The output with the instruction that reads a variable.
#[verifier::opaque]
pub open spec fn var_get(o: OutView, sink: SinkId, scope: Scope, id: usize, name: Seq<u8>)
    -> OutView {
    w_var_name(o.w(sink, scope.name()).w(sink, lit(".get ")), sink, scope, id, name).nl(sink)
}

/// The output with the instruction that sets a variable.
#[verifier::opaque]
pub open spec fn var_set(o: OutView, sink: SinkId, scope: Scope, id: usize, name: Seq<u8>)
    -> OutView {
    w_var_name(o.w(sink, scope.name()).w(sink, lit(".set ")), sink, scope, id, name).nl(sink)
}

/// The output with the call that releases a value of type `type_`; nothing
/// for a type without reference count.
pub open spec fn w_release_call(o: OutView, sink: SinkId, type_: Type) -> OutView {
    match type_ {
        Type::String => o.wln(sink, lit("call $f___WAC_str_release")),
        Type::List => o.wln(sink, lit("call $f___WAC_list_release")),
        Type::Id => o.wln(sink, lit("call $f___WAC_id_release")),
        _ => o,
    }
}

/// The output with the call that retains a value of type `type_`; nothing
/// for a type without reference count.
pub open spec fn w_retain_call(o: OutView, sink: SinkId, type_: Type) -> OutView {
    match type_ {
        Type::String => o.wln(sink, lit("call $f___WAC_str_retain")),
        Type::List => o.wln(sink, lit("call $f___WAC_list_retain")),
        Type::Id => o.wln(sink, lit("call $f___WAC_id_retain")),
        _ => o,
    }
}

/// The state after code that copies the top of the stack: the value goes to
/// the helper local of its WebAssembly type and is read back from it.
#[verifier::opaque]
pub open spec fn spec_raw_dup(st: St, sink: SinkId, wt: WasmType) -> St {
    St {
        out: st.out.w(sink, lit("local.tee $rt_tmp_dup_")).w(sink, wt.name()).nl(sink).w(
            sink,
            lit("local.get $rt_tmp_dup_"),
        ).w(sink, wt.name()).nl(sink),
        l: st.l.helper(wt),
    }
}

/// The state after code that releases the value of type `type_` on top of
/// the stack. A value without reference count is dropped or left; one with
/// a reference count is copied first where it is to stay, and released.
#[verifier::opaque]
pub open spec fn spec_release(st: St, sink: SinkId, type_: Type, dp: DropPolicy) -> St {
    if type_.spec_primitive() {
        match dp {
            DropPolicy::Drop => st.wln(sink, lit("drop")),
            DropPolicy::Keep => st,
        }
    } else {
        let st1 = match dp {
            DropPolicy::Drop => st,
            DropPolicy::Keep => spec_raw_dup(st, sink, type_.spec_wasm()),
        };
        St { out: w_release_call(st1.out, sink, type_), ..st1 }
    }
}

/// The state after code that retains the value of type `type_` on top of the
/// stack. A value without reference count is dropped or left; one with a
/// reference count is copied first where it is to stay, and retained.
#[verifier::opaque]
pub open spec fn spec_retain(st: St, sink: SinkId, type_: Type, dp: DropPolicy) -> St {
    if type_.spec_primitive() {
        match dp {
            DropPolicy::Drop => st.wln(sink, lit("drop")),
            DropPolicy::Keep => st,
        }
    } else {
        let st1 = match dp {
            DropPolicy::Drop => st,
            DropPolicy::Keep => spec_raw_dup(st, sink, type_.spec_wasm()),
        };
        St { out: w_retain_call(st1.out, sink, type_), ..st1 }
    }
}

/// The output after code that releases the value that a variable holds. The
/// stack is as before. For a type without reference count there is no code.
#[verifier::opaque]
pub open spec fn spec_release_var(
    o: OutView,
    sink: SinkId,
    scope: Scope,
    id: usize,
    name: Seq<u8>,
    type_: Type,
) -> OutView {
    if type_.spec_primitive() {
        o
    } else {
        w_release_call(var_get(o, sink, scope, id, name), sink, type_)
    }
}

/// Writes the name that a variable has in emitted code.
pub fn write_var_name(out: &mut Out, sink: SinkId, scope: Scope, id: usize, name: &[u8])
    requires
        old(out).wf(),
        old(out)@.tree.has(sink),
        sink != 0,
    ensures
        final(out).wf(),
        final(out)@ == w_var_name(old(out)@, sink, scope, id, name@),
        final(out)@.tree.nodes.len() == old(out)@.tree.nodes.len(),
        final(out)@.tree.nodes[0] == old(out)@.tree.nodes[0],
{
    match scope {
        Scope::Local => {
            out.write_lit(sink, "$l_");
            out.write_dec(sink, id as u64);
            out.write_lit(sink, "_");
            out.write(sink, name);
        },
        Scope::Global => {
            out.write_lit(sink, "$g_");
            out.write(sink, name);
        },
    }
}

/// Writes the instruction that reads a variable.
pub fn write_var_get(out: &mut Out, sink: SinkId, scope: Scope, id: usize, name: &[u8])
    requires
        old(out).wf(),
        old(out)@.tree.has(sink),
        sink != 0,
    ensures
        final(out).wf(),
        final(out)@ == var_get(old(out)@, sink, scope, id, name@),
        final(out)@.tree.nodes.len() == old(out)@.tree.nodes.len(),
        final(out)@.tree.nodes[0] == old(out)@.tree.nodes[0],
{
    proof {
        reveal(var_get);
    }
    out.write_lit(sink, scope.word());
    out.write_lit(sink, ".get ");
    write_var_name(out, sink, scope, id, name);
    out.newline(sink);
}

/// Writes the instruction that sets a variable.
pub fn write_var_set(out: &mut Out, sink: SinkId, scope: Scope, id: usize, name: &[u8])
    requires
        old(out).wf(),
        old(out)@.tree.has(sink),
        sink != 0,
    ensures
        final(out).wf(),
        final(out)@ == var_set(old(out)@, sink, scope, id, name@),
        final(out)@.tree.nodes.len() == old(out)@.tree.nodes.len(),
        final(out)@.tree.nodes[0] == old(out)@.tree.nodes[0],
{
    proof {
        reveal(var_set);
    }
    out.write_lit(sink, scope.word());
    out.write_lit(sink, ".set ");
    write_var_name(out, sink, scope, id, name);
    out.newline(sink);
}

fn write_release_call(out: &mut Out, sink: SinkId, type_: Type)
    requires
        old(out).wf(),
        old(out)@.tree.has(sink),
        sink != 0,
    ensures
        final(out).wf(),
        final(out)@ == w_release_call(old(out)@, sink, type_),
        final(out)@.tree.nodes.len() == old(out)@.tree.nodes.len(),
        final(out)@.tree.nodes[0] == old(out)@.tree.nodes[0],
{
    match type_ {
        Type::String => out.writeln_lit(sink, "call $f___WAC_str_release"),
        Type::List => out.writeln_lit(sink, "call $f___WAC_list_release"),
        Type::Id => out.writeln_lit(sink, "call $f___WAC_id_release"),
        _ => {},
    }
}

fn write_retain_call(out: &mut Out, sink: SinkId, type_: Type)
    requires
        old(out).wf(),
        old(out)@.tree.has(sink),
        sink != 0,
    ensures
        final(out).wf(),
        final(out)@ == w_retain_call(old(out)@, sink, type_),
        final(out)@.tree.nodes.len() == old(out)@.tree.nodes.len(),
        final(out)@.tree.nodes[0] == old(out)@.tree.nodes[0],
{
    match type_ {
        Type::String => out.writeln_lit(sink, "call $f___WAC_str_retain"),
        Type::List => out.writeln_lit(sink, "call $f___WAC_list_retain"),
        Type::Id => out.writeln_lit(sink, "call $f___WAC_id_retain"),
        _ => {},
    }
}

/// Writes code that copies the top of the stack, a value of WebAssembly type
/// `wasm_type`, and marks the helper local that the code uses.
pub fn raw_dup(lscope: &mut LocalScope, out: &mut Out, sink: SinkId, wasm_type: WasmType)
    requires
        old(out).wf(),
        old(out)@.tree.has(sink),
        sink != 0,
    ensures
        final(out).wf(),
        old(lscope).wf() ==> final(lscope).wf(),
        final(lscope).global() == old(lscope).global(),
        (St { out: final(out)@, l: final(lscope)@ }) == spec_raw_dup(
            St { out: old(out)@, l: old(lscope)@ },
            sink,
            wasm_type,
        ),
        final(out)@.tree.nodes.len() == old(out)@.tree.nodes.len(),
        final(out)@.tree.nodes[0] == old(out)@.tree.nodes[0],
        final(lscope)@.frames == old(lscope)@.frames,
{
    proof {
        reveal(spec_raw_dup);
    }
    let t = translate_wasm_type(wasm_type);
    lscope.helper(wasm_type);
    out.write_lit(sink, "local.tee $rt_tmp_dup_");
    out.write_lit(sink, t);
    out.newline(sink);
    out.write_lit(sink, "local.get $rt_tmp_dup_");
    out.write_lit(sink, t);
    out.newline(sink);
}

/// Writes code that releases the value of type `type_` on top of the stack.
pub fn release(
    lscope: &mut LocalScope,
    out: &mut Out,
    sink: SinkId,
    type_: Type,
    dp: DropPolicy,
)
    requires
        old(out).wf(),
        old(out)@.tree.has(sink),
        sink != 0,
    ensures
        final(out).wf(),
        old(lscope).wf() ==> final(lscope).wf(),
        final(lscope).global() == old(lscope).global(),
        (St { out: final(out)@, l: final(lscope)@ }) == spec_release(
            St { out: old(out)@, l: old(lscope)@ },
            sink,
            type_,
            dp,
        ),
        final(out)@.tree.nodes.len() == old(out)@.tree.nodes.len(),
        final(out)@.tree.nodes[0] == old(out)@.tree.nodes[0],
        final(lscope)@.frames == old(lscope)@.frames,
{
    proof {
        reveal(spec_release);
    }
    if type_.primitive() {
        match dp {
            DropPolicy::Drop => out.writeln_lit(sink, "drop"),
            DropPolicy::Keep => {},
        }
    } else {
        match dp {
            DropPolicy::Drop => {},
            DropPolicy::Keep => raw_dup(lscope, out, sink, type_.wasm()),
        }
        write_release_call(out, sink, type_);
    }
}

/// Writes code that retains the value of type `type_` on top of the stack.
pub fn retain(
    lscope: &mut LocalScope,
    out: &mut Out,
    sink: SinkId,
    type_: Type,
    dp: DropPolicy,
)
    requires
        old(out).wf(),
        old(out)@.tree.has(sink),
        sink != 0,
    ensures
        final(out).wf(),
        old(lscope).wf() ==> final(lscope).wf(),
        final(lscope).global() == old(lscope).global(),
        (St { out: final(out)@, l: final(lscope)@ }) == spec_retain(
            St { out: old(out)@, l: old(lscope)@ },
            sink,
            type_,
            dp,
        ),
        final(out)@.tree.nodes.len() == old(out)@.tree.nodes.len(),
        final(out)@.tree.nodes[0] == old(out)@.tree.nodes[0],
        final(lscope)@.frames == old(lscope)@.frames,
{
    proof {
        reveal(spec_retain);
    }
    if type_.primitive() {
        match dp {
            DropPolicy::Drop => out.writeln_lit(sink, "drop"),
            DropPolicy::Keep => {},
        }
    } else {
        match dp {
            DropPolicy::Drop => {},
            DropPolicy::Keep => raw_dup(lscope, out, sink, type_.wasm()),
        }
        write_retain_call(out, sink, type_);
    }
}

/// Writes code that releases the value that a variable holds.
pub fn release_var(
    out: &mut Out,
    sink: SinkId,
    scope: Scope,
    id: usize,
    name: &[u8],
    type_: Type,
)
    requires
        old(out).wf(),
        old(out)@.tree.has(sink),
        sink != 0,
    ensures
        final(out).wf(),
        final(out)@ == spec_release_var(old(out)@, sink, scope, id, name@, type_),
        final(out)@.tree.nodes.len() == old(out)@.tree.nodes.len(),
        final(out)@.tree.nodes[0] == old(out)@.tree.nodes[0],
{
    proof {
        reveal(spec_release_var);
    }
    if !type_.primitive() {
        write_var_get(out, sink, scope, id, name);
        write_release_call(out, sink, type_);
    }
}

/// A value without reference count costs nothing to hold: retaining or
/// releasing it while it stays on the stack is no code at all, and a
/// variable of such a type is released by no code.
pub proof fn lemma_primitive_is_free(st: St, sink: SinkId, t: Type, id: usize, name: Seq<u8>)
    requires
        t.spec_primitive(),
    ensures
        spec_retain(st, sink, t, DropPolicy::Keep) == st,
        spec_release(st, sink, t, DropPolicy::Keep) == st,
        spec_release_var(st.out, sink, Scope::Local, id, name, t) == st.out,
        spec_release_var(st.out, sink, Scope::Global, id, name, t) == st.out,
{
    reveal(spec_retain);
    reveal(spec_release);
    reveal(spec_release_var);
}

/// A value with a reference count that stays on the stack is copied before
/// it is retained or released, through the helper local of its WebAssembly
/// type; one that leaves the stack is handed to the call as it is.
pub proof fn lemma_counted_is_copied(st: St, sink: SinkId, t: Type)
    requires
        !t.spec_primitive(),
    ensures
        spec_retain(st, sink, t, DropPolicy::Keep) == (St {
            out: w_retain_call(spec_raw_dup(st, sink, t.spec_wasm()).out, sink, t),
            l: st.l.helper(t.spec_wasm()),
        }),
        spec_release(st, sink, t, DropPolicy::Keep) == (St {
            out: w_release_call(spec_raw_dup(st, sink, t.spec_wasm()).out, sink, t),
            l: st.l.helper(t.spec_wasm()),
        }),
        spec_retain(st, sink, t, DropPolicy::Drop) == (St {
            out: w_retain_call(st.out, sink, t),
            ..st
        }),
        spec_release(st, sink, t, DropPolicy::Drop) == (St {
            out: w_release_call(st.out, sink, t),
            ..st
        }),
{
    reveal(spec_retain);
    reveal(spec_release);
    reveal(spec_raw_dup);
}

} // verus!
