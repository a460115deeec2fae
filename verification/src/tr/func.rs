//! The translation of functions and imports.
use crate::error::{Error, ErrorView};
use crate::ir::{
    params_view, Function, FunctionType, FunctionTypeView, FunctionView, Import, ImportView,
    ReturnType, Type, Visibility, WasmType,
};
use crate::out::{Out, OutView, SINK_EXPORTS, SINK_FUNCS, SINK_IMPORTS, SINK_START};
use crate::scope::{
    GlobalScope, GlobalScopeView, Helpers, LocalScope, LocalScopeView, LocalVarView,
};
use crate::sink::SinkId;
use crate::span::Span;
use crate::text::{lit, push_lit};
use crate::tr::expr::{tr_expr, translate_expr};
use crate::tr::retain::{
    release_var, spec_release_var, translate_type, translate_wasm_type, w_var_name,
    write_var_name, Scope,
};
use crate::tr::St;
use vstd::prelude::*;

verus! {

/// The parameters of a function type in WebAssembly text: for each of the
/// first `n` types a space and the type in brackets after `param`.
pub open spec fn params_text(ptypes: Seq<Type>, n: int) -> Seq<u8>
    decreases n,
{
    if n <= 0 {
        Seq::empty()
    } else {
        params_text(ptypes, n - 1) + lit(" (param ") + ptypes[n - 1].spec_wasm().name() + lit(")")
    }
}

/// The result of a function type in WebAssembly text; nothing where the
/// function gives no value.
pub open spec fn result_text(rt: ReturnType) -> Seq<u8> {
    match rt {
        ReturnType::Value(t) => lit(" (result ") + t.spec_wasm().name() + lit(")"),
        _ => Seq::empty(),
    }
}

/// A function type in WebAssembly text: the parameters, then the result.
pub open spec fn func_type_text(ft: FunctionTypeView) -> Seq<u8> {
    params_text(ft.parameter_types, ft.parameter_types.len() as int) + result_text(ft.return_type)
}

/// A function type in WebAssembly text.
pub fn translate_func_type(ft: &FunctionType) -> (r: Vec<u8>)
    ensures
        r@ == func_type_text(ft@),
{
    let mut ret: Vec<u8> = Vec::new();
    let n: usize = ft.parameter_types.len();
    let mut i: usize = 0;
    assert(ret@ =~= params_text(ft.parameter_types@, 0));
    while i < n
        invariant
            n == ft.parameter_types.len(),
            0 <= i <= n,
            ret@ == params_text(ft.parameter_types@, i as int),
        decreases n - i,
    {
        push_lit(&mut ret, " (param ");
        push_lit(&mut ret, translate_type(ft.parameter_types[i]));
        push_lit(&mut ret, ")");
        i += 1;
    }
    match ft.return_type {
        ReturnType::Value(t) => {
            let ghost before = ret@;
            push_lit(&mut ret, " (result ");
            push_lit(&mut ret, translate_type(t));
            push_lit(&mut ret, ")");
            assert(ret@ =~= before + result_text(ft.return_type));
        },
        _ => {
            assert(ret@ =~= ret@ + result_text(ft.return_type));
        },
    }
    ret
}

/// The output with an import: the module and the name in the host, the
/// name in the program behind `$f_`, and the type.
pub open spec fn tr_import(o: OutView, imp: ImportView) -> OutView {
    match imp {
        ImportView::Function(i) => o.w(SINK_IMPORTS, lit("(import \"")).w(
            SINK_IMPORTS,
            i.module_name,
        ).w(SINK_IMPORTS, lit("\" \"")).w(SINK_IMPORTS, i.function_name).w(
            SINK_IMPORTS,
            lit("\" (func $f_"),
        ).w(SINK_IMPORTS, i.alias).w(SINK_IMPORTS, lit(" ")).w(
            SINK_IMPORTS,
            func_type_text(i.type_),
        ).w(SINK_IMPORTS, lit("))")).nl(SINK_IMPORTS),
    }
}

/// Writes the import of a function.
pub fn translate_import(out: &mut Out, imp: &Import)
    requires
        old(out).wf(),
    ensures
        final(out).wf(),
        final(out)@.tree.nodes[0] == old(out)@.tree.nodes[0],
        final(out)@ == tr_import(old(out)@, imp@),
        final(out)@.tree.nodes.len() == old(out)@.tree.nodes.len(),
        final(out)@.tree.nodes[0] == old(out)@.tree.nodes[0],
{
    match imp {
        Import::Function(i) => {
            let ft = translate_func_type(&i.type_);
            out.write_lit(SINK_IMPORTS, "(import \"");
            out.write(SINK_IMPORTS, i.module_name.as_slice());
            out.write_lit(SINK_IMPORTS, "\" \"");
            out.write(SINK_IMPORTS, i.function_name.as_slice());
            out.write_lit(SINK_IMPORTS, "\" (func $f_");
            out.write(SINK_IMPORTS, i.alias.as_slice());
            out.write_lit(SINK_IMPORTS, " ");
            out.write(SINK_IMPORTS, ft.as_slice());
            out.write_lit(SINK_IMPORTS, "))");
            out.newline(SINK_IMPORTS);
        },
    }
}

/// The output with the export of function `name`, as `f_` and the name.
pub open spec fn w_export(o: OutView, name: Seq<u8>) -> OutView {
    o.w(SINK_EXPORTS, lit("(export \"f_")).w(SINK_EXPORTS, name).w(
        SINK_EXPORTS,
        lit("\" (func $f_"),
    ).w(SINK_EXPORTS, name).w(SINK_EXPORTS, lit("))")).nl(SINK_EXPORTS)
}

/// The state after the parameters from the `i`-th on: each is declared as a
/// local and written with its name in emitted code and its type.
pub open spec fn tr_params(st: St, sink: SinkId, span: Span, params: Seq<(Seq<u8>, Type)>, i: int)
    -> St
    decreases params.len() - i,
{
    if 0 <= i < params.len() {
        tr_params(
            St {
                out: w_var_name(
                    st.out.w(sink, lit(" (param ")),
                    sink,
                    Scope::Local,
                    st.l.next_id(),
                    params[i].0,
                ).w(sink, lit(" ")).w(sink, params[i].1.spec_wasm().name()).w(sink, lit(")")).nl(
                    sink,
                ),
                l: st.l.decl(span, params[i].0, params[i].1),
            },
            sink,
            span,
            params,
            i + 1,
        )
    } else {
        st
    }
}

/// The output with the line for the result of a function; nothing where
/// the function gives no value.
pub open spec fn w_result(o: OutView, sink: SinkId, rt: ReturnType) -> OutView {
    match rt {
        ReturnType::Value(t) => o.w(sink, lit(" (result ")).w(sink, t.spec_wasm().name()).w(
            sink,
            lit(")"),
        ).nl(sink),
        _ => o,
    }
}

/// The output with the declaration of the helper local of `wt`, where it
/// is in use.
pub open spec fn w_helper(o: OutView, sink: SinkId, helpers: Helpers, wt: WasmType) -> OutView {
    if helpers.has(wt) {
        o.w(sink, lit("(local $rt_tmp_dup_")).w(sink, wt.name()).w(sink, lit(" ")).w(
            sink,
            wt.name(),
        ).w(sink, lit(")")).nl(sink)
    } else {
        o
    }
}

/// The output with the declarations of the helper locals in use, in the
/// order of their names.
pub open spec fn w_helpers(o: OutView, sink: SinkId, helpers: Helpers) -> OutView {
    w_helper(
        w_helper(
            w_helper(w_helper(o, sink, helpers, WasmType::F32), sink, helpers, WasmType::F64),
            sink,
            helpers,
            WasmType::I32,
        ),
        sink,
        helpers,
        WasmType::I64,
    )
}

/// The output with the locals from the `i`-th on declared in `locals` and
/// set to zero in `init`.
pub open spec fn w_locals(o: OutView, locals: SinkId, init: SinkId, decls: Seq<LocalVarView>, i: int)
    -> OutView
    decreases decls.len() - i,
{
    if 0 <= i < decls.len() {
        w_locals(
            w_var_name(
                w_var_name(
                    o.w(locals, lit(" (local ")),
                    locals,
                    Scope::Local,
                    decls[i].id,
                    decls[i].original_name,
                ).w(locals, lit(" ")).w(locals, decls[i].type_.spec_wasm().name()).w(
                    locals,
                    lit(")"),
                ).nl(locals).w(init, lit("(local.set ")),
                init,
                Scope::Local,
                decls[i].id,
                decls[i].original_name,
            ).w(init, lit(" (")).w(init, decls[i].type_.spec_wasm().name()).w(
                init,
                lit(".const 0))"),
            ).nl(init),
            locals,
            init,
            decls,
            i + 1,
        )
    } else {
        o
    }
}

/// The output with the release of every local from the `i`-th on, the
/// parameters among them.
pub open spec fn w_releases(o: OutView, sink: SinkId, decls: Seq<LocalVarView>, i: int) -> OutView
    decreases decls.len() - i,
{
    if 0 <= i < decls.len() {
        w_releases(
            spec_release_var(
                o,
                sink,
                Scope::Local,
                decls[i].id,
                decls[i].original_name,
                decls[i].type_,
            ),
            sink,
            decls,
            i + 1,
        )
    } else {
        o
    }
}

/// The state at the start of the body of function `f`: the export where
/// the function is public, a sink for the function among the functions, the
/// head with parameters and result, and two sinks in it that wait for the
/// declarations of the locals and for the code that sets them to zero.
pub open spec fn func_open(o: OutView, f: FunctionView) -> St {
    let o1 = if f.visibility is Public {
        w_export(o, f.name)
    } else {
        o
    };
    let sink = o1.tree.next_id();
    let st = tr_params(
        St {
            out: o1.spawn(SINK_FUNCS).w(sink, lit("(func $f_")).w(sink, f.name).nl(sink),
            l: LocalScopeView::fresh(),
        },
        sink,
        f.span,
        f.parameters,
        0,
    );
    St { out: w_result(st.out, sink, f.return_type).spawn(sink).spawn(sink), ..st }
}

/// The sink that function `f` gets where the output is `o`.
pub open spec fn func_sink(o: OutView, f: FunctionView) -> SinkId {
    if f.visibility is Public {
        w_export(o, f.name).tree.next_id()
    } else {
        o.tree.next_id()
    }
}

/// The output after the body of a function: a sink for the epilogue, the
/// closing bracket, and, in the sinks that waited, the helper locals, the
/// locals that are no parameters, and the release of every local.
pub open spec fn func_close(st: St, sink: SinkId, locals: SinkId, init: SinkId, nparams: int)
    -> OutView {
    w_releases(
        w_locals(
            w_helpers(st.out.spawn(sink).w(sink, lit(")")).nl(sink), locals, st.l.helpers),
            locals,
            init,
            st.l.decls,
            nparams,
        ),
        st.out.tree.next_id(),
        st.l.decls,
        0,
    )
}

/// The output with what the start function declared while the global
/// variables were initialised: in the sinks `locals` and `init` at its head
/// the helper locals in use, every local, and the code that sets each local
/// to zero; at its end the release of every local.
pub open spec fn start_close(o: OutView, locals: SinkId, init: SinkId, l: LocalScopeView)
    -> OutView {
    w_releases(
        w_locals(w_helpers(o, locals, l.helpers), locals, init, l.decls, 0),
        SINK_START,
        l.decls,
        0,
    )
}

/// The output with function `f` translated under the global names `g`.
pub open spec fn tr_func(g: GlobalScopeView, o: OutView, f: FunctionView) -> Result<
    OutView,
    ErrorView,
> {
    let st = func_open(o, f);
    let sink = func_sink(o, f);
    let locals = (st.out.tree.next_id() - 2) as SinkId;
    let init = (st.out.tree.next_id() - 1) as SinkId;
    match tr_expr(g, sink, st, f.return_type, f.body) {
        Err(e) => Err(e),
        Ok(st1) => Ok(func_close(st1, sink, locals, init, f.parameters.len() as int)),
    }
}

fn write_params(out: &mut Out, sink: SinkId, lscope: &mut LocalScope, func: &Function)
    requires
        old(out).wf(),
        old(out)@.tree.has(sink),
        sink != 0,
        old(lscope).wf(),
    ensures
        final(out).wf(),
        final(lscope).wf(),
        final(lscope).global() == old(lscope).global(),
        final(out)@.tree.nodes.len() == old(out)@.tree.nodes.len(),
        final(out)@.tree.nodes[0] == old(out)@.tree.nodes[0],
        (St { out: final(out)@, l: final(lscope)@ }) == tr_params(
            St { out: old(out)@, l: old(lscope)@ },
            sink,
            func.span,
            params_view(func.parameters@),
            0,
        ),
        final(lscope)@.decls.len() == old(lscope)@.decls.len() + func.parameters.len(),
{
    let ghost params = params_view(func.parameters@);
    let ghost total = tr_params(St { out: out@, l: lscope@ }, sink, func.span, params, 0);
    let n: usize = func.parameters.len();
    let mut i: usize = 0;
    while i < n
        invariant
            out.wf(),
            lscope.wf(),
            out@.tree.has(sink),
            sink != 0,
            lscope.global() == old(lscope).global(),
            out@.tree.nodes.len() == old(out)@.tree.nodes.len(),
            out@.tree.nodes[0] == old(out)@.tree.nodes[0],
            n == func.parameters.len(),
            0 <= i <= n,
            params == params_view(func.parameters@),
            lscope@.decls.len() == old(lscope)@.decls.len() + i,
            total == tr_params(St { out: out@, l: lscope@ }, sink, func.span, params, i as int),
        decreases n - i,
    {
        let name = func.parameters[i].0.as_slice();
        let type_: Type = func.parameters[i].1;
        assert(params[i as int] == (func.parameters@[i as int].0@, func.parameters@[i as int].1));
        let ghost l0 = lscope@;
        let id: usize = lscope.decl(func.span, name, type_);
        out.write_lit(sink, " (param ");
        write_var_name(out, sink, Scope::Local, id, name);
        out.write_lit(sink, " ");
        out.write_lit(sink, translate_type(type_));
        out.write_lit(sink, ")");
        out.newline(sink);
        i += 1;
    }
}

fn write_result(out: &mut Out, sink: SinkId, rt: ReturnType)
    requires
        old(out).wf(),
        old(out)@.tree.has(sink),
        sink != 0,
    ensures
        final(out).wf(),
        final(out)@ == w_result(old(out)@, sink, rt),
        final(out)@.tree.nodes.len() == old(out)@.tree.nodes.len(),
        final(out)@.tree.nodes[0] == old(out)@.tree.nodes[0],
{
    match rt {
        ReturnType::Value(t) => {
            out.write_lit(sink, " (result ");
            out.write_lit(sink, translate_type(t));
            out.write_lit(sink, ")");
            out.newline(sink);
        },
        _ => {},
    }
}

fn write_helper(out: &mut Out, sink: SinkId, helpers: Helpers, wt: WasmType)
    requires
        old(out).wf(),
        old(out)@.tree.has(sink),
        sink != 0,
    ensures
        final(out).wf(),
        final(out)@ == w_helper(old(out)@, sink, helpers, wt),
        final(out)@.tree.nodes.len() == old(out)@.tree.nodes.len(),
        final(out)@.tree.nodes[0] == old(out)@.tree.nodes[0],
{
    let used = match wt {
        WasmType::I32 => helpers.i32_,
        WasmType::I64 => helpers.i64_,
        WasmType::F32 => helpers.f32_,
        WasmType::F64 => helpers.f64_,
    };
    if used {
        let t = translate_wasm_type(wt);
        out.write_lit(sink, "(local $rt_tmp_dup_");
        out.write_lit(sink, t);
        out.write_lit(sink, " ");
        out.write_lit(sink, t);
        out.write_lit(sink, ")");
        out.newline(sink);
    }
}

fn write_locals(out: &mut Out, locals: SinkId, init: SinkId, lscope: &LocalScope, from: usize)
    requires
        old(out).wf(),
        old(out)@.tree.has(locals),
        locals != 0,
        old(out)@.tree.has(init),
        init != 0,
    ensures
        final(out).wf(),
        final(out)@ == w_locals(old(out)@, locals, init, lscope@.decls, from as int),
        final(out)@.tree.nodes.len() == old(out)@.tree.nodes.len(),
        final(out)@.tree.nodes[0] == old(out)@.tree.nodes[0],
{
    let ghost decls = lscope@.decls;
    let ghost total = w_locals(out@, locals, init, decls, from as int);
    let n: usize = lscope.ndecls();
    let mut i: usize = from;
    while i < n
        invariant
            out.wf(),
            out@.tree.has(locals),
            locals != 0,
            out@.tree.has(init),
            init != 0,
            out@.tree.nodes.len() == old(out)@.tree.nodes.len(),
            out@.tree.nodes[0] == old(out)@.tree.nodes[0],
            n == decls.len(),
            decls == lscope@.decls,
            from <= i,
            i <= n || i == from,
            total == w_locals(out@, locals, init, decls, i as int),
        decreases n - i,
    {
        let info = lscope.local_info(i);
        let t = translate_type(info.type_);
        out.write_lit(locals, " (local ");
        write_var_name(out, locals, Scope::Local, info.id, info.original_name.as_slice());
        out.write_lit(locals, " ");
        out.write_lit(locals, t);
        out.write_lit(locals, ")");
        out.newline(locals);
        out.write_lit(init, "(local.set ");
        write_var_name(out, init, Scope::Local, info.id, info.original_name.as_slice());
        out.write_lit(init, " (");
        out.write_lit(init, t);
        out.write_lit(init, ".const 0))");
        out.newline(init);
        i += 1;
    }
}

fn write_releases(out: &mut Out, sink: SinkId, lscope: &LocalScope)
    requires
        old(out).wf(),
        old(out)@.tree.has(sink),
        sink != 0,
    ensures
        final(out).wf(),
        final(out)@ == w_releases(old(out)@, sink, lscope@.decls, 0),
        final(out)@.tree.nodes.len() == old(out)@.tree.nodes.len(),
        final(out)@.tree.nodes[0] == old(out)@.tree.nodes[0],
{
    let ghost decls = lscope@.decls;
    let ghost total = w_releases(out@, sink, decls, 0);
    let n: usize = lscope.ndecls();
    let mut i: usize = 0;
    while i < n
        invariant
            out.wf(),
            out@.tree.has(sink),
            sink != 0,
            out@.tree.nodes.len() == old(out)@.tree.nodes.len(),
            out@.tree.nodes[0] == old(out)@.tree.nodes[0],
            n == decls.len(),
            decls == lscope@.decls,
            0 <= i <= n,
            total == w_releases(out@, sink, decls, i as int),
        decreases n - i,
    {
        let info = lscope.local_info(i);
        release_var(out, sink, Scope::Local, info.id, info.original_name.as_slice(), info.type_);
        i += 1;
    }
}

/// Declares at the head of the start function what the initialisers of the
/// global variables declared, and releases every local at its end.
pub fn close_start(out: &mut Out, locals: SinkId, init: SinkId, lscope: &LocalScope)
    requires
        old(out).wf(),
        old(out)@.tree.has(locals),
        locals != 0,
        old(out)@.tree.has(init),
        init != 0,
    ensures
        final(out).wf(),
        final(out)@ == start_close(old(out)@, locals, init, lscope@),
        final(out)@.tree.nodes.len() == old(out)@.tree.nodes.len(),
        final(out)@.tree.nodes[0] == old(out)@.tree.nodes[0],
{
    let helpers = lscope.helpers();
    write_helper(out, locals, helpers, WasmType::F32);
    write_helper(out, locals, helpers, WasmType::F64);
    write_helper(out, locals, helpers, WasmType::I32);
    write_helper(out, locals, helpers, WasmType::I64);
    write_locals(out, locals, init, lscope, 0);
    write_releases(out, SINK_START, lscope);
}

/// Translates a function: its export where it is public, its head, its
/// body for the type that it returns, and, once the body is known, the
/// declarations of its locals before the body and their release after it.
pub fn translate_func(out: &mut Out, gscope: &GlobalScope, func: &Function) -> (r: Result<
    (),
    Error,
>)
    requires
        old(out).wf(),
    ensures
        final(out).wf(),
        final(out)@.tree.nodes[0] == old(out)@.tree.nodes[0],
        match tr_func(gscope@, old(out)@, func@) {
            Ok(o) => r is Ok && final(out)@ == o,
            Err(e) => r matches Err(x) && x@ == e,
        },
{
    let mut lscope = LocalScope::new(gscope);
    match func.visibility {
        Visibility::Public => {
            out.write_lit(SINK_EXPORTS, "(export \"f_");
            out.write(SINK_EXPORTS, func.name.as_slice());
            out.write_lit(SINK_EXPORTS, "\" (func $f_");
            out.write(SINK_EXPORTS, func.name.as_slice());
            out.write_lit(SINK_EXPORTS, "))");
            out.newline(SINK_EXPORTS);
        },
        Visibility::Private => {},
    }
    let sink = out.spawn(SINK_FUNCS);
    out.write_lit(sink, "(func $f_");
    out.write(sink, func.name.as_slice());
    out.newline(sink);
    write_params(out, sink, &mut lscope, func);
    write_result(out, sink, func.return_type);
    let locals_sink = out.spawn(sink);
    let locals_init = out.spawn(sink);
    match translate_expr(out, sink, &mut lscope, func.return_type, &func.body) {
        Err(e) => Err(e),
        Ok(()) => {
            let epilogue = out.spawn(sink);
            out.write_lit(sink, ")");
            out.newline(sink);
            let helpers = lscope.helpers();
            write_helper(out, locals_sink, helpers, WasmType::F32);
            write_helper(out, locals_sink, helpers, WasmType::F64);
            write_helper(out, locals_sink, helpers, WasmType::I32);
            write_helper(out, locals_sink, helpers, WasmType::I64);
            write_locals(out, locals_sink, locals_init, &lscope, func.parameters.len());
            write_releases(out, epilogue, &lscope);
            Ok(())
        },
    }
}

} // verus!
