//! The translator: from the syntax trees of the source files to the text of a
//! WebAssembly module.
//!
//! The translation is stated as a spec function on an abstract state: the
//! output with its sinks and data segment, and the local scope. Each function
//! here changes the real state as its spec function changes the abstract one.
pub mod retain;
pub mod cast;
pub mod guess;
pub mod expr;
pub mod func;

use crate::error::{Error, ErrorView};
use crate::ir::{
    constants_view, files_view, functions_view, globalvars_view, imports_view, Constant,
    ConstantView, ConstValue, File, FileView, Function, FunctionView, GlobalVariable,
    GlobalVariableView, Import, ImportView, ReturnType, Type, TAG_BOOL, TAG_F32, TAG_F64, TAG_I32,
    TAG_I64, TAG_ID, TAG_LIST, TAG_STRING, TAG_TYPE,
};
use crate::out::{module_shape, Out, OutView, SINK_GVARS, SINK_START};
use crate::parser::Source;
use crate::parsef::{parse_source, spec_parse};
use crate::scope::{
    FunctionInfo, FunctionInfoView, GlobalScope, GlobalScopeView, LocalScope, LocalScopeView, Locals,
};
use crate::sink::SinkId;
use crate::span::Span;
use crate::text::{copy_bytes, dec_int, lit, lit_vec};
use crate::tr::expr::{tr_expr, translate_expr};
use crate::tr::func::{
    close_start, start_close, tr_func, tr_import, translate_func, translate_import,
};
use crate::tr::guess::{guess_type, spec_guess_type};
use crate::tr::retain::{translate_type, var_set, write_var_set, Scope};
use vstd::prelude::*;

verus! {

/// The abstract state of the translation of one function.
pub struct St {
    pub out: OutView,
    pub l: LocalScopeView,
}

impl St {
    /// The state with `bytes` written to `sink`.
    pub open spec fn w(self, sink: SinkId, bytes: Seq<u8>) -> St {
        St { out: self.out.w(sink, bytes), ..self }
    }

    /// The state with a line feed written to `sink`.
    pub open spec fn nl(self, sink: SinkId) -> St {
        St { out: self.out.nl(sink), ..self }
    }

    /// The state with `bytes` and a line feed written to `sink`.
    pub open spec fn wln(self, sink: SinkId, bytes: Seq<u8>) -> St {
        St { out: self.out.wln(sink, bytes), ..self }
    }
}

/// The span of what the language itself defines: that of the first import
/// of the first file, or the start of the first file where that has none.
pub open spec fn builtin_span(files: Seq<FileView>) -> Span {
    if files.len() > 0 && files[0].imports.len() > 0 {
        files[0].imports[0].span()
    } else {
        Span { source: 0, main: 0, start: 0, end: 0 }
    }
}

/// An import as a function of the global scope, under its name in the
/// program.
pub open spec fn import_info(imp: ImportView) -> FunctionInfoView {
    match imp {
        ImportView::Function(i) => FunctionInfoView { span: i.span, name: i.alias, type_: i.type_ },
    }
}

/// A function of a file as a function of the global scope.
pub open spec fn function_info(f: FunctionView) -> FunctionInfoView {
    FunctionInfoView { span: f.span, name: f.name, type_: f.type_() }
}

/// The global scope with the imports from the `i`-th on.
pub open spec fn collect_imports(g: GlobalScopeView, imports: Seq<ImportView>, i: int) -> Result<
    GlobalScopeView,
    ErrorView,
>
    decreases imports.len() - i,
{
    if 0 <= i < imports.len() {
        match g.decl_function(import_info(imports[i])) {
            Err(e) => Err(e),
            Ok(g1) => collect_imports(g1, imports, i + 1),
        }
    } else {
        Ok(g)
    }
}

/// The global scope with the functions from the `i`-th on.
pub open spec fn collect_functions(g: GlobalScopeView, functions: Seq<FunctionView>, i: int)
    -> Result<GlobalScopeView, ErrorView>
    decreases functions.len() - i,
{
    if 0 <= i < functions.len() {
        match g.decl_function(function_info(functions[i])) {
            Err(e) => Err(e),
            Ok(g1) => collect_functions(g1, functions, i + 1),
        }
    } else {
        Ok(g)
    }
}

/// The global scope with the imports and functions of the files from the
/// `k`-th on: of each file first the imports, then the functions.
pub open spec fn collect_signatures(g: GlobalScopeView, files: Seq<FileView>, k: int) -> Result<
    GlobalScopeView,
    ErrorView,
>
    decreases files.len() - k,
{
    if 0 <= k < files.len() {
        match collect_imports(g, files[k].imports, 0) {
            Err(e) => Err(e),
            Ok(g1) => match collect_functions(g1, files[k].functions, 0) {
                Err(e) => Err(e),
                Ok(g2) => collect_signatures(g2, files, k + 1),
            },
        }
    } else {
        Ok(g)
    }
}

/// The scope of `r` with one more constant, where `r` is a scope.
pub open spec fn then_const(
    r: Result<GlobalScopeView, ErrorView>,
    span: Span,
    name: Seq<u8>,
    value: ConstValue,
) -> Result<GlobalScopeView, ErrorView> {
    match r {
        Err(e) => Err(e),
        Ok(g) => g.decl_const(span, name, value),
    }
}

/// The global scope with the names of the types as constants, each the
/// type itself.
pub open spec fn decl_builtins(g: GlobalScopeView, span: Span) -> Result<
    GlobalScopeView,
    ErrorView,
> {
    then_const(
        then_const(
            then_const(
                then_const(
                    then_const(
                        then_const(
                            then_const(
                                then_const(
                                    g.decl_const(span, lit("i32"), ConstValue::Type(Type::I32)),
                                    span,
                                    lit("i64"),
                                    ConstValue::Type(Type::I64),
                                ),
                                span,
                                lit("f32"),
                                ConstValue::Type(Type::F32),
                            ),
                            span,
                            lit("f64"),
                            ConstValue::Type(Type::F64),
                        ),
                        span,
                        lit("bool"),
                        ConstValue::Type(Type::Bool),
                    ),
                    span,
                    lit("type"),
                    ConstValue::Type(Type::Type),
                ),
                span,
                lit("str"),
                ConstValue::Type(Type::String),
            ),
            span,
            lit("list"),
            ConstValue::Type(Type::List),
        ),
        span,
        lit("id"),
        ConstValue::Type(Type::Id),
    )
}

/// The global scope with the constants of a file from the `i`-th on.
pub open spec fn decl_file_constants(g: GlobalScopeView, constants: Seq<ConstantView>, i: int)
    -> Result<GlobalScopeView, ErrorView>
    decreases constants.len() - i,
{
    if 0 <= i < constants.len() {
        match g.decl_const(constants[i].span, constants[i].name, constants[i].value) {
            Err(e) => Err(e),
            Ok(g1) => decl_file_constants(g1, constants, i + 1),
        }
    } else {
        Ok(g)
    }
}

/// The global scope with the constants of the files from the `k`-th on.
pub open spec fn decl_constants(g: GlobalScopeView, files: Seq<FileView>, k: int) -> Result<
    GlobalScopeView,
    ErrorView,
>
    decreases files.len() - k,
{
    if 0 <= k < files.len() {
        match decl_file_constants(g, files[k].constants, 0) {
            Err(e) => Err(e),
            Ok(g1) => decl_constants(g1, files, k + 1),
        }
    } else {
        Ok(g)
    }
}

/// The output with the global that holds the tag of a type. `label` is the
/// name of the type, filled with spaces to four bytes.
pub open spec fn w_tag(o: OutView, label: Seq<u8>, tag: i32) -> OutView {
    o.w(SINK_GVARS, lit("(global $rt_tag_")).w(SINK_GVARS, label).w(
        SINK_GVARS,
        lit(" i32 (i32.const "),
    ).w(SINK_GVARS, dec_int(tag as int)).w(SINK_GVARS, lit("))")).nl(SINK_GVARS)
}

/// The output with the globals that hold the tags of the types.
pub open spec fn w_tag_globals(o: OutView) -> OutView {
    w_tag(
        w_tag(
            w_tag(
                w_tag(
                    w_tag(
                        w_tag(
                            w_tag(
                                w_tag(w_tag(o, lit("i32 "), TAG_I32), lit("i64 "), TAG_I64),
                                lit("f32 "),
                                TAG_F32,
                            ),
                            lit("f64 "),
                            TAG_F64,
                        ),
                        lit("bool"),
                        TAG_BOOL,
                    ),
                    lit("type"),
                    TAG_TYPE,
                ),
                lit("str "),
                TAG_STRING,
            ),
            lit("list"),
            TAG_LIST,
        ),
        lit("id  "),
        TAG_ID,
    )
}

/// The type of a global variable: the one that is written, or else the
/// type of the expression that initialises it.
pub open spec fn gvar_type(g: GlobalScopeView, l: LocalScopeView, gv: GlobalVariableView) -> Result<
    Type,
    ErrorView,
> {
    match gv.type_ {
        Some(t) => Ok(t),
        None => spec_guess_type(l, g, gv.init),
    }
}

/// What the translation of the global variables has reached: the global
/// names, the output, and what the start function has declared.
pub type GvarsRes = Result<(GlobalScopeView, OutView, LocalScopeView), ErrorView>;

/// The output with a global variable set from the stack, in `sink`, and
/// declared with zero as its first value.
pub open spec fn w_gvar(o: OutView, sink: SinkId, name: Seq<u8>, t: Type) -> OutView {
    var_set(o, sink, Scope::Global, 0, name).w(SINK_GVARS, lit("(global $g_")).w(
        SINK_GVARS,
        name,
    ).w(SINK_GVARS, lit(" (mut ")).w(SINK_GVARS, t.spec_wasm().name()).w(
        SINK_GVARS,
        lit(") ("),
    ).w(SINK_GVARS, t.spec_wasm().name()).w(SINK_GVARS, lit(".const 0))")).nl(SINK_GVARS)
}

/// The global scope and the output with a global variable: the expression
/// that initialises it is translated into a new sink of the start function,
/// under the names defined so far; then the variable is defined. The locals
/// that the expression declares are locals of the start function, which has
/// declared `l` so far; their names end with the expression.
pub open spec fn tr_gvar(g: GlobalScopeView, o: OutView, l: LocalScopeView, gv: GlobalVariableView)
    -> GvarsRes {
    match gvar_type(g, l, gv) {
        Err(e) => Err(e),
        Ok(t) => match tr_expr(
            g,
            o.tree.next_id(),
            St { out: o.spawn(SINK_START), l },
            ReturnType::Value(t),
            gv.init,
        ) {
            Err(e) => Err(e),
            Ok(st) => match g.decl_gvar(gv.span, gv.name, t) {
                Err(e) => Err(e),
                Ok(g1) => Ok((g1, w_gvar(st.out, o.tree.next_id(), gv.name, t), st.l.restart())),
            },
        },
    }
}

/// The global variables of a file from the `i`-th on, in order.
pub open spec fn tr_file_gvars(
    g: GlobalScopeView,
    o: OutView,
    l: LocalScopeView,
    gvars: Seq<GlobalVariableView>,
    i: int,
) -> GvarsRes
    decreases gvars.len() - i,
{
    if 0 <= i < gvars.len() {
        match tr_gvar(g, o, l, gvars[i]) {
            Err(e) => Err(e),
            Ok((g1, o1, l1)) => tr_file_gvars(g1, o1, l1, gvars, i + 1),
        }
    } else {
        Ok((g, o, l))
    }
}

/// The global variables of the files from the `k`-th on, in order.
pub open spec fn tr_gvars(
    g: GlobalScopeView,
    o: OutView,
    l: LocalScopeView,
    files: Seq<FileView>,
    k: int,
) -> GvarsRes
    decreases files.len() - k,
{
    if 0 <= k < files.len() {
        match tr_file_gvars(g, o, l, files[k].globalvars, 0) {
            Err(e) => Err(e),
            Ok((g1, o1, l1)) => tr_gvars(g1, o1, l1, files, k + 1),
        }
    } else {
        Ok((g, o, l))
    }
}

/// The output with the start function open: two sinks at its head wait for
/// the declarations of its locals and for the code that sets them to zero.
pub open spec fn start_open(o: OutView) -> OutView {
    o.spawn(SINK_START).spawn(SINK_START)
}

/// The output with the imports of a file from the `i`-th on.
pub open spec fn tr_file_imports(o: OutView, imports: Seq<ImportView>, i: int) -> OutView
    decreases imports.len() - i,
{
    if 0 <= i < imports.len() {
        tr_file_imports(tr_import(o, imports[i]), imports, i + 1)
    } else {
        o
    }
}

/// The output with the functions of a file from the `i`-th on.
pub open spec fn tr_file_functions(
    g: GlobalScopeView,
    o: OutView,
    functions: Seq<FunctionView>,
    i: int,
) -> Result<OutView, ErrorView>
    decreases functions.len() - i,
{
    if 0 <= i < functions.len() {
        match tr_func(g, o, functions[i]) {
            Err(e) => Err(e),
            Ok(o1) => tr_file_functions(g, o1, functions, i + 1),
        }
    } else {
        Ok(o)
    }
}

/// The output with the imports and functions of the files from the `k`-th
/// on: of each file first the imports, then the functions.
pub open spec fn tr_files(g: GlobalScopeView, o: OutView, files: Seq<FileView>, k: int) -> Result<
    OutView,
    ErrorView,
>
    decreases files.len() - k,
{
    if 0 <= k < files.len() {
        match tr_file_functions(
            g,
            tr_file_imports(o, files[k].imports, 0),
            files[k].functions,
            0,
        ) {
            Err(e) => Err(e),
            Ok(o1) => tr_files(g, o1, files, k + 1),
        }
    } else {
        Ok(o)
    }
}

/// The text of the module for the given files, or the first error.
///
/// First every import and function of every file is defined, so that a
/// call can stand before the function. Then come the names of the types,
/// the constants, the global variables in the order of the files and of
/// their declaration, the locals of the start function, which initialises
/// the variables, and the imports and functions.
pub open spec fn spec_translate_files(wfs: Seq<u8>, files: Seq<FileView>) -> Result<
    Seq<u8>,
    ErrorView,
> {
    match collect_signatures(GlobalScopeView::empty(), files, 0) {
        Err(e) => Err(e),
        Ok(g1) => match decl_builtins(g1, builtin_span(files)) {
            Err(e) => Err(e),
            Ok(g2) => match decl_constants(g2, files, 0) {
                Err(e) => Err(e),
                Ok(g3) => match tr_gvars(
                    g3,
                    start_open(w_tag_globals(OutView::fresh(wfs))),
                    LocalScopeView::fresh(),
                    files,
                    0,
                ) {
                    Err(e) => Err(e),
                    Ok((g4, o1, l)) => match tr_files(
                        g4,
                        start_close(
                            o1,
                            w_tag_globals(OutView::fresh(wfs)).tree.next_id(),
                            (w_tag_globals(OutView::fresh(wfs)).tree.next_id() + 1) as SinkId,
                            l,
                        ),
                        files,
                        0,
                    ) {
                        Err(e) => Err(e),
                        Ok(o2) => Ok(o2.text()),
                    },
                },
            },
        },
    }
}

/// Whether a step that changes the global scope did what `spec` says.
pub open spec fn scope_refines(
    r: Result<(), Error>,
    spec: Result<GlobalScopeView, ErrorView>,
    g: GlobalScopeView,
) -> bool {
    match spec {
        Ok(g1) => r is Ok && g == g1,
        Err(e) => r matches Err(x) && x@ == e,
    }
}

fn collect_file_imports(gscope: &mut GlobalScope, imports: &Vec<Import>) -> (r: Result<(), Error>)
    ensures
        scope_refines(r, collect_imports(old(gscope)@, imports_view(imports@), 0), final(gscope)@),
{
    let ghost items = imports_view(imports@);
    let ghost total = collect_imports(gscope@, items, 0);
    let n: usize = imports.len();
    let mut i: usize = 0;
    while i < n
        invariant
            n == imports.len(),
            0 <= i <= n,
            items == imports_view(imports@),
            total == collect_imports(old(gscope)@, items, 0),
            total == collect_imports(gscope@, items, i as int),
        decreases n - i,
    {
        let info = match &imports[i] {
            Import::Function(f) => FunctionInfo {
                span: f.span,
                name: copy_bytes(f.alias.as_slice()),
                type_: f.type_.duplicate(),
            },
        };
        assert(info@ == import_info(items[i as int]));
        match gscope.decl_function(info) {
            Err(e) => {
                return Err(e);
            },
            Ok(()) => {},
        }
        i += 1;
    }
    Ok(())
}

fn collect_file_functions(gscope: &mut GlobalScope, functions: &Vec<Function>) -> (r: Result<
    (),
    Error,
>)
    ensures
        scope_refines(
            r,
            collect_functions(old(gscope)@, functions_view(functions@), 0),
            final(gscope)@,
        ),
{
    let ghost items = functions_view(functions@);
    let ghost total = collect_functions(gscope@, items, 0);
    let n: usize = functions.len();
    let mut i: usize = 0;
    while i < n
        invariant
            n == functions.len(),
            0 <= i <= n,
            items == functions_view(functions@),
            total == collect_functions(old(gscope)@, items, 0),
            total == collect_functions(gscope@, items, i as int),
        decreases n - i,
    {
        let f = &functions[i];
        let info = FunctionInfo {
            span: f.span,
            name: copy_bytes(f.name.as_slice()),
            type_: f.type_(),
        };
        assert(info@ == function_info(items[i as int]));
        match gscope.decl_function(info) {
            Err(e) => {
                return Err(e);
            },
            Ok(()) => {},
        }
        i += 1;
    }
    Ok(())
}

fn collect_all_signatures(gscope: &mut GlobalScope, files: &Vec<File>) -> (r: Result<(), Error>)
    ensures
        scope_refines(r, collect_signatures(old(gscope)@, files_view(files@), 0), final(gscope)@),
{
    let ghost items = files_view(files@);
    let ghost total = collect_signatures(gscope@, items, 0);
    let n: usize = files.len();
    let mut k: usize = 0;
    while k < n
        invariant
            n == files.len(),
            0 <= k <= n,
            items == files_view(files@),
            total == collect_signatures(old(gscope)@, items, 0),
            total == collect_signatures(gscope@, items, k as int),
        decreases n - k,
    {
        assert(items[k as int] == files@[k as int]@);
        match collect_file_imports(gscope, &files[k].imports) {
            Err(e) => {
                return Err(e);
            },
            Ok(()) => {},
        }
        match collect_file_functions(gscope, &files[k].functions) {
            Err(e) => {
                return Err(e);
            },
            Ok(()) => {},
        }
        k += 1;
    }
    Ok(())
}

fn declare_builtins(gscope: &mut GlobalScope, span: Span) -> (r: Result<(), Error>)
    ensures
        scope_refines(r, decl_builtins(old(gscope)@, span), final(gscope)@),
{
    match gscope.decl_const(span, lit_vec("i32"), ConstValue::Type(Type::I32)) {
        Err(e) => {
            return Err(e);
        },
        Ok(()) => {},
    }
    match gscope.decl_const(span, lit_vec("i64"), ConstValue::Type(Type::I64)) {
        Err(e) => {
            return Err(e);
        },
        Ok(()) => {},
    }
    match gscope.decl_const(span, lit_vec("f32"), ConstValue::Type(Type::F32)) {
        Err(e) => {
            return Err(e);
        },
        Ok(()) => {},
    }
    match gscope.decl_const(span, lit_vec("f64"), ConstValue::Type(Type::F64)) {
        Err(e) => {
            return Err(e);
        },
        Ok(()) => {},
    }
    match gscope.decl_const(span, lit_vec("bool"), ConstValue::Type(Type::Bool)) {
        Err(e) => {
            return Err(e);
        },
        Ok(()) => {},
    }
    match gscope.decl_const(span, lit_vec("type"), ConstValue::Type(Type::Type)) {
        Err(e) => {
            return Err(e);
        },
        Ok(()) => {},
    }
    match gscope.decl_const(span, lit_vec("str"), ConstValue::Type(Type::String)) {
        Err(e) => {
            return Err(e);
        },
        Ok(()) => {},
    }
    match gscope.decl_const(span, lit_vec("list"), ConstValue::Type(Type::List)) {
        Err(e) => {
            return Err(e);
        },
        Ok(()) => {},
    }
    gscope.decl_const(span, lit_vec("id"), ConstValue::Type(Type::Id))
}

fn declare_file_constants(gscope: &mut GlobalScope, constants: &Vec<Constant>) -> (r: Result<
    (),
    Error,
>)
    ensures
        scope_refines(
            r,
            decl_file_constants(old(gscope)@, constants_view(constants@), 0),
            final(gscope)@,
        ),
{
    let ghost items = constants_view(constants@);
    let ghost total = decl_file_constants(gscope@, items, 0);
    let n: usize = constants.len();
    let mut i: usize = 0;
    while i < n
        invariant
            n == constants.len(),
            0 <= i <= n,
            items == constants_view(constants@),
            total == decl_file_constants(old(gscope)@, items, 0),
            total == decl_file_constants(gscope@, items, i as int),
        decreases n - i,
    {
        let c = &constants[i];
        assert(items[i as int] == c@);
        match gscope.decl_const(c.span, copy_bytes(c.name.as_slice()), c.value) {
            Err(e) => {
                return Err(e);
            },
            Ok(()) => {},
        }
        i += 1;
    }
    Ok(())
}

fn declare_constants(gscope: &mut GlobalScope, files: &Vec<File>) -> (r: Result<(), Error>)
    ensures
        scope_refines(r, decl_constants(old(gscope)@, files_view(files@), 0), final(gscope)@),
{
    let ghost items = files_view(files@);
    let ghost total = decl_constants(gscope@, items, 0);
    let n: usize = files.len();
    let mut k: usize = 0;
    while k < n
        invariant
            n == files.len(),
            0 <= k <= n,
            items == files_view(files@),
            total == decl_constants(old(gscope)@, items, 0),
            total == decl_constants(gscope@, items, k as int),
        decreases n - k,
    {
        assert(items[k as int] == files@[k as int]@);
        match declare_file_constants(gscope, &files[k].constants) {
            Err(e) => {
                return Err(e);
            },
            Ok(()) => {},
        }
        k += 1;
    }
    Ok(())
}

fn write_tag(out: &mut Out, label: &str, tag: i32)
    requires
        old(out).wf(),
    ensures
        final(out).wf(),
        final(out)@.tree.nodes[0] == old(out)@.tree.nodes[0],
        final(out)@ == w_tag(old(out)@, lit(label), tag),
{
    out.write_lit(SINK_GVARS, "(global $rt_tag_");
    out.write_lit(SINK_GVARS, label);
    out.write_lit(SINK_GVARS, " i32 (i32.const ");
    out.write_int(SINK_GVARS, tag as i64);
    out.write_lit(SINK_GVARS, "))");
    out.newline(SINK_GVARS);
}

fn write_tag_globals(out: &mut Out)
    requires
        old(out).wf(),
    ensures
        final(out).wf(),
        final(out)@.tree.nodes[0] == old(out)@.tree.nodes[0],
        final(out)@ == w_tag_globals(old(out)@),
{
    write_tag(out, "i32 ", TAG_I32);
    write_tag(out, "i64 ", TAG_I64);
    write_tag(out, "f32 ", TAG_F32);
    write_tag(out, "f64 ", TAG_F64);
    write_tag(out, "bool", TAG_BOOL);
    write_tag(out, "type", TAG_TYPE);
    write_tag(out, "str ", TAG_STRING);
    write_tag(out, "list", TAG_LIST);
    write_tag(out, "id  ", TAG_ID);
}

/// Whether a step that changes scope and output, and gives what the start
/// function has declared, did what `spec` says.
pub open spec fn both_refine(
    r: Result<Locals, Error>,
    spec: GvarsRes,
    g: GlobalScopeView,
    o: OutView,
) -> bool {
    match spec {
        Ok((g1, o1, l1)) => r matches Ok(x) && x@ == l1 && x@.wf() && g == g1 && o == o1,
        Err(e) => r matches Err(x) && x@ == e,
    }
}

/// Whether a step that changes the output did what `spec` says.
pub open spec fn out_refines(r: Result<(), Error>, spec: Result<OutView, ErrorView>, o: OutView)
    -> bool {
    match spec {
        Ok(o1) => r is Ok && o == o1,
        Err(e) => r matches Err(x) && x@ == e,
    }
}

fn translate_gvar_init(
    out: &mut Out,
    gscope: &GlobalScope,
    locals: Locals,
    gv: &GlobalVariable,
) -> (r: Result<(SinkId, Type, Locals), Error>)
    requires
        old(out).wf(),
        locals@.wf(),
    ensures
        final(out).wf(),
        final(out)@.tree.nodes[0] == old(out)@.tree.nodes[0],
        final(out)@.tree.nodes.len() >= old(out)@.tree.nodes.len(),
        match gvar_type(gscope@, locals@, gv@) {
            Err(e) => r matches Err(x) && x@ == e,
            Ok(t) => match tr_expr(
                gscope@,
                old(out)@.tree.next_id(),
                St { out: old(out)@.spawn(SINK_START), l: locals@ },
                ReturnType::Value(t),
                gv.init@,
            ) {
                Err(e) => r matches Err(x) && x@ == e,
                Ok(st) => r matches Ok((sink, type_, after)) && sink == old(out)@.tree.next_id()
                    && type_ == t && after@ == st.l.restart() && after@.wf() && final(out)@
                    == st.out && final(out)@.tree.has(sink),
            },
        },
{
    let mut lscope = LocalScope::resume(gscope, locals);
    let type_: Type = match gv.type_ {
        Some(t) => t,
        None => match guess_type(&lscope, &gv.init) {
            Ok(t) => t,
            Err(e) => {
                return Err(e);
            },
        },
    };
    let init_sink = out.spawn(SINK_START);
    match translate_expr(out, init_sink, &mut lscope, ReturnType::Value(type_), &gv.init) {
        Err(e) => Err(e),
        Ok(()) => Ok((init_sink, type_, lscope.suspend())),
    }
}

fn translate_gvar(
    out: &mut Out,
    gscope: &mut GlobalScope,
    locals: Locals,
    gv: &GlobalVariable,
) -> (r: Result<Locals, Error>)
    requires
        old(out).wf(),
        locals@.wf(),
    ensures
        final(out).wf(),
        final(out)@.tree.nodes[0] == old(out)@.tree.nodes[0],
        final(out)@.tree.nodes.len() >= old(out)@.tree.nodes.len(),
        both_refine(
            r,
            tr_gvar(old(gscope)@, old(out)@, locals@, gv@),
            final(gscope)@,
            final(out)@,
        ),
{
    match translate_gvar_init(out, gscope, locals, gv) {
        Err(e) => Err(e),
        Ok((init_sink, type_, after)) => {
            match gscope.decl_gvar(gv.span, copy_bytes(gv.name.as_slice()), type_) {
                Err(e) => Err(e),
                Ok(()) => {
                    let t = translate_type(type_);
                    write_var_set(out, init_sink, Scope::Global, 0, gv.name.as_slice());
                    out.write_lit(SINK_GVARS, "(global $g_");
                    out.write(SINK_GVARS, gv.name.as_slice());
                    out.write_lit(SINK_GVARS, " (mut ");
                    out.write_lit(SINK_GVARS, t);
                    out.write_lit(SINK_GVARS, ") (");
                    out.write_lit(SINK_GVARS, t);
                    out.write_lit(SINK_GVARS, ".const 0))");
                    out.newline(SINK_GVARS);
                    Ok(after)
                },
            }
        },
    }
}

fn translate_file_gvars(
    out: &mut Out,
    gscope: &mut GlobalScope,
    locals: Locals,
    gvars: &Vec<GlobalVariable>,
) -> (r: Result<Locals, Error>)
    requires
        old(out).wf(),
        locals@.wf(),
    ensures
        final(out).wf(),
        final(out)@.tree.nodes[0] == old(out)@.tree.nodes[0],
        final(out)@.tree.nodes.len() >= old(out)@.tree.nodes.len(),
        both_refine(
            r,
            tr_file_gvars(old(gscope)@, old(out)@, locals@, globalvars_view(gvars@), 0),
            final(gscope)@,
            final(out)@,
        ),
{
    let ghost items = globalvars_view(gvars@);
    let ghost first = locals@;
    let ghost total = tr_file_gvars(gscope@, out@, first, items, 0);
    let mut kept = locals;
    let n: usize = gvars.len();
    let mut i: usize = 0;
    while i < n
        invariant
            out.wf(),
            kept@.wf(),
            first == locals@,
            out@.tree.nodes[0] == old(out)@.tree.nodes[0],
            out@.tree.nodes.len() >= old(out)@.tree.nodes.len(),
            n == gvars.len(),
            0 <= i <= n,
            items == globalvars_view(gvars@),
            total == tr_file_gvars(old(gscope)@, old(out)@, first, items, 0),
            total == tr_file_gvars(gscope@, out@, kept@, items, i as int),
        decreases n - i,
    {
        assert(items[i as int] == gvars@[i as int]@);
        match translate_gvar(out, gscope, kept, &gvars[i]) {
            Err(e) => {
                return Err(e);
            },
            Ok(after) => {
                kept = after;
            },
        }
        i += 1;
    }
    Ok(kept)
}

fn translate_gvars(
    out: &mut Out,
    gscope: &mut GlobalScope,
    locals: Locals,
    files: &Vec<File>,
) -> (r: Result<Locals, Error>)
    requires
        old(out).wf(),
        locals@.wf(),
    ensures
        final(out).wf(),
        final(out)@.tree.nodes[0] == old(out)@.tree.nodes[0],
        final(out)@.tree.nodes.len() >= old(out)@.tree.nodes.len(),
        both_refine(
            r,
            tr_gvars(old(gscope)@, old(out)@, locals@, files_view(files@), 0),
            final(gscope)@,
            final(out)@,
        ),
{
    let ghost items = files_view(files@);
    let ghost first = locals@;
    let ghost total = tr_gvars(gscope@, out@, first, items, 0);
    let mut kept = locals;
    let n: usize = files.len();
    let mut k: usize = 0;
    while k < n
        invariant
            out.wf(),
            kept@.wf(),
            first == locals@,
            out@.tree.nodes[0] == old(out)@.tree.nodes[0],
            out@.tree.nodes.len() >= old(out)@.tree.nodes.len(),
            n == files.len(),
            0 <= k <= n,
            items == files_view(files@),
            total == tr_gvars(old(gscope)@, old(out)@, first, items, 0),
            total == tr_gvars(gscope@, out@, kept@, items, k as int),
        decreases n - k,
    {
        assert(items[k as int] == files@[k as int]@);
        match translate_file_gvars(out, gscope, kept, &files[k].globalvars) {
            Err(e) => {
                return Err(e);
            },
            Ok(after) => {
                kept = after;
            },
        }
        k += 1;
    }
    Ok(kept)
}

fn translate_file_imports(out: &mut Out, imports: &Vec<Import>)
    requires
        old(out).wf(),
    ensures
        final(out).wf(),
        final(out)@.tree.nodes[0] == old(out)@.tree.nodes[0],
        final(out)@ == tr_file_imports(old(out)@, imports_view(imports@), 0),
{
    let ghost items = imports_view(imports@);
    let ghost total = tr_file_imports(out@, items, 0);
    let n: usize = imports.len();
    let mut i: usize = 0;
    while i < n
        invariant
            out.wf(),
            out@.tree.nodes[0] == old(out)@.tree.nodes[0],
            n == imports.len(),
            0 <= i <= n,
            items == imports_view(imports@),
            total == tr_file_imports(out@, items, i as int),
        decreases n - i,
    {
        assert(items[i as int] == imports@[i as int]@);
        translate_import(out, &imports[i]);
        i += 1;
    }
}

fn translate_file_functions(out: &mut Out, gscope: &GlobalScope, functions: &Vec<Function>) -> (r:
    Result<(), Error>)
    requires
        old(out).wf(),
    ensures
        final(out).wf(),
        final(out)@.tree.nodes[0] == old(out)@.tree.nodes[0],
        out_refines(
            r,
            tr_file_functions(gscope@, old(out)@, functions_view(functions@), 0),
            final(out)@,
        ),
{
    let ghost items = functions_view(functions@);
    let ghost total = tr_file_functions(gscope@, out@, items, 0);
    let n: usize = functions.len();
    let mut i: usize = 0;
    while i < n
        invariant
            out.wf(),
            out@.tree.nodes[0] == old(out)@.tree.nodes[0],
            n == functions.len(),
            0 <= i <= n,
            items == functions_view(functions@),
            total == tr_file_functions(gscope@, old(out)@, items, 0),
            total == tr_file_functions(gscope@, out@, items, i as int),
        decreases n - i,
    {
        assert(items[i as int] == functions@[i as int]@);
        match translate_func(out, gscope, &functions[i]) {
            Err(e) => {
                return Err(e);
            },
            Ok(()) => {},
        }
        i += 1;
    }
    Ok(())
}

fn translate_all_files(out: &mut Out, gscope: &GlobalScope, files: &Vec<File>) -> (r: Result<
    (),
    Error,
>)
    requires
        old(out).wf(),
    ensures
        final(out).wf(),
        final(out)@.tree.nodes[0] == old(out)@.tree.nodes[0],
        out_refines(r, tr_files(gscope@, old(out)@, files_view(files@), 0), final(out)@),
{
    let ghost items = files_view(files@);
    let ghost total = tr_files(gscope@, out@, items, 0);
    let n: usize = files.len();
    let mut k: usize = 0;
    while k < n
        invariant
            out.wf(),
            out@.tree.nodes[0] == old(out)@.tree.nodes[0],
            n == files.len(),
            0 <= k <= n,
            items == files_view(files@),
            total == tr_files(gscope@, old(out)@, items, 0),
            total == tr_files(gscope@, out@, items, k as int),
        decreases n - k,
    {
        assert(items[k as int] == files@[k as int]@);
        translate_file_imports(out, &files[k].imports);
        match translate_file_functions(out, gscope, &files[k].functions) {
            Err(e) => {
                return Err(e);
            },
            Ok(()) => {},
        }
        k += 1;
    }
    Ok(())
}

fn first_span(files: &Vec<File>) -> (r: Span)
    ensures
        r == builtin_span(files_view(files@)),
{
    if files.len() > 0 && files[0].imports.len() > 0 {
        assert(files_view(files@)[0] == files@[0]@);
        assert(files@[0]@.imports[0] == files@[0].imports@[0]@);
        *files[0].imports[0].span()
    } else {
        if files.len() > 0 {
            assert(files_view(files@)[0] == files@[0]@);
            assert(files@[0]@.imports.len() == 0);
        }
        Span { source: 0, main: 0, start: 0, end: 0 }
    }
}

/// Translates parsed files into the text of one WebAssembly module, which
/// starts with the fragment `wfs`. The files are taken in order: what a
/// global variable refers to has to be declared before it, in the same file
/// or in an earlier one; functions are known everywhere.
pub fn translate_files(wfs: &[u8], files: &Vec<File>) -> (r: Result<Vec<u8>, Error>)
    ensures
        match spec_translate_files(wfs@, files_view(files@)) {
            Ok(text) => r matches Ok(t) && t@ == text,
            Err(e) => r matches Err(x) && x@ == e,
        },
        r matches Ok(t) ==> module_shape(t@, wfs@),
{
    let mut out = Out::new(wfs);
    write_tag_globals(&mut out);
    let mut gscope = GlobalScope::new();
    match collect_all_signatures(&mut gscope, files) {
        Err(e) => {
            return Err(e);
        },
        Ok(()) => {},
    }
    match declare_builtins(&mut gscope, first_span(files)) {
        Err(e) => {
            return Err(e);
        },
        Ok(()) => {},
    }
    match declare_constants(&mut gscope, files) {
        Err(e) => {
            return Err(e);
        },
        Ok(()) => {},
    }
    let locals_sink = out.spawn(SINK_START);
    let locals_init = out.spawn(SINK_START);
    let locals = match translate_gvars(&mut out, &mut gscope, Locals::new(), files) {
        Err(e) => {
            return Err(e);
        },
        Ok(locals) => locals,
    };
    let lscope = LocalScope::resume(&gscope, locals);
    close_start(&mut out, locals_sink, locals_init, &lscope);
    match translate_all_files(&mut out, &gscope, files) {
        Err(e) => {
            return Err(e);
        },
        Ok(()) => {},
    }
    Ok(out.get())
}

/// What comes before the sources of a program: the fragment of
/// WebAssembly text that the module starts with, and the source files of the
/// run-time library, which are translated before the program's own.
#[derive(Debug, PartialEq, Eq)]
pub struct Prelude {
    pub wfs: Vec<u8>,
    pub sources: Vec<Source>,
}

/// The texts of the source files of a program, those of the prelude first.
/// The handle of a source is its place in this sequence.
pub open spec fn source_texts(prelude: Seq<Source>, sources: Seq<Source>) -> Seq<Seq<u8>> {
    Seq::new(
        prelude.len() + sources.len(),
        |i: int|
            if i < prelude.len() {
                prelude[i].data@
            } else {
                sources[i - prelude.len()].data@
            },
    )
}

/// The syntax trees of the texts from the `i`-th on, behind those of
/// `acc`; or the first error.
pub open spec fn spec_parse_all(texts: Seq<Seq<u8>>, i: int, acc: Seq<FileView>) -> Result<
    Seq<FileView>,
    ErrorView,
>
    decreases texts.len() - i,
{
    if 0 <= i < texts.len() {
        match spec_parse(i as usize, texts[i]) {
            Err(e) => Err(e),
            Ok(f) => spec_parse_all(texts, i + 1, acc.push(f)),
        }
    } else {
        Ok(acc)
    }
}

/// The text of the module for the source texts `texts`, behind the
/// fragment `wfs`; or the first error of the lexer, the parser or the
/// translator.
pub open spec fn spec_translate(wfs: Seq<u8>, texts: Seq<Seq<u8>>) -> Result<Seq<u8>, ErrorView> {
    match spec_parse_all(texts, 0, Seq::empty()) {
        Err(e) => Err(e),
        Ok(files) => spec_translate_files(wfs, files),
    }
}

fn gather<'a>(prelude: &'a Vec<Source>, sources: &'a Vec<Source>) -> (all: Vec<&'a Source>)
    ensures
        all.len() == prelude.len() + sources.len(),
        forall|j: int|
            0 <= j < all.len() ==> (#[trigger] all@[j]).data@ == source_texts(prelude@, sources@)[j],
{
    let mut all: Vec<&Source> = Vec::new();
    let mut i: usize = 0;
    while i < prelude.len()
        invariant
            0 <= i <= prelude.len(),
            all.len() == i,
            forall|j: int| 0 <= j < i ==> (#[trigger] all@[j]).data@ == prelude@[j].data@,
        decreases prelude.len() - i,
    {
        all.push(&prelude[i]);
        i += 1;
    }
    let mut k: usize = 0;
    while k < sources.len()
        invariant
            0 <= k <= sources.len(),
            all.len() == prelude.len() + k,
            forall|j: int|
                0 <= j < prelude.len() ==> (#[trigger] all@[j]).data@ == prelude@[j].data@,
            forall|j: int|
                prelude.len() <= j < prelude.len() + k ==> (#[trigger] all@[j]).data@ == sources@[j
                    - prelude.len()].data@,
        decreases sources.len() - k,
    {
        all.push(&sources[k]);
        k += 1;
    }
    all
}

fn parse_sources(all: &Vec<&Source>, Ghost(texts): Ghost<Seq<Seq<u8>>>) -> (r: Result<
    Vec<File>,
    Error,
>)
    requires
        all.len() == texts.len(),
        forall|j: int| 0 <= j < all.len() ==> (#[trigger] all@[j]).data@ == texts[j],
    ensures
        match spec_parse_all(texts, 0, Seq::empty()) {
            Ok(files) => r matches Ok(v) && files_view(v@) == files,
            Err(e) => r matches Err(x) && x@ == e,
        },
{
    let mut files: Vec<File> = Vec::new();
    assert(files_view(files@) =~= Seq::empty());
    let n: usize = all.len();
    let mut i: usize = 0;
    while i < n
        invariant
            n == all.len(),
            n == texts.len(),
            0 <= i <= n,
            forall|j: int| 0 <= j < n ==> (#[trigger] all@[j]).data@ == texts[j],
            spec_parse_all(texts, 0, Seq::empty()) == spec_parse_all(
                texts,
                i as int,
                files_view(files@),
            ),
        decreases n - i,
    {
        assert(all@[i as int].data@ == texts[i as int]);
        match parse_source(i, all[i].data.as_slice()) {
            Err(e) => {
                return Err(e);
            },
            Ok(file) => {
                let ghost before = files_view(files@);
                files.push(file);
                assert(files_view(files@) =~= before.push(file@));
            },
        }
        i += 1;
    }
    Ok(files)
}

/// Translates a program into the text of one WebAssembly module.
///
/// The source files of the prelude and then those of the program are
/// lexed and parsed, each under its place in that order as its handle, and
/// translated together. The first error ends the translation.
pub fn translate(prelude: &Prelude, sources: &Vec<Source>) -> (r: Result<Vec<u8>, Error>)
    ensures
        match spec_translate(prelude.wfs@, source_texts(prelude.sources@, sources@)) {
            Ok(text) => r matches Ok(t) && t@ == text,
            Err(e) => r matches Err(x) && x@ == e,
        },
        r matches Ok(t) ==> module_shape(t@, prelude.wfs@),
{
    let all = gather(&prelude.sources, sources);
    match parse_sources(&all, Ghost(source_texts(prelude.sources@, sources@))) {
        Err(e) => Err(e),
        Ok(files) => translate_files(prelude.wfs.as_slice(), &files),
    }
}

} // verus!
