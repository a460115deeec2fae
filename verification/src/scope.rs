//! The names that are in scope: the global ones of the whole program, and the
//! local ones of the function that is being translated.
use crate::error::{type_error, Error, ErrorView};
use crate::ir::{ConstValue, FunctionType, FunctionTypeView, Type, WasmType};
use crate::span::Span;
use crate::text::{bytes_eq, copy_bytes, lit, lit_vec, push_bytes};
use vstd::prelude::*;

verus! {

/// What a name of a variable stands for.
#[derive(Clone, Copy, Debug, PartialEq, Eq, Structural)]
pub enum ScopeEntry {
    /// A local variable or parameter: the number it was declared with.
    Local { span: Span, id: usize, type_: Type },
    Global { span: Span, type_: Type },
    Constant { span: Span, value: ConstValue },
}

impl ScopeEntry {
    pub open spec fn spec_span(self) -> Span {
        match self {
            ScopeEntry::Local { span, .. } => span,
            ScopeEntry::Global { span, .. } => span,
            ScopeEntry::Constant { span, .. } => span,
        }
    }

    /// The type of the value that the name stands for.
    pub open spec fn spec_type(self) -> Type {
        match self {
            ScopeEntry::Local { type_, .. } => type_,
            ScopeEntry::Global { type_, .. } => type_,
            ScopeEntry::Constant { value, .. } => value.spec_type(),
        }
    }

    /// Where the name was defined.
    pub fn span(&self) -> (r: Span)
        ensures
            r == self.spec_span(),
    {
        match self {
            ScopeEntry::Local { span, .. } => *span,
            ScopeEntry::Global { span, .. } => *span,
            ScopeEntry::Constant { span, .. } => *span,
        }
    }

    /// The type of the value that the name stands for.
    pub fn type_(&self) -> (r: Type)
        ensures
            r == self.spec_type(),
    {
        match self {
            ScopeEntry::Local { type_, .. } => *type_,
            ScopeEntry::Global { type_, .. } => *type_,
            ScopeEntry::Constant { value, .. } => value.type_(),
        }
    }
}

/// A global variable or constant under its name.
pub struct VarEntry {
    pub name: Vec<u8>,
    pub entry: ScopeEntry,
}

pub struct VarEntryView {
    pub name: Seq<u8>,
    pub entry: ScopeEntry,
}

impl VarEntry {
    pub open spec fn view(&self) -> VarEntryView {
        VarEntryView { name: self.name@, entry: self.entry }
    }
}

/// A function, imported or defined, under its name.
pub struct FunctionInfo {
    pub span: Span,
    pub name: Vec<u8>,
    pub type_: FunctionType,
}

pub struct FunctionInfoView {
    pub span: Span,
    pub name: Seq<u8>,
    pub type_: FunctionTypeView,
}

impl FunctionInfo {
    pub open spec fn view(&self) -> FunctionInfoView {
        FunctionInfoView { span: self.span, name: self.name@, type_: self.type_@ }
    }
}

/// The global names: the functions, and the variables and constants. A name
/// stands for at most one function, and for at most one variable or
/// constant: a scope that is made by `new` and filled by the `decl`
/// functions is `distinct`.
pub struct GlobalScope {
    functions: Vec<FunctionInfo>,
    vars: Vec<VarEntry>,
    decls: Vec<Vec<u8>>,
}

pub struct GlobalScopeView {
    pub functions: Seq<FunctionInfoView>,
    pub vars: Seq<VarEntryView>,
    /// The names of the global variables, in the order of their declaration.
    pub decls: Seq<Seq<u8>>,
}

/// The index of the entry named `name` among the first `n` of `vars`.
pub open spec fn var_index(vars: Seq<VarEntryView>, name: Seq<u8>, n: int) -> Option<int>
    decreases n,
{
    if n <= 0 {
        None
    } else if vars[n - 1].name == name {
        Some(n - 1)
    } else {
        var_index(vars, name, n - 1)
    }
}

/// The index of the function named `name` among the first `n` of `functions`.
pub open spec fn function_index(functions: Seq<FunctionInfoView>, name: Seq<u8>, n: int) -> Option<
    int,
>
    decreases n,
{
    if n <= 0 {
        None
    } else if functions[n - 1].name == name {
        Some(n - 1)
    } else {
        function_index(functions, name, n - 1)
    }
}

/// The error for a name that is defined a second time.
pub open spec fn conflict(span1: Span, span2: Span, name: Seq<u8>) -> ErrorView {
    ErrorView::ConflictingDefinitions { span1, span2, name }
}

impl GlobalScopeView {
    pub open spec fn empty() -> GlobalScopeView {
        GlobalScopeView { functions: Seq::empty(), vars: Seq::empty(), decls: Seq::empty() }
    }

    /// Whether a name stands for at most one function, and for at most one
    /// variable or constant.
    pub open spec fn distinct(self) -> bool {
        &&& forall|i: int, j: int|
            0 <= i < j < self.functions.len() ==> (#[trigger] self.functions[i]).name != (
            #[trigger] self.functions[j]).name
        &&& forall|i: int, j: int|
            0 <= i < j < self.vars.len() ==> (#[trigger] self.vars[i]).name != (
            #[trigger] self.vars[j]).name
    }

    /// The variable or constant named `name`.
    pub open spec fn var(self, name: Seq<u8>) -> Option<ScopeEntry> {
        match var_index(self.vars, name, self.vars.len() as int) {
            Some(i) => Some(self.vars[i].entry),
            None => None,
        }
    }

    /// The function named `name`.
    pub open spec fn function(self, name: Seq<u8>) -> Option<FunctionInfoView> {
        match function_index(self.functions, name, self.functions.len() as int) {
            Some(i) => Some(self.functions[i]),
            None => None,
        }
    }

    /// The scope with `entry` under `name`, or the conflict with the earlier
    /// variable or constant of that name.
    pub open spec fn decl_var(self, name: Seq<u8>, entry: ScopeEntry) -> Result<
        GlobalScopeView,
        ErrorView,
    > {
        match self.var(name) {
            Some(e) => Err(conflict(e.spec_span(), entry.spec_span(), name)),
            None => Ok(
                GlobalScopeView {
                    vars: self.vars.push(VarEntryView { name, entry }),
                    decls: if entry is Global {
                        self.decls.push(name)
                    } else {
                        self.decls
                    },
                    ..self
                },
            ),
        }
    }

    pub open spec fn decl_const(self, span: Span, name: Seq<u8>, value: ConstValue) -> Result<
        GlobalScopeView,
        ErrorView,
    > {
        self.decl_var(name, ScopeEntry::Constant { span, value })
    }

    pub open spec fn decl_gvar(self, span: Span, name: Seq<u8>, type_: Type) -> Result<
        GlobalScopeView,
        ErrorView,
    > {
        self.decl_var(name, ScopeEntry::Global { span, type_ })
    }

    /// The scope with function `f`, or the conflict with the earlier
    /// function of its name.
    pub open spec fn decl_function(self, f: FunctionInfoView) -> Result<
        GlobalScopeView,
        ErrorView,
    > {
        match self.function(f.name) {
            Some(g) => Err(conflict(g.span, f.span, f.name)),
            None => Ok(GlobalScopeView { functions: self.functions.push(f), ..self }),
        }
    }
}

impl GlobalScope {
    pub closed spec fn view(&self) -> GlobalScopeView {
        GlobalScopeView {
            functions: Seq::new(self.functions@.len(), |i: int| self.functions@[i]@),
            vars: Seq::new(self.vars@.len(), |i: int| self.vars@[i]@),
            decls: Seq::new(self.decls@.len(), |i: int| self.decls@[i]@),
        }
    }

    /// A scope in which nothing is defined.
    pub fn new() -> (r: GlobalScope)
        ensures
            r@ == GlobalScopeView::empty(),
            r@.distinct(),
    {
        let r = GlobalScope { functions: Vec::new(), vars: Vec::new(), decls: Vec::new() };
        proof {
            assert(r@.functions =~= Seq::empty());
            assert(r@.vars =~= Seq::empty());
            assert(r@.decls =~= Seq::empty());
        }
        r
    }

    /// The variable or constant named `name`.
    pub fn var(&self, name: &[u8]) -> (r: Option<ScopeEntry>)
        ensures
            r == self@.var(name@),
    {
        let mut n: usize = self.vars.len();
        while n > 0
            invariant
                0 <= n <= self.vars.len(),
                self@.vars.len() == self.vars.len(),
                var_index(self@.vars, name@, self@.vars.len() as int) == var_index(
                    self@.vars,
                    name@,
                    n as int,
                ),
            decreases n,
        {
            assert(self@.vars[n - 1] == self.vars@[n - 1]@);
            if bytes_eq(self.vars[n - 1].name.as_slice(), name) {
                return Some(self.vars[n - 1].entry);
            }
            n -= 1;
        }
        None
    }

    /// The function named `name`.
    pub fn function(&self, name: &[u8]) -> (r: Option<&FunctionInfo>)
        ensures
            match self@.function(name@) {
                Some(f) => r matches Some(x) && x@ == f,
                None => r is None,
            },
    {
        let mut n: usize = self.functions.len();
        while n > 0
            invariant
                0 <= n <= self.functions.len(),
                self@.functions.len() == self.functions.len(),
                function_index(self@.functions, name@, self@.functions.len() as int)
                    == function_index(self@.functions, name@, n as int),
            decreases n,
        {
            assert(self@.functions[n - 1] == self.functions@[n - 1]@);
            if bytes_eq(self.functions[n - 1].name.as_slice(), name) {
                return Some(&self.functions[n - 1]);
            }
            n -= 1;
        }
        None
    }

    fn decl_var(&mut self, name: Vec<u8>, entry: ScopeEntry) -> (r: Result<(), Error>)
        ensures
            match old(self)@.decl_var(name@, entry) {
                Ok(g) => r is Ok && final(self)@ == g,
                Err(e) => r matches Err(x) && x@ == e && final(self)@ == old(self)@,
            },
            old(self)@.distinct() ==> final(self)@.distinct(),
    {
        proof {
            if self@.distinct() {
                lemma_decl_keeps_distinct(self@, name@, entry);
            }
        }
        match self.var(name.as_slice()) {
            Some(e) => Err(
                Error::ConflictingDefinitions { span1: e.span(), span2: entry.span(), name },
            ),
            None => {
                let ghost before = self@;
                match entry {
                    ScopeEntry::Global { .. } => {
                        let copy = copy_bytes(name.as_slice());
                        self.decls.push(copy);
                    },
                    _ => {},
                }
                self.vars.push(VarEntry { name, entry });
                proof {
                    let want = before.decl_var(name@, entry)->Ok_0;
                    assert(self@.vars =~= want.vars);
                    assert(self@.decls =~= want.decls);
                    assert(self@.functions =~= want.functions);
                }
                Ok(())
            },
        }
    }

    /// Defines the constant `name`. The name of an earlier variable or
    /// constant is refused, with the place of the earlier definition.
    pub fn decl_const(&mut self, span: Span, name: Vec<u8>, value: ConstValue) -> (r: Result<
        (),
        Error,
    >)
        ensures
            match old(self)@.decl_const(span, name@, value) {
                Ok(g) => r is Ok && final(self)@ == g,
                Err(e) => r matches Err(x) && x@ == e && final(self)@ == old(self)@,
            },
            old(self)@.distinct() ==> final(self)@.distinct(),
    {
        self.decl_var(name, ScopeEntry::Constant { span, value })
    }

    /// Defines the global variable `name`. The name of an earlier variable or
    /// constant is refused, with the place of the earlier definition.
    pub fn decl_gvar(&mut self, span: Span, name: Vec<u8>, type_: Type) -> (r: Result<(), Error>)
        ensures
            match old(self)@.decl_gvar(span, name@, type_) {
                Ok(g) => r is Ok && final(self)@ == g,
                Err(e) => r matches Err(x) && x@ == e && final(self)@ == old(self)@,
            },
            old(self)@.distinct() ==> final(self)@.distinct(),
    {
        self.decl_var(name, ScopeEntry::Global { span, type_ })
    }

    /// Defines a function. The name of an earlier function is refused, with
    /// the place of that function.
    pub fn decl_function(&mut self, f: FunctionInfo) -> (r: Result<(), Error>)
        ensures
            match old(self)@.decl_function(f@) {
                Ok(g) => r is Ok && final(self)@ == g,
                Err(e) => r matches Err(x) && x@ == e && final(self)@ == old(self)@,
            },
            old(self)@.distinct() ==> final(self)@.distinct(),
    {
        proof {
            if self@.distinct() {
                lemma_function_keeps_distinct(self@, f@);
            }
        }
        let earlier: Option<Span> = match self.function(f.name.as_slice()) {
            Some(g) => Some(g.span),
            None => None,
        };
        match earlier {
            Some(span1) => Err(
                Error::ConflictingDefinitions { span1, span2: f.span, name: f.name },
            ),
            None => {
                let ghost before = self@;
                self.functions.push(f);
                proof {
                    let want = before.decl_function(f@)->Ok_0;
                    assert(self@.vars =~= want.vars);
                    assert(self@.decls =~= want.decls);
                    assert(self@.functions =~= want.functions);
                }
                Ok(())
            },
        }
    }
}

/// Which of the helper locals, one for each WebAssembly type, are in use. A
/// helper local holds a value for a moment while it is copied.
#[derive(Clone, Copy, Debug, PartialEq, Eq, Structural)]
pub struct Helpers {
    pub i32_: bool,
    pub i64_: bool,
    pub f32_: bool,
    pub f64_: bool,
}

impl Helpers {
    pub open spec fn none() -> Helpers {
        Helpers { i32_: false, i64_: false, f32_: false, f64_: false }
    }

    /// The helpers with the one for `wt` in use.
    pub open spec fn with(self, wt: WasmType) -> Helpers {
        match wt {
            WasmType::I32 => Helpers { i32_: true, ..self },
            WasmType::I64 => Helpers { i64_: true, ..self },
            WasmType::F32 => Helpers { f32_: true, ..self },
            WasmType::F64 => Helpers { f64_: true, ..self },
        }
    }

    /// Whether the helper for `wt` is in use.
    pub open spec fn has(self, wt: WasmType) -> bool {
        match wt {
            WasmType::I32 => self.i32_,
            WasmType::I64 => self.i64_,
            WasmType::F32 => self.f32_,
            WasmType::F64 => self.f64_,
        }
    }
}

/// A local variable or parameter. In emitted code its name is `$l_`, the
/// number `id`, an underscore and the name it has in the source.
pub struct LocalVarInfo {
    pub span: Span,
    pub original_name: Vec<u8>,
    pub type_: Type,
    pub id: usize,
}

pub struct LocalVarView {
    pub span: Span,
    pub original_name: Seq<u8>,
    pub type_: Type,
    pub id: usize,
}

impl LocalVarInfo {
    pub open spec fn view(&self) -> LocalVarView {
        LocalVarView {
            span: self.span,
            original_name: self.original_name@,
            type_: self.type_,
            id: self.id,
        }
    }
}

/// The names of one function: a stack of blocks with the locals that each
/// declared, every local ever declared, the labels of the loops around the
/// place that is being translated, and the helper locals in use.
pub struct LocalScope<'a> {
    g: &'a GlobalScope,
    frames: Vec<Vec<usize>>,
    nlabels: u32,
    continue_labels: Vec<u32>,
    break_labels: Vec<u32>,
    decls: Vec<LocalVarInfo>,
    helpers: Helpers,
}

pub struct LocalScopeView {
    /// The open blocks, outermost first, each with the numbers of the locals
    /// declared in it, oldest first.
    pub frames: Seq<Seq<usize>>,
    pub nlabels: u32,
    pub continue_labels: Seq<u32>,
    pub break_labels: Seq<u32>,
    /// Every local declared so far; local `i` stands at index `i`.
    pub decls: Seq<LocalVarView>,
    pub helpers: Helpers,
}

/// The newest local named `name` among the first `n` of `frame`.
pub open spec fn frame_find(decls: Seq<LocalVarView>, frame: Seq<usize>, name: Seq<u8>, n: int)
    -> Option<usize>
    decreases n,
{
    if n <= 0 {
        None
    } else if decls[frame[n - 1] as int].original_name == name {
        Some(frame[n - 1])
    } else {
        frame_find(decls, frame, name, n - 1)
    }
}

/// The local named `name` in the innermost of the first `m` blocks that
/// declares one.
pub open spec fn frames_find(
    decls: Seq<LocalVarView>,
    frames: Seq<Seq<usize>>,
    name: Seq<u8>,
    m: int,
) -> Option<usize>
    decreases m,
{
    if m <= 0 {
        None
    } else {
        match frame_find(decls, frames[m - 1], name, frames[m - 1].len() as int) {
            Some(id) => Some(id),
            None => frames_find(decls, frames, name, m - 1),
        }
    }
}

/// The error for a variable that is not in scope.
pub open spec fn no_variable(span: Span, name: Seq<u8>) -> ErrorView {
    type_error(span, lit("Variable ") + name, lit("NotFound"))
}

/// The error for a function that is not defined.
pub open spec fn no_function(span: Span, name: Seq<u8>) -> ErrorView {
    type_error(span, lit("Function ") + name, lit("NotFound"))
}

impl LocalScopeView {
    /// The scope at the start of a function: one open block, nothing declared.
    pub open spec fn fresh() -> LocalScopeView {
        LocalScopeView {
            frames: seq![Seq::empty()],
            nlabels: 0,
            continue_labels: Seq::empty(),
            break_labels: Seq::empty(),
            decls: Seq::empty(),
            helpers: Helpers::none(),
        }
    }

    /// A block is open, and the blocks hold numbers of declared locals, each
    /// of which stands at its own index.
    pub open spec fn wf(self) -> bool {
        &&& self.frames.len() >= 1
        &&& forall|i: int, j: int|
            0 <= i < self.frames.len() && 0 <= j < self.frames[i].len() ==> (
            #[trigger] self.frames[i][j]) < self.decls.len()
        &&& forall|i: int| 0 <= i < self.decls.len() ==> (#[trigger] self.decls[i]).id == i
    }

    pub open spec fn push(self) -> LocalScopeView {
        LocalScopeView { frames: self.frames.push(Seq::empty()), ..self }
    }

    pub open spec fn pop(self) -> LocalScopeView {
        LocalScopeView { frames: self.frames.drop_last(), ..self }
    }

    /// The number that the next local will get.
    pub open spec fn next_id(self) -> usize {
        self.decls.len() as usize
    }

    /// The scope with a new local in the innermost block.
    pub open spec fn decl(self, span: Span, name: Seq<u8>, type_: Type) -> LocalScopeView {
        LocalScopeView {
            frames: self.frames.update(
                self.frames.len() - 1,
                self.frames.last().push(self.next_id()),
            ),
            decls: self.decls.push(
                LocalVarView { span, original_name: name, type_, id: self.next_id() },
            ),
            ..self
        }
    }

    /// The local that `name` stands for: the newest one of the innermost
    /// block that declares the name.
    pub open spec fn local(self, name: Seq<u8>) -> Option<usize> {
        frames_find(self.decls, self.frames, name, self.frames.len() as int)
    }

    /// What `name` stands for: a local, or else a global variable or constant.
    pub open spec fn get(self, g: GlobalScopeView, name: Seq<u8>) -> Option<ScopeEntry> {
        match self.local(name) {
            Some(id) => Some(
                ScopeEntry::Local {
                    span: self.decls[id as int].span,
                    id,
                    type_: self.decls[id as int].type_,
                },
            ),
            None => g.var(name),
        }
    }

    pub open spec fn get_or_err(self, g: GlobalScopeView, span: Span, name: Seq<u8>) -> Result<
        ScopeEntry,
        ErrorView,
    > {
        match self.get(g, name) {
            Some(e) => Ok(e),
            None => Err(no_variable(span, name)),
        }
    }

    /// The scope after a label was taken; the label is `self.nlabels`.
    pub open spec fn bump_label(self) -> LocalScopeView {
        LocalScopeView { nlabels: (self.nlabels + 1) as u32, ..self }
    }

    /// The scope with the helper local for `wt` in use.
    pub open spec fn helper(self, wt: WasmType) -> LocalScopeView {
        LocalScopeView { helpers: self.helpers.with(wt), ..self }
    }

    /// The scope inside a loop with the given labels.
    pub open spec fn enter_loop(self, break_label: u32, continue_label: u32) -> LocalScopeView {
        LocalScopeView {
            break_labels: self.break_labels.push(break_label),
            continue_labels: self.continue_labels.push(continue_label),
            ..self
        }
    }

    /// The scope with every block closed and a new outermost block open,
    /// outside every loop: what was declared stays declared, and its names
    /// are out of scope.
    pub open spec fn restart(self) -> LocalScopeView {
        LocalScopeView {
            frames: seq![Seq::empty()],
            continue_labels: Seq::empty(),
            break_labels: Seq::empty(),
            ..self
        }
    }

    /// The scope after the innermost loop.
    pub open spec fn leave_loop(self) -> LocalScopeView {
        LocalScopeView {
            break_labels: if self.break_labels.len() > 0 {
                self.break_labels.drop_last()
            } else {
                self.break_labels
            },
            continue_labels: if self.continue_labels.len() > 0 {
                self.continue_labels.drop_last()
            } else {
                self.continue_labels
            },
            ..self
        }
    }
}

/// What a function has declared, kept between the expressions that are
/// translated one by one into it: every local, the helper locals in use,
/// and the number of labels taken.
pub struct Locals {
    decls: Vec<LocalVarInfo>,
    helpers: Helpers,
    nlabels: u32,
}

impl Locals {
    /// The scope that goes on from here: one open block, nothing in scope.
    pub closed spec fn view(&self) -> LocalScopeView {
        LocalScopeView {
            frames: seq![Seq::empty()],
            nlabels: self.nlabels,
            continue_labels: Seq::empty(),
            break_labels: Seq::empty(),
            decls: Seq::new(self.decls@.len(), |i: int| self.decls@[i]@),
            helpers: self.helpers,
        }
    }

    /// Nothing declared.
    pub fn new() -> (r: Locals)
        ensures
            r@ == LocalScopeView::fresh(),
            r@.wf(),
    {
        let r = Locals {
            decls: Vec::new(),
            helpers: Helpers { i32_: false, i64_: false, f32_: false, f64_: false },
            nlabels: 0,
        };
        assert(r@.decls =~= LocalScopeView::fresh().decls);
        r
    }
}

impl<'a> LocalScope<'a> {
    pub closed spec fn view(&self) -> LocalScopeView {
        LocalScopeView {
            frames: Seq::new(self.frames@.len(), |i: int| self.frames@[i]@),
            nlabels: self.nlabels,
            continue_labels: self.continue_labels@,
            break_labels: self.break_labels@,
            decls: Seq::new(self.decls@.len(), |i: int| self.decls@[i]@),
            helpers: self.helpers,
        }
    }

    /// The global scope behind this one.
    pub closed spec fn global(&self) -> GlobalScopeView {
        self.g@
    }

    pub open spec fn wf(&self) -> bool {
        self@.wf()
    }

    /// The scope at the start of a function.
    pub fn new(g: &'a GlobalScope) -> (r: LocalScope<'a>)
        ensures
            r@ == LocalScopeView::fresh(),
            r.global() == g@,
            r.wf(),
    {
        let mut frames: Vec<Vec<usize>> = Vec::new();
        frames.push(Vec::new());
        let r = LocalScope {
            g,
            frames,
            nlabels: 0,
            continue_labels: Vec::new(),
            break_labels: Vec::new(),
            decls: Vec::new(),
            helpers: Helpers { i32_: false, i64_: false, f32_: false, f64_: false },
        };
        proof {
            assert(r@.frames =~~= LocalScopeView::fresh().frames);
            assert(r@.decls =~= LocalScopeView::fresh().decls);
        }
        r
    }

    /// The scope that goes on from what was declared before, under the
    /// global names `g`.
    pub fn resume(g: &'a GlobalScope, locals: Locals) -> (r: LocalScope<'a>)
        requires
            locals@.wf(),
        ensures
            r@ == locals@,
            r.global() == g@,
            r.wf(),
    {
        let mut frames: Vec<Vec<usize>> = Vec::new();
        frames.push(Vec::new());
        let r = LocalScope {
            g,
            frames,
            nlabels: locals.nlabels,
            continue_labels: Vec::new(),
            break_labels: Vec::new(),
            decls: locals.decls,
            helpers: locals.helpers,
        };
        proof {
            assert(r@.frames =~~= locals@.frames);
            assert(r@.decls =~= locals@.decls);
        }
        r
    }

    /// Leaves the scope and keeps what was declared in it.
    pub fn suspend(self) -> (r: Locals)
        ensures
            r@ == self@.restart(),
            self.wf() ==> r@.wf(),
    {
        let r = Locals { decls: self.decls, helpers: self.helpers, nlabels: self.nlabels };
        proof {
            assert(r@.decls =~= self@.decls);
        }
        r
    }

    /// Marks the helper local for `wt` as in use.
    pub fn helper(&mut self, wt: WasmType)
        ensures
            final(self)@ == old(self)@.helper(wt),
            final(self).global() == old(self).global(),
            old(self).wf() ==> final(self).wf(),
    {
        match wt {
            WasmType::I32 => {
                self.helpers.i32_ = true;
            },
            WasmType::I64 => {
                self.helpers.i64_ = true;
            },
            WasmType::F32 => {
                self.helpers.f32_ = true;
            },
            WasmType::F64 => {
                self.helpers.f64_ = true;
            },
        }
    }

    /// The helper locals in use.
    pub fn helpers(&self) -> (r: Helpers)
        ensures
            r == self@.helpers,
    {
        self.helpers
    }

    /// Opens a block.
    pub fn push(&mut self)
        ensures
            final(self)@ == old(self)@.push(),
            final(self).global() == old(self).global(),
            old(self).wf() ==> final(self).wf(),
    {
        self.frames.push(Vec::new());
        assert(self@.frames =~~= old(self)@.push().frames);
        proof {
            if old(self).wf() {
                lemma_push_wf(old(self)@);
            }
        }
    }

    /// Closes the innermost block: the names declared in it go out of scope.
    pub fn pop(&mut self)
        requires
            old(self)@.frames.len() >= 1,
        ensures
            final(self)@ == old(self)@.pop(),
            final(self).global() == old(self).global(),
            old(self).wf() && old(self)@.frames.len() >= 2 ==> final(self).wf(),
    {
        self.frames.pop();
        assert(self@.frames =~~= old(self)@.pop().frames);
        proof {
            if old(self).wf() && old(self)@.frames.len() >= 2 {
                lemma_pop_wf(old(self)@);
            }
        }
    }

    /// Declares a local in the innermost block and returns its number.
    pub fn decl(&mut self, span: Span, original_name: &[u8], type_: Type) -> (id: usize)
        requires
            old(self)@.frames.len() >= 1,
        ensures
            id == old(self)@.next_id(),
            id == old(self)@.decls.len(),
            final(self)@ == old(self)@.decl(span, original_name@, type_),
            final(self).global() == old(self).global(),
            old(self).wf() ==> final(self).wf(),
    {
        let id: usize = self.decls.len();
        let ghost before = self@;
        self.decls.push(LocalVarInfo { span, original_name: copy_bytes(original_name), type_, id });
        let last: usize = self.frames.len() - 1;
        self.frames[last].push(id);
        proof {
            let want = before.decl(span, original_name@, type_);
            assert(self@.decls =~= want.decls);
            assert(self@.frames =~~= want.frames);
            if before.wf() {
                lemma_decl_wf(before, span, original_name@, type_);
            }
        }
        id
    }

    /// The number of locals declared so far.
    pub fn ndecls(&self) -> (n: usize)
        ensures
            n == self@.decls.len(),
    {
        self.decls.len()
    }

    /// Local number `i`.
    pub fn local_info(&self, i: usize) -> (r: &LocalVarInfo)
        requires
            i < self@.decls.len(),
        ensures
            r@ == self@.decls[i as int],
    {
        &self.decls[i]
    }

    fn find_local(&self, name: &[u8]) -> (r: Option<usize>)
        requires
            self.wf(),
        ensures
            r == self@.local(name@),
            r matches Some(id) ==> id < self@.decls.len(),
    {
        let ghost v = self@;
        let mut m: usize = self.frames.len();
        while m > 0
            invariant
                self.wf(),
                v == self@,
                0 <= m <= self.frames.len(),
                v.frames.len() == self.frames.len(),
                frames_find(v.decls, v.frames, name@, v.frames.len() as int) == frames_find(
                    v.decls,
                    v.frames,
                    name@,
                    m as int,
                ),
            decreases m,
        {
            let frame = &self.frames[m - 1];
            assert(v.frames[m - 1] == frame@);
            let mut n: usize = frame.len();
            while n > 0
                invariant
                    self.wf(),
                    v == self@,
                    0 < m <= self.frames.len(),
                    v.frames.len() == self.frames.len(),
                    v.frames[m - 1] == frame@,
                    0 <= n <= frame.len(),
                    frames_find(v.decls, v.frames, name@, v.frames.len() as int) == frames_find(
                        v.decls,
                        v.frames,
                        name@,
                        m as int,
                    ),
                    frame_find(v.decls, frame@, name@, frame@.len() as int) == frame_find(
                        v.decls,
                        frame@,
                        name@,
                        n as int,
                    ),
                decreases n,
            {
                let id: usize = frame[n - 1];
                assert(v.frames[m - 1][n - 1] == id);
                assert(id < v.decls.len());
                assert(v.decls[id as int] == self.decls@[id as int]@);
                if bytes_eq(self.decls[id].original_name.as_slice(), name) {
                    return Some(id);
                }
                n -= 1;
            }
            m -= 1;
        }
        None
    }

    /// What `name` stands for here: the newest local of the innermost block
    /// that declares it, or else the global variable or constant.
    pub fn get(&self, name: &[u8]) -> (r: Option<ScopeEntry>)
        requires
            self.wf(),
        ensures
            r == self@.get(self.global(), name@),
    {
        match self.find_local(name) {
            Some(id) => {
                assert(self@.decls[id as int] == self.decls@[id as int]@);
                Some(
                    ScopeEntry::Local {
                        span: self.decls[id].span,
                        id,
                        type_: self.decls[id].type_,
                    },
                )
            },
            None => self.g.var(name),
        }
    }

    /// What `name` stands for, or the error that no such variable is in scope.
    pub fn get_or_err(&self, span: Span, name: &[u8]) -> (r: Result<ScopeEntry, Error>)
        requires
            self.wf(),
        ensures
            match self@.get_or_err(self.global(), span, name@) {
                Ok(e) => r == Ok::<ScopeEntry, Error>(e),
                Err(e) => r matches Err(x) && x@ == e,
            },
    {
        match self.get(name) {
            Some(e) => Ok(e),
            None => {
                let mut expected = lit_vec("Variable ");
                push_bytes(&mut expected, name);
                Err(Error::Type { span, expected, got: lit_vec("NotFound") })
            },
        }
    }

    /// The function named `name`.
    pub fn getf(&self, name: &[u8]) -> (r: Option<&'a FunctionType>)
        ensures
            match self.global().function(name@) {
                Some(f) => r matches Some(x) && x@ == f.type_,
                None => r is None,
            },
    {
        match self.g.function(name) {
            Some(f) => Some(&f.type_),
            None => None,
        }
    }

    /// The function named `name`, or the error that no such function is
    /// defined.
    pub fn getf_or_err(&self, span: Span, name: &[u8]) -> (r: Result<&'a FunctionType, Error>)
        ensures
            match self.global().function(name@) {
                Some(f) => r matches Ok(x) && x@ == f.type_,
                None => r matches Err(x) && x@ == no_function(span, name@),
            },
    {
        match self.getf(name) {
            Some(f) => Ok(f),
            None => {
                let mut expected = lit_vec("Function ");
                push_bytes(&mut expected, name);
                Err(Error::Type { span, expected, got: lit_vec("NotFound") })
            },
        }
    }

    /// Takes the next label number, where one is left.
    pub fn new_label_id(&mut self) -> (r: Option<u32>)
        ensures
            final(self).global() == old(self).global(),
            old(self).wf() ==> final(self).wf(),
            old(self)@.nlabels < u32::MAX ==> r == Some(old(self)@.nlabels) && final(self)@ == old(
                self,
            )@.bump_label(),
            old(self)@.nlabels == u32::MAX ==> r is None && final(self)@ == old(self)@,
    {
        if self.nlabels < u32::MAX {
            let id: u32 = self.nlabels;
            self.nlabels = self.nlabels + 1;
            Some(id)
        } else {
            None
        }
    }

    /// Enters a loop with the given labels.
    pub fn enter_loop(&mut self, break_label: u32, continue_label: u32)
        ensures
            final(self)@ == old(self)@.enter_loop(break_label, continue_label),
            final(self).global() == old(self).global(),
            old(self).wf() ==> final(self).wf(),
    {
        self.break_labels.push(break_label);
        self.continue_labels.push(continue_label);
    }

    /// Leaves the innermost loop, if there is one.
    pub fn leave_loop(&mut self)
        ensures
            final(self)@ == old(self)@.leave_loop(),
            final(self).global() == old(self).global(),
            old(self).wf() ==> final(self).wf(),
    {
        self.break_labels.pop();
        self.continue_labels.pop();
        proof {
            assert(self@.break_labels =~= old(self)@.leave_loop().break_labels);
            assert(self@.continue_labels =~= old(self)@.leave_loop().continue_labels);
        }
    }
}

/// Opening a block keeps a scope well formed.
pub proof fn lemma_push_wf(l: LocalScopeView)
    requires
        l.wf(),
    ensures
        l.push().wf(),
{
    let m = l.push();
    assert forall|i: int, j: int|
        0 <= i < m.frames.len() && 0 <= j < m.frames[i].len() implies (#[trigger] m.frames[i][j])
        < m.decls.len() by {
        assert(m.frames[i][j] == l.frames[i][j]);
    }
}

/// Closing a block, while another stays open, keeps a scope well formed.
pub proof fn lemma_pop_wf(l: LocalScopeView)
    requires
        l.wf(),
        l.frames.len() >= 2,
    ensures
        l.pop().wf(),
{
    let m = l.pop();
    assert forall|i: int, j: int|
        0 <= i < m.frames.len() && 0 <= j < m.frames[i].len() implies (#[trigger] m.frames[i][j])
        < m.decls.len() by {
        assert(m.frames[i][j] == l.frames[i][j]);
    }
}

/// Declaring a local keeps a scope well formed, as long as the number of
/// locals fits the machine.
pub proof fn lemma_decl_wf(l: LocalScopeView, span: Span, name: Seq<u8>, type_: Type)
    requires
        l.wf(),
        l.decls.len() <= usize::MAX,
    ensures
        l.decl(span, name, type_).wf(),
{
    let m = l.decl(span, name, type_);
    assert forall|i: int, j: int|
        0 <= i < m.frames.len() && 0 <= j < m.frames[i].len() implies (#[trigger] m.frames[i][j])
        < m.decls.len() by {
        if i == l.frames.len() - 1 && j == l.frames[i].len() {
        } else {
            assert(m.frames[i][j] == l.frames[i][j]);
        }
    }
    assert forall|i: int| 0 <= i < m.decls.len() implies (#[trigger] m.decls[i]).id == i by {
        if i < l.decls.len() {
            assert(m.decls[i] == l.decls[i]);
        }
    }
}

/// A name that is not found among variables and constants stands for none.
pub proof fn lemma_var_index_none(vars: Seq<VarEntryView>, name: Seq<u8>, n: int)
    requires
        0 <= n <= vars.len(),
        var_index(vars, name, n) is None,
    ensures
        forall|i: int| 0 <= i < n ==> (#[trigger] vars[i]).name != name,
    decreases n,
{
    if n > 0 {
        lemma_var_index_none(vars, name, n - 1);
    }
}

/// A name that is not found among the functions stands for none.
pub proof fn lemma_function_index_none(functions: Seq<FunctionInfoView>, name: Seq<u8>, n: int)
    requires
        0 <= n <= functions.len(),
        function_index(functions, name, n) is None,
    ensures
        forall|i: int| 0 <= i < n ==> (#[trigger] functions[i]).name != name,
    decreases n,
{
    if n > 0 {
        lemma_function_index_none(functions, name, n - 1);
    }
}

/// Defining a variable or a constant keeps the names distinct: a name that
/// is taken is refused.
pub proof fn lemma_decl_keeps_distinct(g: GlobalScopeView, name: Seq<u8>, entry: ScopeEntry)
    requires
        g.distinct(),
    ensures
        g.decl_var(name, entry) matches Ok(g1) ==> g1.distinct(),
{
    if var_index(g.vars, name, g.vars.len() as int) is None {
        lemma_var_index_none(g.vars, name, g.vars.len() as int);
    }
}

/// Defining a function keeps the names distinct: a name that is taken is
/// refused.
pub proof fn lemma_function_keeps_distinct(g: GlobalScopeView, f: FunctionInfoView)
    requires
        g.distinct(),
    ensures
        g.decl_function(f) matches Ok(g1) ==> g1.distinct(),
{
    if function_index(g.functions, f.name, g.functions.len() as int) is None {
        lemma_function_index_none(g.functions, f.name, g.functions.len() as int);
    }
}

} // verus!
