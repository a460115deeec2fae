//! The syntax tree of a source file, the types of the language, and their
//! mathematical views.
use crate::span::Span;
use crate::text::{lit, lit_vec};
use vstd::prelude::*;

verus! {

pub const TAG_I32: i32 = 1;

pub const TAG_I64: i32 = 2;

pub const TAG_F32: i32 = 3;

pub const TAG_F64: i32 = 4;

pub const TAG_BOOL: i32 = 5;

pub const TAG_TYPE: i32 = 6;

pub const TAG_STRING: i32 = 7;

pub const TAG_LIST: i32 = 8;

pub const TAG_ID: i32 = 9;

/// The four value types of WebAssembly.
#[derive(Clone, Copy, Debug, PartialEq, Eq, Structural, Hash)]
pub enum WasmType {
    I32,
    I64,
    F32,
    F64,
}

impl WasmType {
    /// The language type that is held in this WebAssembly type as it is.
    pub fn wac(self) -> (t: Type)
        ensures
            t == self.spec_wac(),
            t.spec_wasm() == self,
            t.spec_primitive(),
    {
        match self {
            WasmType::I32 => Type::I32,
            WasmType::I64 => Type::I64,
            WasmType::F32 => Type::F32,
            WasmType::F64 => Type::F64,
        }
    }

    pub open spec fn spec_wac(self) -> Type {
        match self {
            WasmType::I32 => Type::I32,
            WasmType::I64 => Type::I64,
            WasmType::F32 => Type::F32,
            WasmType::F64 => Type::F64,
        }
    }

    /// The name of the type in WebAssembly text.
    pub open spec fn name(self) -> Seq<u8> {
        match self {
            WasmType::I32 => lit("i32"),
            WasmType::I64 => lit("i64"),
            WasmType::F32 => lit("f32"),
            WasmType::F64 => lit("f64"),
        }
    }
}

/// The types of the language. Each has a tag, which is also the number that
/// tells a boxed value's type at run time.
#[derive(Clone, Copy, Debug, PartialEq, Eq, Structural, Hash)]
pub enum Type {
    I32,
    I64,
    F32,
    F64,
    Bool,
    /// A type as a value: its tag.
    Type,
    /// A pointer to a reference-counted string: count, length, bytes.
    String,
    /// A pointer to a reference-counted list of boxed values: count, length,
    /// capacity, items.
    List,
    /// A boxed value: the payload in the low 32 bits, the tag in the high 32.
    Id,
}

impl Type {
    pub open spec fn spec_tag(self) -> i32 {
        match self {
            Type::I32 => 1,
            Type::I64 => 2,
            Type::F32 => 3,
            Type::F64 => 4,
            Type::Bool => 5,
            Type::Type => 6,
            Type::String => 7,
            Type::List => 8,
            Type::Id => 9,
        }
    }

    pub open spec fn spec_primitive(self) -> bool {
        match self {
            Type::I32 | Type::I64 | Type::F32 | Type::F64 | Type::Bool | Type::Type => true,
            Type::String | Type::List | Type::Id => false,
        }
    }

    pub open spec fn spec_wasm(self) -> WasmType {
        match self {
            Type::I32 => WasmType::I32,
            Type::I64 => WasmType::I64,
            Type::F32 => WasmType::F32,
            Type::F64 => WasmType::F64,
            Type::Bool => WasmType::I32,
            Type::Type => WasmType::I32,
            Type::String => WasmType::I32,
            Type::List => WasmType::I32,
            Type::Id => WasmType::I64,
        }
    }

    /// The name of the type in diagnostics.
    pub open spec fn name(self) -> Seq<u8> {
        match self {
            Type::I32 => lit("I32"),
            Type::I64 => lit("I64"),
            Type::F32 => lit("F32"),
            Type::F64 => lit("F64"),
            Type::Bool => lit("Bool"),
            Type::Type => lit("Type"),
            Type::String => lit("String"),
            Type::List => lit("List"),
            Type::Id => lit("Id"),
        }
    }

    /// The tag of the type: a number from 1 to 9, different for each type.
    pub fn tag(self) -> (t: i32)
        ensures
            t == self.spec_tag(),
            1 <= t <= 9,
    {
        match self {
            Type::I32 => TAG_I32,
            Type::I64 => TAG_I64,
            Type::F32 => TAG_F32,
            Type::F64 => TAG_F64,
            Type::Bool => TAG_BOOL,
            Type::Type => TAG_TYPE,
            Type::String => TAG_STRING,
            Type::List => TAG_LIST,
            Type::Id => TAG_ID,
        }
    }

    /// Whether a value of the type is a plain number, with no reference count.
    pub fn primitive(self) -> (b: bool)
        ensures
            b == self.spec_primitive(),
    {
        match self {
            Type::I32 | Type::I64 | Type::F32 | Type::F64 | Type::Bool | Type::Type => true,
            Type::String | Type::List | Type::Id => false,
        }
    }

    /// The WebAssembly type that holds a value of the type.
    pub fn wasm(self) -> (w: WasmType)
        ensures
            w == self.spec_wasm(),
    {
        match self {
            Type::I32 => WasmType::I32,
            Type::I64 => WasmType::I64,
            Type::F32 => WasmType::F32,
            Type::F64 => WasmType::F64,
            Type::Bool => WasmType::I32,
            Type::Type => WasmType::I32,
            Type::String => WasmType::I32,
            Type::List => WasmType::I32,
            Type::Id => WasmType::I64,
        }
    }

    /// The name of the type in diagnostics, as bytes.
    pub fn name_vec(self) -> (r: Vec<u8>)
        ensures
            r@ == self.name(),
    {
        match self {
            Type::I32 => lit_vec("I32"),
            Type::I64 => lit_vec("I64"),
            Type::F32 => lit_vec("F32"),
            Type::F64 => lit_vec("F64"),
            Type::Bool => lit_vec("Bool"),
            Type::Type => lit_vec("Type"),
            Type::String => lit_vec("String"),
            Type::List => lit_vec("List"),
            Type::Id => lit_vec("Id"),
        }
    }
}

/// Two types with the same tag are the same type.
pub proof fn lemma_tag_injective(a: Type, b: Type)
    requires
        a.spec_tag() == b.spec_tag(),
    ensures
        a == b,
{
}

/// What an expression or a function gives back: nothing, a value of a type,
/// or, where control never comes back, no return at all.
#[derive(Clone, Copy, Debug, PartialEq, Eq, Structural, Hash)]
pub enum ReturnType {
    Void,
    NoReturn,
    Value(Type),
}

impl ReturnType {
    /// The name of the return type in diagnostics.
    pub open spec fn name(self) -> Seq<u8> {
        match self {
            ReturnType::Void => lit("Void"),
            ReturnType::NoReturn => lit("NoReturn"),
            ReturnType::Value(t) => t.name(),
        }
    }

    /// The name of the return type in diagnostics, as bytes.
    pub fn name_vec(self) -> (r: Vec<u8>)
        ensures
            r@ == self.name(),
    {
        match self {
            ReturnType::Void => lit_vec("Void"),
            ReturnType::NoReturn => lit_vec("NoReturn"),
            ReturnType::Value(t) => t.name_vec(),
        }
    }
}

/// The value of a constant.
#[derive(Clone, Copy, Debug, PartialEq, Eq, Structural)]
pub enum ConstValue {
    I32(i32),
    Type(Type),
}

impl ConstValue {
    pub open spec fn spec_type(self) -> Type {
        match self {
            ConstValue::I32(_) => Type::I32,
            ConstValue::Type(_) => Type::Type,
        }
    }

    /// The number that stands for the constant in emitted code: the integer
    /// itself, or the tag of the type.
    pub open spec fn number(self) -> int {
        match self {
            ConstValue::I32(x) => x as int,
            ConstValue::Type(t) => t.spec_tag() as int,
        }
    }

    /// The type of the constant.
    pub fn type_(&self) -> (t: Type)
        ensures
            t == self.spec_type(),
    {
        match self {
            ConstValue::I32(_) => Type::I32,
            ConstValue::Type(_) => Type::Type,
        }
    }
}

#[derive(Clone, Copy, Debug, PartialEq, Eq, Structural)]
pub enum Visibility {
    Private,
    Public,
}

#[derive(Clone, Copy, Debug, PartialEq, Eq, Structural, Hash)]
pub enum Binop {
    Add,
    Subtract,
    Multiply,
    Divide,
    TruncDivide,
    Remainder,
    BitwiseAnd,
    BitwiseOr,
    BitwiseXor,
    ShiftLeft,
    ShiftRight,
    Is,
    IsNot,
    Equal,
    NotEqual,
    Less,
    LessOrEqual,
    Greater,
    GreaterOrEqual,
}

#[derive(Clone, Copy, Debug, PartialEq, Eq, Structural, Hash)]
pub enum Unop {
    Plus,
    Minus,
    Not,
}

/// How many bytes a load or a store moves.
#[derive(Clone, Copy, Debug, PartialEq, Eq, Structural, Hash)]
pub enum Width {
    One,
    Two,
    Four,
    Eight,
}

impl Width {
    /// The type of the value that is loaded or stored: 64 bits for eight
    /// bytes, 32 bits for fewer.
    pub open spec fn spec_value_type(self) -> Type {
        match self {
            Width::Eight => Type::I64,
            _ => Type::I32,
        }
    }

    /// The type of the value that is loaded or stored.
    pub fn value_type(self) -> (t: Type)
        ensures
            t == self.spec_value_type(),
    {
        match self {
            Width::Eight => Type::I64,
            _ => Type::I32,
        }
    }
}

/// The parameter types and the return type of a function.
#[derive(Debug, PartialEq, Eq)]
pub struct FunctionType {
    pub parameter_types: Vec<Type>,
    pub return_type: ReturnType,
}

pub struct FunctionTypeView {
    pub parameter_types: Seq<Type>,
    pub return_type: ReturnType,
}

impl FunctionType {
    pub open spec fn view(&self) -> FunctionTypeView {
        FunctionTypeView {
            parameter_types: self.parameter_types@,
            return_type: self.return_type,
        }
    }

    /// A copy of the function type.
    pub fn duplicate(&self) -> (r: FunctionType)
        ensures
            r@ == self@,
    {
        let mut parameter_types: Vec<Type> = Vec::new();
        let mut i: usize = 0;
        while i < self.parameter_types.len()
            invariant
                0 <= i <= self.parameter_types.len(),
                parameter_types@ == self.parameter_types@.subrange(0, i as int),
            decreases self.parameter_types.len() - i,
        {
            parameter_types.push(self.parameter_types[i]);
            assert(parameter_types@ =~= self.parameter_types@.subrange(0, i + 1));
            i += 1;
        }
        assert(parameter_types@ =~= self.parameter_types@);
        FunctionType { parameter_types, return_type: self.return_type }
    }
}

/// An expression. A statement is an expression whose value is dropped.
#[derive(Debug, PartialEq, Eq)]
pub enum Expr {
    Bool(Span, bool),
    Int(Span, i64),
    /// A floating-point literal, kept as it is written.
    Float(Span, Vec<u8>),
    String(Span, Vec<u8>),
    List(Span, Vec<Expr>),
    GetVar(Span, Vec<u8>),
    SetVar(Span, Vec<u8>, Box<Expr>),
    DeclVar(Span, Vec<u8>, Option<Type>, Box<Expr>),
    Block(Span, Vec<Expr>),
    FunctionCall(Span, Vec<u8>, Vec<Expr>),
    /// The conditions with their bodies, in order, and the final `else`.
    If(Span, Vec<(Expr, Expr)>, Box<Expr>),
    While(Span, Box<Expr>, Box<Expr>),
    Binop(Span, Binop, Box<Expr>, Box<Expr>),
    Unop(Span, Unop, Box<Expr>),
    AssertType(Span, Type, Box<Expr>),
    /// A zero-terminated string in the data segment; its value is the address.
    CString(Span, Vec<u8>),
    /// Inline WebAssembly text: arguments, result, code.
    Asm(Span, Vec<Expr>, ReturnType, Vec<u8>),
    /// A load from memory: width, address, offset.
    Read(Span, Width, Box<Expr>, u32),
    /// A store to memory: width, address, value, offset.
    Write(Span, Width, Box<Expr>, Box<Expr>, u32),
}

/// The mathematical view of an expression.
pub enum ExprView {
    Bool(Span, bool),
    Int(Span, i64),
    Float(Span, Seq<u8>),
    String(Span, Seq<u8>),
    List(Span, Seq<ExprView>),
    GetVar(Span, Seq<u8>),
    SetVar(Span, Seq<u8>, Box<ExprView>),
    DeclVar(Span, Seq<u8>, Option<Type>, Box<ExprView>),
    Block(Span, Seq<ExprView>),
    FunctionCall(Span, Seq<u8>, Seq<ExprView>),
    If(Span, Seq<(ExprView, ExprView)>, Box<ExprView>),
    While(Span, Box<ExprView>, Box<ExprView>),
    Binop(Span, Binop, Box<ExprView>, Box<ExprView>),
    Unop(Span, Unop, Box<ExprView>),
    AssertType(Span, Type, Box<ExprView>),
    CString(Span, Seq<u8>),
    Asm(Span, Seq<ExprView>, ReturnType, Seq<u8>),
    Read(Span, Width, Box<ExprView>, u32),
    Write(Span, Width, Box<ExprView>, Box<ExprView>, u32),
}

/// The views of a sequence of expressions.
pub open spec fn exprs_view(s: Seq<Expr>) -> Seq<ExprView>
    decreases s,
{
    Seq::new(
        s.len(),
        |i: int|
            if 0 <= i < s.len() {
                s[i].view()
            } else {
                ExprView::Bool(arbitrary(), false)
            },
    )
}

/// The views of a sequence of pairs of expressions.
pub open spec fn pairs_view(s: Seq<(Expr, Expr)>) -> Seq<(ExprView, ExprView)>
    decreases s,
{
    Seq::new(
        s.len(),
        |i: int|
            if 0 <= i < s.len() {
                (s[i].0.view(), s[i].1.view())
            } else {
                (ExprView::Bool(arbitrary(), false), ExprView::Bool(arbitrary(), false))
            },
    )
}

impl Expr {
    pub open spec fn view(&self) -> ExprView
        decreases self,
    {
        match self {
            Expr::Bool(s, b) => ExprView::Bool(*s, *b),
            Expr::Int(s, x) => ExprView::Int(*s, *x),
            Expr::Float(s, t) => ExprView::Float(*s, t@),
            Expr::String(s, t) => ExprView::String(*s, t@),
            Expr::List(s, v) => ExprView::List(*s, exprs_view(v@)),
            Expr::GetVar(s, n) => ExprView::GetVar(*s, n@),
            Expr::SetVar(s, n, e) => ExprView::SetVar(*s, n@, Box::new(e.view())),
            Expr::DeclVar(s, n, t, e) => ExprView::DeclVar(*s, n@, *t, Box::new(e.view())),
            Expr::Block(s, v) => ExprView::Block(*s, exprs_view(v@)),
            Expr::FunctionCall(s, n, v) => ExprView::FunctionCall(*s, n@, exprs_view(v@)),
            Expr::If(s, p, e) => ExprView::If(*s, pairs_view(p@), Box::new(e.view())),
            Expr::While(s, c, b) => ExprView::While(*s, Box::new(c.view()), Box::new(b.view())),
            Expr::Binop(s, op, l, r) => ExprView::Binop(
                *s,
                *op,
                Box::new(l.view()),
                Box::new(r.view()),
            ),
            Expr::Unop(s, op, e) => ExprView::Unop(*s, *op, Box::new(e.view())),
            Expr::AssertType(s, t, e) => ExprView::AssertType(*s, *t, Box::new(e.view())),
            Expr::CString(s, t) => ExprView::CString(*s, t@),
            Expr::Asm(s, v, t, c) => ExprView::Asm(*s, exprs_view(v@), *t, c@),
            Expr::Read(s, w, a, o) => ExprView::Read(*s, *w, Box::new(a.view()), *o),
            Expr::Write(s, w, a, v, o) => ExprView::Write(
                *s,
                *w,
                Box::new(a.view()),
                Box::new(v.view()),
                *o,
            ),
        }
    }

    /// The span of the expression.
    pub fn span(&self) -> (r: &Span)
        ensures
            *r == self@.span(),
    {
        match self {
            Expr::Bool(span, ..) => span,
            Expr::Int(span, ..) => span,
            Expr::Float(span, ..) => span,
            Expr::String(span, ..) => span,
            Expr::List(span, ..) => span,
            Expr::GetVar(span, ..) => span,
            Expr::SetVar(span, ..) => span,
            Expr::DeclVar(span, ..) => span,
            Expr::Block(span, ..) => span,
            Expr::FunctionCall(span, ..) => span,
            Expr::If(span, ..) => span,
            Expr::While(span, ..) => span,
            Expr::Binop(span, ..) => span,
            Expr::Unop(span, ..) => span,
            Expr::AssertType(span, ..) => span,
            Expr::CString(span, ..) => span,
            Expr::Asm(span, ..) => span,
            Expr::Read(span, ..) => span,
            Expr::Write(span, ..) => span,
        }
    }
}

/// Whether a span is a range of at least one byte of the source with the
/// handle `source`, which has `len` bytes.
pub open spec fn span_in(s: Span, source: usize, len: int) -> bool {
    s.source == source && s.start <= s.main <= s.end && s.start < s.end <= len
}

impl ExprView {
    /// Whether every node of the expression has a span that is not empty and
    /// lies in the source with the handle `source`, which has `len` bytes.
    pub open spec fn well_spanned(self, source: usize, len: int) -> bool
        decreases self,
    {
        &&& span_in(self.span(), source, len)
        &&& match self {
            ExprView::List(_, items) => forall|i: int|
                0 <= i < items.len() ==> (#[trigger] items[i]).well_spanned(source, len),
            ExprView::SetVar(_, _, e) => e.well_spanned(source, len),
            ExprView::DeclVar(_, _, _, e) => e.well_spanned(source, len),
            ExprView::Block(_, items) => forall|i: int|
                0 <= i < items.len() ==> (#[trigger] items[i]).well_spanned(source, len),
            ExprView::FunctionCall(_, _, items) => forall|i: int|
                0 <= i < items.len() ==> (#[trigger] items[i]).well_spanned(source, len),
            ExprView::If(_, pairs, other) => other.well_spanned(source, len) && forall|i: int|
                0 <= i < pairs.len() ==> (#[trigger] pairs[i]).0.well_spanned(source, len)
                    && pairs[i].1.well_spanned(source, len),
            ExprView::While(_, c, b) => c.well_spanned(source, len) && b.well_spanned(source, len),
            ExprView::Binop(_, _, l, r) => l.well_spanned(source, len) && r.well_spanned(
                source,
                len,
            ),
            ExprView::Unop(_, _, e) => e.well_spanned(source, len),
            ExprView::AssertType(_, _, e) => e.well_spanned(source, len),
            ExprView::Asm(_, items, _, _) => forall|i: int|
                0 <= i < items.len() ==> (#[trigger] items[i]).well_spanned(source, len),
            ExprView::Read(_, _, a, _) => a.well_spanned(source, len),
            ExprView::Write(_, _, a, v, _) => a.well_spanned(source, len) && v.well_spanned(
                source,
                len,
            ),
            _ => true,
        }
    }

    /// The span of the expression.
    pub open spec fn span(self) -> Span {
        match self {
            ExprView::Bool(span, ..) => span,
            ExprView::Int(span, ..) => span,
            ExprView::Float(span, ..) => span,
            ExprView::String(span, ..) => span,
            ExprView::List(span, ..) => span,
            ExprView::GetVar(span, ..) => span,
            ExprView::SetVar(span, ..) => span,
            ExprView::DeclVar(span, ..) => span,
            ExprView::Block(span, ..) => span,
            ExprView::FunctionCall(span, ..) => span,
            ExprView::If(span, ..) => span,
            ExprView::While(span, ..) => span,
            ExprView::Binop(span, ..) => span,
            ExprView::Unop(span, ..) => span,
            ExprView::AssertType(span, ..) => span,
            ExprView::CString(span, ..) => span,
            ExprView::Asm(span, ..) => span,
            ExprView::Read(span, ..) => span,
            ExprView::Write(span, ..) => span,
        }
    }
}

/// Pushing an expression pushes its view.
pub proof fn lemma_exprs_view_push(s: Seq<Expr>, e: Expr)
    ensures
        exprs_view(s.push(e)) == exprs_view(s).push(e@),
{
    assert(exprs_view(s.push(e)) =~= exprs_view(s).push(e@));
}

/// Pushing a pair of expressions pushes the pair of their views.
pub proof fn lemma_pairs_view_push(s: Seq<(Expr, Expr)>, a: Expr, b: Expr)
    ensures
        pairs_view(s.push((a, b))) == pairs_view(s).push((a@, b@)),
{
    assert(pairs_view(s.push((a, b))) =~= pairs_view(s).push((a@, b@)));
}

/// A function that the module imports from its host.
#[derive(Debug, PartialEq, Eq)]
pub struct FunctionImport {
    pub span: Span,
    pub module_name: Vec<u8>,
    pub function_name: Vec<u8>,
    pub alias: Vec<u8>,
    pub type_: FunctionType,
}

pub struct FunctionImportView {
    pub span: Span,
    pub module_name: Seq<u8>,
    pub function_name: Seq<u8>,
    pub alias: Seq<u8>,
    pub type_: FunctionTypeView,
}

impl FunctionImport {
    pub open spec fn view(&self) -> FunctionImportView {
        FunctionImportView {
            span: self.span,
            module_name: self.module_name@,
            function_name: self.function_name@,
            alias: self.alias@,
            type_: self.type_@,
        }
    }
}

#[derive(Debug, PartialEq, Eq)]
pub enum Import {
    Function(FunctionImport),
}

pub enum ImportView {
    Function(FunctionImportView),
}

impl Import {
    pub open spec fn view(&self) -> ImportView {
        match self {
            Import::Function(i) => ImportView::Function(i@),
        }
    }

    /// The span of the import.
    pub fn span(&self) -> (r: &Span)
        ensures
            *r == self@.span(),
    {
        match self {
            Import::Function(i) => &i.span,
        }
    }
}

impl ImportView {
    pub open spec fn span(self) -> Span {
        match self {
            ImportView::Function(i) => i.span,
        }
    }
}

/// A named constant.
#[derive(Debug, PartialEq, Eq)]
pub struct Constant {
    pub span: Span,
    pub name: Vec<u8>,
    pub value: ConstValue,
}

pub struct ConstantView {
    pub span: Span,
    pub name: Seq<u8>,
    pub value: ConstValue,
}

impl Constant {
    pub open spec fn view(&self) -> ConstantView {
        ConstantView { span: self.span, name: self.name@, value: self.value }
    }
}

/// A function of the source file.
#[derive(Debug, PartialEq, Eq)]
pub struct Function {
    pub span: Span,
    pub visibility: Visibility,
    pub name: Vec<u8>,
    pub parameters: Vec<(Vec<u8>, Type)>,
    pub return_type: ReturnType,
    pub body: Expr,
}

pub struct FunctionView {
    pub span: Span,
    pub visibility: Visibility,
    pub name: Seq<u8>,
    pub parameters: Seq<(Seq<u8>, Type)>,
    pub return_type: ReturnType,
    pub body: ExprView,
}

/// The views of a parameter list.
pub open spec fn params_view(s: Seq<(Vec<u8>, Type)>) -> Seq<(Seq<u8>, Type)> {
    Seq::new(s.len(), |i: int| (s[i].0@, s[i].1))
}

impl FunctionView {
    /// The type of the function: the types of its parameters, and what it
    /// returns.
    pub open spec fn type_(self) -> FunctionTypeView {
        FunctionTypeView {
            parameter_types: Seq::new(self.parameters.len(), |i: int| self.parameters[i].1),
            return_type: self.return_type,
        }
    }
}

impl Function {
    pub open spec fn view(&self) -> FunctionView {
        FunctionView {
            span: self.span,
            visibility: self.visibility,
            name: self.name@,
            parameters: params_view(self.parameters@),
            return_type: self.return_type,
            body: self.body@,
        }
    }

    /// The type of the function: the types of its parameters, and what it
    /// returns.
    pub fn type_(&self) -> (r: FunctionType)
        ensures
            r@ == self@.type_(),
    {
        let mut parameter_types: Vec<Type> = Vec::new();
        let mut i: usize = 0;
        while i < self.parameters.len()
            invariant
                0 <= i <= self.parameters.len(),
                parameter_types@.len() == i,
                forall|j: int| 0 <= j < i ==> parameter_types@[j] == self.parameters@[j].1,
            decreases self.parameters.len() - i,
        {
            parameter_types.push(self.parameters[i].1);
            i += 1;
        }
        assert(parameter_types@ =~= self@.type_().parameter_types);
        FunctionType { parameter_types, return_type: self.return_type }
    }
}

/// A global variable with the expression that initialises it.
#[derive(Debug, PartialEq, Eq)]
pub struct GlobalVariable {
    pub span: Span,
    pub visibility: Visibility,
    pub name: Vec<u8>,
    pub type_: Option<Type>,
    pub init: Expr,
}

pub struct GlobalVariableView {
    pub span: Span,
    pub visibility: Visibility,
    pub name: Seq<u8>,
    pub type_: Option<Type>,
    pub init: ExprView,
}

impl GlobalVariable {
    pub open spec fn view(&self) -> GlobalVariableView {
        GlobalVariableView {
            span: self.span,
            visibility: self.visibility,
            name: self.name@,
            type_: self.type_,
            init: self.init@,
        }
    }
}

/// The contents of one source file.
#[derive(Debug, PartialEq, Eq)]
pub struct File {
    pub imports: Vec<Import>,
    pub constants: Vec<Constant>,
    pub functions: Vec<Function>,
    pub globalvars: Vec<GlobalVariable>,
}

pub struct FileView {
    pub imports: Seq<ImportView>,
    pub constants: Seq<ConstantView>,
    pub functions: Seq<FunctionView>,
    pub globalvars: Seq<GlobalVariableView>,
}

/// The views of a sequence of imports.
pub open spec fn imports_view(s: Seq<Import>) -> Seq<ImportView> {
    Seq::new(s.len(), |i: int| s[i]@)
}

/// The views of a sequence of constants.
pub open spec fn constants_view(s: Seq<Constant>) -> Seq<ConstantView> {
    Seq::new(s.len(), |i: int| s[i]@)
}

/// The views of a sequence of functions.
pub open spec fn functions_view(s: Seq<Function>) -> Seq<FunctionView> {
    Seq::new(s.len(), |i: int| s[i]@)
}

/// The views of a sequence of global variables.
pub open spec fn globalvars_view(s: Seq<GlobalVariable>) -> Seq<GlobalVariableView> {
    Seq::new(s.len(), |i: int| s[i]@)
}

impl File {
    pub open spec fn view(&self) -> FileView {
        FileView {
            imports: imports_view(self.imports@),
            constants: constants_view(self.constants@),
            functions: functions_view(self.functions@),
            globalvars: globalvars_view(self.globalvars@),
        }
    }
}

impl FileView {
    /// Whether every node of the file has a span that is not empty and lies
    /// in the source with the handle `source`, which has `len` bytes.
    pub open spec fn well_spanned(self, source: usize, len: int) -> bool {
        &&& forall|i: int|
            0 <= i < self.imports.len() ==> span_in(
                (#[trigger] self.imports[i]).span(),
                source,
                len,
            )
        &&& forall|i: int|
            0 <= i < self.constants.len() ==> span_in(
                (#[trigger] self.constants[i]).span,
                source,
                len,
            )
        &&& forall|i: int|
            0 <= i < self.functions.len() ==> span_in(
                (#[trigger] self.functions[i]).span,
                source,
                len,
            ) && self.functions[i].body.well_spanned(source, len)
        &&& forall|i: int|
            0 <= i < self.globalvars.len() ==> span_in(
                (#[trigger] self.globalvars[i]).span,
                source,
                len,
            ) && self.globalvars[i].init.well_spanned(source, len)
    }
}

/// The views of a sequence of files.
pub open spec fn files_view(s: Seq<File>) -> Seq<FileView> {
    Seq::new(s.len(), |i: int| s[i]@)
}

} // verus!
