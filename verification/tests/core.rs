use wac::diag::format_diagnostic;
use wac::ir::{ConstValue, Expr, FunctionType, ReturnType, Type, WasmType};
use wac::out::{Out, SINK_DATA, SINK_EXPORTS, SINK_FUNCS, SINK_GVARS, SINK_IMPORTS, SINK_MAIN, SINK_MEMORY, SINK_START};
use wac::scope::{FunctionInfo, GlobalScope, LocalScope, ScopeEntry};
use wac::sink::SinkTree;
use wac::text::{bytes_eq, dec_int_vec, dec_vec, eq_lit, hex_vec, le_vec, push_quoted};
use wac::tr::expr::translate_expr;
use wac::tr::cast::{auto_cast, cast_to_id, common_type, explicit_cast};
use wac::tr::retain::{raw_dup, release, release_var, retain, DropPolicy, Scope};
use wac::Error;
use wac::ParseError;
use wac::Span;

fn sp(start: usize, end: usize) -> Span {
    Span { source: 0, main: start, start, end }
}

fn text(out: Out) -> String {
    String::from_utf8(out.get()).unwrap()
}

fn empty_module() -> String {
    text(Out::new(b""))
}

#[test]
fn spans_join_to_their_union() {
    let a = Span { source: 1, main: 12, start: 10, end: 20 };
    let b = Span { source: 1, main: 5, start: 5, end: 15 };
    let c = Span { source: 1, main: 30, start: 30, end: 31 };
    assert_eq!(a.join(&b), Span { source: 1, main: 12, start: 5, end: 20 });
    assert_eq!(b.join(&a), Span { source: 1, main: 5, start: 5, end: 20 });
    assert_eq!(a.join(&c), Span { source: 1, main: 12, start: 10, end: 31 });
    assert_eq!(a.join(&a), a);
    for (x, y) in [(a, b), (b, a), (a, c), (c, b), (c, c)] {
        let j = x.join(&y);
        assert_eq!(j.start, x.start.min(y.start));
        assert_eq!(j.end, x.end.max(y.end));
        assert!(j.end >= j.start);
        assert!(j.start <= j.main && j.main <= j.end);
    }
}

#[test]
fn spans_reach_up_to_the_end_of_another() {
    let a = Span { source: 1, main: 12, start: 10, end: 20 };
    let b = Span { source: 1, main: 25, start: 25, end: 40 };
    let c = Span { source: 1, main: 2, start: 2, end: 3 };
    assert_eq!(a.upto(&b), Span { source: 1, main: 12, start: 10, end: 40 });
    assert_eq!(a.upto(&c), a);
    assert_eq!(a.upto(&a), a);
    assert_eq!(Span::new(3, 4, 9), Span { source: 3, main: 4, start: 4, end: 9 });
}

#[test]
fn types_have_their_tags_and_wasm_types() {
    let all = [
        (Type::I32, 1, true, WasmType::I32, "I32"),
        (Type::I64, 2, true, WasmType::I64, "I64"),
        (Type::F32, 3, true, WasmType::F32, "F32"),
        (Type::F64, 4, true, WasmType::F64, "F64"),
        (Type::Bool, 5, true, WasmType::I32, "Bool"),
        (Type::Type, 6, true, WasmType::I32, "Type"),
        (Type::String, 7, false, WasmType::I32, "String"),
        (Type::List, 8, false, WasmType::I32, "List"),
        (Type::Id, 9, false, WasmType::I64, "Id"),
    ];
    for (t, tag, primitive, wasm, name) in all {
        assert_eq!(t.tag(), tag);
        assert_eq!(t.primitive(), primitive);
        assert_eq!(t.wasm(), wasm);
        assert_eq!(t.name_vec(), name.as_bytes().to_vec());
    }
    assert_eq!(wac::ir::TAG_I32, 1);
    assert_eq!(wac::ir::TAG_ID, 9);
    for w in [WasmType::I32, WasmType::I64, WasmType::F32, WasmType::F64] {
        assert_eq!(w.wac().wasm(), w);
        assert!(w.wac().primitive());
    }
    assert_eq!(ConstValue::I32(5).type_(), Type::I32);
    assert_eq!(ConstValue::Type(Type::List).type_(), Type::Type);
    assert_eq!(ReturnType::Void.name_vec(), b"Void".to_vec());
    assert_eq!(ReturnType::NoReturn.name_vec(), b"NoReturn".to_vec());
    assert_eq!(ReturnType::Value(Type::Id).name_vec(), b"Id".to_vec());
    assert_eq!(wac::ir::Width::Eight.value_type(), Type::I64);
    assert_eq!(wac::ir::Width::One.value_type(), Type::I32);
}

#[test]
fn numbers_in_text() {
    assert_eq!(dec_vec(0), b"0".to_vec());
    assert_eq!(dec_vec(9), b"9".to_vec());
    assert_eq!(dec_vec(10), b"10".to_vec());
    assert_eq!(dec_vec(65536), b"65536".to_vec());
    assert_eq!(dec_vec(u64::MAX), b"18446744073709551615".to_vec());
    assert_eq!(dec_int_vec(0), b"0".to_vec());
    assert_eq!(dec_int_vec(-1), b"-1".to_vec());
    assert_eq!(dec_int_vec(i64::MAX), b"9223372036854775807".to_vec());
    assert_eq!(dec_int_vec(i64::MIN), b"-9223372036854775808".to_vec());
    assert_eq!(hex_vec(0), b"00".to_vec());
    assert_eq!(hex_vec(0x0a), b"0A".to_vec());
    assert_eq!(hex_vec(0xf9), b"F9".to_vec());
    assert_eq!(hex_vec(0xff), b"FF".to_vec());
    assert_eq!(le_vec(1), vec![1, 0, 0, 0]);
    assert_eq!(le_vec(0x12345678), vec![0x78, 0x56, 0x34, 0x12]);
    assert_eq!(le_vec(u32::MAX), vec![255, 255, 255, 255]);
    assert!(bytes_eq(b"abc", b"abc"));
    assert!(!bytes_eq(b"abc", b"abd"));
    assert!(!bytes_eq(b"abc", b"ab"));
    assert!(bytes_eq(b"", b""));
    assert!(eq_lit(b"fn", "fn"));
    assert!(!eq_lit(b"fn", "f"));
}

#[test]
fn a_sink_reads_its_children_where_they_were_made() {
    let mut tree = SinkTree::new();
    assert_eq!(tree.len(), 1);
    tree.write(0, b"a");
    let first = tree.spawn(0);
    tree.write(0, b"b");
    let second = tree.spawn(0);
    let third = tree.spawn(0);
    tree.writeln(0, b"c");
    assert_eq!((first, second, third), (1, 2, 3));
    assert_eq!(tree.get(), b"abc\n".to_vec());
    tree.write(third, b"3");
    tree.write(first, b"1");
    tree.write(second, b"2");
    tree.write(first, b"1");
    assert_eq!(tree.get(), b"a11b23c\n".to_vec());
    let inner = tree.spawn(first);
    tree.write(first, b"x");
    tree.write(inner, b"<>");
    tree.write(0, b"d");
    assert_eq!(tree.get(), b"a11<>xb23c\nd".to_vec());
    let mut out = Vec::new();
    tree.read_into(first, &mut out);
    assert_eq!(out, b"11<>x".to_vec());
    tree.read_into(inner, &mut out);
    assert_eq!(out, b"11<>x<>".to_vec());
    assert_eq!(tree.len(), 5);
}

#[test]
fn the_module_has_its_parts_in_order() {
    let mut out = Out::new(b"W");
    for (sink, name) in [
        (SINK_EXPORTS, "exports"),
        (SINK_START, "start"),
        (SINK_FUNCS, "funcs"),
        (SINK_GVARS, "gvars"),
        (SINK_DATA, "data"),
        (SINK_MEMORY, "memory"),
        (SINK_IMPORTS, "imports"),
    ] {
        out.write_lit(sink, "<");
        out.write(sink, name.as_bytes());
        out.writeln_lit(sink, ">");
    }
    out.write_lit(SINK_MAIN, "end");
    assert_eq!(
        text(out),
        "W<imports>\n<memory>\n(memory $rt_mem 1)\n<data>\n<gvars>\n(global $rt_heap_start i32 (i32.const 2048))\n<funcs>\n(func $__rt_start\n<start>\n)\n(start $__rt_start)\n<exports>\nend"
    );
}

#[test]
fn interning_twice_gives_the_same_pointer() {
    let mut out = Out::new(b"");
    let a = out.intern_str(b"hello").unwrap();
    let b = out.intern_str(b"world!").unwrap();
    let a2 = out.intern_str(b"hello").unwrap();
    let c = out.intern_cstr(b"hello").unwrap();
    let c2 = out.intern_cstr(b"hello").unwrap();
    let d = out.intern_cstr(b"").unwrap();
    let e = out.intern_str(b"").unwrap();
    assert_eq!((a, b, a2, c, c2, d, e), (2048, 2064, 2048, 2080, 2080, 2096, 2112));
    assert_eq!(out.data_len(), 2128);
    let wat = text(out);
    assert!(wat.contains(
        "(data (i32.const 2048) \"\\01\\00\\00\\00\\05\\00\\00\\00\\68\\65\\6C\\6C\\6F\")\n\
(data (i32.const 2064) \"\\01\\00\\00\\00\\06\\00\\00\\00\\77\\6F\\72\\6C\\64\\21\")\n\
(data (i32.const 2080) \"\\68\\65\\6C\\6C\\6F\\00\")\n\
(data (i32.const 2096) \"\\00\")\n\
(data (i32.const 2112) \"\\01\\00\\00\\00\\00\\00\\00\\00\")\n"
    ));
}

#[test]
fn data_is_aligned_to_sixteen_bytes() {
    let mut out = Out::new(b"");
    assert_eq!(out.data(b""), Some(2048));
    assert_eq!(out.data_len(), 2048);
    assert_eq!(out.data(&[1]), Some(2048));
    assert_eq!(out.data(&[0; 16]), Some(2064));
    assert_eq!(out.data(&[0; 17]), Some(2080));
    assert_eq!(out.data_len(), 2112);
    assert_eq!(out.data_len() % 16, 0);
}

#[test]
fn a_cast_to_the_same_type_emits_nothing() {
    let g = GlobalScope::new();
    for t in [
        ReturnType::Void,
        ReturnType::NoReturn,
        ReturnType::Value(Type::I32),
        ReturnType::Value(Type::I64),
        ReturnType::Value(Type::F32),
        ReturnType::Value(Type::F64),
        ReturnType::Value(Type::Bool),
        ReturnType::Value(Type::Type),
        ReturnType::Value(Type::String),
        ReturnType::Value(Type::List),
        ReturnType::Value(Type::Id),
    ] {
        let mut out = Out::new(b"");
        let mut l = LocalScope::new(&g);
        let sink = out.spawn(SINK_FUNCS);
        assert_eq!(auto_cast(&mut out, sink, sp(0, 0), &mut l, t, t), Ok(()));
        assert_eq!(explicit_cast(&mut out, sink, sp(0, 0), &mut l, t, t), Ok(()));
        assert_eq!(l.helpers(), wac::scope::Helpers { i32_: false, i64_: false, f32_: false, f64_: false });
        assert_eq!(text(out), empty_module());
    }
}

fn cast(src: ReturnType, dst: ReturnType, explicit: bool) -> Result<String, Error> {
    let g = GlobalScope::new();
    let mut out = Out::new(b"");
    let mut l = LocalScope::new(&g);
    let sink = out.spawn(SINK_FUNCS);
    let r = if explicit {
        explicit_cast(&mut out, sink, sp(3, 4), &mut l, src, dst)
    } else {
        auto_cast(&mut out, sink, sp(3, 4), &mut l, src, dst)
    };
    r.map(|()| {
        let mut code = Vec::new();
        out.write(SINK_MAIN, b"");
        let all = text(out);
        let start = all.find("(i32.const 2048))\n").unwrap() + 18;
        code.extend_from_slice(all[start..all.find("(func $__rt_start").unwrap()].as_bytes());
        String::from_utf8(code).unwrap()
    })
}

fn mismatch(expected: &str, got: &str) -> Error {
    Error::Type { span: sp(3, 4), expected: expected.as_bytes().to_vec(), got: got.as_bytes().to_vec() }
}

#[test]
fn implicit_and_explicit_conversions() {
    let value = ReturnType::Value;
    assert_eq!(cast(value(Type::I32), value(Type::F32), false), Ok("f32.convert_i32_s\n".to_string()));
    assert_eq!(cast(value(Type::F32), value(Type::I32), false), Err(mismatch("I32", "F32")));
    assert_eq!(cast(value(Type::F32), value(Type::I32), true), Ok("i32.trunc_f32_s\n".to_string()));
    assert_eq!(cast(value(Type::I32), value(Type::F32), true), Ok("f32.convert_i32_s\n".to_string()));
    assert_eq!(cast(value(Type::I32), ReturnType::Void, false), Ok("drop\n".to_string()));
    assert_eq!(cast(value(Type::F64), ReturnType::Void, true), Ok("drop\n".to_string()));
    assert_eq!(cast(value(Type::String), ReturnType::Void, false), Ok("call $f___WAC_str_release\n".to_string()));
    assert_eq!(cast(value(Type::List), ReturnType::Void, false), Ok("call $f___WAC_list_release\n".to_string()));
    assert_eq!(cast(value(Type::Id), ReturnType::Void, false), Ok("call $f___WAC_id_release\n".to_string()));
    assert_eq!(cast(ReturnType::Void, value(Type::I32), false), Err(mismatch("I32", "Void")));
    assert_eq!(cast(ReturnType::Void, ReturnType::NoReturn, false), Err(mismatch("NoReturn", "Void")));
    assert_eq!(cast(value(Type::Bool), ReturnType::NoReturn, false), Err(mismatch("NoReturn", "Bool")));
    assert_eq!(cast(ReturnType::NoReturn, ReturnType::Void, false), Ok("unreachable\n".to_string()));
    assert_eq!(cast(ReturnType::NoReturn, value(Type::Id), false), Ok("unreachable\n".to_string()));
    assert_eq!(
        cast(value(Type::Type), value(Type::Id), false),
        Ok("i64.extend_i32_u\ni64.const 6\ni64.const 32\ni64.shl\ni64.or\n".to_string())
    );
    assert_eq!(cast(value(Type::F64), value(Type::Id), false), Err(mismatch("Id", "F64")));
    assert_eq!(cast(value(Type::Id), value(Type::Type), false), Err(mismatch("Type", "Id")));
    assert_eq!(cast(value(Type::Bool), value(Type::I32), false), Err(mismatch("I32", "Bool")));
    assert_eq!(cast(value(Type::I64), value(Type::I32), true), Err(mismatch("I32", "I64")));
}

#[test]
fn the_common_type_of_two_types() {
    for t in [Type::I32, Type::F64, Type::String, Type::Id, Type::Bool] {
        assert_eq!(common_type(sp(3, 4), t, t), Ok(t));
    }
    assert_eq!(common_type(sp(3, 4), Type::I32, Type::F32), Ok(Type::F32));
    assert_eq!(common_type(sp(3, 4), Type::F32, Type::I32), Ok(Type::F32));
    assert_eq!(common_type(sp(3, 4), Type::I32, Type::I64), Err(mismatch("I32", "I64")));
    assert_eq!(common_type(sp(3, 4), Type::F64, Type::F32), Err(mismatch("F64", "F32")));
    assert_eq!(common_type(sp(3, 4), Type::Id, Type::String), Err(mismatch("Id", "String")));
}

fn emitted(f: impl FnOnce(&mut Out, usize, &mut LocalScope)) -> (String, wac::scope::Helpers) {
    let g = GlobalScope::new();
    let mut out = Out::new(b"");
    let mut l = LocalScope::new(&g);
    let sink = out.spawn(SINK_EXPORTS);
    f(&mut out, sink, &mut l);
    let helpers = l.helpers();
    let all = text(out);
    let start = all.find("(start $__rt_start)\n").unwrap() + 20;
    (all[start..].to_string(), helpers)
}

#[test]
fn retain_and_release() {
    let none = wac::scope::Helpers { i32_: false, i64_: false, f32_: false, f64_: false };
    let i32_ = wac::scope::Helpers { i32_: true, ..none };
    let i64_ = wac::scope::Helpers { i64_: true, ..none };
    let dup32 = "local.tee $rt_tmp_dup_i32\nlocal.get $rt_tmp_dup_i32\n";
    let dup64 = "local.tee $rt_tmp_dup_i64\nlocal.get $rt_tmp_dup_i64\n";
    assert_eq!(emitted(|o, s, l| retain(l, o, s, Type::I32, DropPolicy::Keep)), (String::new(), none));
    assert_eq!(emitted(|o, s, l| retain(l, o, s, Type::F64, DropPolicy::Drop)), ("drop\n".to_string(), none));
    assert_eq!(emitted(|o, s, l| release(l, o, s, Type::Type, DropPolicy::Keep)), (String::new(), none));
    assert_eq!(emitted(|o, s, l| release(l, o, s, Type::Bool, DropPolicy::Drop)), ("drop\n".to_string(), none));
    assert_eq!(
        emitted(|o, s, l| retain(l, o, s, Type::String, DropPolicy::Keep)),
        (format!("{}call $f___WAC_str_retain\n", dup32), i32_)
    );
    assert_eq!(
        emitted(|o, s, l| retain(l, o, s, Type::List, DropPolicy::Drop)),
        ("call $f___WAC_list_retain\n".to_string(), none)
    );
    assert_eq!(
        emitted(|o, s, l| retain(l, o, s, Type::Id, DropPolicy::Keep)),
        (format!("{}call $f___WAC_id_retain\n", dup64), i64_)
    );
    assert_eq!(
        emitted(|o, s, l| release(l, o, s, Type::List, DropPolicy::Keep)),
        (format!("{}call $f___WAC_list_release\n", dup32), i32_)
    );
    assert_eq!(
        emitted(|o, s, l| release(l, o, s, Type::Id, DropPolicy::Drop)),
        ("call $f___WAC_id_release\n".to_string(), none)
    );
    assert_eq!(
        emitted(|o, s, l| raw_dup(l, o, s, WasmType::F32)),
        ("local.tee $rt_tmp_dup_f32\nlocal.get $rt_tmp_dup_f32\n".to_string(), wac::scope::Helpers { f32_: true, ..none })
    );
    assert_eq!(emitted(|o, s, _| release_var(o, s, Scope::Local, 3, b"x", Type::I64)), (String::new(), none));
    assert_eq!(
        emitted(|o, s, _| release_var(o, s, Scope::Local, 3, b"x", Type::String)),
        ("local.get $l_3_x\ncall $f___WAC_str_release\n".to_string(), none)
    );
    assert_eq!(
        emitted(|o, s, _| release_var(o, s, Scope::Global, 3, b"x", Type::Id)),
        ("global.get $g_x\ncall $f___WAC_id_release\n".to_string(), none)
    );
    assert_eq!(
        emitted(|o, s, _| cast_to_id(o, s, -7)),
        ("i64.extend_i32_u\ni64.const -7\ni64.const 32\ni64.shl\ni64.or\n".to_string(), none)
    );
}

#[test]
fn scopes_find_the_innermost_and_newest_name() {
    let mut g = GlobalScope::new();
    assert_eq!(g.decl_gvar(sp(1, 2), b"x".to_vec(), Type::I32), Ok(()));
    assert_eq!(g.decl_const(sp(3, 4), b"k".to_vec(), ConstValue::I32(7)), Ok(()));
    assert_eq!(
        g.decl_const(sp(5, 6), b"x".to_vec(), ConstValue::I32(7)),
        Err(Error::ConflictingDefinitions { span1: sp(1, 2), span2: sp(5, 6), name: b"x".to_vec() })
    );
    assert_eq!(
        g.decl_gvar(sp(5, 6), b"k".to_vec(), Type::F32),
        Err(Error::ConflictingDefinitions { span1: sp(3, 4), span2: sp(5, 6), name: b"k".to_vec() })
    );
    let f = |name: &[u8], start: usize| FunctionInfo {
        span: sp(start, start + 1),
        name: name.to_vec(),
        type_: wac::ir::FunctionType { parameter_types: vec![Type::I32], return_type: ReturnType::Void },
    };
    assert_eq!(g.decl_function(f(b"f", 10)), Ok(()));
    assert_eq!(g.decl_function(f(b"x", 12)), Ok(()));
    assert_eq!(
        g.decl_function(f(b"f", 14)),
        Err(Error::ConflictingDefinitions { span1: sp(10, 11), span2: sp(14, 15), name: b"f".to_vec() })
    );
    assert_eq!(g.var(b"x"), Some(ScopeEntry::Global { span: sp(1, 2), type_: Type::I32 }));
    assert_eq!(g.var(b"f"), None);
    assert_eq!(g.function(b"f").unwrap().span, sp(10, 11));
    assert!(g.function(b"k").is_none());

    let mut l = LocalScope::new(&g);
    assert_eq!(l.get(b"x"), Some(ScopeEntry::Global { span: sp(1, 2), type_: Type::I32 }));
    assert_eq!(l.get(b"k"), Some(ScopeEntry::Constant { span: sp(3, 4), value: ConstValue::I32(7) }));
    assert_eq!(l.get(b"k").unwrap().type_(), Type::I32);
    assert_eq!(l.get(b"k").unwrap().span(), sp(3, 4));
    assert_eq!(l.get(b"y"), None);
    assert_eq!(l.decl(sp(20, 21), b"x", Type::F32), 0);
    assert_eq!(l.get(b"x"), Some(ScopeEntry::Local { span: sp(20, 21), id: 0, type_: Type::F32 }));
    l.push();
    assert_eq!(l.decl(sp(22, 23), b"y", Type::String), 1);
    assert_eq!(l.decl(sp(24, 25), b"x", Type::List), 2);
    assert_eq!(l.decl(sp(26, 27), b"x", Type::Id), 3);
    assert_eq!(l.get(b"x"), Some(ScopeEntry::Local { span: sp(26, 27), id: 3, type_: Type::Id }));
    assert_eq!(l.get(b"y"), Some(ScopeEntry::Local { span: sp(22, 23), id: 1, type_: Type::String }));
    l.pop();
    assert_eq!(l.get(b"x"), Some(ScopeEntry::Local { span: sp(20, 21), id: 0, type_: Type::F32 }));
    assert_eq!(l.get(b"y"), None);
    assert_eq!(l.ndecls(), 4);
    assert_eq!(l.local_info(2).original_name, b"x".to_vec());
    assert_eq!(l.local_info(2).type_, Type::List);
    assert_eq!(l.get_or_err(sp(9, 9), b"x"), Ok(ScopeEntry::Local { span: sp(20, 21), id: 0, type_: Type::F32 }));
    assert_eq!(
        l.get_or_err(sp(9, 9), b"zz"),
        Err(Error::Type { span: sp(9, 9), expected: b"Variable zz".to_vec(), got: b"NotFound".to_vec() })
    );
    assert_eq!(l.getf(b"f").unwrap().parameter_types, vec![Type::I32]);
    assert!(l.getf(b"k").is_none());
    assert_eq!(
        l.getf_or_err(sp(9, 9), b"gg").err(),
        Some(Error::Type { span: sp(9, 9), expected: b"Function gg".to_vec(), got: b"NotFound".to_vec() })
    );
    assert_eq!(l.new_label_id(), Some(0));
    assert_eq!(l.new_label_id(), Some(1));
    assert_eq!(l.new_label_id(), Some(2));
    l.helper(WasmType::I64);
    l.helper(WasmType::I64);
    assert_eq!(l.helpers(), wac::scope::Helpers { i32_: false, i64_: true, f32_: false, f64_: false });
}

#[test]
fn diagnostics_show_the_place() {
    let data = b"fn f() i32 {\n  1.0 + x\n}\n";
    assert_eq!(
        String::from_utf8(format_diagnostic(b"main.wac", data, Span { source: 0, main: 15, start: 15, end: 18 }, b"Expected I32, but got Float")).unwrap(),
        "main.wac:2:3: Expected I32, but got Float\n  1.0 + x\n  ^^^\n"
    );
    assert_eq!(
        String::from_utf8(format_diagnostic(b"a", data, Span { source: 0, main: 0, start: 0, end: 2 }, b"m")).unwrap(),
        "a:1:1: m\nfn f() i32 {\n^^\n"
    );
    assert_eq!(
        String::from_utf8(format_diagnostic(b"a", data, Span { source: 0, main: 21, start: 21, end: 25 }, b"m")).unwrap(),
        "a:2:9: m\n  1.0 + x\n        ^\n"
    );
    assert_eq!(
        String::from_utf8(format_diagnostic(b"a", data, Span { source: 0, main: 25, start: 25, end: 25 }, b"m")).unwrap(),
        "a:4:1: m\n\n^\n"
    );
    assert_eq!(
        String::from_utf8(format_diagnostic(b"a", data, Span { source: 0, main: 99, start: 99, end: 100 }, b"m")).unwrap(),
        "a:4:1: m\n\n^\n"
    );
    assert_eq!(
        String::from_utf8(format_diagnostic(b"", b"", Span { source: 0, main: 0, start: 0, end: 0 }, b"")).unwrap(),
        ":1:1: \n\n^\n"
    );
}

#[test]
fn errors_say_what_was_expected() {
    let data = b"var x = )";
    let e = wac::parse_source(0, data).unwrap_err();
    assert_eq!(e.span(), sp(8, 9));
    assert_eq!(
        String::from_utf8(e.format(b"t.wac", data)).unwrap(),
        "t.wac:1:9: Expected Expression, but got RParen\nvar x = )\n        ^\n"
    );
    let p = ParseError::InvalidEscape(sp(4, 8), b'q');
    assert_eq!(p.span(), sp(4, 8));
    assert_eq!(p.message(), b"Invalid escape char q".to_vec());
    assert_eq!(
        String::from_utf8(p.format(b"f", b"x = \"\\q\"")).unwrap(),
        "f:1:5: Invalid escape char q\nx = \"\\q\"\n    ^^^^\n"
    );
    let p = ParseError::NoSuchIntrinsic(sp(0, 1), b"frob".to_vec());
    assert_eq!(p.message(), b"No such intrinsic: frob".to_vec());
    let e = Error::ConflictingDefinitions { span1: sp(0, 1), span2: sp(4, 5), name: b"f".to_vec() };
    assert_eq!(e.span(), sp(4, 5));
    assert_eq!(e.message(), b"Conflicting definitions of f".to_vec());
    let e = Error::Lex(wac::LexError { span: sp(2, 3), message: b"unrecognized character".to_vec() });
    assert_eq!(
        String::from_utf8(e.format(b"f", b"a @")).unwrap(),
        "f:1:3: unrecognized character\na @\n  ^\n"
    );
    let e = Error::Type { span: sp(0, 1), expected: b"I32".to_vec(), got: b"Float".to_vec() };
    assert_eq!(e.message(), b"Expected I32, but got Float".to_vec());
}

fn refused(g: &GlobalScope, etype: ReturnType, e: Expr) -> Error {
    let mut out = Out::new(b"");
    let mut l = LocalScope::new(g);
    let sink = out.spawn(SINK_FUNCS);
    let r = translate_expr(&mut out, sink, &mut l, etype, &e);
    assert_eq!(l.ndecls(), 0);
    assert_eq!(l.helpers(), wac::scope::Helpers { i32_: false, i64_: false, f32_: false, f64_: false });
    assert_eq!(text(out), empty_module());
    r.unwrap_err()
}

#[test]
fn what_is_refused_at_once_writes_nothing() {
    let mut g = GlobalScope::new();
    assert_eq!(g.decl_const(sp(0, 1), b"K".to_vec(), ConstValue::I32(1)), Ok(()));
    let f = FunctionInfo {
        span: sp(0, 1),
        name: b"f".to_vec(),
        type_: FunctionType { parameter_types: vec![Type::I32], return_type: ReturnType::Void },
    };
    assert_eq!(g.decl_function(f), Ok(()));
    let i32_ = ReturnType::Value(Type::I32);
    assert_eq!(
        refused(&g, i32_, Expr::Block(sp(1, 3), vec![])),
        Error::Type { span: sp(1, 3), expected: b"I32".to_vec(), got: b"Void".to_vec() }
    );
    assert_eq!(
        refused(&g, ReturnType::Void, Expr::SetVar(sp(1, 2), b"K".to_vec(), Box::new(Expr::Int(sp(3, 4), 2)))),
        Error::Type { span: sp(1, 2), expected: b"variable".to_vec(), got: b"constant".to_vec() }
    );
    assert_eq!(
        refused(&g, ReturnType::Void, Expr::FunctionCall(sp(1, 6), b"foo".to_vec(), vec![])),
        Error::Type { span: sp(1, 6), expected: b"Function foo".to_vec(), got: b"NotFound".to_vec() }
    );
    assert_eq!(
        refused(&g, ReturnType::Void, Expr::FunctionCall(sp(1, 4), b"f".to_vec(), vec![])),
        Error::Type { span: sp(1, 4), expected: b"1 args".to_vec(), got: b"0 args".to_vec() }
    );
    assert_eq!(
        refused(&g, i32_, Expr::GetVar(sp(1, 2), b"y".to_vec())),
        Error::Type { span: sp(1, 2), expected: b"Variable y".to_vec(), got: b"NotFound".to_vec() }
    );
    assert_eq!(
        refused(&g, i32_, Expr::Float(sp(1, 4), b"1.0".to_vec())),
        Error::Type { span: sp(1, 4), expected: b"I32".to_vec(), got: b"Float".to_vec() }
    );
    assert_eq!(
        refused(&g, ReturnType::Value(Type::String), Expr::Bool(sp(1, 5), true)),
        Error::Type { span: sp(1, 5), expected: b"String".to_vec(), got: b"Bool".to_vec() }
    );
}

#[test]
fn a_cast_that_fails_writes_nothing() {
    let g = GlobalScope::new();
    let i32_ = ReturnType::Value(Type::I32);
    let f32_ = ReturnType::Value(Type::F32);
    for (src, dst, explicit) in [
        (ReturnType::Void, i32_, false),
        (ReturnType::Void, i32_, true),
        (f32_, i32_, false),
        (ReturnType::Value(Type::I64), ReturnType::Value(Type::Id), true),
        (i32_, ReturnType::NoReturn, false),
    ] {
        let mut out = Out::new(b"");
        let mut l = LocalScope::new(&g);
        let sink = out.spawn(SINK_FUNCS);
        let r = if explicit {
            explicit_cast(&mut out, sink, sp(0, 1), &mut l, src, dst)
        } else {
            auto_cast(&mut out, sink, sp(0, 1), &mut l, src, dst)
        };
        assert!(r.is_err());
        assert_eq!(l.helpers(), wac::scope::Helpers { i32_: false, i64_: false, f32_: false, f64_: false });
        assert_eq!(text(out), empty_module());
    }
}

#[test]
fn text_in_quotes() {
    let mut buf = b">".to_vec();
    push_quoted(&mut buf, b"a\"b\\c\n\r\t\0\x01\x1f\x7f'\xc3\xa9 z");
    assert_eq!(
        buf,
        b">\"a\\\"b\\\\c\\n\\r\\t\\0\\u{1}\\u{1f}\\u{7f}'\xc3\xa9 z\"".to_vec()
    );
    assert_eq!(String::from_utf8(buf).unwrap()[1..], format!("{:?}", "a\"b\\c\n\r\t\0\u{1}\u{1f}\u{7f}'\u{e9} z"));
}

#[test]
fn names_stay_distinct_and_literals_stay_interned_once() {
    let mut g = GlobalScope::new();
    assert_eq!(g.decl_gvar(sp(1, 2), b"x".to_vec(), Type::I32), Ok(()));
    assert!(g.decl_gvar(sp(3, 4), b"x".to_vec(), Type::I64).is_err());
    assert!(g.decl_const(sp(3, 4), b"x".to_vec(), ConstValue::I32(1)).is_err());
    assert_eq!(g.var(b"x"), Some(ScopeEntry::Global { span: sp(1, 2), type_: Type::I32 }));
    let mut out = Out::new(b"");
    let a = out.intern_str(b"a");
    let b = out.intern_str(b"b");
    assert_ne!(a, b);
    let len = out.data_len();
    assert_eq!(out.intern_str(b"a"), a);
    assert_eq!(out.intern_str(b"b"), b);
    assert_eq!(out.data_len(), len);
}
