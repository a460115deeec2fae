use wac::ir::{Binop, Expr, File, Function, ReturnType, Type, Visibility};
use wac::translate;
use wac::translate_files;
use wac::Error;
use wac::Prelude;
use wac::Source;
use wac::Span;

const TAGS: &str = "(global $rt_tag_i32  i32 (i32.const 1))\n\
(global $rt_tag_i64  i32 (i32.const 2))\n\
(global $rt_tag_f32  i32 (i32.const 3))\n\
(global $rt_tag_f64  i32 (i32.const 4))\n\
(global $rt_tag_bool i32 (i32.const 5))\n\
(global $rt_tag_type i32 (i32.const 6))\n\
(global $rt_tag_str  i32 (i32.const 7))\n\
(global $rt_tag_list i32 (i32.const 8))\n\
(global $rt_tag_id   i32 (i32.const 9))\n";

struct Parts<'a> {
    imports: &'a str,
    data: &'a str,
    gvars: &'a str,
    funcs: &'a str,
    start: &'a str,
    exports: &'a str,
    data_len: usize,
}

fn module(p: Parts) -> String {
    format!(
        "{}(memory $rt_mem {})\n{}{}{}(global $rt_heap_start i32 (i32.const {}))\n{}(func $__rt_start\n{})\n(start $__rt_start)\n{}",
        p.imports,
        (p.data_len + 65535) / 65536,
        p.data,
        TAGS,
        p.gvars,
        p.data_len,
        p.funcs,
        p.start,
        p.exports
    )
}

fn plain(funcs: &str) -> String {
    module(Parts { imports: "", data: "", gvars: "", funcs, start: "", exports: "", data_len: 2048 })
}

fn compile(text: &str) -> Result<String, Error> {
    let prelude = Prelude { wfs: Vec::new(), sources: Vec::new() };
    let sources = vec![Source { name: b"main.wac".to_vec(), data: text.as_bytes().to_vec() }];
    translate(&prelude, &sources).map(|bytes| String::from_utf8(bytes).unwrap())
}

fn type_error(text: &str) -> (Span, String, String) {
    match compile(text) {
        Err(Error::Type { span, expected, got }) => {
            (span, String::from_utf8(expected).unwrap(), String::from_utf8(got).unwrap())
        },
        other => panic!("{:?}", other),
    }
}

fn sp(start: usize, end: usize) -> Span {
    Span { source: 0, main: start, start, end }
}

#[test]
fn identity_function() {
    let wat = compile("fn [pub] id(x i32) i32 { x }").unwrap();
    assert_eq!(
        wat,
        module(Parts {
            imports: "",
            data: "",
            gvars: "",
            funcs: "(func $f_id\n (param $l_0_x i32)\n (result i32)\nlocal.get $l_0_x\n)\n",
            start: "",
            exports: "(export \"f_id\" (func $f_id))\n",
            data_len: 2048,
        })
    );
}

#[test]
fn global_init_order() {
    let wat = compile("var a i32 = 1\nvar b i32 = a + 2\nfn [pub] main() i32 { b }").unwrap();
    assert_eq!(
        wat,
        module(Parts {
            imports: "",
            data: "",
            gvars: "(global $g_a (mut i32) (i32.const 0))\n(global $g_b (mut i32) (i32.const 0))\n",
            funcs: "(func $f_main\n (result i32)\nglobal.get $g_b\n)\n",
            start: "(i32.const 1)\nglobal.set $g_a\nglobal.get $g_a\n(i32.const 2)\ni32.add\nglobal.set $g_b\n",
            exports: "(export \"f_main\" (func $f_main))\n",
            data_len: 2048,
        })
    );
}

#[test]
fn a_global_cannot_use_a_later_global() {
    let (span, expected, got) = type_error("var b i32 = a + 2\nvar a i32 = 1");
    assert_eq!(span, sp(12, 13));
    assert_eq!(expected, "Variable a");
    assert_eq!(got, "NotFound");
}

#[test]
fn short_circuit() {
    let wat = compile("fn die() noreturn { die() }\nfn [pub] main() bool { false and die() }")
        .unwrap();
    assert_eq!(
        wat,
        module(Parts {
            imports: "",
            data: "",
            gvars: "",
            funcs: "(func $f_die\ncall $f_die\n)\n(func $f_main\n (result i32)\n(i32.const 0)\nif\n (result i32)\ncall $f_die\nunreachable\nelse\n(i32.const 0)\nend\n)\n",
            start: "",
            exports: "(export \"f_main\" (func $f_main))\n",
            data_len: 2048,
        })
    );
}

#[test]
fn or_takes_the_right_operand_only_in_the_else_branch() {
    let wat = compile("fn t() bool { true }\nfn f(a bool) bool { a or t() }").unwrap();
    assert_eq!(
        wat,
        plain(
            "(func $f_t\n (result i32)\n(i32.const 1)\n)\n(func $f_f\n (param $l_0_a i32)\n (result i32)\nlocal.get $l_0_a\nif\n (result i32)\n(i32.const 1)\nelse\ncall $f_t\nend\n)\n"
        )
    );
}

#[test]
fn string_literal_refcount() {
    let wat = compile("fn [pub] main() str { \"hi\" }").unwrap();
    assert_eq!(
        wat,
        module(Parts {
            imports: "",
            data: "(data (i32.const 2048) \"\\01\\00\\00\\00\\02\\00\\00\\00\\68\\69\")\n",
            gvars: "",
            funcs: "(func $f_main\n (result i32)\n(local $rt_tmp_dup_i32 i32)\n(i32.const 2048)\nlocal.tee $rt_tmp_dup_i32\nlocal.get $rt_tmp_dup_i32\ncall $f___WAC_str_retain\n)\n",
            start: "",
            exports: "(export \"f_main\" (func $f_main))\n",
            data_len: 2064,
        })
    );
}

#[test]
fn list_boxing() {
    let wat = compile("fn [pub] main() list { [1, 2.5, true] }").unwrap();
    let item = |value: &str, tag: u32| {
        format!(
            "local.tee $rt_tmp_dup_i32\nlocal.get $rt_tmp_dup_i32\n{}i64.extend_i32_u\ni64.const {}\ni64.const 32\ni64.shl\ni64.or\ncall $f___list_push_raw_no_retain\n",
            value, tag
        )
    };
    let funcs = format!(
        "(func $f_main\n (result i32)\n(local $rt_tmp_dup_i32 i32)\ncall $f___new_list\n{}{}{})\n",
        item("(i32.const 1)\n", 1),
        item("(f32.const 2.5)\ni32.reinterpret_f32\n", 3),
        item("(i32.const 1)\n", 5)
    );
    assert_eq!(
        wat,
        module(Parts {
            imports: "",
            data: "",
            gvars: "",
            funcs: &funcs,
            start: "",
            exports: "(export \"f_main\" (func $f_main))\n",
            data_len: 2048,
        })
    );
}

#[test]
fn type_error_for_a_float_where_an_i32_is_taken() {
    let (span, expected, got) = type_error("fn f() i32 { 1.0 }");
    assert_eq!(span, sp(13, 16));
    assert_eq!(expected, "I32");
    assert_eq!(got, "Float");
}

#[test]
fn literals_go_only_where_their_kind_is_taken() {
    assert_eq!(type_error("fn f() bool { 1 }"), (sp(14, 15), "Bool".into(), "Int".into()));
    assert_eq!(type_error("fn f() str { 1 }"), (sp(13, 14), "String".into(), "Int".into()));
    assert_eq!(type_error("fn f() i32 { true }"), (sp(13, 17), "I32".into(), "Bool".into()));
    assert_eq!(type_error("fn f() i64 { 2.5 }"), (sp(13, 16), "I64".into(), "Float".into()));
    assert_eq!(type_error("fn f() i32 { \"s\" }"), (sp(13, 16), "I32".into(), "String".into()));
    assert_eq!(type_error("fn f() noreturn { 1 }"), (sp(18, 19), "NoReturn".into(), "Int".into()));
    assert_eq!(type_error("fn f() str { $cstr(\"a\") }"), (sp(13, 25), "String".into(), "i32 (cstr)".into()));
}

#[test]
fn integer_literals_take_the_number_type_of_their_place() {
    let wat = compile("fn a() i32 { 7 }\nfn b() i64 { 7 }\nfn c() f32 { 7 }\nfn d() f64 { 7 }\nfn e() f64 { 7.5e3 }\nfn g() id { 7 }\nfn h() { 7; 2.5; true; \"s\" }").unwrap();
    assert_eq!(
        wat,
        plain(
            "(func $f_a\n (result i32)\n(i32.const 7)\n)\n\
(func $f_b\n (result i64)\n(i64.const 7)\n)\n\
(func $f_c\n (result f32)\n(f32.const 7)\n)\n\
(func $f_d\n (result f64)\n(f64.const 7)\n)\n\
(func $f_e\n (result f64)\n(f64.const 7.5e3)\n)\n\
(func $f_g\n (result i64)\n(i32.const 7)\ni64.extend_i32_u\ni64.const 1\ni64.const 32\ni64.shl\ni64.or\n)\n\
(func $f_h\n)\n"
        )
    );
}

#[test]
fn empty_block_in_value_position() {
    let (span, expected, got) = type_error("fn f() i32 { }");
    assert_eq!(span, sp(11, 14));
    assert_eq!(expected, "I32");
    assert_eq!(got, "Void");
    let (_, expected, got) = type_error("fn f() { var x str = { } }");
    assert_eq!(expected, "String");
    assert_eq!(got, "Void");
    assert!(compile("fn f() { }").is_ok());
    assert!(compile("fn f() { { } }").is_ok());
}

#[test]
fn setting_a_constant() {
    let (span, expected, got) = type_error("const K = 1\nfn f() { K = 2 }");
    assert_eq!(span, sp(23, 24));
    assert_eq!(expected, "variable");
    assert_eq!(got, "constant");
    let (_, expected, got) = type_error("fn f() { i32 = 2 }");
    assert_eq!(expected, "variable");
    assert_eq!(got, "constant");
}

#[test]
fn an_assignment_gives_no_value() {
    let (span, expected, got) = type_error("fn f(a i32) i32 { a = 2 }");
    assert_eq!(span, sp(20, 21));
    assert_eq!(expected, "I32");
    assert_eq!(got, "Void (setvar)");
    let (_, expected, got) = type_error("fn f() i32 { var a = 2 }");
    assert_eq!(expected, "I32");
    assert_eq!(got, "Void (declvar)");
    let (_, expected, got) = type_error("const K = 1\nfn f() i32 { K = 2 }");
    assert_eq!(expected, "I32");
    assert_eq!(got, "Void (setvar)");
}

#[test]
fn calling_an_unknown_function() {
    let (span, expected, got) = type_error("fn f() { g(1, 2) }");
    assert_eq!(span, sp(10, 18));
    assert_eq!(expected, "Function g");
    assert_eq!(got, "NotFound");
    let (_, expected, got) = type_error("var g i32 = 1\nfn f() { g() }");
    assert_eq!(expected, "Function g");
    assert_eq!(got, "NotFound");
}

#[test]
fn reading_an_unknown_variable() {
    let (span, expected, got) = type_error("fn f() i32 { x }");
    assert_eq!(span, sp(13, 14));
    assert_eq!(expected, "Variable x");
    assert_eq!(got, "NotFound");
    let (_, expected, _) = type_error("fn f() { x }");
    assert_eq!(expected, "Variable x");
    let (_, expected, _) = type_error("fn f() { { var x = 1 }; x }");
    assert_eq!(expected, "Variable x");
    let (_, expected, _) = type_error("fn g() { }\nfn f() i32 { g }");
    assert_eq!(expected, "Variable g");
}

#[test]
fn calls_check_the_number_of_arguments() {
    let (span, expected, got) = type_error("fn g(a i32, b i32) { }\nfn f() { g(1) }");
    assert_eq!(span, sp(33, 38));
    assert_eq!(expected, "2 args");
    assert_eq!(got, "1 args");
    let (_, expected, got) = type_error("fn g() { }\nfn f() { g(1, 2, 3) }");
    assert_eq!(expected, "0 args");
    assert_eq!(got, "3 args");
}

#[test]
fn functions_are_known_before_they_are_defined() {
    let wat = compile("fn f() i32 { g(1) }\nfn g(a i32) i32 { a }").unwrap();
    assert_eq!(
        wat,
        plain(
            "(func $f_f\n (result i32)\n(i32.const 1)\ncall $f_g\n)\n(func $f_g\n (param $l_0_a i32)\n (result i32)\nlocal.get $l_0_a\n)\n"
        )
    );
}

#[test]
fn a_call_whose_value_nothing_takes_is_dropped_or_released() {
    let wat = compile("fn a() i32 { 1 }\nfn b() str { \"\" }\nfn c() { }\nfn f() { a(); b(); c() }").unwrap();
    assert!(wat.contains("(func $f_f\ncall $f_a\ndrop\ncall $f_b\ncall $f___WAC_str_release\ncall $f_c\n)\n"));
}

#[test]
fn conflicting_definitions() {
    match compile("fn f() { }\nfn f() { }") {
        Err(Error::ConflictingDefinitions { span1, span2, name }) => {
            assert_eq!(name, b"f".to_vec());
            assert_eq!(span1.start, 0);
            assert_eq!(span2.start, 11);
        },
        other => panic!("{:?}", other),
    }
    match compile("var a = 1\nconst a = 2") {
        Err(Error::ConflictingDefinitions { span1, span2, name }) => {
            assert_eq!(name, b"a".to_vec());
            assert_eq!(span1.start, 10);
            assert_eq!(span2.start, 0);
        },
        other => panic!("{:?}", other),
    }
    match compile("var x = 1\nvar x = 2") {
        Err(Error::ConflictingDefinitions { span1, span2, name }) => {
            assert_eq!(name, b"x".to_vec());
            assert_eq!(span1, sp(0, 3));
            assert_eq!(span2, sp(10, 13));
        },
        other => panic!("{:?}", other),
    }
    match compile("const str = 2") {
        Err(Error::ConflictingDefinitions { span1, name, .. }) => {
            assert_eq!(name, b"str".to_vec());
            assert_eq!(span1, Span { source: 0, main: 0, start: 0, end: 0 });
        },
        other => panic!("{:?}", other),
    }
    match compile("import fn \"a\" \"b\" f()\nfn f() { }") {
        Err(Error::ConflictingDefinitions { name, .. }) => assert_eq!(name, b"f".to_vec()),
        other => panic!("{:?}", other),
    }
}

#[test]
fn a_function_and_a_variable_may_share_a_name() {
    assert!(compile("var f = 1\nfn f() i32 { f }").is_ok());
    assert!(compile("fn i32() i32 { 1 }\nfn f() i32 { i32() }").is_ok());
}

#[test]
fn the_names_of_the_types_are_constants_with_their_tags() {
    let wat = compile("fn f() type { list }\nfn g() id { str }\nfn h() i32 { i32.(i32) }").unwrap_err();
    assert!(matches!(wat, Error::Type { .. }));
    let wat = compile("fn f() type { list }\nfn g() id { str }").unwrap();
    assert_eq!(
        wat,
        plain(
            "(func $f_f\n (result i32)\ni32.const 8\n)\n(func $f_g\n (result i64)\ni32.const 7\ni64.extend_i32_u\ni64.const 6\ni64.const 32\ni64.shl\ni64.or\n)\n"
        )
    );
}

#[test]
fn locals_are_declared_zeroed_and_released() {
    let wat = compile("fn f(p str, q i32) {\n var a = p\n var b = q\n { var a list = [] }\n}").unwrap();
    assert_eq!(
        wat,
        plain(
            "(func $f_f\n (param $l_0_p i32)\n (param $l_1_q i32)\n\
(local $rt_tmp_dup_i32 i32)\n (local $l_2_a i32)\n (local $l_3_b i32)\n (local $l_4_a i32)\n\
(local.set $l_2_a (i32.const 0))\n(local.set $l_3_b (i32.const 0))\n(local.set $l_4_a (i32.const 0))\n\
local.get $l_0_p\nlocal.tee $rt_tmp_dup_i32\nlocal.get $rt_tmp_dup_i32\ncall $f___WAC_str_retain\nlocal.set $l_2_a\n\
local.get $l_1_q\nlocal.set $l_3_b\n\
call $f___new_list\nlocal.set $l_4_a\n\
local.get $l_0_p\ncall $f___WAC_str_release\n\
local.get $l_2_a\ncall $f___WAC_str_release\n\
local.get $l_4_a\ncall $f___WAC_list_release\n\
)\n"
        )
    );
}

#[test]
fn a_block_ends_the_scope_of_its_locals() {
    let wat = compile("fn f(a i32) i32 { { var a = 5; a }; a }").unwrap();
    assert!(wat.contains("(i32.const 5)\nlocal.set $l_1_a\nlocal.get $l_0_a\n)\n"));
}

#[test]
fn reassignment_releases_the_old_value() {
    let wat = compile("fn f(s str) { s = \"x\" }").unwrap();
    assert_eq!(
        wat,
        module(Parts {
            imports: "",
            data: "(data (i32.const 2048) \"\\01\\00\\00\\00\\01\\00\\00\\00\\78\")\n",
            gvars: "",
            funcs: "(func $f_f\n (param $l_0_s i32)\n(local $rt_tmp_dup_i32 i32)\n\
(i32.const 2048)\nlocal.tee $rt_tmp_dup_i32\nlocal.get $rt_tmp_dup_i32\ncall $f___WAC_str_retain\n\
local.get $l_0_s\ncall $f___WAC_str_release\nlocal.set $l_0_s\n\
local.get $l_0_s\ncall $f___WAC_str_release\n)\n",
            start: "",
            exports: "",
            data_len: 2064,
        })
    );
}

#[test]
fn globals_of_heap_types_are_released_on_reassignment() {
    let wat = compile("var g id = 1\nfn f() { g = 2.5 }").unwrap();
    assert!(wat.contains("(global $g_g (mut i64) (i64.const 0))\n"));
    assert!(wat.contains(
        "(func $f_f\n(f32.const 2.5)\ni32.reinterpret_f32\ni64.extend_i32_u\ni64.const 3\ni64.const 32\ni64.shl\ni64.or\nglobal.get $g_g\ncall $f___WAC_id_release\nglobal.set $g_g\n)\n"
    ));
    assert!(wat.contains(
        "(func $__rt_start\n(i32.const 1)\ni64.extend_i32_u\ni64.const 1\ni64.const 32\ni64.shl\ni64.or\nglobal.set $g_g\n)\n"
    ));
}

#[test]
fn interned_literals_share_their_data() {
    let wat = compile("fn f() { var a = \"ab\"; var b = \"ab\"; var c = \"c\"; var d = $cstr(\"ab\"); var e = $cstr(\"ab\") }").unwrap();
    assert!(wat.contains(
        "(data (i32.const 2048) \"\\01\\00\\00\\00\\02\\00\\00\\00\\61\\62\")\n\
(data (i32.const 2064) \"\\01\\00\\00\\00\\01\\00\\00\\00\\63\")\n\
(data (i32.const 2080) \"\\61\\62\\00\")\n"
    ));
    assert!(wat.contains("(global $rt_heap_start i32 (i32.const 2096))\n"));
    assert_eq!(wat.matches("(data ").count(), 3);
    assert_eq!(wat.matches("(i32.const 2048)\n").count(), 2);
    assert_eq!(wat.matches("i32.const 2080\n").count(), 2);
}

#[test]
fn data_is_laid_out_in_steps_of_sixteen() {
    let wat = compile("fn f() { $cstr(\"123456789012345\"); $cstr(\"1234567890123456\"); $cstr(\"\") }").unwrap();
    assert_eq!(wat.matches("(data ").count(), 0);
    let wat = compile("fn f() i32 { $cstr(\"123456789012345\") + $cstr(\"1234567890123456\") + $cstr(\"\") }").unwrap();
    assert!(wat.contains("(data (i32.const 2048) \"\\31\\32\\33\\34\\35\\36\\37\\38\\39\\30\\31\\32\\33\\34\\35\\00\")\n"));
    assert!(wat.contains("(data (i32.const 2064) \""));
    assert!(wat.contains("(data (i32.const 2096) \"\\00\")\n"));
    assert!(wat.contains("(global $rt_heap_start i32 (i32.const 2112))\n"));
}

#[test]
fn memory_has_the_pages_that_hold_the_data() {
    let big = "a".repeat(70000);
    let wat = compile(&format!("fn f() str {{ \"{}\" }}", big)).unwrap();
    assert!(wat.starts_with("(memory $rt_mem 2)\n(data (i32.const 2048) \"\\01\\00\\00\\00\\70\\11\\01\\00\\61"));
    assert!(wat.contains(&format!("(global $rt_heap_start i32 (i32.const {}))\n", 2048 + 70016)));
    let wat = compile(&format!("fn f() str {{ \"{}\" }}", "a".repeat(65536 - 2048 - 8))).unwrap();
    assert!(wat.starts_with("(memory $rt_mem 1)\n"));
    let wat = compile(&format!("fn f() str {{ \"{}\" }}", "a".repeat(65536 - 2048 - 7))).unwrap();
    assert!(wat.starts_with("(memory $rt_mem 2)\n"));
}

#[test]
fn while_loops_and_their_labels() {
    let wat = compile("fn f(n i32) { while n > 0 { while false { }; n = n - 1 }; while true { } }").unwrap();
    assert_eq!(
        wat,
        plain(
            "(func $f_f\n (param $l_0_n i32)\n\
(block $lbl_0 (loop $lbl_1\nlocal.get $l_0_n\n(i32.const 0)\ni32.gt_s\ni32.eqz\nbr_if $lbl_0\n\
(block $lbl_2 (loop $lbl_3\n(i32.const 0)\ni32.eqz\nbr_if $lbl_2\nbr $lbl_3\n))\n\
local.get $l_0_n\n(i32.const 1)\ni32.sub\nlocal.set $l_0_n\nbr $lbl_1\n))\n\
(block $lbl_4 (loop $lbl_5\n(i32.const 1)\ni32.eqz\nbr_if $lbl_4\nbr $lbl_5\n))\n)\n"
        )
    );
    let (_, expected, got) = type_error("fn f() i32 { while true { } }");
    assert_eq!(expected, "I32");
    assert_eq!(got, "Void");
}

#[test]
fn conditionals_chain_their_branches() {
    let wat = compile("fn f(a bool, b bool) i32 { if a { 1 } else if b { 2 } else { 3 } }").unwrap();
    assert_eq!(
        wat,
        plain(
            "(func $f_f\n (param $l_0_a i32)\n (param $l_1_b i32)\n (result i32)\n\
local.get $l_0_a\nif\n (result i32)\n(i32.const 1)\nelse\n\
local.get $l_1_b\nif\n (result i32)\n(i32.const 2)\nelse\n(i32.const 3)\nend\nend\n)\n"
        )
    );
    let wat = compile("fn f(a bool) { if a { } }").unwrap();
    assert_eq!(wat, plain("(func $f_f\n (param $l_0_a i32)\nlocal.get $l_0_a\nif\nelse\nend\n)\n"));
    let (_, expected, got) = type_error("fn f(a bool) i32 { if a { 1 } }");
    assert_eq!(expected, "I32");
    assert_eq!(got, "Void");
    let (_, expected, got) = type_error("fn f(a i32) { if a { } }");
    assert_eq!(expected, "Bool");
    assert_eq!(got, "I32");
}

#[test]
fn arithmetic_takes_the_common_type() {
    let wat = compile("fn f(a i32, x f32) f32 { a + x * a - 1 }").unwrap();
    assert_eq!(
        wat,
        plain(
            "(func $f_f\n (param $l_0_a i32)\n (param $l_1_x f32)\n (result f32)\n\
local.get $l_0_a\nf32.convert_i32_s\nlocal.get $l_1_x\nlocal.get $l_0_a\nf32.convert_i32_s\nf32.mul\nf32.add\n(f32.const 1)\nf32.sub\n)\n"
        )
    );
    let wat = compile("fn f(a i64, b i64) i64 { a % b }").unwrap();
    assert!(wat.contains("local.get $l_0_a\nlocal.get $l_1_b\ni64.rem_s\n"));
    assert_eq!(type_error("fn f(a i32, b i64) i64 { a + b }").1, "I32");
    assert_eq!(type_error("fn f(a i32, b i64) i64 { a + b }").2, "I64");
    assert_eq!(type_error("fn f(a str) str { a + a }"), (sp(20, 25), "numeric value".into(), "String".into()));
    assert_eq!(type_error("fn f(a f32) f32 { a % a }"), (sp(20, 25), "integer value".into(), "F32".into()));
}

#[test]
fn division_and_division_with_truncation() {
    let wat = compile("fn f(a i32, x f32) f32 { a / 2 }\nfn g(a i32, x f32) i32 { a // 2 }\nfn h(a i32, x f32) i32 { a // x }").unwrap();
    assert!(wat.contains("(result f32)\nlocal.get $l_0_a\nf32.convert_i32_s\n(f32.const 2)\nf32.div\n)\n"));
    assert!(wat.contains("(result i32)\nlocal.get $l_0_a\n(i32.const 2)\ni32.div_s\n)\n"));
    assert!(wat.contains("(result i32)\nlocal.get $l_0_a\nf32.convert_i32_s\nlocal.get $l_1_x\nf32.div\ni32.trunc_f32_s\n)\n"));
    assert_eq!(type_error("fn f(a i64) i32 { a // a }"), (sp(20, 26), "I32".into(), "Int".into()));
}

#[test]
fn bits_and_orders() {
    let wat = compile("fn f(a i32, b i32) i32 { a & b | a ^ b << 1 >> 2 }").unwrap();
    assert!(wat.contains("local.get $l_0_a\nlocal.get $l_1_b\ni32.and\nlocal.get $l_0_a\nlocal.get $l_1_b\n(i32.const 1)\ni32.shl\n(i32.const 2)\ni32.shr_u\ni32.xor\ni32.or\n"));
    let wat = compile("fn f(a i32, x f64) bool { a < 1 }\nfn g(a i32, x f64) bool { x >= 1 }\nfn h(a i64, x f64) bool { a <= a }").unwrap();
    assert!(wat.contains("local.get $l_0_a\n(i32.const 1)\ni32.lt_s\n"));
    assert!(wat.contains("local.get $l_1_x\n(f64.const 1)\nf64.ge\n"));
    assert!(wat.contains("local.get $l_0_a\nlocal.get $l_0_a\ni64.le_s\n"));
    assert_eq!(type_error("fn f(a str) bool { a < a }"), (sp(21, 26), "ordered value".into(), "String".into()));
    assert_eq!(type_error("fn f(a i32) bool { a == a }"), (sp(21, 27), "is or is not".into(), "== or !=".into()));
}

#[test]
fn identity_releases_each_operand_and_keeps_its_bits() {
    let wat = compile("fn f(a str, b str) bool { a is b }\nfn g(a i32) bool { a is not 1.5 }").unwrap();
    let operand = |name: &str| {
        format!(
            "local.get {}\nlocal.tee $rt_tmp_dup_i32\nlocal.get $rt_tmp_dup_i32\ncall $f___WAC_str_retain\nlocal.tee $rt_tmp_dup_i32\nlocal.get $rt_tmp_dup_i32\ncall $f___WAC_str_release\n",
            name
        )
    };
    assert!(wat.contains(&format!("{}{}i32.eq\n", operand("$l_0_a"), operand("$l_1_b"))));
    assert!(wat.contains("local.get $l_0_a\nf32.convert_i32_s\n(f32.const 1.5)\nf32.ne\n"));
}

#[test]
fn signs_and_not() {
    let wat = compile("fn f(a i32, x f32) f32 { -a + -x + +a }\nfn g(a bool) bool { !a }").unwrap();
    assert!(wat.contains("local.get $l_0_a\ni32.const -1\ni32.mul\nf32.convert_i32_s\nlocal.get $l_1_x\nf32.neg\nf32.add\nlocal.get $l_0_a\nf32.convert_i32_s\nf32.add\n"));
    assert!(wat.contains("local.get $l_0_a\ni32.eqz\n"));
    assert_eq!(type_error("fn f(a str) { -a }"), (sp(14, 15), "numeric".into(), "String".into()));
    assert_eq!(type_error("fn f(a i32) bool { !a }").1, "Bool");
}

#[test]
fn boxing_and_unboxing() {
    let wat = compile("fn f(a id) i32 { a }\nfn g(a id) f32 { a }\nfn h(a id) bool { a }\nfn i(a id) str { a }\nfn j(a id) list { a }\nfn k(a str) id { a }\nfn l(a list) id { a }\nfn m(a bool) id { a }\nfn n(a f32) id { a }").unwrap();
    let get = "local.get $l_0_a\nlocal.tee $rt_tmp_dup_i64\nlocal.get $rt_tmp_dup_i64\ncall $f___WAC_id_retain\n";
    for t in ["i32", "f32", "bool", "str", "list"] {
        assert!(wat.contains(&format!("{}call $f___WAC_raw_id_to_{}\n", get, t)));
    }
    assert!(wat.contains("call $f___WAC_str_retain\ni64.extend_i32_u\ni64.const 7\ni64.const 32\ni64.shl\ni64.or\n"));
    assert!(wat.contains("call $f___WAC_list_retain\ni64.extend_i32_u\ni64.const 8\n"));
    assert!(wat.contains("local.get $l_0_a\ni64.extend_i32_u\ni64.const 5\n"));
    assert!(wat.contains("local.get $l_0_a\ni32.reinterpret_f32\ni64.extend_i32_u\ni64.const 3\n"));
    assert!(wat.contains("(local $rt_tmp_dup_i64 i64)\n"));
    assert_eq!(type_error("fn f(a i64) id { a }"), (sp(17, 18), "Id".into(), "I64".into()));
    assert_eq!(type_error("fn f(a id) i64 { a }"), (sp(17, 18), "I64".into(), "Id".into()));
    assert_eq!(type_error("fn f(a f32) i32 { a }"), (sp(18, 19), "I32".into(), "F32".into()));
}

#[test]
fn intrinsics_for_memory_and_inline_code() {
    let wat = compile("fn f(p i32) i64 { $write1(p, 1); $write2(p, 2, offset: 2); $write4(p, 4); $write8(p, 8, offset: 8)\n $read1(p) + $read2(p, offset: 1) + $read4(p); $read8(p, offset: 40) }").unwrap();
    assert!(wat.contains("local.get $l_0_p\n(i32.const 1)\ni32.store8\n"));
    assert!(wat.contains("local.get $l_0_p\n(i32.const 2)\ni32.store16 offset=2\n"));
    assert!(wat.contains("local.get $l_0_p\n(i32.const 4)\ni32.store\n"));
    assert!(wat.contains("local.get $l_0_p\n(i64.const 8)\ni64.store offset=8\n"));
    assert!(wat.contains("local.get $l_0_p\ni32.load8_u\nlocal.get $l_0_p\ni32.load16_u offset=1\ni32.add\nlocal.get $l_0_p\ni32.load\ni32.add\ndrop\n"));
    assert!(wat.contains("local.get $l_0_p\ni64.load offset=40\n)\n"));
    let wat = compile("fn f(a i32, s str) f32 { $asm([a, s, 1.5], i32, \"drop\\ndrop\") }").unwrap();
    assert!(wat.contains("local.get $l_0_a\nlocal.get $l_1_s\nlocal.tee $rt_tmp_dup_i32\nlocal.get $rt_tmp_dup_i32\ncall $f___WAC_str_retain\n(f32.const 1.5)\ndrop\ndrop\nf32.convert_i32_s\n"));
    let wat = compile("fn f() { $asm([], noreturn, \"unreachable\") }\nfn g() i32 { $asm([], noreturn, \"unreachable\") }\nfn h() noreturn { $asm([], noreturn, \"unreachable\") }").unwrap();
    assert_eq!(wat.matches("unreachable\n").count(), 5);
    assert_eq!(type_error("fn f() i32 { $asm([], void, \"nop\") }").2, "Void");
    assert_eq!(type_error("fn f(p f32) { $read4(p) }").1, "I32");
}

#[test]
fn imports_are_written_with_their_types() {
    let wat = compile("import fn \"env\" \"print\" print(i32, f32, str, id) bool\nimport fn \"env\" \"halt\" halt() noreturn\nfn f() { halt() }").unwrap();
    assert!(wat.starts_with(
        "(import \"env\" \"print\" (func $f_print  (param i32) (param f32) (param i32) (param i64) (result i32)))\n(import \"env\" \"halt\" (func $f_halt ))\n(memory $rt_mem 1)\n"
    ));
    assert!(wat.contains("(func $f_f\ncall $f_halt\nunreachable\n)\n"));
}

#[test]
fn the_fragment_comes_first_and_the_prelude_before_the_program() {
    let prelude = Prelude {
        wfs: b";; well-known functions\n".to_vec(),
        sources: vec![Source {
            name: b"[prelude:lang]".to_vec(),
            data: b"import fn \"lang\" \"panic\" panic(i32) noreturn\nvar first = 1\nfn helper() i32 { first }".to_vec(),
        }],
    };
    let sources = vec![
        Source { name: b"a.wac".to_vec(), data: b"var second = helper()\nfn [pub] a() i32 { second + b() }".to_vec() },
        Source { name: b"b.wac".to_vec(), data: b"fn b() i32 { third }\nvar third = second".to_vec() },
    ];
    let wat = String::from_utf8(translate(&prelude, &sources).unwrap()).unwrap();
    assert!(wat.starts_with(";; well-known functions\n(import \"lang\" \"panic\" (func $f_panic  (param i32)))\n(memory $rt_mem 1)\n"));
    let first = wat.find("(global $g_first ").unwrap();
    let second = wat.find("(global $g_second ").unwrap();
    let third = wat.find("(global $g_third ").unwrap();
    assert!(first < second && second < third);
    assert!(wat.contains("(func $__rt_start\n(i32.const 1)\nglobal.set $g_first\ncall $f_helper\nglobal.set $g_second\nglobal.get $g_second\nglobal.set $g_third\n)\n(start $__rt_start)\n(export \"f_a\" (func $f_a))\n"));
    let helper = wat.find("(func $f_helper").unwrap();
    let a = wat.find("(func $f_a").unwrap();
    let b = wat.find("(func $f_b").unwrap();
    assert!(helper < a && a < b);
}

#[test]
fn errors_name_the_source_by_its_place() {
    let prelude = Prelude {
        wfs: Vec::new(),
        sources: vec![Source { name: b"p".to_vec(), data: b"fn p() { }".to_vec() }],
    };
    let sources = vec![
        Source { name: b"a".to_vec(), data: b"fn a() { }".to_vec() },
        Source { name: b"b".to_vec(), data: b"fn b() i32 { true }".to_vec() },
    ];
    match translate(&prelude, &sources) {
        Err(Error::Type { span, .. }) => assert_eq!(span, Span { source: 2, main: 13, start: 13, end: 17 }),
        other => panic!("{:?}", other),
    }
    let sources = vec![
        Source { name: b"a".to_vec(), data: b"fn a() { ".to_vec() },
        Source { name: b"b".to_vec(), data: b"fn b() { @ }".to_vec() },
    ];
    match translate(&prelude, &sources) {
        Err(Error::Parse(e)) => assert_eq!(e.span().source, 1),
        other => panic!("{:?}", other),
    }
    let sources = vec![
        Source { name: b"a".to_vec(), data: b"fn a() { }".to_vec() },
        Source { name: b"b".to_vec(), data: b"fn b() { @ }".to_vec() },
    ];
    match translate(&prelude, &sources) {
        Err(Error::Lex(e)) => assert_eq!(e.span, Span { source: 2, main: 9, start: 9, end: 10 }),
        other => panic!("{:?}", other),
    }
    let bad = Prelude { wfs: Vec::new(), sources: vec![Source { name: b"p".to_vec(), data: b"?".to_vec() }] };
    match translate(&bad, &sources) {
        Err(Error::Lex(e)) => assert_eq!(e.span.source, 0),
        other => panic!("{:?}", other),
    }
}

#[test]
fn nothing_at_all_is_still_a_module() {
    let prelude = Prelude { wfs: Vec::new(), sources: Vec::new() };
    let wat = String::from_utf8(translate(&prelude, &Vec::new()).unwrap()).unwrap();
    assert_eq!(wat, plain(""));
    assert_eq!(compile("").unwrap(), plain(""));
}

#[test]
fn a_tree_built_by_hand_is_translated_like_a_parsed_one() {
    let span = sp(0, 0);
    let body = Expr::Block(
        span,
        vec![Expr::Binop(
            span,
            Binop::Add,
            Box::new(Expr::GetVar(span, b"x".to_vec())),
            Box::new(Expr::Int(span, 1)),
        )],
    );
    let file = File {
        imports: Vec::new(),
        constants: Vec::new(),
        functions: vec![Function {
            span,
            visibility: Visibility::Private,
            name: b"next".to_vec(),
            parameters: vec![(b"x".to_vec(), Type::I32)],
            return_type: ReturnType::Value(Type::I32),
            body,
        }],
        globalvars: Vec::new(),
    };
    let wat = String::from_utf8(translate_files(b";; head\n", &vec![file]).unwrap()).unwrap();
    let parsed = compile("fn next(x i32) i32 { x + 1 }").unwrap();
    assert_eq!(wat, format!(";; head\n{}", parsed));
    assert_eq!(
        parsed,
        plain(
            "(func $f_next\n (param $l_0_x i32)\n (result i32)\nlocal.get $l_0_x\n(i32.const 1)\ni32.add\n)\n"
        )
    );
}

#[test]
fn the_start_function_declares_what_the_initialisers_use() {
    let wat =
        compile("var s = \"ab\"\nvar n i32 = { var k = 2; k }\nvar m i32 = { var k = 3; k }").unwrap();
    assert_eq!(
        wat,
        module(Parts {
            imports: "",
            data: "(data (i32.const 2048) \"\\01\\00\\00\\00\\02\\00\\00\\00\\61\\62\")\n",
            gvars: "(global $g_s (mut i32) (i32.const 0))\n(global $g_n (mut i32) (i32.const 0))\n(global $g_m (mut i32) (i32.const 0))\n",
            funcs: "",
            start: "(local $rt_tmp_dup_i32 i32)\n (local $l_0_k i32)\n (local $l_1_k i32)\n\
(local.set $l_0_k (i32.const 0))\n(local.set $l_1_k (i32.const 0))\n\
(i32.const 2048)\nlocal.tee $rt_tmp_dup_i32\nlocal.get $rt_tmp_dup_i32\ncall $f___WAC_str_retain\nglobal.set $g_s\n\
(i32.const 2)\nlocal.set $l_0_k\nlocal.get $l_0_k\nglobal.set $g_n\n\
(i32.const 3)\nlocal.set $l_1_k\nlocal.get $l_1_k\nglobal.set $g_m\n",
            exports: "",
            data_len: 2064,
        })
    );
}

#[test]
fn the_start_function_releases_its_locals() {
    let wat = compile("var t str = { var u = \"c\"; u }").unwrap();
    let from = wat.find("(func $__rt_start\n").unwrap() + 18;
    let to = wat.find(")\n(start $__rt_start)\n").unwrap();
    assert_eq!(
        &wat[from..to],
        "(local $rt_tmp_dup_i32 i32)\n (local $l_0_u i32)\n(local.set $l_0_u (i32.const 0))\n\
(i32.const 2048)\nlocal.tee $rt_tmp_dup_i32\nlocal.get $rt_tmp_dup_i32\ncall $f___WAC_str_retain\n\
local.set $l_0_u\n\
local.get $l_0_u\nlocal.tee $rt_tmp_dup_i32\nlocal.get $rt_tmp_dup_i32\ncall $f___WAC_str_retain\n\
global.set $g_t\n\
local.get $l_0_u\ncall $f___WAC_str_release\n"
    );
}

#[test]
fn the_names_of_an_initialiser_end_with_it() {
    assert_eq!(
        type_error("var a i32 = { var k = 2; k }\nvar b i32 = k"),
        (sp(41, 42), "Variable k".to_string(), "NotFound".to_string())
    );
}
