use wac::ir::{Binop, ConstValue, Expr, ReturnType, Type, Unop, Visibility, Width};
use wac::parsef::{
    consume_delim, eval_constexpr, expect_delim, parse_expr, parse_function_type,
    parse_return_type, parse_type, type_from_name,
};
use wac::parse_source;
use wac::Error;
use wac::ParseError;
use wac::Parser;
use wac::Pattern;
use wac::Span;
use wac::Token;

fn sp(start: usize, end: usize) -> Span {
    Span { source: 0, main: start, start, end }
}

fn expr(text: &str) -> Result<Expr, ParseError> {
    let mut parser = Parser::new(0, text.as_bytes()).unwrap();
    parse_expr(&mut parser, 0)
}

fn var(start: usize, name: &str) -> Expr {
    Expr::GetVar(sp(start, start + name.len()), name.as_bytes().to_vec())
}

fn invalid(start: usize, end: usize, expected: &str, got: &str) -> ParseError {
    ParseError::InvalidToken {
        span: sp(start, end),
        expected: expected.as_bytes().to_vec(),
        got: got.as_bytes().to_vec(),
    }
}

#[test]
fn parser_stands_at_the_first_token() {
    let parser = Parser::new(0, b"a + 1").unwrap();
    assert_eq!(parser.peek(), Token::Name);
    assert_eq!(parser.span(), sp(0, 1));
    assert_eq!(parser.text(), b"a");
    assert_eq!(parser.lookahaed(0), Some(Token::Name));
    assert_eq!(parser.lookahaed(1), Some(Token::Plus));
    assert_eq!(parser.lookahaed(2), Some(Token::Int(1)));
    assert_eq!(parser.lookahaed(3), Some(Token::EOF));
    assert_eq!(parser.lookahaed(4), None);
    assert_eq!(parser.lookahaed(usize::MAX), None);
}

#[test]
fn parser_new_gives_the_error_of_the_lexer() {
    let e = Parser::new(2, b"a ` b").err().unwrap();
    assert_eq!(e.span, Span { source: 2, main: 2, start: 2, end: 3 });
}

#[test]
fn gettok_moves_on_by_one_on_every_token() {
    let mut parser = Parser::new(0, b"a b").unwrap();
    assert_eq!(parser.gettok(), Token::Name);
    assert_eq!(parser.span(), sp(2, 3));
    assert_eq!(parser.gettok(), Token::Name);
    assert_eq!(parser.peek(), Token::EOF);
    assert_eq!(parser.span(), sp(3, 3));
    assert_eq!(parser.lookahaed(0), Some(Token::EOF));
    assert_eq!(parser.gettok(), Token::EOF);
    assert_eq!(parser.lookahaed(0), None);
    assert_eq!(parser.lookahaed(1), None);
}

#[test]
fn the_end_of_the_file_is_taken_like_any_token() {
    let mut parser = Parser::new(0, b"a").unwrap();
    assert!(!parser.consume(Token::EOF.into()));
    assert_eq!(parser.lookahaed(0), Some(Token::Name));
    assert!(parser.consume(Pattern::Name));
    assert_eq!(parser.lookahaed(0), Some(Token::EOF));
    assert!(parser.consume(Token::EOF.into()));
    assert_eq!(parser.lookahaed(0), None);
    let mut parser = Parser::new(0, b"").unwrap();
    assert_eq!(parser.expect(Token::EOF.into()), Ok(Token::EOF));
    assert_eq!(parser.lookahaed(0), None);
}

#[test]
fn at_and_consume_go_by_the_pattern() {
    let mut parser = Parser::new(0, b"fn 12 2.5 \"s\" r\"t\" +").unwrap();
    assert!(parser.at(Pattern::Name));
    assert!(parser.at(Pattern::Word("fn")));
    assert!(!parser.at(Pattern::Word("f")));
    assert!(parser.at(Pattern::Exact(Token::Name)));
    assert!(parser.at_name("fn"));
    assert!(!parser.at_name("var"));
    assert!(!parser.consume(Pattern::Int));
    assert_eq!(parser.span(), sp(0, 2));
    assert!(parser.consume(Pattern::Word("fn")));
    assert!(parser.at(Pattern::Int));
    assert!(parser.at(Pattern::Exact(Token::Int(12))));
    assert!(!parser.at(Pattern::Exact(Token::Int(13))));
    assert!(!parser.at_name("12"));
    assert!(parser.consume(Pattern::Int));
    assert!(parser.consume(Pattern::Float));
    assert!(parser.at(Pattern::String));
    assert!(parser.consume(Pattern::Exact(Token::NormalString)));
    assert!(parser.consume(Pattern::String));
    assert!(parser.consume(Pattern::Exact(Token::Plus)));
    assert!(parser.at(Pattern::Exact(Token::EOF)));
}

#[test]
fn expect_takes_or_says_what_it_found() {
    let mut parser = Parser::new(0, b"( x").unwrap();
    assert_eq!(parser.expect(Pattern::Exact(Token::LParen)), Ok(Token::LParen));
    assert_eq!(
        parser.expect(Pattern::Exact(Token::RParen)),
        Err(invalid(2, 3, "Exact(RParen)", "Name(\"x\")"))
    );
    assert_eq!(parser.expect(Pattern::Word("fn")), Err(invalid(2, 3, "Exact(Name(\"fn\"))", "Name(\"x\")")));
    assert_eq!(parser.expect(Pattern::Int), Err(invalid(2, 3, "Int", "Name(\"x\")")));
    assert_eq!(parser.expect(Pattern::Name), Ok(Token::Name));
    assert_eq!(parser.expect(Pattern::Name), Err(invalid(3, 3, "Name", "EOF")));
}

#[test]
fn expect_name_refuses_reserved_words() {
    let mut parser = Parser::new(0, b"abc while 3").unwrap();
    assert_eq!(parser.expect_name(), Ok(b"abc".to_vec()));
    assert_eq!(parser.expect_name(), Err(invalid(4, 9, "Name", "reserved name \"while\"")));
    assert_eq!(parser.span(), sp(4, 9));
    parser.gettok();
    assert_eq!(parser.expect_name(), Err(invalid(10, 11, "Name", "Int(3)")));
    for word in [
        "fn", "trait", "impl", "record", "enum", "extern", "import", "var", "const", "true",
        "false", "nil", "and", "or", "is", "not", "in", "if", "else", "for", "while", "break",
        "continue", "return", "switch", "new",
    ] {
        let mut parser = Parser::new(0, word.as_bytes()).unwrap();
        assert!(parser.expect_name().is_err());
    }
    for word in ["fnx", "i32", "void", "offset", "pub", "r"] {
        let mut parser = Parser::new(0, word.as_bytes()).unwrap();
        assert_eq!(parser.expect_name(), Ok(word.as_bytes().to_vec()));
    }
}

#[test]
fn expect_string_resolves_escapes_of_normal_strings_only() {
    let mut parser = Parser::new(0, b"\"a\\n\\r\\t\\0\\\"\\'\\\\b\" r\"a\\nb\" \"\" x").unwrap();
    assert_eq!(parser.expect_string(), Ok(b"a\n\r\t\0\"'\\b".to_vec()));
    assert_eq!(parser.expect_string(), Ok(b"a\\nb".to_vec()));
    assert_eq!(parser.expect_string(), Ok(Vec::new()));
    assert_eq!(parser.expect_string(), Err(invalid(30, 31, "String", "Name(\"x\")")));
}

#[test]
fn expect_string_refuses_unknown_escapes() {
    let mut parser = Parser::new(0, b" \"a\\qb\"").unwrap();
    assert_eq!(parser.expect_string(), Err(ParseError::InvalidEscape(sp(1, 7), b'q')));
}

#[test]
fn resolve_escapes_drops_a_backslash_at_the_end() {
    assert_eq!(wac::parser::resolve_escapes(b"ab\\", sp(0, 3)), Ok(b"ab".to_vec()));
    assert_eq!(wac::parser::resolve_escapes(b"", sp(0, 0)), Ok(Vec::new()));
    assert_eq!(
        wac::parser::resolve_escapes(b"\\x", sp(4, 9)),
        Err(ParseError::InvalidEscape(sp(4, 9), b'x'))
    );
}

#[test]
fn expect_u32_takes_what_fits() {
    let mut parser = Parser::new(0, b"0 4294967295 4294967296 x").unwrap();
    assert_eq!(parser.expect_u32(), Ok(0));
    assert_eq!(parser.expect_u32(), Ok(u32::MAX));
    assert_eq!(parser.expect_u32(), Err(invalid(13, 23, "u32", "Int(4294967296)")));
    parser.gettok();
    assert_eq!(parser.expect_u32(), Err(invalid(24, 25, "u32", "Name(\"x\")")));
}

#[test]
fn types_by_name() {
    assert_eq!(type_from_name(b"i32"), Some(Type::I32));
    assert_eq!(type_from_name(b"i64"), Some(Type::I64));
    assert_eq!(type_from_name(b"f32"), Some(Type::F32));
    assert_eq!(type_from_name(b"f64"), Some(Type::F64));
    assert_eq!(type_from_name(b"bool"), Some(Type::Bool));
    assert_eq!(type_from_name(b"type"), Some(Type::Type));
    assert_eq!(type_from_name(b"str"), Some(Type::String));
    assert_eq!(type_from_name(b"list"), Some(Type::List));
    assert_eq!(type_from_name(b"id"), Some(Type::Id));
    assert_eq!(type_from_name(b"void"), None);
    assert_eq!(type_from_name(b"I32"), None);
    assert_eq!(type_from_name(b""), None);
}

#[test]
fn parse_type_and_return_type() {
    let mut parser = Parser::new(0, b"str void noreturn f64 int 5").unwrap();
    assert_eq!(parse_type(&mut parser), Ok(Type::String));
    assert_eq!(parse_type(&mut parser), Err(invalid(4, 8, "Type", "Name(\"void\")")));
    assert_eq!(parse_return_type(&mut parser), Ok(ReturnType::Void));
    assert_eq!(parse_return_type(&mut parser), Ok(ReturnType::NoReturn));
    assert_eq!(parse_return_type(&mut parser), Ok(ReturnType::Value(Type::F64)));
    assert_eq!(parse_return_type(&mut parser), Err(invalid(22, 25, "Type", "Name(\"int\")")));
    parser.gettok();
    assert_eq!(parse_type(&mut parser), Err(invalid(26, 27, "Type", "Int(5)")));
}

#[test]
fn function_types_of_imports() {
    let mut parser = Parser::new(0, b"() (i32) f32 (i32, str,) noreturn (i32 f32)").unwrap();
    let t = parse_function_type(&mut parser).unwrap();
    assert_eq!(t.parameter_types, vec![]);
    assert_eq!(t.return_type, ReturnType::Void);
    let t = parse_function_type(&mut parser).unwrap();
    assert_eq!(t.parameter_types, vec![Type::I32]);
    assert_eq!(t.return_type, ReturnType::Value(Type::F32));
    let t = parse_function_type(&mut parser).unwrap();
    assert_eq!(t.parameter_types, vec![Type::I32, Type::String]);
    assert_eq!(t.return_type, ReturnType::NoReturn);
    assert_eq!(parse_function_type(&mut parser), Err(invalid(39, 42, "Exact(RParen)", "Name(\"f32\")")));
}

#[test]
fn delimiters() {
    let mut parser = Parser::new(0, b"\n;\n; a ; b\n\n c d }").unwrap();
    consume_delim(&mut parser);
    assert_eq!(parser.span(), sp(5, 6));
    consume_delim(&mut parser);
    assert_eq!(parser.span(), sp(5, 6));
    parser.gettok();
    assert_eq!(expect_delim(&mut parser), Ok(()));
    assert_eq!(parser.span(), sp(9, 10));
    parser.gettok();
    assert_eq!(expect_delim(&mut parser), Ok(()));
    assert_eq!(parser.span(), sp(13, 14));
    parser.gettok();
    assert_eq!(expect_delim(&mut parser), Err(invalid(15, 16, "Exact(Newline)", "Name(\"d\")")));
    parser.gettok();
    assert_eq!(expect_delim(&mut parser), Ok(()));
    assert_eq!(parser.peek(), Token::RBrace);
    parser.gettok();
    assert_eq!(expect_delim(&mut parser), Ok(()));
    assert_eq!(parser.peek(), Token::EOF);
}

#[test]
fn literals() {
    assert_eq!(expr("42"), Ok(Expr::Int(sp(0, 2), 42)));
    assert_eq!(expr("2.50"), Ok(Expr::Float(sp(0, 4), b"2.50".to_vec())));
    assert_eq!(expr("\"a\\tb\""), Ok(Expr::String(sp(0, 6), b"a\tb".to_vec())));
    assert_eq!(expr("r\"a\\tb\""), Ok(Expr::String(sp(0, 7), b"a\\tb".to_vec())));
    assert_eq!(expr("true"), Ok(Expr::Bool(sp(0, 4), true)));
    assert_eq!(expr("false"), Ok(Expr::Bool(sp(0, 5), false)));
    assert_eq!(expr("x1"), Ok(var(0, "x1")));
    assert_eq!(
        expr("[1, x,]"),
        Ok(Expr::List(sp(0, 1), vec![Expr::Int(sp(1, 2), 1), var(4, "x")]))
    );
    assert_eq!(expr("[]"), Ok(Expr::List(sp(0, 1), vec![])));
}

#[test]
fn product_binds_more_tightly_than_sum() {
    // a + b * c
    let e = expr("a + b * c").unwrap();
    let expected = Expr::Binop(
        Span { source: 0, main: 2, start: 2, end: 9 },
        Binop::Add,
        Box::new(var(0, "a")),
        Box::new(Expr::Binop(
            Span { source: 0, main: 6, start: 6, end: 9 },
            Binop::Multiply,
            Box::new(var(4, "b")),
            Box::new(var(8, "c")),
        )),
    );
    assert_eq!(e, expected);
}

#[test]
fn operators_of_one_precedence_associate_to_the_left() {
    // (a - b) - c
    let e = expr("a - b - c").unwrap();
    match e {
        Expr::Binop(_, Binop::Subtract, left, right) => {
            assert_eq!(*right, var(8, "c"));
            match *left {
                Expr::Binop(_, Binop::Subtract, l, r) => {
                    assert_eq!(*l, var(0, "a"));
                    assert_eq!(*r, var(4, "b"));
                },
                other => panic!("{:?}", other),
            }
        },
        other => panic!("{:?}", other),
    }
}

fn shape(e: &Expr) -> String {
    match e {
        Expr::Int(_, x) => format!("{}", x),
        Expr::Bool(_, b) => format!("{}", b),
        Expr::GetVar(_, n) => String::from_utf8(n.clone()).unwrap(),
        Expr::Binop(_, op, l, r) => format!("({:?} {} {})", op, shape(l), shape(r)),
        Expr::Unop(_, op, x) => format!("({:?} {})", op, shape(x)),
        Expr::SetVar(_, n, v) => format!("(set {} {})", String::from_utf8(n.clone()).unwrap(), shape(v)),
        Expr::FunctionCall(_, n, args) => format!(
            "({}{})",
            String::from_utf8(n.clone()).unwrap(),
            args.iter().map(|a| format!(" {}", shape(a))).collect::<String>()
        ),
        Expr::AssertType(_, t, x) => format!("({:?}! {})", t, shape(x)),
        Expr::If(_, pairs, other) => format!(
            "(if{} else {})",
            pairs.iter().map(|(c, b)| format!(" {} {}", shape(c), shape(b))).collect::<String>(),
            shape(other)
        ),
        Expr::Block(_, items) => format!(
            "{{{}}}",
            items.iter().map(|a| format!(" {}", shape(a))).collect::<String>()
        ),
        other => format!("{:?}", other),
    }
}

fn shape_of(text: &str) -> String {
    shape(&expr(text).unwrap())
}

#[test]
fn the_precedence_table() {
    assert_eq!(shape_of("a | b ^ c & d << e + f * g"), "(BitwiseOr a (BitwiseXor b (BitwiseAnd c (ShiftLeft d (Add e (Multiply f g))))))");
    assert_eq!(shape_of("a * b + c >> d & e ^ f | g"), "(BitwiseOr (BitwiseXor (BitwiseAnd (ShiftRight (Add (Multiply a b) c) d) e) f) g)");
    assert_eq!(shape_of("a < b | c"), "(Less a (BitwiseOr b c))");
    assert_eq!(shape_of("a / b // c % d"), "(Remainder (TruncDivide (Divide a b) c) d)");
    assert_eq!(shape_of("a == b != c <= d >= e > f"), "(Greater (GreaterOrEqual (LessOrEqual (NotEqual (Equal a b) c) d) e) f)");
    assert_eq!(shape_of("-a * b"), "(Multiply (Minus a) b)");
    assert_eq!(shape_of("!a + +b"), "(Add (Not a) (Plus b))");
    assert_eq!(shape_of("- f(x) * 2"), "(Multiply (Minus (f x)) 2)");
    assert_eq!(shape_of("(a + b) * c"), "(Multiply (Add a b) c)");
    assert_eq!(shape_of("a is b"), "(Is a b)");
    assert_eq!(shape_of("a is not b + 1"), "(IsNot a (Add b 1))");
    assert_eq!(shape_of("x = a + 1"), "(set x (Add a 1))");
    assert_eq!(shape_of("x = y = 1"), "(set x (set y 1))");
    assert_eq!(shape_of("f()"), "(f)");
    assert_eq!(shape_of("f(a, g(b), c + 1,)"), "(f a (g b) (Add c 1))");
    assert_eq!(shape_of("a.(i32) + 1"), "(Add (I32! a) 1)");
}

#[test]
fn and_and_or_become_conditionals() {
    assert_eq!(shape_of("a and b"), "(if a (Bool! b) else false)");
    assert_eq!(shape_of("a or b"), "(if a true else b)");
    assert_eq!(shape_of("a or b and c"), "(if a true else (if b (Bool! c) else false))");
    assert_eq!(shape_of("a and b or c"), "(if (if a (Bool! b) else false) true else c)");
    assert_eq!(shape_of("a < b and c < d"), "(if (Less a b) (Bool! (Less c d)) else false)");
    assert_eq!(shape_of("x = a or b"), "(set x (if a true else b))");
}

#[test]
fn a_parser_for_a_precedence_leaves_weaker_operators() {
    let mut parser = Parser::new(0, b"a * b + c").unwrap();
    let e = parse_expr(&mut parser, 600).unwrap();
    assert_eq!(shape(&e), "(Multiply a b)");
    assert_eq!(parser.peek(), Token::Plus);
    let mut parser = Parser::new(0, b"a * b + c").unwrap();
    let e = parse_expr(&mut parser, 601).unwrap();
    assert_eq!(shape(&e), "a");
    assert_eq!(parser.peek(), Token::Star);
    let mut parser = Parser::new(0, b"a + b * c < d").unwrap();
    let e = parse_expr(&mut parser, 500).unwrap();
    assert_eq!(shape(&e), "(Add a (Multiply b c))");
    assert_eq!(parser.peek(), Token::Lt);
    let mut parser = Parser::new(0, b"f(a) = b").unwrap();
    let e = parse_expr(&mut parser, 101).unwrap();
    assert_eq!(shape(&e), "(f a)");
    assert_eq!(parser.peek(), Token::Eq);
}

#[test]
fn conditionals() {
    assert_eq!(shape_of("if a { 1 } else { 2 }"), "(if a { 1} else { 2})");
    assert_eq!(
        shape_of("if a { 1 } else if b { 2 } else if c { 3 } else { 4 }"),
        "(if a { 1} b { 2} c { 3} else { 4})"
    );
    assert_eq!(shape_of("if a { 1 } else if b { 2 }"), "(if a { 1} b { 2} else {})");
}

#[test]
fn an_if_without_else_gets_an_empty_block_of_the_same_span() {
    let e = expr("  if a { 1 }").unwrap();
    match e {
        Expr::If(span, pairs, other) => {
            assert_eq!(pairs.len(), 1);
            assert_eq!(span, Span { source: 0, main: 2, start: 2, end: 12 });
            assert_eq!(*other, Expr::Block(span, vec![]));
        },
        other => panic!("{:?}", other),
    }
    match expr("if a { 1 } else if b { 2 }\nc").unwrap() {
        Expr::If(span, pairs, other) => {
            assert_eq!(pairs.len(), 2);
            assert_eq!(*other, Expr::Block(span, vec![]));
        },
        other => panic!("{:?}", other),
    }
    match expr("if a { 1 } else { 2 }").unwrap() {
        Expr::If(span, _, other) => {
            assert_eq!(span, Span { source: 0, main: 0, start: 0, end: 21 });
            assert_eq!(*other, Expr::Block(sp(16, 21), vec![Expr::Int(sp(18, 19), 2)]));
        },
        other => panic!("{:?}", other),
    }
}

#[test]
fn the_else_of_an_if_needs_an_if_or_a_block() {
    assert_eq!(
        expr("if a { } else 3"),
        Err(invalid(0, 2, "if or block (in else-branch)", "Int(3)"))
    );
}

#[test]
fn loops_and_declarations() {
    let e = expr("while a < 3 { a = a + 1 }").unwrap();
    match e {
        Expr::While(span, cond, body) => {
            assert_eq!(span, Span { source: 0, main: 0, start: 0, end: 25 });
            assert_eq!(shape(&cond), "(Less a 3)");
            assert_eq!(shape(&body), "{ (set a (Add a 1))}");
        },
        other => panic!("{:?}", other),
    }
    assert_eq!(
        expr("var x = 1"),
        Ok(Expr::DeclVar(sp(0, 9), b"x".to_vec(), None, Box::new(Expr::Int(sp(8, 9), 1))))
    );
    assert_eq!(
        expr("var x f32 = y"),
        Ok(Expr::DeclVar(sp(0, 13), b"x".to_vec(), Some(Type::F32), Box::new(var(12, "y"))))
    );
    assert_eq!(expr("var if = 1"), Err(invalid(4, 6, "Name", "reserved name \"if\"")));
    assert_eq!(expr("var x 1"), Err(invalid(6, 7, "Exact(Eq)", "Int(1)")));
}

#[test]
fn blocks_hold_statements() {
    assert_eq!(shape_of("{}"), "{}");
    assert_eq!(shape_of("{ a }"), "{ a}");
    assert_eq!(shape_of("{\n a; b\n\n c\n}"), "{ a b c}");
    assert_eq!(shape_of("{ a;;; }"), "{ a}");
    assert_eq!(expr("{ a b }"), Err(invalid(4, 5, "Exact(Newline)", "Name(\"b\")")));
    assert_eq!(expr("{ a"), Err(invalid(3, 3, "Expression", "EOF")));
}

#[test]
fn intrinsics() {
    assert_eq!(expr("$cstr(\"a\\n\")"), Ok(Expr::CString(sp(0, 12), b"a\n".to_vec())));
    assert_eq!(
        expr("$asm([x, 1], i32, \"i32.add\")"),
        Ok(Expr::Asm(
            sp(0, 1),
            vec![var(6, "x"), Expr::Int(sp(9, 10), 1)],
            ReturnType::Value(Type::I32),
            b"i32.add".to_vec()
        ))
    );
    assert_eq!(
        expr("$asm([], void, r\"nop\",)"),
        Ok(Expr::Asm(sp(0, 1), vec![], ReturnType::Void, b"nop".to_vec()))
    );
    assert_eq!(
        expr("$read1(p)"),
        Ok(Expr::Read(sp(0, 9), Width::One, Box::new(var(7, "p")), 0))
    );
    assert_eq!(
        expr("$read8(p, offset: 16)"),
        Ok(Expr::Read(sp(0, 21), Width::Eight, Box::new(var(7, "p")), 16))
    );
    assert_eq!(
        expr("$read2(p,)"),
        Ok(Expr::Read(sp(0, 10), Width::Two, Box::new(var(7, "p")), 0))
    );
    assert_eq!(
        expr("$write4(p, v, offset: 4,)"),
        Ok(Expr::Write(sp(0, 25), Width::Four, Box::new(var(8, "p")), Box::new(var(11, "v")), 4))
    );
    assert_eq!(
        expr("$read4(p, offset: -1)"),
        Err(invalid(18, 19, "const uint", "I32(-1)"))
    );
    assert_eq!(
        expr("$read4(p, offset: i32)"),
        Err(invalid(18, 21, "const uint", "Type(I32)"))
    );
}

#[test]
fn unknown_intrinsics_are_errors() {
    assert_eq!(expr("$frob(1)"), Err(ParseError::NoSuchIntrinsic(sp(0, 1), b"frob".to_vec())));
    assert_eq!(expr("$read3(p)"), Err(ParseError::NoSuchIntrinsic(sp(0, 1), b"read3".to_vec())));
    assert_eq!(expr("$ 1"), Err(invalid(0, 1, "intrinsic name", "Int(1)")));
}

#[test]
fn errors_of_expressions() {
    assert_eq!(expr(")"), Err(invalid(0, 1, "Expression", "RParen")));
    assert_eq!(expr(""), Err(invalid(0, 0, "Expression", "EOF")));
    assert_eq!(expr("(a"), Err(invalid(2, 2, "Exact(RParen)", "EOF")));
    assert_eq!(expr("a +"), Err(invalid(3, 3, "Expression", "EOF")));
    assert_eq!(
        expr("1 = 2"),
        Err(invalid(2, 3, "Assignment", "assignments only supported for variables"))
    );
    assert_eq!(
        expr("f()()"),
        Err(invalid(3, 4, "Function call", "indirect function calls not yet supported"))
    );
    assert_eq!(expr("[a b]"), Err(invalid(3, 4, "Exact(RBracket)", "Name(\"b\")")));
    assert_eq!(expr("a.b"), Err(invalid(2, 3, "Exact(LParen)", "Name(\"b\")")));
    assert_eq!(expr("\"\\q\""), Err(ParseError::InvalidEscape(sp(0, 4), b'q')));
}

fn constant(text: &str) -> Result<ConstValue, ParseError> {
    let mut parser = Parser::new(0, text.as_bytes()).unwrap();
    parser.add_constant(b"N", ConstValue::I32(10));
    parser.add_constant(b"T", ConstValue::Type(Type::List));
    parser.add_constant(b"N", ConstValue::I32(12));
    let e = parse_expr(&mut parser, 0)?;
    eval_constexpr(&e, &parser)
}

#[test]
fn constant_expressions() {
    assert_eq!(constant("5"), Ok(ConstValue::I32(5)));
    assert_eq!(constant("N"), Ok(ConstValue::I32(12)));
    assert_eq!(constant("T"), Ok(ConstValue::Type(Type::List)));
    assert_eq!(constant("f64"), Ok(ConstValue::Type(Type::F64)));
    assert_eq!(constant("-N + 2 * 3"), Ok(ConstValue::I32(-6)));
    assert_eq!(constant("+N - 20"), Ok(ConstValue::I32(-8)));
    assert_eq!(constant("7 // 2"), Ok(ConstValue::I32(3)));
    assert_eq!(constant("-7 // 2"), Ok(ConstValue::I32(-3)));
    assert_eq!(constant("7 // -2"), Ok(ConstValue::I32(-3)));
    assert_eq!(constant("(-7) // (-2)"), Ok(ConstValue::I32(3)));
    assert_eq!(constant("7 % 3"), Ok(ConstValue::I32(1)));
    assert_eq!(constant("-7 % 3"), Ok(ConstValue::I32(-1)));
    assert_eq!(constant("7 % -3"), Ok(ConstValue::I32(1)));
    assert_eq!(constant("2147483647"), Ok(ConstValue::I32(i32::MAX)));
    assert_eq!(constant("2147483648"), Ok(ConstValue::I32(i32::MIN)));
    assert_eq!(constant("4294967295"), Ok(ConstValue::I32(-1)));
    assert_eq!(constant("4294967297"), Ok(ConstValue::I32(1)));
    assert_eq!(constant("9223372036854775807"), Ok(ConstValue::I32(-1)));
    assert_eq!(constant("-2147483647 - 1"), Ok(ConstValue::I32(i32::MIN)));
}

#[test]
fn constant_expressions_that_are_none() {
    assert_eq!(constant("2147483647 + 1"), Err(invalid(11, 14, "i32", "overflow")));
    assert_eq!(constant("65536 * 65536"), Err(invalid(6, 13, "i32", "overflow")));
    assert_eq!(constant("1 // 0"), Err(invalid(2, 6, "i32", "overflow")));
    assert_eq!(constant("1 % 0"), Err(invalid(2, 5, "i32", "overflow")));
    assert_eq!(constant("-(-2147483647 - 1)"), Err(invalid(0, 1, "i32", "overflow")));
    assert_eq!(constant("M"), Err(invalid(0, 1, "named constant", "NotFound")));
    assert_eq!(constant("1 / 2"), Err(invalid(2, 5, "constexpr", "non-const expression")));
    assert_eq!(constant("!1"), Err(invalid(0, 1, "constexpr", "non-const expression")));
    assert_eq!(constant("f(1)"), Err(invalid(1, 4, "constexpr", "non-const expression")));
    assert_eq!(constant("-T"), Err(invalid(0, 1, "i32", "Type(List)")));
    assert_eq!(constant("N + T"), Err(invalid(2, 5, "addable values", "I32(12), Type(List)")));
    assert_eq!(constant("T - 1"), Err(invalid(2, 5, "subtractable values", "Type(List), I32(1)")));
    assert_eq!(constant("T * T"), Err(invalid(2, 5, "multiplicable values", "Type(List), Type(List)")));
    assert_eq!(constant("1 // T"), Err(invalid(2, 6, "trunc-dividable values", "I32(1), Type(List)")));
    assert_eq!(constant("1 % T"), Err(invalid(2, 5, "rem-able values", "I32(1), Type(List)")));
}

#[test]
fn a_file_with_everything() {
    let text = "\n# a program\nimport fn \"env\" \"log\" log(i32)\nimport fn \"env\" \"now\" now() f64\n\nconst K = 2 + 3\nvar [pub] count = K\nvar name str = \"x\"\nfn [pub] main(a i32, b str,) i32 {\n  a\n}\nfn helper() { }\nconst L = K * 2;\n";
    let file = parse_source(0, text.as_bytes()).unwrap();
    assert_eq!(file.imports.len(), 2);
    match &file.imports[0] {
        wac::ir::Import::Function(i) => {
            assert_eq!(i.module_name, b"env".to_vec());
            assert_eq!(i.function_name, b"log".to_vec());
            assert_eq!(i.alias, b"log".to_vec());
            assert_eq!(i.type_.parameter_types, vec![Type::I32]);
            assert_eq!(i.type_.return_type, ReturnType::Void);
            assert_eq!(i.span.start, text.find("import").unwrap());
            assert_eq!(i.span.start, 13);
        },
    }
    assert_eq!(file.imports[1].span().start, text.rfind("import").unwrap());
    assert_eq!(file.constants.len(), 2);
    assert_eq!(file.constants[0].name, b"K".to_vec());
    assert_eq!(file.constants[0].value, ConstValue::I32(5));
    assert_eq!(file.constants[1].value, ConstValue::I32(10));
    assert_eq!(file.constants[1].value.type_(), Type::I32);
    assert_eq!(file.globalvars.len(), 2);
    assert_eq!(file.globalvars[0].visibility, Visibility::Public);
    assert_eq!(file.globalvars[0].type_, None);
    assert_eq!(file.globalvars[1].visibility, Visibility::Private);
    assert_eq!(file.globalvars[1].type_, Some(Type::String));
    assert_eq!(file.functions.len(), 2);
    let main = &file.functions[0];
    assert_eq!(main.name, b"main".to_vec());
    assert_eq!(main.visibility, Visibility::Public);
    assert_eq!(main.parameters, vec![(b"a".to_vec(), Type::I32), (b"b".to_vec(), Type::String)]);
    assert_eq!(main.return_type, ReturnType::Value(Type::I32));
    assert_eq!(main.type_().parameter_types, vec![Type::I32, Type::String]);
    assert_eq!(main.type_().return_type, ReturnType::Value(Type::I32));
    assert_eq!(file.functions[1].return_type, ReturnType::Void);
    assert_eq!(file.functions[1].visibility, Visibility::Private);
    assert_eq!(shape(&file.functions[1].body), "{}");
    assert_eq!(*file.functions[0].body.span(), file.functions[0].body.span().clone());
}

#[test]
fn errors_of_files() {
    assert_eq!(
        parse_source(0, b"x = 1"),
        Err(Error::Parse(invalid(0, 1, "Function", "Name(\"x\")")))
    );
    assert_eq!(
        parse_source(0, b"fn f() { }\nimport fn \"a\" \"b\" c()"),
        Err(Error::Parse(invalid(11, 17, "Function", "Name(\"import\")")))
    );
    assert_eq!(
        parse_source(0, b"fn [pub x] f() { }"),
        Err(Error::Parse(invalid(0, 2, "Function attribute", "Name(\"x\")")))
    );
    assert_eq!(
        parse_source(0, b"var [priv] f = 1"),
        Err(Error::Parse(invalid(0, 3, "Global variable attribute", "Name(\"priv\")")))
    );
    assert_eq!(
        parse_source(0, b"import \"a\" \"b\" c()"),
        Err(Error::Parse(invalid(7, 10, "Exact(Name(\"fn\"))", "NormalString(\"a\")")))
    );
    assert_eq!(
        parse_source(0, b"fn f(a) { }"),
        Err(Error::Parse(invalid(6, 7, "Type", "RParen")))
    );
    assert_eq!(
        parse_source(0, b"const A = B"),
        Err(Error::Parse(invalid(10, 11, "named constant", "NotFound")))
    );
    match parse_source(4, b"fn f() { \"abc }") {
        Err(Error::Lex(e)) => {
            assert_eq!(e.span, Span { source: 4, main: 9, start: 9, end: 15 });
        },
        other => panic!("{:?}", other),
    }
}

#[test]
fn an_empty_file_parses() {
    let file = parse_source(0, b"\n\n # nothing\n;").unwrap();
    assert_eq!(file.imports.len() + file.constants.len() + file.functions.len() + file.globalvars.len(), 0);
}

#[test]
fn a_token_is_the_pattern_that_takes_it_alone() {
    let p = Pattern::from(Token::LParen);
    assert!(p.matches(Token::LParen, b"("));
    assert!(!p.matches(Token::RParen, b")"));
    assert!(!p.matches(Token::Name, b"("));
    let n = Pattern::from(Token::Int(3));
    assert!(n.matches(Token::Int(3), b"3"));
    assert!(!n.matches(Token::Int(4), b"4"));
    let mut parser = Parser::new(0, b"( 3").unwrap();
    assert!(parser.at(Token::LParen.into()));
    assert!(!parser.at(Token::RParen.into()));
    assert!(parser.consume(Token::LParen.into()));
    assert!(parser.at(Pattern::Int));
}

#[test]
fn tokens_are_named_with_what_they_hold() {
    let mut parser = Parser::new(0, b"\"a\\nb\" r\"c\" 0x10 1.5 x").unwrap();
    assert_eq!(
        parser.expect(Token::Comma.into()),
        Err(invalid(0, 6, "Exact(Comma)", "NormalString(\"a\\\\nb\")"))
    );
    parser.gettok();
    assert_eq!(parser.expect(Pattern::Int), Err(invalid(7, 11, "Int", "RawString(\"c\")")));
    parser.gettok();
    assert_eq!(parser.expect(Pattern::Name), Err(invalid(12, 16, "Name", "Int(16)")));
    assert_eq!(
        parser.expect(Token::Int(3).into()),
        Err(invalid(12, 16, "Exact(Int(3))", "Int(16)"))
    );
    parser.gettok();
    assert_eq!(parser.expect(Pattern::String), Err(invalid(17, 20, "String", "Float(1.5)")));
    parser.gettok();
    assert_eq!(
        parser.expect(Pattern::Word("fn")),
        Err(invalid(21, 22, "Exact(Name(\"fn\"))", "Name(\"x\")"))
    );
}
