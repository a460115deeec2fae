use wac::lex;
use wac::Span;
use wac::Token;

fn kinds(text: &str) -> Vec<Token> {
    lex(0, text.as_bytes()).unwrap().into_iter().map(|(t, _)| t).collect()
}

fn span(start: usize, end: usize) -> Span {
    Span { source: 0, main: start, start, end }
}

#[test]
fn empty_source_is_only_the_end_of_file() {
    assert_eq!(lex(7, b"").unwrap(), vec![(Token::EOF, Span { source: 7, main: 0, start: 0, end: 0 })]);
}

#[test]
fn blanks_are_skipped_and_newlines_are_tokens() {
    let toks = lex(0, b" \t a\r\n b").unwrap();
    assert_eq!(
        toks,
        vec![
            (Token::Name, span(3, 4)),
            (Token::Newline, span(5, 6)),
            (Token::Name, span(7, 8)),
            (Token::EOF, span(8, 8)),
        ]
    );
}

#[test]
fn a_backslash_suppresses_the_newline_behind_it() {
    assert_eq!(kinds("a \\\n b"), vec![Token::Name, Token::Name, Token::EOF]);
}

#[test]
fn a_backslash_elsewhere_is_an_error() {
    let e = lex(0, b"a \\ b").unwrap_err();
    assert_eq!(e.span, span(2, 3));
    assert_eq!(e.message, b"unrecognized character".to_vec());
}

#[test]
fn comments_run_to_the_end_of_the_line() {
    let toks = lex(0, b"a # b c\nd").unwrap();
    assert_eq!(
        toks,
        vec![
            (Token::Name, span(0, 1)),
            (Token::Newline, span(7, 8)),
            (Token::Name, span(8, 9)),
            (Token::EOF, span(9, 9)),
        ]
    );
    assert_eq!(kinds("# only"), vec![Token::EOF]);
}

#[test]
fn identifiers_hold_letters_digits_and_underscores() {
    let toks = lex(0, b"_a1 B_2 fn").unwrap();
    assert_eq!(
        toks,
        vec![
            (Token::Name, span(0, 3)),
            (Token::Name, span(4, 7)),
            (Token::Name, span(8, 10)),
            (Token::EOF, span(10, 10)),
        ]
    );
}

#[test]
fn integers_in_three_bases() {
    assert_eq!(kinds("0 42 0x1F 0xff 0b101"), vec![
        Token::Int(0),
        Token::Int(42),
        Token::Int(31),
        Token::Int(255),
        Token::Int(5),
        Token::EOF,
    ]);
    assert_eq!(kinds("9223372036854775807"), vec![Token::Int(i64::MAX), Token::EOF]);
    assert_eq!(kinds("0x7fffffffffffffff"), vec![Token::Int(i64::MAX), Token::EOF]);
}

#[test]
fn integers_that_do_not_fit_are_errors() {
    let e = lex(0, b"9223372036854775808").unwrap_err();
    assert_eq!(e.span, span(0, 19));
    assert_eq!(e.message, b"number too large".to_vec());
    let e = lex(0, b" 0x8000000000000000").unwrap_err();
    assert_eq!(e.span, span(1, 19));
    let e = lex(0, b"99999999999999999999999999").unwrap_err();
    assert_eq!(e.message, b"number too large".to_vec());
}

#[test]
fn a_base_prefix_needs_digits() {
    let e = lex(0, b"0x").unwrap_err();
    assert_eq!(e.span, span(0, 2));
    assert_eq!(e.message, b"number without digits".to_vec());
    let e = lex(0, b"0b2").unwrap_err();
    assert_eq!(e.span, span(0, 2));
}

#[test]
fn a_dot_with_digits_or_an_exponent_makes_a_float() {
    assert_eq!(lex(0, b"2.5").unwrap(), vec![(Token::Float, span(0, 3)), (Token::EOF, span(3, 3))]);
    assert_eq!(lex(0, b"1.e5").unwrap()[0], (Token::Float, span(0, 4)));
    assert_eq!(lex(0, b"1.25e-3+").unwrap()[0], (Token::Float, span(0, 7)));
    assert_eq!(lex(0, b"10.0E+2").unwrap()[0], (Token::Float, span(0, 7)));
}

#[test]
fn a_dot_without_fraction_is_a_token_of_its_own() {
    assert_eq!(kinds("1.x"), vec![Token::Int(1), Token::Dot, Token::Name, Token::EOF]);
    assert_eq!(kinds("1..2"), vec![Token::Int(1), Token::Dot2, Token::Int(2), Token::EOF]);
    assert_eq!(kinds("1.e"), vec![Token::Int(1), Token::Dot, Token::Name, Token::EOF]);
    assert_eq!(kinds("1e5"), vec![Token::Int(1), Token::Name, Token::EOF]);
}

#[test]
fn strings_normal_and_raw() {
    let toks = lex(0, b"\"a\\\"b\" r\"c\\\" x").unwrap();
    assert_eq!(
        toks,
        vec![
            (Token::NormalString, span(0, 6)),
            (Token::RawString, span(7, 12)),
            (Token::Name, span(13, 14)),
            (Token::EOF, span(14, 14)),
        ]
    );
    assert_eq!(kinds("\"\" r\"\""), vec![Token::NormalString, Token::RawString, Token::EOF]);
    assert_eq!(kinds("r"), vec![Token::Name, Token::EOF]);
}

#[test]
fn unclosed_strings_are_errors() {
    let e = lex(0, b"x \"abc").unwrap_err();
    assert_eq!(e.span, span(2, 6));
    assert_eq!(e.message, b"unterminated string".to_vec());
    let e = lex(0, b"\"abc\\").unwrap_err();
    assert_eq!(e.span, span(0, 5));
    let e = lex(0, b"\"abc\\\"").unwrap_err();
    assert_eq!(e.span, span(0, 6));
    let e = lex(0, b"r\"abc").unwrap_err();
    assert_eq!(e.span, span(0, 5));
}

#[test]
fn operators_and_punctuation() {
    assert_eq!(
        kinds("+ - * / // % & | ^ << >> == != < > <= >= = ( ) { } [ ] , ; . .. : $ !"),
        vec![
            Token::Plus,
            Token::Minus,
            Token::Star,
            Token::Slash,
            Token::Slash2,
            Token::Percent,
            Token::Ampersand,
            Token::VerticalBar,
            Token::Caret,
            Token::Lt2,
            Token::Gt2,
            Token::Eq2,
            Token::Ne,
            Token::Lt,
            Token::Gt,
            Token::Le,
            Token::Ge,
            Token::Eq,
            Token::LParen,
            Token::RParen,
            Token::LBrace,
            Token::RBrace,
            Token::LBracket,
            Token::RBracket,
            Token::Comma,
            Token::Semicolon,
            Token::Dot,
            Token::Dot2,
            Token::Colon,
            Token::Dollar,
            Token::Exclamation,
            Token::EOF,
        ]
    );
}

#[test]
fn the_longest_operator_wins() {
    assert_eq!(kinds("<<="), vec![Token::Lt2, Token::Eq, Token::EOF]);
    assert_eq!(kinds("==="), vec![Token::Eq2, Token::Eq, Token::EOF]);
    assert_eq!(kinds("..."), vec![Token::Dot2, Token::Dot, Token::EOF]);
    assert_eq!(kinds("!=="), vec![Token::Ne, Token::Eq, Token::EOF]);
}

#[test]
fn unknown_bytes_are_errors_at_their_place() {
    let e = lex(3, b"a @ b").unwrap_err();
    assert_eq!(e.span, Span { source: 3, main: 2, start: 2, end: 3 });
    assert_eq!(e.message, b"unrecognized character".to_vec());
    assert!(lex(0, b"a ? b").is_err());
    assert!(lex(0, &[0xc3, 0xa9]).is_err());
}

#[test]
fn bytes_in_strings_and_comments_are_free() {
    assert_eq!(kinds("\"\u{e9}@\" # \u{e9}@"), vec![Token::NormalString, Token::EOF]);
}

#[test]
fn tokens_are_in_order_and_cover_no_byte_twice() {
    let text = b"fn [pub] f(a i32) i32 {\n  var b = a * 2 # twice\n  b + 0x10\n}\n";
    let toks = lex(0, text).unwrap();
    let mut last_end = 0;
    for (i, (t, s)) in toks.iter().enumerate() {
        assert!(s.start >= last_end);
        assert!(s.end >= s.start);
        assert!(s.end <= text.len());
        assert_eq!(s.main, s.start);
        assert_eq!(*t == Token::EOF, i + 1 == toks.len());
        last_end = s.end;
    }
    assert_eq!(toks.last().unwrap().1, span(text.len(), text.len()));
}
