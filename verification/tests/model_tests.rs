use template_engine::errors::CompileError;
use template_engine::spans::IntoSpanned;
use template_engine::spans::SpanUtil;
use template_engine::tokens::Token;
use template_engine::tokens::TokenType;
use template_engine::errors::LexError;
use template_engine::errors::ParseError;
use template_engine::nodes::Value;
use template_engine::parser::Parser;
use template_engine::props::PropMap;
use template_engine::spans::Span;
use template_engine::spans::Spanned;
use template_engine::text::parse_int_chars;
use template_engine::text::strip_underscores_chars;
use template_engine::text::trim_chars;

#[test]
fn span_combine_takes_start_of_left_and_end_of_right() {
    let a = Span::new(1, 2, 5);
    let b = Span::new(1, 7, 9);
    assert_eq!(a.combine(b), Span::new(1, 2, 9));
}

#[test]
fn span_widen_moves_only_the_end() {
    let a = Span::new(0, 2, 5);
    assert_eq!(a.widen(3), Span::new(0, 2, 8));
}

#[test]
fn line_bounds_expands_to_full_lines() {
    let src = "ab\ncd\nef";
    let s = Span::new(0, 4, 4);
    assert_eq!(s.line_bounds(src), Span::new(0, 3, 5));
    let multi = Span::new(0, 1, 4);
    assert_eq!(multi.line_bounds(src), Span::new(0, 0, 5));
}

#[test]
fn from_last_line_spans_the_final_line() {
    assert_eq!(Span::from_last_line("ab\ncd", 4), Span::new(4, 3, 5));
    assert_eq!(Span::from_last_line("ab\n", 0), Span::new(0, 3, 3));
    assert_eq!(Span::from_last_line("ab", 0), Span::new(0, 0, 2));
}

#[test]
fn spanned_wrappers_keep_the_span() {
    let sp = Spanned::new(5u32, Span::new(0, 1, 2));
    assert_eq!(sp.item, 5);
    let boxed = sp.clone().box_item();
    assert_eq!(*boxed.item, 5);
    assert_eq!(boxed.span, Span::new(0, 1, 2));
    let unboxed = boxed.deref_item();
    assert_eq!(unboxed.item, 5);
    let swapped = sp.swap_item("x");
    assert_eq!(swapped.item, "x");
    assert_eq!(swapped.span, Span::new(0, 1, 2));
}

#[test]
fn prop_map_insert_get_and_overwrite() {
    let mut props = PropMap::new();
    assert_eq!(props.len(), 0);
    props.insert("a".to_string(), Spanned::new(Value::Int(1), Span::new(0, 0, 1)));
    props.insert("b".to_string(), Spanned::new(Value::Bool(true), Span::new(0, 2, 3)));
    assert_eq!(props.len(), 2);
    props.insert("a".to_string(), Spanned::new(Value::Int(9), Span::new(0, 4, 5)));
    assert_eq!(props.len(), 2);
    let a = props.get("a").unwrap();
    assert!(matches!(a.item, Value::Int(9)));
    assert_eq!(a.span, Span::new(0, 4, 5));
    assert!(props.contains_key("b"));
    assert!(!props.contains_key("c"));
}

#[test]
fn parse_int_chars_handles_signs_underscores_and_range() {
    let to_chars = |s: &str| s.chars().collect::<Vec<char>>();
    assert_eq!(parse_int_chars(&to_chars("123")), Some(123));
    assert_eq!(parse_int_chars(&to_chars("1_2_3")), Some(123));
    assert_eq!(parse_int_chars(&to_chars("-45")), Some(-45));
    assert_eq!(parse_int_chars(&to_chars("")), None);
    assert_eq!(parse_int_chars(&to_chars("-")), None);
    assert_eq!(parse_int_chars(&to_chars("1a")), None);
    assert_eq!(
        parse_int_chars(&to_chars("9223372036854775807")),
        Some(i64::MAX)
    );
    assert_eq!(parse_int_chars(&to_chars("9223372036854775808")), None);
    assert_eq!(
        parse_int_chars(&to_chars("-9223372036854775808")),
        Some(i64::MIN)
    );
    assert_eq!(parse_int_chars(&to_chars("-9223372036854775809")), None);
}

#[test]
fn trim_and_strip_helpers() {
    let chars = " \t a b\n ".chars().collect::<Vec<char>>();
    let trimmed: String = trim_chars(&chars).into_iter().collect();
    assert_eq!(trimmed, "a b");
    let nums = "1_0_0".chars().collect::<Vec<char>>();
    let stripped: String = strip_underscores_chars(&nums).into_iter().collect();
    assert_eq!(stripped, "100");
}

#[test]
fn unmatched_tag_report_carries_three_labels() {
    let err = Parser::parse("<a></b>", 0).unwrap_err();
    let report = err.report();
    assert_eq!(
        report.message,
        "The end tag 'b' does not match the start tag 'a'"
    );
    assert_eq!(report.primary.span, Span::new(0, 3, 7));
    assert_eq!(report.secondary.len(), 3);
    assert_eq!(report.secondary[0].span, Span::new(0, 0, 3));
    assert_eq!(report.secondary[1].span, Span::new(0, 3, 7));
    assert_eq!(report.help.as_deref(), Some("Rename 'a' to 'b'."));
}

#[test]
fn unexpected_char_report_names_the_character() {
    let err = Parser::parse("~", 0).unwrap_err();
    let report = err.report();
    assert_eq!(report.message, "Unexpected char '~'");
    assert_eq!(report.primary.span, Span::new(0, 0, 1));
    assert_eq!(err.span(), Span::new(0, 0, 1));
}

#[test]
fn lex_error_reports_anchor_their_span() {
    let err = template_engine::lexer::tokenize("\"oops", 0).unwrap_err();
    assert!(matches!(err.item, LexError::UnterminatedStr('"')));
    let report = err.report();
    assert_eq!(report.message, "Unterminated string");
    assert_eq!(report.primary.span, err.span);
}

#[test]
fn parse_error_reports_anchor_their_span() {
    let err = Parser::parse("<a ,>", 0).unwrap_err();
    match &err {
        CompileError::Parse(sp) => {
            assert!(matches!(sp.item, ParseError::InvalidToken(_, _)));
            let report = sp.report();
            assert_eq!(report.message, "Invalid token 'Comma'");
            assert_eq!(report.primary.span, sp.span);
        }
        other => panic!("expected a parse error, got {:?}", other),
    }
}

#[test]
fn into_spanned_wraps_values() {
    let sp = 7u32.to_spanned(Span::new(0, 1, 2));
    assert_eq!(sp.item, 7);
    assert_eq!(sp.span, Span::new(0, 1, 2));
    assert_eq!(sp.get_span(), Span::new(0, 1, 2));
    let copied = 8u32.as_spanned(sp.clone());
    assert_eq!(copied.item, 8);
    assert_eq!(copied.span, Span::new(0, 1, 2));
    let by_ref = 5u8.to_spanned_ref(Span::new(0, 0, 1));
    assert_eq!(*by_ref.item, 5);
    assert_eq!(sp.take_span(), Span::new(0, 1, 2));
}

#[test]
fn kind_names_are_printable() {
    assert_eq!(TokenType::Word.name(), "Word");
    assert_eq!(TokenType::Str(vec!['a']).name(), "Str");
    assert_eq!(TokenType::RCloser.name(), "RCloser");
}

#[test]
fn token_construction_helpers() {
    let span = Span::new(1, 2, 3);
    let t = TokenType::Word.to_token(span);
    assert_eq!(t, Token::new(TokenType::Word, span));
    assert_eq!(t.span, span);
}
