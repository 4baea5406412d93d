use template_engine::errors::LexError;
use template_engine::lexer::tokenize;
use template_engine::lexer::Lexer;
use template_engine::spans::Span;
use template_engine::tokens::map_keyword;
use template_engine::tokens::TokenEq;
use template_engine::tokens::TokenType;

fn kinds(input: &str) -> Vec<TokenType> {
    tokenize(input, 0)
        .unwrap()
        .into_iter()
        .map(|t| t.kind)
        .collect()
}

#[test]
fn float_token_spans_whole_literal() {
    let toks = tokenize("3.14", 7).unwrap();
    assert_eq!(toks.len(), 1);
    assert_eq!(toks[0].kind, TokenType::Float);
    assert_eq!(toks[0].span, Span::new(7, 0, 4));
}

#[test]
fn underscored_int_is_one_token() {
    let toks = tokenize("1_000", 0).unwrap();
    assert_eq!(toks.len(), 1);
    assert_eq!(toks[0].kind, TokenType::Int);
    assert_eq!(toks[0].span, Span::new(0, 0, 5));
}

#[test]
fn double_dot_number_is_invalid() {
    let err = tokenize("1.2.3", 0).unwrap_err();
    assert!(matches!(err.item, LexError::InvalidNumber));
}

#[test]
fn trailing_dot_at_end_of_input_is_invalid() {
    let err = tokenize("3.", 0).unwrap_err();
    assert!(matches!(err.item, LexError::InvalidNumber));
}

#[test]
fn dot_before_non_digit_ends_the_number() {
    let ks = kinds("3.a");
    assert_eq!(ks, vec![TokenType::Int, TokenType::Dot, TokenType::Word]);
}

#[test]
fn nested_comment_is_one_token() {
    let toks = tokenize("<* a <* b *> c *>", 0).unwrap();
    assert_eq!(toks.len(), 1);
    assert_eq!(toks[0].kind, TokenType::Comment);
    assert_eq!(toks[0].span, Span::new(0, 2, 15));
}

#[test]
fn unterminated_comment_is_an_error() {
    let err = tokenize("<* a <* b *>", 0).unwrap_err();
    assert!(matches!(err.item, LexError::UnterminatedComment));
    assert_eq!(err.span, Span::new(0, 0, 12));
}

#[test]
fn eof_token_is_idempotent() {
    let mut lx = Lexer::new("ab", 3);
    let w = lx.next().unwrap();
    assert_eq!(w.kind, TokenType::Word);
    for _ in 0..5 {
        let t = lx.next().unwrap();
        assert_eq!(t.kind, TokenType::Eof);
        assert_eq!(t.span, Span::new(3, 2, 2));
    }
}

#[test]
fn eof_on_empty_input() {
    let toks = tokenize("", 0).unwrap();
    assert!(toks.is_empty());
    let mut lx = Lexer::new("", 0);
    let t = lx.next().unwrap();
    assert_eq!(t.kind, TokenType::Eof);
    assert_eq!(t.span, Span::new(0, 0, 0));
}

#[test]
fn peek_does_not_consume() {
    let mut lx = Lexer::new("a b", 5);
    let p1 = lx.peek().unwrap();
    let p2 = lx.peek().unwrap();
    assert_eq!(p1, p2);
    assert_eq!(p1.kind, TokenType::Word);
    let n1 = lx.next().unwrap();
    assert_eq!(n1, p1);
}

#[test]
fn peek_next_sees_the_second_token() {
    let lx = Lexer::new("a b", 0);
    let second = lx.peek_next().unwrap();
    assert_eq!(second.kind, TokenType::Space);
    assert_eq!(second.span, Span::new(0, 1, 2));
}

#[test]
fn string_literal_decodes_escapes() {
    let toks = tokenize("\"a\\nb\"", 0).unwrap();
    assert_eq!(toks.len(), 1);
    match &toks[0].kind {
        TokenType::Str(cs) => {
            let text: String = cs.iter().collect();
            assert_eq!(text, "a\nb");
        }
        other => panic!("expected a string token, got {:?}", other),
    }
    assert_eq!(toks[0].span, Span::new(0, 0, 6));
}

#[test]
fn single_quoted_string_works() {
    let toks = tokenize("'hi'", 0).unwrap();
    assert_eq!(toks.len(), 1);
    match &toks[0].kind {
        TokenType::Str(cs) => {
            let text: String = cs.iter().collect();
            assert_eq!(text, "hi");
        }
        other => panic!("expected a string token, got {:?}", other),
    }
}

#[test]
fn unterminated_string_is_an_error() {
    let err = tokenize("\"abc", 0).unwrap_err();
    assert!(matches!(err.item, LexError::UnterminatedStr('"')));
}

#[test]
fn invalid_escape_is_an_error() {
    let err = tokenize("\"a\\qb\"", 0).unwrap_err();
    assert!(matches!(err.item, LexError::InvalidEscape));
}

#[test]
fn unexpected_character_is_an_error() {
    let err = tokenize("~", 0).unwrap_err();
    assert!(matches!(err.item, LexError::UnexpectedChar('~')));
    assert_eq!(err.span, Span::new(0, 0, 1));
}

#[test]
fn keywords_map_to_dedicated_kinds() {
    let ks = kinds("true false null x");
    assert_eq!(
        ks,
        vec![
            TokenType::True,
            TokenType::Space,
            TokenType::False,
            TokenType::Space,
            TokenType::Null,
            TokenType::Space,
            TokenType::Word,
        ]
    );
}

#[test]
fn map_keyword_recognises_only_the_three_keywords() {
    assert_eq!(map_keyword("true"), Some(TokenType::True));
    assert_eq!(map_keyword("false"), Some(TokenType::False));
    assert_eq!(map_keyword("null"), Some(TokenType::Null));
    assert_eq!(map_keyword("nulls"), None);
    assert_eq!(map_keyword(""), None);
}

#[test]
fn closer_tokens() {
    assert_eq!(kinds("</>"), vec![TokenType::End]);
    assert_eq!(kinds("</"), vec![TokenType::LCloser]);
    assert_eq!(kinds("/>"), vec![TokenType::RCloser]);
    assert_eq!(
        kinds("</a>"),
        vec![TokenType::LCloser, TokenType::Word, TokenType::Greater]
    );
}

#[test]
fn bare_lesser_before_non_tag() {
    assert_eq!(kinds("<"), vec![TokenType::Lesser]);
    assert_eq!(kinds("<1"), vec![TokenType::Lesser, TokenType::Int]);
}

#[test]
fn newline_variants() {
    let toks = tokenize("\r\n", 0).unwrap();
    assert_eq!(toks.len(), 1);
    assert_eq!(toks[0].kind, TokenType::NewLine);
    assert_eq!(toks[0].span, Span::new(0, 0, 1));
    assert_eq!(kinds("\n"), vec![TokenType::NewLine]);
    assert_eq!(kinds("\r"), vec![TokenType::Space]);
    assert_eq!(kinds("\t"), vec![TokenType::Space]);
}

#[test]
fn minus_before_alphanumeric_starts_a_number() {
    let toks = tokenize("-5", 0).unwrap();
    assert_eq!(toks.len(), 1);
    assert_eq!(toks[0].kind, TokenType::Int);
    assert_eq!(toks[0].span, Span::new(0, 0, 2));
    assert_eq!(kinds("- "), vec![TokenType::Minus, TokenType::Space]);
}

#[test]
fn unicode_word_is_one_token() {
    let toks = tokenize("h\u{e9}llo", 0).unwrap();
    assert_eq!(toks.len(), 1);
    assert_eq!(toks[0].kind, TokenType::Word);
    assert_eq!(toks[0].span, Span::new(0, 0, 5));
}

#[test]
fn punctuation_kinds() {
    let ks = kinds(".,{}()[]%:$@|&?!*=/ >");
    assert_eq!(
        ks,
        vec![
            TokenType::Dot,
            TokenType::Comma,
            TokenType::LBrace,
            TokenType::RBrace,
            TokenType::LParen,
            TokenType::RParen,
            TokenType::LBracket,
            TokenType::RBracket,
            TokenType::Percent,
            TokenType::Colon,
            TokenType::Dollar,
            TokenType::At,
            TokenType::Pipe,
            TokenType::Ampersand,
            TokenType::Question,
            TokenType::Bang,
            TokenType::Star,
            TokenType::Equal,
            TokenType::Slash,
            TokenType::Space,
            TokenType::Greater,
        ]
    );
}

#[test]
fn significance_helpers() {
    let toks = tokenize("a <*c*>", 0).unwrap();
    assert!(toks[0].is_significant());
    assert!(toks[1].isnt_significant());
    assert!(toks[2].isnt_significant());
    assert!(toks[0].is(&TokenType::Word));
    assert!(toks[0].isnt(&TokenType::Space));
    assert!(toks[0].is_any(&[TokenType::Int, TokenType::Word]));
    assert!(toks[0].isnt_any(&[TokenType::Int, TokenType::Float]));
    assert!(toks[0].is_present());
}

#[test]
fn delimiter_helpers() {
    let toks = tokenize("< </ </> a", 0).unwrap();
    assert!(toks[0].is_delimiter());
    assert!(toks[2].is_delimiter());
    assert!(toks[4].is_delimiter());
    assert!(!toks[6].is_delimiter());
}

#[test]
fn matches_helpers() {
    let toks = tokenize("a", 0).unwrap();
    let t = toks[0].clone();
    assert!(t.ref_matches(&TokenType::Word).is_some());
    assert!(t.ref_matches(&TokenType::Int).is_none());
    assert!(t.clone().matches(&TokenType::Word).is_some());
    assert!(t.matches(&TokenType::Int).is_none());
}
