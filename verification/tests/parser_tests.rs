use template_engine::errors::CompileError;
use template_engine::errors::LexError;
use template_engine::errors::ParseError;
use template_engine::nodes::Node;
use template_engine::nodes::Value;
use template_engine::parser::Parser;
use template_engine::spans::Span;
use template_engine::spans::Spanned;

fn parse_one_element(input: &str) -> Spanned<Node> {
    let mut nodes = Parser::parse(input, 0).unwrap();
    assert_eq!(nodes.len(), 1);
    nodes.remove(0)
}

#[test]
fn mismatched_tags_fail() {
    let err = Parser::parse("<a></b>", 0).unwrap_err();
    match err {
        CompileError::Parse(sp) => match sp.item {
            ParseError::UnmatchedTag { start_tag, end_tag } => {
                assert_eq!(start_tag.item, "a");
                assert_eq!(end_tag.item, "b");
                assert_eq!(start_tag.span, Span::new(0, 0, 3));
                assert_eq!(end_tag.span, Span::new(0, 3, 7));
            }
            other => panic!("expected an unmatched tag error, got {:?}", other),
        },
        other => panic!("expected a parse error, got {:?}", other),
    }
}

#[test]
fn self_closing_element() {
    let node = parse_one_element("<img/>");
    match &node.item {
        Node::Element(e) => {
            assert_eq!(e.name, "img");
            assert_eq!(e.props.len(), 0);
            assert!(e.children.is_empty());
            assert!(e.end_tag_span.is_none());
            assert_eq!(e.start_tag_span, Span::new(0, 0, 6));
        }
        other => panic!("expected an element, got {:?}", other),
    }
    assert_eq!(node.span, Span::new(0, 0, 6));
}

#[test]
fn self_closing_element_with_props() {
    let node = parse_one_element("<br a=1/>");
    match &node.item {
        Node::Element(e) => {
            assert_eq!(e.name, "br");
            assert_eq!(e.props.len(), 1);
            assert!(e.children.is_empty());
            assert!(e.end_tag_span.is_none());
        }
        other => panic!("expected an element, got {:?}", other),
    }
}

#[test]
fn properties_string_and_bare_flag() {
    let node = parse_one_element("<a href=\"x\" disabled>");
    match &node.item {
        Node::Element(e) => {
            let href = e.props.get("href").unwrap();
            assert!(matches!(&href.item, Value::String(s) if s == "x"));
            let dis = e.props.get("disabled").unwrap();
            assert!(matches!(&dis.item, Value::Bool(true)));
            assert_eq!(e.props.len(), 2);
            assert!(e.props.get("missing").is_none());
        }
        other => panic!("expected an element, got {:?}", other),
    }
}

#[test]
fn repeated_property_last_write_wins() {
    let node = parse_one_element("<a k=1 k=2>");
    match &node.item {
        Node::Element(e) => {
            assert_eq!(e.props.len(), 1);
            let k = e.props.get("k").unwrap();
            assert!(matches!(&k.item, Value::Int(2)));
        }
        other => panic!("expected an element, got {:?}", other),
    }
}

#[test]
fn property_values_of_every_literal_kind() {
    let node = parse_one_element("<a i=-42 f=3.14 s=\"v\" t=true g=false n=null>");
    match &node.item {
        Node::Element(e) => {
            assert!(matches!(&e.props.get("i").unwrap().item, Value::Int(-42)));
            assert!(matches!(&e.props.get("f").unwrap().item, Value::Float(t) if t == "3.14"));
            assert!(matches!(&e.props.get("s").unwrap().item, Value::String(s) if s == "v"));
            assert!(matches!(&e.props.get("t").unwrap().item, Value::Bool(true)));
            assert!(matches!(&e.props.get("g").unwrap().item, Value::Bool(false)));
            assert!(matches!(&e.props.get("n").unwrap().item, Value::Null));
        }
        other => panic!("expected an element, got {:?}", other),
    }
}

#[test]
fn underscored_int_value() {
    let node = parse_one_element("<a n=1_000>");
    match &node.item {
        Node::Element(e) => {
            assert!(matches!(&e.props.get("n").unwrap().item, Value::Int(1000)));
        }
        other => panic!("expected an element, got {:?}", other),
    }
}

#[test]
fn out_of_range_int_value_fails() {
    let err = Parser::parse("<a n=99999999999999999999>", 0).unwrap_err();
    match err {
        CompileError::Parse(sp) => {
            assert!(matches!(sp.item, ParseError::Unspecified(_)));
        }
        other => panic!("expected a parse error, got {:?}", other),
    }
}

#[test]
fn bad_value_token_fails() {
    let err = Parser::parse("<a n=,>", 0).unwrap_err();
    match err {
        CompileError::Parse(sp) => {
            assert!(matches!(sp.item, ParseError::UnexpectedToken(_)));
        }
        other => panic!("expected a parse error, got {:?}", other),
    }
}

#[test]
fn bad_property_name_fails() {
    let err = Parser::parse("<a ,>", 0).unwrap_err();
    match err {
        CompileError::Parse(sp) => {
            assert!(matches!(sp.item, ParseError::InvalidToken(_, _)));
        }
        other => panic!("expected a parse error, got {:?}", other),
    }
}

#[test]
fn truncated_close_tag_fails() {
    let err = Parser::parse("<a></", 0).unwrap_err();
    match err {
        CompileError::Parse(sp) => {
            assert!(matches!(sp.item, ParseError::UnexpectedStreamEnd));
        }
        other => panic!("expected a parse error, got {:?}", other),
    }
}

#[test]
fn lexical_error_aborts_the_parse() {
    let err = Parser::parse("<a>~</a>", 0).unwrap_err();
    match err {
        CompileError::Lex(sp) => {
            assert!(matches!(sp.item, LexError::UnexpectedChar('~')));
        }
        other => panic!("expected a lexical error, got {:?}", other),
    }
}

#[test]
fn raw_tag_content_stays_text() {
    let node = parse_one_element("<script>1 < 2</script>");
    match &node.item {
        Node::Element(e) => {
            assert_eq!(e.name, "script");
            assert!(e.end_tag_span.is_some());
            let mut rebuilt = String::new();
            for child in &e.children {
                match &child.item {
                    Node::Text(t) => rebuilt.push_str(t),
                    other => panic!("markup inside a raw tag: {:?}", other),
                }
            }
            assert_eq!(rebuilt, "1 < 2");
        }
        other => panic!("expected an element, got {:?}", other),
    }
}

#[test]
fn custom_raw_tags_via_make() {
    let mut parser = Parser::make("x", 9, vec!["code".to_string()]);
    assert_eq!(parser.raw_tags, vec!["code".to_string()]);
    let node = parser.parse_text().unwrap();
    assert!(matches!(&node.item, Node::Text(t) if t == "x"));
}

#[test]
fn balanced_tags_close_every_element() {
    let node = parse_one_element("<a><b>x</b></a>");
    match &node.item {
        Node::Element(e) => {
            assert_eq!(e.name, "a");
            assert!(e.end_tag_span.is_some());
            assert_eq!(e.children.len(), 1);
            match &e.children[0].item {
                Node::Element(b) => {
                    assert_eq!(b.name, "b");
                    assert!(b.end_tag_span.is_some());
                    assert_eq!(b.children.len(), 1);
                    assert!(matches!(&b.children[0].item, Node::Text(t) if t == "x"));
                }
                other => panic!("expected a nested element, got {:?}", other),
            }
        }
        other => panic!("expected an element, got {:?}", other),
    }
}

#[test]
fn top_level_spans_cover_the_source_in_order() {
    let src = "hello <b>mid</b> tail";
    let nodes = Parser::parse(src, 0).unwrap();
    let mut last_end = 0usize;
    let mut rebuilt = String::new();
    for n in &nodes {
        assert!(last_end <= n.span.start);
        assert!(n.span.start <= n.span.end && n.span.end <= src.len());
        rebuilt.push_str(&src[n.span.start..n.span.end]);
        last_end = n.span.end;
    }
    assert_eq!(rebuilt, src);
}

#[test]
fn text_nodes_are_trimmed_but_spans_are_not() {
    let nodes = Parser::parse("  hi  ", 0).unwrap();
    assert_eq!(nodes.len(), 1);
    assert!(matches!(&nodes[0].item, Node::Text(t) if t == "hi"));
    assert_eq!(nodes[0].span, Span::new(0, 0, 6));
}

#[test]
fn whitespace_only_content_is_dropped() {
    let node = parse_one_element("<a> \n </a>");
    match &node.item {
        Node::Element(e) => assert!(e.children.is_empty()),
        other => panic!("expected an element, got {:?}", other),
    }
}

#[test]
fn comment_becomes_a_node() {
    let nodes = Parser::parse("<* hi *>x", 0).unwrap();
    assert_eq!(nodes.len(), 2);
    assert!(matches!(&nodes[0].item, Node::Comment(t) if t == " hi "));
    assert_eq!(nodes[0].span, Span::new(0, 2, 6));
    assert!(matches!(&nodes[1].item, Node::Text(t) if t == "x"));
}

#[test]
fn bare_lesser_becomes_text() {
    let nodes = Parser::parse("a < b", 0).unwrap();
    let texts: Vec<&str> = nodes
        .iter()
        .map(|n| match &n.item {
            Node::Text(t) => t.as_str(),
            other => panic!("expected text, got {:?}", other),
        })
        .collect();
    assert_eq!(texts, vec!["a", "<", "b"]);
}

#[test]
fn unclosed_element_ends_at_stream_end() {
    let node = parse_one_element("<a>x");
    match &node.item {
        Node::Element(e) => {
            assert_eq!(e.name, "a");
            assert_eq!(e.children.len(), 1);
            assert_eq!(e.end_tag_span, Some(Span::new(0, 4, 4)));
        }
        other => panic!("expected an element, got {:?}", other),
    }
}

#[test]
fn fragment_close_ends_an_element() {
    let node = parse_one_element("<a>x</>");
    match &node.item {
        Node::Element(e) => {
            assert_eq!(e.name, "a");
            assert_eq!(e.children.len(), 1);
            assert_eq!(e.end_tag_span, Some(Span::new(0, 4, 7)));
        }
        other => panic!("expected an element, got {:?}", other),
    }
}

#[test]
fn parse_raw_text_reads_to_the_next_lesser() {
    let mut parser = Parser::new("ab < cd", 2);
    let node = parser.parse_raw_text().unwrap();
    assert!(matches!(&node.item, Node::Text(t) if t == "ab "));
    assert_eq!(node.span, Span::new(2, 0, 3));
}

#[test]
fn parse_text_concatenates_tokens() {
    let mut parser = Parser::new("a 1 true<b>", 0);
    let node = parser.parse_text().unwrap();
    assert!(matches!(&node.item, Node::Text(t) if t == "a 1 true"));
    assert_eq!(node.span, Span::new(0, 0, 8));
}
