use otree::doc::Node;
use otree::parse::jsonl::JsonlParser;
use otree::parse::syntax::SyntaxToken;
use otree::parse::{ContentType, ParseError};

fn num(text: &str) -> Node {
    Node::Number(text.to_string())
}

fn text(text: &str) -> Node {
    Node::String(text.to_string())
}

fn object(fields: Vec<(&str, Node)>) -> Node {
    Node::Object(fields.into_iter().map(|(k, v)| (k.to_string(), v)).collect())
}

#[test]
fn jsonl_test_syntax_highlight() {
    let test_cases = [
        (
            "[\"name\", \"age\"]\n[\"Tom\", 30]\n",
            "[\n  [\n    \"name\",\n    \"age\"\n  ],\n  [\n    \"Tom\",\n    30\n  ]\n]\n",
        ),
        (
            "{\"id\": 1}\n{\"id\": 2}\n\n{\"id\": 3}",
            "[\n  {\n    \"id\": 1\n  },\n  {\n    \"id\": 2\n  },\n  {\n    \"id\": 3\n  }\n]\n",
        ),
        (
            "  {\"a\": {\"b\": [1, {\"c\": null}]}}  \r\n\t\n{\"d\": \"e\"}\r\n",
            "[\n  {\n    \"a\": {\n      \"b\": [\n        1,\n        {\n          \"c\": null\n        }\n      ]\n    }\n  },\n  {\n    \"d\": \"e\"\n  }\n]\n",
        ),
    ];

    let parser = JsonlParser {};
    for (raw, expect) in test_cases {
        let value = parser.parse(raw).unwrap();
        let tokens = parser.syntax_highlight("", &value);
        let result = SyntaxToken::pure_text(&tokens);
        assert_eq!(result, expect);
    }
}

#[test]
fn jsonl_parse_builds_an_array() {
    let value = (JsonlParser {}).parse("{\"a\": 1}\n\"x\"\n3\n").unwrap();
    assert_eq!(
        value,
        Node::Array(vec![object(vec![("a", num("1"))]), text("x"), num("3")])
    );
    assert_eq!((JsonlParser {}).parse("").unwrap(), Node::Array(vec![]));
    assert_eq!((JsonlParser {}).parse("\n  \n").unwrap(), Node::Array(vec![]));
}

#[test]
fn jsonl_error_names_the_line() {
    match (JsonlParser {}).parse("{\"a\": 1}\n\n{\"b\": \n{\"c\": 3}\n") {
        Err(ParseError::Syntax { format, line, detail }) => {
            assert_eq!(format, ContentType::Jsonl);
            assert_eq!(line, Some(3));
            assert!(!detail.is_empty());
        }
        other => panic!("unexpected result: {other:?}"),
    }
}

#[test]
fn jsonl_extension_is_json() {
    assert_eq!((JsonlParser {}).extension(), "json");
    assert!((JsonlParser {}).allow_array_root());
}
