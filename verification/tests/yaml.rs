use otree::doc::Node;
use otree::parse::syntax::SyntaxToken;
use otree::parse::yaml::{from_documents, highlight_stream, YamlParser};
use otree::parse::{ContentType, ParseError};

fn num(text: &str) -> Node {
    Node::Number(text.to_string())
}

fn text(text: &str) -> Node {
    Node::String(text.to_string())
}

fn object(fields: Vec<(&str, Node)>) -> Node {
    Node::Object(fields.into_iter().map(|(k, v)| (k.to_string(), v)).collect())
}

#[test]
fn yaml_test_syntax_highlight() {
    let test_cases = [
        (
            "name: otree\nversion: 1\nstable: true\nnothing: null\nratio: 0.5\n",
            "name: otree\nversion: 1\nstable: true\nnothing: null\nratio: 0.5",
        ),
        (
            "bool: \"true\"\nnumber: \"12\"\nempty: \"\"\nsentence: \"two words\"\npath: \"/usr/bin\"",
            "bool: \"true\"\nnumber: \"12\"\nempty: \"\"\nsentence: \"two words\"\npath: \"/usr/bin\"",
        ),
        (
            "outer:\n    inner:\n        leaf: 1\n    other: {}\nlast: []\n",
            "outer:\n  inner:\n    leaf: 1\n  other: {}\nlast: []",
        ),
        (
            "items:\n- id: 1\n  name: first\n- id: 2\n  name: second\n",
            "items:\n  - id: 1\n    name: first\n  - id: 2\n    name: second",
        ),
        (
            "matrix: [[1, 2], [3]]\nflat: [a, b]\n",
            "matrix:\n  - - 1\n    - 2\n  - - 3\nflat:\n  - a\n  - b",
        ),
        (
            "text: |\n  first line\n  second line\nafter: 1\n",
            "text: |\n  first line\n  second line\nafter: 1",
        ),
        (
            "a: 1\n---\nb: 2\n",
            "a: 1\n---\nb: 2",
        ),
        ("{}", "{}"),
    ];

    let parser = YamlParser {};
    for (raw, expect) in test_cases {
        let value = parser.parse(raw).unwrap();
        let tokens = parser.syntax_highlight("", &value);
        let result = SyntaxToken::pure_text(&tokens);
        assert_eq!(result, expect);

        let highlight_value = parser.parse(&result).unwrap();
        assert_eq!(value, highlight_value);
    }
}

#[test]
fn yaml_parse_builds_the_document() {
    let value = (YamlParser {})
        .parse("a: 1\nb:\n  - x\n  - 2.5\n  - null\n  - false\nc:\n  d: e\n")
        .unwrap();
    assert_eq!(
        value,
        object(vec![
            ("a", num("1")),
            ("b", Node::Array(vec![text("x"), num("2.5"), Node::Null, Node::Bool(false)])),
            ("c", object(vec![("d", text("e"))])),
        ])
    );
}

#[test]
fn yaml_two_documents_are_an_array() {
    let parser = YamlParser {};
    let value = parser.parse("name: one\n---\nname: two\n").unwrap();
    assert_eq!(
        value,
        Node::Array(vec![
            object(vec![("name", text("one"))]),
            object(vec![("name", text("two"))]),
        ])
    );
    let tokens = parser.syntax_highlight("", &value);
    let separators = tokens
        .iter()
        .filter(|t| matches!(t, SyntaxToken::Symbol("---")))
        .count();
    assert_eq!(separators, 1);
    let rendered = SyntaxToken::pure_text(&tokens);
    assert_eq!(rendered, "name: one\n---\nname: two");
    let parts: Vec<&str> = rendered.split("\n---\n").collect();
    assert_eq!(parts, vec!["name: one", "name: two"]);
    assert_eq!(parser.parse(&rendered).unwrap(), value);
}

#[test]
fn yaml_one_document_is_the_value_itself() {
    assert_eq!(
        (YamlParser {}).parse("---\nk: v\n").unwrap(),
        object(vec![("k", text("v"))])
    );
}

#[test]
fn yaml_without_a_document_is_refused() {
    match from_documents(&Vec::new()) {
        Err(ParseError::Syntax { format, line, detail }) => {
            assert_eq!(format, ContentType::Yaml);
            assert_eq!(line, None);
            assert_eq!(detail, "no document found in YAML data");
        }
        other => panic!("unexpected result: {other:?}"),
    }
}

#[test]
fn yaml_empty_text_is_one_empty_document() {
    assert_eq!((YamlParser {}).parse("").unwrap(), Node::Null);
}

#[test]
fn yaml_documents_from_values() {
    let one = vec![serde_json::Value::Bool(true)];
    assert_eq!(from_documents(&one).unwrap(), Node::Bool(true));
    let two = vec![serde_json::Value::Null, serde_json::Value::String("x".to_string())];
    assert_eq!(from_documents(&two).unwrap(), Node::Array(vec![Node::Null, text("x")]));
}

#[test]
fn yaml_syntax_error() {
    match (YamlParser {}).parse("a: [1, 2") {
        Err(ParseError::Syntax { format, .. }) => assert_eq!(format, ContentType::Yaml),
        other => panic!("unexpected result: {other:?}"),
    }
}

#[test]
fn yaml_string_true_is_quoted() {
    let tokens = highlight_stream(&object(vec![("flag", text("true")), ("real", Node::Bool(true))]));
    assert_eq!(
        tokens,
        vec![
            SyntaxToken::Indent(0),
            SyntaxToken::Name("flag".to_string()),
            SyntaxToken::Symbol(": "),
            SyntaxToken::String("\"true\"".to_string()),
            SyntaxToken::Break,
            SyntaxToken::Indent(0),
            SyntaxToken::Name("real".to_string()),
            SyntaxToken::Symbol(": "),
            SyntaxToken::Bool("true"),
        ]
    );
    let parser = YamlParser {};
    let parsed = parser.parse(&SyntaxToken::pure_text(&tokens)).unwrap();
    assert_eq!(parsed, object(vec![("flag", text("true")), ("real", Node::Bool(true))]));
}

#[test]
fn yaml_field_names_are_quoted_only_if_not_standard() {
    let value = object(vec![
        ("plain-name_1", num("1")),
        ("with space", num("2")),
        ("a:b", num("3")),
        ("", num("4")),
    ]);
    let rendered = SyntaxToken::pure_text(&highlight_stream(&value));
    assert_eq!(
        rendered,
        "plain-name_1: 1\n\"with space\": 2\n\"a:b\": 3\n\"\": 4"
    );
    assert_eq!((YamlParser {}).parse(&rendered).unwrap(), value);
}

#[test]
fn yaml_block_with_an_empty_line() {
    let value = object(vec![("t", text("a\n\nb\n"))]);
    let rendered = SyntaxToken::pure_text(&highlight_stream(&value));
    assert_eq!(rendered, "t: |\n  a\n\n  b");
}

#[test]
fn yaml_empty_array_at_the_top() {
    let tokens = highlight_stream(&Node::Array(vec![]));
    assert_eq!(tokens, vec![SyntaxToken::Symbol("[]")]);
}

#[test]
fn yaml_scalars_at_the_top() {
    assert_eq!(SyntaxToken::pure_text(&highlight_stream(&Node::Null)), "null");
    assert_eq!(SyntaxToken::pure_text(&highlight_stream(&num("7"))), "7");
    assert_eq!(SyntaxToken::pure_text(&highlight_stream(&Node::Object(vec![]))), "{}");
}
