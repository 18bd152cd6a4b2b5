use otree::doc::Node;
use otree::parse::json::{from_json, highlight, JsonParser};
use otree::parse::syntax::SyntaxToken;
use otree::parse::{ContentType, ParseError};

fn num(text: &str) -> Node {
    Node::Number(text.to_string())
}

fn text(text: &str) -> Node {
    Node::String(text.to_string())
}

fn object(fields: Vec<(&str, Node)>) -> Node {
    Node::Object(fields.into_iter().map(|(k, v)| (k.to_string(), v)).collect())
}

#[test]
fn json_test_syntax_highlight() {
    let test_cases = [
        (
            "{\"name\":\"otree\",\"version\":1,\"stable\":true,\"nothing\":null,\"ratio\":0.5,\"tags\":[\"a\",\"b\"],\"nested\":{\"x\":[],\"y\":{}}}",
            "{\n  \"name\": \"otree\",\n  \"version\": 1,\n  \"stable\": true,\n  \"nothing\": null,\n  \"ratio\": 0.5,\n  \"tags\": [\n    \"a\",\n    \"b\"\n  ],\n  \"nested\": {\n    \"x\": [],\n    \"y\": {}\n  }\n}\n",
        ),
        (
            "[{\"id\": 1, \"name\": \"first\"}, {\"id\": 2, \"name\": \"second\"}]",
            "[\n  {\n    \"id\": 1,\n    \"name\": \"first\"\n  },\n  {\n    \"id\": 2,\n    \"name\": \"second\"\n  }\n]\n",
        ),
        (
            "[\n  [\n    1,\n    2\n  ],\n  [\n    3,\n    4\n  ]\n]\n",
            "[\n  [\n    1,\n    2\n  ],\n  [\n    3,\n    4\n  ]\n]\n",
        ),
        (
            "[\n  [\n    [\n      1\n    ]\n  ],\n  [\n    []\n  ]\n]\n",
            "[\n  [\n    [\n      1\n    ]\n  ],\n  [\n    []\n  ]\n]\n",
        ),
        ("{}\n", "{}\n"),
    ];

    let parser = JsonParser {};
    for (raw, expect) in test_cases {
        let value = parser.parse(raw).unwrap();
        let tokens = parser.syntax_highlight("", &value);
        let result = SyntaxToken::pure_text(&tokens);
        assert_eq!(result, expect);

        let highlight_value = parser.parse(&result).unwrap();
        assert_eq!(value, highlight_value);
    }
}

#[test]
fn json_parse_builds_the_document() {
    let parser = JsonParser {};
    let value = parser
        .parse("{\"b\": [1, -2, 1.5, 1e3, \"x\", null, true], \"a\": {\"k\": \"v\"}}")
        .unwrap();
    assert_eq!(
        value,
        object(vec![
            (
                "b",
                Node::Array(vec![
                    num("1"),
                    num("-2"),
                    num("1.5"),
                    num("1000.0"),
                    text("x"),
                    Node::Null,
                    Node::Bool(true),
                ]),
            ),
            ("a", object(vec![("k", text("v"))])),
        ])
    );
    assert_eq!(parser.parse("3").unwrap(), num("3"));
    assert_eq!(parser.parse("\"s\"").unwrap(), text("s"));
}

#[test]
fn json_parse_keeps_the_last_of_equal_keys_once() {
    let value = (JsonParser {}).parse("{\"a\": 1, \"b\": 2, \"a\": 3}").unwrap();
    assert_eq!(value, object(vec![("a", num("3")), ("b", num("2"))]));
}

#[test]
fn json_parse_error_is_a_syntax_error() {
    match (JsonParser {}).parse("{\"a\": ") {
        Err(ParseError::Syntax { format, line, detail }) => {
            assert_eq!(format, ContentType::Json);
            assert_eq!(line, None);
            assert!(!detail.is_empty());
        }
        other => panic!("unexpected result: {other:?}"),
    }
}

#[test]
fn json_tokens_of_an_object() {
    let value = object(vec![("a", num("1")), ("b", Node::Array(vec![]))]);
    assert_eq!(
        highlight(&value, 0, false),
        vec![
            SyntaxToken::Symbol("{"),
            SyntaxToken::Break,
            SyntaxToken::Indent(1),
            SyntaxToken::Name("\"a\"".to_string()),
            SyntaxToken::Symbol(": "),
            SyntaxToken::Number("1".to_string()),
            SyntaxToken::Symbol(","),
            SyntaxToken::Break,
            SyntaxToken::Indent(1),
            SyntaxToken::Name("\"b\"".to_string()),
            SyntaxToken::Symbol(": "),
            SyntaxToken::Symbol("["),
            SyntaxToken::Symbol("]"),
            SyntaxToken::Break,
            SyntaxToken::Indent(0),
            SyntaxToken::Symbol("}"),
            SyntaxToken::Break,
        ]
    );
}

#[test]
fn json_highlight_at_depth_with_a_follower() {
    let value = Node::Array(vec![text("a\"b")]);
    let tokens = highlight(&value, 2, true);
    assert_eq!(
        SyntaxToken::pure_text(&tokens),
        "[\n      \"a\\\"b\"\n    ],\n"
    );
    assert_eq!(SyntaxToken::pure_text(&highlight(&Node::Null, 0, true)), "null,\n");
    assert_eq!(SyntaxToken::pure_text(&highlight(&Node::Bool(false), 0, false)), "false\n");
}

#[test]
fn json_empty_object_round_trips() {
    let parser = JsonParser {};
    let value = parser.parse("{}").unwrap();
    assert_eq!(value, Node::Object(vec![]));
    let tokens = parser.syntax_highlight("", &value);
    assert_eq!(tokens, vec![SyntaxToken::Symbol("{"), SyntaxToken::Symbol("}"), SyntaxToken::Break]);
    assert_eq!(parser.parse(&SyntaxToken::pure_text(&tokens)).unwrap(), value);
}

#[test]
fn json_field_names_are_always_quoted() {
    let value = object(vec![("plain", Node::Null), ("with space", Node::Null)]);
    let tokens = highlight(&value, 0, false);
    let names: Vec<&SyntaxToken> = tokens
        .iter()
        .filter(|t| matches!(t, SyntaxToken::Name(_)))
        .collect();
    assert_eq!(
        names,
        vec![
            &SyntaxToken::Name("\"plain\"".to_string()),
            &SyntaxToken::Name("\"with space\"".to_string()),
        ]
    );
}

#[test]
fn json_clone_is_equal() {
    let value = (JsonParser {}).parse("{\"a\": [1, {\"b\": null}], \"c\": \"d\"}").unwrap();
    assert_eq!(value.clone(), value);
}

#[test]
fn json_values_are_copied() {
    let mut map = serde_json::Map::new();
    map.insert("z".to_string(), serde_json::Value::Bool(true));
    map.insert(
        "a".to_string(),
        serde_json::Value::Array(vec![
            serde_json::Value::Null,
            serde_json::Value::Number(serde_json::Number::from(-7)),
            serde_json::Value::String("s".to_string()),
        ]),
    );
    let value = serde_json::Value::Object(map);
    assert_eq!(
        from_json(&value),
        object(vec![
            ("z", Node::Bool(true)),
            ("a", Node::Array(vec![Node::Null, num("-7"), text("s")])),
        ])
    );
}
