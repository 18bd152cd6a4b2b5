use otree::doc::Node;
use otree::parse::hcl::{highlight, HclParser};
use otree::parse::syntax::SyntaxToken;
use otree::parse::{ContentType, ParseError};

fn num(text: &str) -> Node {
    Node::Number(text.to_string())
}

fn text(text: &str) -> Node {
    Node::String(text.to_string())
}

fn object(fields: Vec<(&str, Node)>) -> Node {
    Node::Object(fields.into_iter().map(|(k, v)| (k.to_string(), v)).collect())
}

#[test]
fn hcl_test_syntax_highlight() {
    let test_cases = [
        (
            object(vec![
                ("name", text("otree")),
                ("count", num("3")),
                ("enabled", Node::Bool(true)),
                ("nothing", Node::Null),
            ]),
            "name = \"otree\"\ncount = 3\nenabled = true\nnothing = null\n",
        ),
        (
            object(vec![
                ("server", object(vec![("host", text("localhost")), ("port", num("80"))])),
                ("region", text("eu")),
            ]),
            "region = \"eu\"\nserver {\n  host = \"localhost\"\n  port = 80\n}\n",
        ),
        (
            object(vec![("ports", Node::Array(vec![num("80"), num("443")]))]),
            "ports = [\n  80,\n  443\n]\n",
        ),
        (
            object(vec![(
                "rule",
                Node::Array(vec![
                    object(vec![("from", num("1"))]),
                    object(vec![("from", num("2"))]),
                ]),
            )]),
            "rule {\n  from = 1\n}\nrule {\n  from = 2\n}\n",
        ),
        (
            object(vec![(
                "a",
                object(vec![
                    ("b", object(vec![("c", object(vec![("d", text("deep"))]))])),
                    ("list", Node::Array(vec![text("x")])),
                ]),
            )]),
            "a {\n  list = [\n    \"x\"\n  ]\n  b {\n    c {\n      d = \"deep\"\n    }\n  }\n}\n",
        ),
        (object(vec![]), ""),
    ];

    let parser = HclParser {};
    for (value, expect) in test_cases {
        let tokens = parser.syntax_highlight("", &value);
        let result = SyntaxToken::pure_text(&tokens);
        assert_eq!(result, expect);
    }
}

#[test]
fn hcl_parse_builds_the_document() {
    let value = (HclParser {})
        .parse("name = \"x\"\ncount = 2\nserver {\n  port = 80\n}\n")
        .unwrap();
    assert_eq!(
        value,
        object(vec![
            ("name", text("x")),
            ("count", num("2")),
            ("server", object(vec![("port", num("80"))])),
        ])
    );
}

#[test]
fn hcl_round_trip() {
    let parser = HclParser {};
    let value = parser
        .parse("a = 1\nlist = [1, 2]\nblock {\n  inner = \"v\"\n  deeper {\n    flag = true\n  }\n}\n")
        .unwrap();
    let rendered = SyntaxToken::pure_text(&parser.syntax_highlight("", &value));
    assert_eq!(parser.parse(&rendered).unwrap(), value);
}

#[test]
fn hcl_syntax_error() {
    match (HclParser {}).parse("a = ") {
        Err(ParseError::Syntax { format, line, detail }) => {
            assert_eq!(format, ContentType::Hcl);
            assert_eq!(line, None);
            assert!(!detail.is_empty());
        }
        other => panic!("unexpected result: {other:?}"),
    }
}

#[test]
fn hcl_named_values() {
    assert_eq!(
        SyntaxToken::pure_text(&highlight("size", &num("1"), 1)),
        "  size = 1\n"
    );
    assert_eq!(
        SyntaxToken::pure_text(&highlight("with space", &text("v"), 0)),
        "\"with space\" = \"v\"\n"
    );
    assert_eq!(
        SyntaxToken::pure_text(&highlight("b", &object(vec![("k", Node::Null)]), 0)),
        "b {\n  k = null\n}\n"
    );
    assert_eq!(SyntaxToken::pure_text(&highlight("", &num("1"), 3)), "1\n");
}

#[test]
fn hcl_complex_array_mixes_blocks_and_attributes() {
    let value = Node::Array(vec![object(vec![("k", num("1"))]), num("2")]);
    assert_eq!(
        SyntaxToken::pure_text(&highlight("x", &value, 0)),
        "x {\n  k = 1\n}\nx = 2\n"
    );
}
