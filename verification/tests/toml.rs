use otree::doc::Node;
use otree::parse::syntax::SyntaxToken;
use otree::parse::toml::{highlight, TomlParser};
use otree::parse::{ContentType, ParseError};

fn num(text: &str) -> Node {
    Node::Number(text.to_string())
}

fn text(text: &str) -> Node {
    Node::String(text.to_string())
}

fn object(fields: Vec<(&str, Node)>) -> Node {
    Node::Object(fields.into_iter().map(|(k, v)| (k.to_string(), v)).collect())
}

#[test]
fn toml_test_syntax_highlight() {
    let test_cases = [
        (
            "title = \"example\"\n[owner]\nname = \"Tom\"\nage = 30\n\n[database]\nenabled = true\nports = [8000, 8001]\n[database.limits]\ncpu = 1.5\n",
            "title = \"example\"\n\n[owner]\nname = \"Tom\"\nage = 30\n\n[database]\nenabled = true\nports = [\n  8000,\n  8001\n]\n\n[database.limits]\ncpu = 1.5\n",
        ),
        (
            "[[products]]\nname = \"Hammer\"\nsku = 738594937\n\n[[products]]\nname = \"Nail\"\nsku = 284758393\n",
            "[[products]]\nname = \"Hammer\"\nsku = 738594937\n\n[[products]]\nname = \"Nail\"\nsku = 284758393\n",
        ),
        (
            "text = \"\"\"\nfirst\nsecond\n\"\"\"\n",
            "text = '''\nfirst\nsecond\n'''\n",
        ),
        (
            "matrix = [[1, 2], [3, 4]]\n",
            "matrix = [\n  [\n    1,\n    2\n  ],\n  [\n    3,\n    4\n  ]\n]\n",
        ),
    ];

    let parser = TomlParser {};
    for (raw, expect) in test_cases {
        let value = parser.parse(raw).unwrap();
        let tokens = parser.syntax_highlight("", &value);
        let result = SyntaxToken::pure_text(&tokens);
        assert_eq!(result, expect);

        let highlight_value = parser.parse(&result).unwrap();
        assert_eq!(value, highlight_value);
    }
}

#[test]
fn toml_parse_builds_the_document() {
    let value = (TomlParser {})
        .parse("s = \"x\"\ni = -3\nf = 2.5\nb = false\nd = 1979-05-27T07:32:00Z\na = [1, \"two\"]\n[t]\nk = \"v\"\n")
        .unwrap();
    assert_eq!(
        value,
        object(vec![
            ("s", text("x")),
            ("i", num("-3")),
            ("f", num("2.5")),
            ("b", Node::Bool(false)),
            ("d", text("1979-05-27T07:32:00Z")),
            ("a", Node::Array(vec![num("1"), text("two")])),
            ("t", object(vec![("k", text("v"))])),
        ])
    );
}

#[test]
fn toml_numbers_that_are_not_finite_become_zero() {
    let value = (TomlParser {}).parse("a = inf\nb = nan\nc = -inf\n").unwrap();
    assert_eq!(
        value,
        object(vec![("a", num("0")), ("b", num("0")), ("c", num("0"))])
    );
}

#[test]
fn toml_syntax_error() {
    match (TomlParser {}).parse("a = ") {
        Err(ParseError::Syntax { format, line, detail }) => {
            assert_eq!(format, ContentType::Toml);
            assert_eq!(line, None);
            assert!(!detail.is_empty());
        }
        other => panic!("unexpected result: {other:?}"),
    }
}

#[test]
fn toml_simple_fields_come_before_sections() {
    let value = object(vec![
        ("b", object(vec![("c", num("2"))])),
        ("a", num("1")),
    ]);
    let parser = TomlParser {};
    let rendered = SyntaxToken::pure_text(&parser.syntax_highlight("", &value));
    assert_eq!(rendered, "a = 1\n\n[b]\nc = 2\n");
    let a = rendered.find("a = 1").unwrap();
    let b = rendered.find("[b]").unwrap();
    let c = rendered.find("c = 2").unwrap();
    assert!(a < b && b < c);
}

#[test]
fn toml_scenario_object_with_section() {
    let value = object(vec![("a", num("1")), ("b", object(vec![("c", num("2"))]))]);
    let tokens = (TomlParser {}).syntax_highlight("", &value);
    assert_eq!(
        tokens,
        vec![
            SyntaxToken::Name("a".to_string()),
            SyntaxToken::Symbol(" = "),
            SyntaxToken::Number("1".to_string()),
            SyntaxToken::Break,
            SyntaxToken::Break,
            SyntaxToken::Section("[b]".to_string()),
            SyntaxToken::Break,
            SyntaxToken::Name("c".to_string()),
            SyntaxToken::Symbol(" = "),
            SyntaxToken::Number("2".to_string()),
            SyntaxToken::Break,
        ]
    );
}

#[test]
fn toml_first_break_is_trimmed() {
    let value = object(vec![("b", object(vec![("c", num("2"))]))]);
    let rendered = SyntaxToken::pure_text(&(TomlParser {}).syntax_highlight("", &value));
    assert_eq!(rendered, "[b]\nc = 2\n");
}

#[test]
fn toml_nested_sections_are_joined_by_dots() {
    let value = object(vec![(
        "a",
        object(vec![("b c", object(vec![("d", Node::Bool(true))]))]),
    )]);
    let rendered = SyntaxToken::pure_text(&(TomlParser {}).syntax_highlight("", &value));
    assert_eq!(rendered, "[a]\n\n[a.\"b c\"]\nd = true\n");
    assert_eq!((TomlParser {}).parse(&rendered).unwrap(), value);
}

#[test]
fn toml_null_is_an_empty_string() {
    let value = object(vec![("n", Node::Null)]);
    let rendered = SyntaxToken::pure_text(&(TomlParser {}).syntax_highlight("", &value));
    assert_eq!(rendered, "n = \"\"\n");
}

#[test]
fn toml_strings() {
    let value = object(vec![
        ("plain", text("x")),
        ("multi", text("a\nb")),
        ("quotes", text("it's '''here'''\nnow")),
    ]);
    let rendered = SyntaxToken::pure_text(&(TomlParser {}).syntax_highlight("", &value));
    assert_eq!(
        rendered,
        "plain = \"x\"\nmulti = '''\na\nb\n'''\nquotes = \"it's '''here'''\\nnow\"\n"
    );
}

#[test]
fn toml_block_adds_a_line_feed_to_a_string_that_ends_without_one() {
    let parser = TomlParser {};
    let value = object(vec![("s", text("a\nb"))]);
    let rendered = SyntaxToken::pure_text(&parser.syntax_highlight("", &value));
    assert_eq!(rendered, "s = '''\na\nb\n'''\n");
    assert_eq!(parser.parse(&rendered).unwrap(), object(vec![("s", text("a\nb\n"))]));
}

#[test]
fn toml_array_node_is_written_under_its_name() {
    let parser = TomlParser {};
    let tables = Node::Array(vec![
        object(vec![("x", num("1"))]),
        object(vec![("x", num("2"))]),
    ]);
    let rendered = SyntaxToken::pure_text(&parser.syntax_highlight("items", &tables));
    assert_eq!(rendered, "[[items]]\nx = 1\n\n[[items]]\nx = 2\n");

    let simple = Node::Array(vec![num("1"), num("2")]);
    let rendered = SyntaxToken::pure_text(&parser.syntax_highlight("items", &simple));
    assert_eq!(rendered, "[\n  1,\n  2\n]\n");

    let nested = Node::Array(vec![Node::Array(vec![num("1")]), num("2")]);
    let rendered = SyntaxToken::pure_text(&parser.syntax_highlight("m", &nested));
    assert_eq!(rendered, "[[m]]\n[\n  1\n]\n\n[[m]]\n2\n");
}

#[test]
fn toml_complex_array_with_its_section() {
    let tables = Node::Array(vec![object(vec![("x", num("1"))])]);
    let tokens = highlight(&tables, Some("s"), false, true);
    assert_eq!(
        tokens,
        vec![
            SyntaxToken::Break,
            SyntaxToken::Section("[[s]]".to_string()),
            SyntaxToken::Break,
            SyntaxToken::Name("x".to_string()),
            SyntaxToken::Symbol(" = "),
            SyntaxToken::Number("1".to_string()),
            SyntaxToken::Break,
        ]
    );
    // An array that is written inline needs no section.
    let simple = Node::Array(vec![num("1")]);
    assert_eq!(
        SyntaxToken::pure_text(&highlight(&simple, None, false, false)),
        "[\n  1\n]\n"
    );
}

#[test]
fn toml_field_names_are_quoted_only_if_not_standard() {
    let value = object(vec![("dev-dependencies", num("1")), ("a.b", num("2"))]);
    let rendered = SyntaxToken::pure_text(&(TomlParser {}).syntax_highlight("", &value));
    assert_eq!(rendered, "dev-dependencies = 1\n\"a.b\" = 2\n");
    assert_eq!((TomlParser {}).parse(&rendered).unwrap(), value);
}
