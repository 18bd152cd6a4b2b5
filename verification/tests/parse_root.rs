use otree::doc::Node;
use otree::parse::any::AnyParser;
use otree::parse::syntax::SyntaxToken;
use otree::parse::hcl::HclParser;
use otree::parse::json::JsonParser;
use otree::parse::toml::TomlParser;
use otree::parse::{
    check_root, decode, detect_format, parse_root, ContentType, ParseError, Parser, RootFault,
};

fn object(fields: Vec<(&str, Node)>) -> Node {
    Node::Object(fields.into_iter().map(|(k, v)| (k.to_string(), v)).collect())
}

fn num(text: &str) -> Node {
    Node::Number(text.to_string())
}

#[test]
fn parse_root_of_each_format() {
    assert_eq!(
        ContentType::Json.parse_root(None, b"{\"a\": 1}").unwrap(),
        object(vec![("a", num("1"))])
    );
    assert_eq!(
        ContentType::Yaml.parse_root(None, b"a: 1\n").unwrap(),
        object(vec![("a", num("1"))])
    );
    assert_eq!(
        ContentType::Toml.parse_root(None, b"a = 1\n").unwrap(),
        object(vec![("a", num("1"))])
    );
    assert_eq!(
        ContentType::Xml.parse_root(None, b"<a>1</a>").unwrap(),
        object(vec![("a", Node::String("1".to_string()))])
    );
    assert_eq!(
        ContentType::Hcl.parse_root(None, b"a = 1\n").unwrap(),
        object(vec![("a", num("1"))])
    );
    assert_eq!(
        ContentType::Jsonl.parse_root(None, b"{\"a\": 1}\n").unwrap(),
        Node::Array(vec![object(vec![("a", num("1"))])])
    );
}

#[test]
fn bytes_that_are_not_utf8_are_refused() {
    assert_eq!(
        ContentType::Json.parse_root(None, &[0x7b, 0xff, 0x7d]),
        Err(ParseError::Encoding)
    );
    assert_eq!(decode(&[0xc3]), Err(ParseError::Encoding));
    assert_eq!(decode("é".as_bytes()), Ok("é".to_string()));
}

#[test]
fn syntax_errors_name_the_format() {
    match ContentType::Json.parse_root(None, b"{") {
        Err(ParseError::Syntax { format, .. }) => assert_eq!(format, ContentType::Json),
        other => panic!("unexpected result: {other:?}"),
    }
    match ContentType::Toml.parse_root(None, b"= 1") {
        Err(ParseError::Syntax { format, .. }) => assert_eq!(format, ContentType::Toml),
        other => panic!("unexpected result: {other:?}"),
    }
}

#[test]
fn root_must_be_an_object_or_an_array() {
    assert_eq!(
        ContentType::Json.parse_root(None, b"3"),
        Err(ParseError::Schema(RootFault::NotContainer))
    );
    assert_eq!(
        ContentType::Yaml.parse_root(None, b"just text"),
        Err(ParseError::Schema(RootFault::NotContainer))
    );
    assert_eq!(
        ContentType::Json.parse_root(None, b"[1]").unwrap(),
        Node::Array(vec![num("1")])
    );
}

#[test]
fn the_validator_decides_on_array_roots() {
    assert_eq!(
        ContentType::Json.parse_root(Some(ContentType::Toml), b"[1]"),
        Err(ParseError::Schema(RootFault::ArrayRoot(ContentType::Toml)))
    );
    assert_eq!(
        ContentType::Json.parse_root(Some(ContentType::Hcl), b"[1]"),
        Err(ParseError::Schema(RootFault::ArrayRoot(ContentType::Hcl)))
    );
    assert_eq!(
        ContentType::Json.parse_root(Some(ContentType::Yaml), b"[1]").unwrap(),
        Node::Array(vec![num("1")])
    );
    assert_eq!(
        ContentType::Json.parse_root(Some(ContentType::Toml), b"{}").unwrap(),
        object(vec![])
    );
}

#[test]
fn check_root_applies_the_rule() {
    assert_eq!(check_root(object(vec![]), false, ContentType::Toml), Ok(object(vec![])));
    assert_eq!(
        check_root(Node::Array(vec![]), false, ContentType::Toml),
        Err(ParseError::Schema(RootFault::ArrayRoot(ContentType::Toml)))
    );
    assert_eq!(check_root(Node::Array(vec![]), true, ContentType::Toml), Ok(Node::Array(vec![])));
    assert_eq!(
        check_root(Node::Null, true, ContentType::Json),
        Err(ParseError::Schema(RootFault::NotContainer))
    );
}

#[test]
fn formats_and_their_rules() {
    let expected = [
        (ContentType::Json, "json", true),
        (ContentType::Yaml, "yaml", true),
        (ContentType::Toml, "toml", false),
        (ContentType::Xml, "xml", true),
        (ContentType::Hcl, "hcl", false),
        (ContentType::Jsonl, "json", true),
    ];
    for (format, extension, array_root) in expected {
        assert_eq!(format.extension(), extension);
        assert_eq!(format.allow_array_root(), array_root);
    }
}

#[test]
fn formats_of_file_suffixes() {
    assert_eq!(ContentType::from_extension("json"), Some(ContentType::Json));
    assert_eq!(ContentType::from_extension("yaml"), Some(ContentType::Yaml));
    assert_eq!(ContentType::from_extension("yml"), Some(ContentType::Yaml));
    assert_eq!(ContentType::from_extension("toml"), Some(ContentType::Toml));
    assert_eq!(ContentType::from_extension("xml"), Some(ContentType::Xml));
    assert_eq!(ContentType::from_extension("hcl"), Some(ContentType::Hcl));
    assert_eq!(ContentType::from_extension("jsonl"), Some(ContentType::Jsonl));
    assert_eq!(ContentType::from_extension("txt"), None);
    assert_eq!(ContentType::from_extension("JSON"), None);
    assert_eq!(ContentType::from_extension(""), None);
}

#[test]
fn detection_prefers_json() {
    // This text is JSON and YAML at once.
    let data = b"{\"a\": [1, 2]}";
    assert!(ContentType::Yaml.parse_root(None, data).is_ok());
    let (format, value) = detect_format(None, data).unwrap();
    assert_eq!(format, ContentType::Json);
    assert_eq!(value, object(vec![("a", Node::Array(vec![num("1"), num("2")]))]));
    assert_eq!(ContentType::Any.parse_root(None, data).unwrap(), value);
}

#[test]
fn detection_goes_on_to_the_next_format() {
    assert_eq!(detect_format(None, b"a: 1\nb: 2\n").unwrap().0, ContentType::Yaml);
    assert_eq!(detect_format(None, b"[section]\nkey = 1\n").unwrap().0, ContentType::Toml);
    assert_eq!(detect_format(None, b"<a><b>1</b></a>").unwrap().0, ContentType::Xml);
}

#[test]
fn detection_fails_where_no_format_reads() {
    assert_eq!(detect_format(None, &[0xff, 0xfe]), Err(ParseError::FormatDetection));
    assert_eq!(
        ContentType::Any.parse_root(None, &[0xff, 0xfe]),
        Err(ParseError::FormatDetection)
    );
}

#[test]
fn any_parser_settles_on_the_first_format() {
    let mut parser = AnyParser::new();
    assert_eq!(parser.parser(), None);
    assert_eq!(parser.parse_root(None, &[0xff]), Err(ParseError::FormatDetection));
    assert_eq!(parser.parser(), None);

    let value = parser.parse_root(None, b"{\"k\": \"v\"}").unwrap();
    assert_eq!(parser.parser(), Some(ContentType::Json));
    assert_eq!(parser.extension(), "json");
    assert!(parser.allow_array_root());
    assert_eq!(
        SyntaxToken::pure_text(&parser.syntax_highlight("", &value)),
        "{\n  \"k\": \"v\"\n}\n"
    );
    assert_eq!(parser.parse("[]").unwrap(), Node::Array(vec![]));

    // Once settled, other formats are no longer tried.
    match parser.parse_root(None, b"k: v\n") {
        Err(ParseError::Syntax { format, .. }) => assert_eq!(format, ContentType::Json),
        other => panic!("unexpected result: {other:?}"),
    }
}

#[test]
fn any_parser_can_be_set() {
    let mut parser = AnyParser::new();
    parser.set_parser(ContentType::Toml);
    assert_eq!(parser.parser(), Some(ContentType::Toml));
    assert_eq!(parser.extension(), "toml");
    assert!(!parser.allow_array_root());
}

#[test]
fn highlight_by_format() {
    let value = object(vec![("a", num("1"))]);
    let expected = [
        (ContentType::Json, "{\n  \"a\": 1\n}\n"),
        (ContentType::Jsonl, "{\n  \"a\": 1\n}\n"),
        (ContentType::Yaml, "a: 1"),
        (ContentType::Toml, "a = 1\n"),
        (ContentType::Hcl, "n {\n  a = 1\n}\n"),
        (ContentType::Xml, "<n>\n</n>\n"),
    ];
    for (format, text) in expected {
        assert_eq!(SyntaxToken::pure_text(&format.syntax_highlight("n", &value)), text);
    }
}

#[test]
fn messages() {
    assert_eq!(ParseError::Encoding.message(), "parse content utf8");
    assert_eq!(
        ParseError::Syntax { format: ContentType::Json, line: None, detail: "oops".to_string() }
            .message(),
        "parse JSON: oops"
    );
    assert_eq!(
        ParseError::Syntax { format: ContentType::Jsonl, line: Some(12), detail: "oops".to_string() }
            .message(),
        "parse JSON object at line 12: oops"
    );
    assert_eq!(
        ParseError::Schema(RootFault::ArrayRoot(ContentType::Toml)).message(),
        "schema 'toml' does not allow array as root"
    );
    assert_eq!(
        ParseError::Schema(RootFault::NotContainer).message(),
        "root value must be either object or array"
    );
    assert_eq!(
        ParseError::FormatDetection.message(),
        "unable to parse content with any supported format"
    );
}

fn suffix_of<P: Parser>(parser: &P) -> &'static str {
    parser.extension()
}

#[test]
fn parsers_share_one_interface() {
    assert_eq!(suffix_of(&JsonParser {}), "json");
    assert_eq!(suffix_of(&TomlParser {}), "toml");
    assert_eq!(Parser::content_type(&HclParser {}), ContentType::Hcl);
    assert_eq!(
        parse_root(&TomlParser {}, None, b"a = 1\n").unwrap(),
        object(vec![("a", num("1"))])
    );
    assert_eq!(
        parse_root(&JsonParser {}, None, b"[1]").unwrap(),
        Node::Array(vec![num("1")])
    );
    assert_eq!(
        parse_root(&JsonParser {}, Some(ContentType::Hcl), b"[1]"),
        Err(ParseError::Schema(RootFault::ArrayRoot(ContentType::Hcl)))
    );
    assert_eq!(parse_root(&JsonParser {}, None, &[0xff]), Err(ParseError::Encoding));
    let mut any = AnyParser::new();
    any.set_parser(ContentType::Json);
    assert_eq!(suffix_of(&any), "json");
    assert_eq!(
        parse_root(&any, None, b"{}").unwrap(),
        object(vec![])
    );
}
