use otree::doc::Node;
use otree::parse::syntax::{is_value_complex, quote_field_name, str_eq, StringValue, SyntaxToken};

#[test]
fn pure_text_joins_tokens() {
    let tokens = vec![
        SyntaxToken::Symbol("{"),
        SyntaxToken::Break,
        SyntaxToken::Indent(2),
        SyntaxToken::Name("\"a\"".to_string()),
        SyntaxToken::Symbol(": "),
        SyntaxToken::Number("1".to_string()),
        SyntaxToken::Break,
        SyntaxToken::Tag("<t>".to_string()),
        SyntaxToken::String("s".to_string()),
        SyntaxToken::Null("null"),
        SyntaxToken::Bool("true"),
        SyntaxToken::Section("[x]".to_string()),
        SyntaxToken::Indent(0),
        SyntaxToken::Symbol("}"),
    ];
    assert_eq!(
        SyntaxToken::pure_text(&tokens),
        "{\n    \"a\": 1\n<t>snulltrue[x]}"
    );
    assert_eq!(SyntaxToken::pure_text(&[]), "");
}

#[test]
fn standard_names_are_not_quoted() {
    for name in ["version", "dev-dependencies", "a_b", "A9", "-", "_", "0"] {
        assert_eq!(quote_field_name(name), name);
    }
}

#[test]
fn other_names_are_quoted() {
    assert_eq!(quote_field_name(""), "\"\"");
    assert_eq!(quote_field_name("with space"), "\"with space\"");
    assert_eq!(quote_field_name("/some/path"), "\"/some/path\"");
    assert_eq!(quote_field_name("a.b"), "\"a.b\"");
    assert_eq!(quote_field_name("quo\"te"), "\"quo\\\"te\"");
    assert_eq!(quote_field_name("line\nfeed"), "\"line\\nfeed\"");
    assert_eq!(quote_field_name("name\n"), "\"name\\n\"");
    assert_eq!(quote_field_name("é"), "\"é\"");
}

#[test]
fn string_value_forms() {
    assert_eq!(StringValue::new("", false), StringValue::String("\"\"".to_string()));
    assert_eq!(StringValue::new("", true), StringValue::String("\"\"".to_string()));
    assert_eq!(StringValue::new("plain", false), StringValue::String("plain".to_string()));
    assert_eq!(StringValue::new("plain", true), StringValue::String("\"plain\"".to_string()));
    assert_eq!(StringValue::new("true", false), StringValue::String("\"true\"".to_string()));
    assert_eq!(StringValue::new("false", false), StringValue::String("\"false\"".to_string()));
    assert_eq!(StringValue::new("12", false), StringValue::String("\"12\"".to_string()));
    assert_eq!(StringValue::new("-1e5", false), StringValue::String("\"-1e5\"".to_string()));
    assert_eq!(StringValue::new("nan", false), StringValue::String("\"nan\"".to_string()));
    assert_eq!(StringValue::new("two words", false), StringValue::String("\"two words\"".to_string()));
    assert_eq!(
        StringValue::new("a\nb", false),
        StringValue::MultiLines(vec!["a".to_string(), "b".to_string()])
    );
    assert_eq!(
        StringValue::new("a\r\n\nb\n", true),
        StringValue::MultiLines(vec!["a".to_string(), "".to_string(), "b".to_string()])
    );
    // White space alone is no block, even with line feeds in it.
    assert_eq!(StringValue::new("\n\t\n", false), StringValue::String("\"\\n\\t\\n\"".to_string()));
    assert_eq!(StringValue::quote_string("a\"b"), "\"a\\\"b\"");
}

#[test]
fn is_numeric_agrees_with_the_standard_parser() {
    let texts = [
        "", "0", "1", "-1", "+1", "12345678901234567890123", "1.", ".5", ".", "1.5", "-.5e3",
        "1e5", "1E5", "1e+5", "1e-5", "1e", "1e+", "e5", ".e5", "1.e5", "1.5.5", "1 ", " 1",
        "1_000", "0x10", "inf", "-inf", "+inf", "Infinity", "INFINITY", "infinit", "infinityy",
        "nan", "NaN", "-nan", "+NaN", "nane", "in", "na", "+", "-", "+-1", "--1", "1e5e5",
        "١٢٣", "1é", "é", "true", "abc", "1f", "1d", "0.1e10", "00", "-0", "+.e1", "5e05",
    ];
    for text in texts {
        assert_eq!(
            StringValue::is_numeric(text),
            text.parse::<f64>().is_ok(),
            "text: {text:?}"
        );
    }
}

#[test]
fn complex_values() {
    let scalar = Node::Number("1".to_string());
    assert!(!is_value_complex(&scalar));
    assert!(!is_value_complex(&Node::Null));
    assert!(!is_value_complex(&Node::Array(vec![])));
    assert!(!is_value_complex(&Node::Array(vec![Node::Bool(true), Node::Array(vec![Node::Null])])));
    assert!(is_value_complex(&Node::Object(vec![])));
    assert!(is_value_complex(&Node::Array(vec![
        Node::Null,
        Node::Array(vec![Node::Object(vec![])]),
    ])));
}

#[test]
fn text_equality() {
    assert!(str_eq("", ""));
    assert!(str_eq("abc", "abc"));
    assert!(!str_eq("abc", "abd"));
    assert!(!str_eq("abc", "ab"));
    assert!(str_eq("é", "é"));
}

#[test]
fn numbers_in_decimal() {
    for n in [0usize, 1, 9, 10, 11, 99, 100, 101, 12345, 1_000_000, usize::MAX / 10, usize::MAX] {
        assert_eq!(otree::text::decimal(n), n.to_string());
    }
}

#[test]
fn slices_between_boundaries() {
    assert_eq!(otree::text::slice("héllo", 0, 3), "hé");
    assert_eq!(otree::text::slice("héllo", 3, 3), "");
    assert_eq!(otree::text::slice("héllo", 1, 6), "éllo");
    assert_eq!(otree::text::next_indent(3), 4);
    assert_eq!(otree::text::next_indent(usize::MAX), usize::MAX);
}
