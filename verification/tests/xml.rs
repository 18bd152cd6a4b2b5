use otree::doc::Node;
use otree::parse::syntax::SyntaxToken;
use otree::parse::xml::{highlight, is_xml_ready, XmlParser};
use otree::parse::xml_events::read_events;
use otree::parse::xml_tree::{read, NodeValues, XmlEvent};
use otree::parse::{ContentType, ParseError};

fn text(text: &str) -> Node {
    Node::String(text.to_string())
}

fn object(fields: Vec<(&str, Node)>) -> Node {
    Node::Object(fields.into_iter().map(|(k, v)| (k.to_string(), v)).collect())
}

fn object_case() -> (Node, &'static str) {
    (
        object(vec![(
            "config",
            object(vec![
                ("name", text("otree")),
                ("empty", Node::Null),
                ("server", object(vec![("host", text("localhost")), ("port", text("80"))])),
            ]),
        )]),
        "<config>\n  <name>otree</name>\n  <empty></empty>\n  <server>\n    <host>localhost</host>\n    <port>80</port>\n  </server>\n</config>\n",
    )
}

fn array_case() -> (Node, &'static str) {
    (
        object(vec![(
            "list",
            object(vec![("item", Node::Array(vec![text("a"), text("b"), text("c")]))]),
        )]),
        "<list>\n  <item>a</item>\n  <item>b</item>\n  <item>c</item>\n</list>\n",
    )
}

fn array_of_objects_case() -> (Node, &'static str) {
    (
        object(vec![(
            "users",
            object(vec![(
                "user",
                Node::Array(vec![
                    object(vec![("id", text("1")), ("name", text("Tom"))]),
                    object(vec![("id", text("2")), ("name", text("Ann"))]),
                ]),
            )]),
        )]),
        "<users>\n  <user>\n    <id>1</id>\n    <name>Tom</name>\n  </user>\n  <user>\n    <id>2</id>\n    <name>Ann</name>\n  </user>\n</users>\n",
    )
}

fn attrs_case() -> (Node, &'static str) {
    (
        object(vec![(
            "root",
            object(vec![
                ("@version", text("1")),
                ("@lang", text("en")),
                ("title", object(vec![("@kind", text("main")), ("#text", text("Hello"))])),
                ("flag", object(vec![("@on", text("yes"))])),
            ]),
        )]),
        "<root version=\"1\" lang=\"en\">\n  <title kind=\"main\">Hello</title>\n  <flag on=\"yes\"></flag>\n</root>\n",
    )
}

#[test]
fn xml_test_syntax_highlight() {
    let test_cases = [object_case(), array_case(), array_of_objects_case(), attrs_case()];
    let parser = XmlParser {};
    for (value, expect) in test_cases {
        assert!(is_xml_ready(&value));
        let tokens = parser.syntax_highlight("", &value);
        let result = SyntaxToken::pure_text(&tokens);
        assert_eq!(result, expect);
    }
}

#[test]
fn test_parse() {
    let test_cases = [object_case(), array_case(), array_of_objects_case(), attrs_case()];
    let parser = XmlParser {};
    for (expected, xml_data) in test_cases {
        let value = parser.parse(xml_data).unwrap();
        assert!(value.same_document(&expected));
    }
}

#[test]
fn xml_attributes_follow_the_child_elements() {
    let value = (XmlParser {})
        .parse("<root version=\"1\" lang=\"en\"><title kind=\"main\">Hello</title><flag on=\"yes\"/></root>")
        .unwrap();
    assert_eq!(
        value,
        object(vec![(
            "root",
            object(vec![
                ("title", object(vec![("@kind", text("main")), ("#text", text("Hello"))])),
                ("flag", object(vec![("@on", text("yes"))])),
                ("@version", text("1")),
                ("@lang", text("en")),
            ]),
        )])
    );
}

#[test]
fn xml_scenario_attribute_and_text() {
    let parser = XmlParser {};
    let value = parser.parse("<r a=\"1\">x</r>").unwrap();
    assert_eq!(
        value,
        object(vec![("r", object(vec![("@a", text("1")), ("#text", text("x"))]))])
    );
    let rendered = SyntaxToken::pure_text(&parser.syntax_highlight("", &value));
    assert_eq!(rendered, "<r a=\"1\">x</r>\n");
    assert_eq!(parser.parse(&rendered).unwrap(), value);
}

#[test]
fn xml_events_of_a_text() {
    let events = read_events("<a x=\"1\"><b/>t&amp;&#65;<![CDATA[c]]><!-- n --></a>");
    assert_eq!(
        events,
        vec![
            XmlEvent::Start("a".to_string(), Ok(vec![("x".to_string(), "1".to_string())])),
            XmlEvent::Start("b".to_string(), Ok(vec![])),
            XmlEvent::End,
            XmlEvent::Text("t".to_string()),
            XmlEvent::EntityRef("amp".to_string()),
            XmlEvent::CharRef('A'),
            XmlEvent::CData("c".to_string()),
            XmlEvent::Other,
            XmlEvent::End,
            XmlEvent::Eof,
        ]
    );
}

#[test]
fn xml_events_end_with_the_first_failure() {
    let events = read_events("<a></b>");
    assert_eq!(events.len(), 2);
    assert!(matches!(events[0], XmlEvent::Start(_, _)));
    assert!(matches!(events[1], XmlEvent::Failed(_)));
    match (XmlParser {}).parse("<a></b>") {
        Err(ParseError::Syntax { format, line, detail }) => {
            assert_eq!(format, ContentType::Xml);
            assert_eq!(line, None);
            assert!(!detail.is_empty());
        }
        other => panic!("unexpected result: {other:?}"),
    }
}

#[test]
fn xml_fold_of_plain_events() {
    let events = vec![
        XmlEvent::Start("r".to_string(), Ok(vec![])),
        XmlEvent::Start("i".to_string(), Ok(vec![])),
        XmlEvent::Text("1".to_string()),
        XmlEvent::End,
        XmlEvent::Text("\n  ".to_string()),
        XmlEvent::Start("j".to_string(), Ok(vec![])),
        XmlEvent::End,
        XmlEvent::Start("i".to_string(), Ok(vec![])),
        XmlEvent::Text("2".to_string()),
        XmlEvent::End,
        XmlEvent::Start("i".to_string(), Ok(vec![])),
        XmlEvent::Text("3".to_string()),
        XmlEvent::End,
        XmlEvent::End,
        XmlEvent::Eof,
    ];
    let (value, next) = read(&events, 0);
    assert_eq!(next, events.len());
    // The array of the repeated element moves behind the other elements.
    assert_eq!(
        value.unwrap(),
        object(vec![(
            "r",
            object(vec![
                ("j", Node::Null),
                ("i", Node::Array(vec![text("1"), text("2"), text("3")])),
            ]),
        )])
    );
}

#[test]
fn xml_fold_reports_errors_in_the_order_of_the_source() {
    let bad_attrs = vec![
        XmlEvent::Start("a".to_string(), Err("bad attribute".to_string())),
        XmlEvent::Failed("bad child".to_string()),
    ];
    assert_eq!(read(&bad_attrs, 0), (Err("bad child".to_string()), 2));
    let later = vec![
        XmlEvent::Start("a".to_string(), Err("bad attribute".to_string())),
        XmlEvent::End,
        XmlEvent::Failed("later".to_string()),
    ];
    assert_eq!(read(&later, 0), (Err("bad attribute".to_string()), 2));
}

#[test]
fn xml_text_and_references() {
    let parser = XmlParser {};
    assert_eq!(
        parser.parse("<a>x &lt; y &amp;&#33; &unknown;</a>").unwrap(),
        object(vec![("a", text("x < y &!"))])
    );
    assert_eq!(
        parser.parse("<a>  padded  </a>").unwrap(),
        object(vec![("a", text("padded"))])
    );
    assert_eq!(parser.parse("<a>   </a>").unwrap(), object(vec![("a", Node::Null)]));
    assert_eq!(parser.parse("<a/>").unwrap(), object(vec![("a", Node::Null)]));
}

#[test]
fn xml_cdata_sections_are_joined() {
    assert_eq!(
        (XmlParser {}).parse("<a><![CDATA[one]]><![CDATA[ two]]></a>").unwrap(),
        object(vec![("a", object(vec![("#cdata", text("one two"))]))])
    );
}

#[test]
fn xml_mixed_content() {
    let parser = XmlParser {};
    // One map and one text: the text becomes `#text`.
    assert_eq!(
        parser.parse("<a>before<b>1</b></a>").unwrap(),
        object(vec![("a", object(vec![("b", text("1")), ("#text", text("before"))]))])
    );
    assert_eq!(
        parser.parse("<a><b>1</b>after</a>").unwrap(),
        object(vec![("a", object(vec![("b", text("1")), ("#text", text("after"))]))])
    );
    // More parts than that: an array in the order of the source.
    assert_eq!(
        parser.parse("<a>x<b>1</b>y<c>2</c></a>").unwrap(),
        object(vec![(
            "a",
            Node::Array(vec![
                text("x"),
                object(vec![("b", text("1"))]),
                text("y"),
                object(vec![("c", text("2"))]),
            ]),
        )])
    );
}

#[test]
fn xml_attributes_without_object_content() {
    let parser = XmlParser {};
    assert_eq!(
        parser.parse("<a k=\"v\"/>").unwrap(),
        object(vec![("a", object(vec![("@k", text("v"))]))])
    );
    assert_eq!(
        parser.parse("<a k=\"v\"><b/></a>").unwrap(),
        object(vec![("a", object(vec![("b", Node::Null), ("@k", text("v"))]))])
    );
}

#[test]
fn xml_node_values() {
    let mut nodes = NodeValues::new();
    nodes.insert_text("a");
    nodes.insert_text("b");
    assert_eq!(nodes.get_value(), text("ab"));

    let mut nodes = NodeValues::new();
    nodes.insert("k".to_string(), Node::Null);
    nodes.insert("k".to_string(), text("v"));
    nodes.insert_cdata("x");
    nodes.insert_cdata("y");
    assert_eq!(nodes.remove_entry("missing"), None);
    assert_eq!(
        nodes.get_value(),
        object(vec![("k", text("v")), ("#cdata", text("xy"))])
    );

    let mut nodes = NodeValues::new();
    nodes.insert("a".to_string(), text("1"));
    nodes.insert("b".to_string(), text("2"));
    nodes.insert("c".to_string(), text("3"));
    assert_eq!(nodes.remove_entry("a"), Some(text("1")));
    assert_eq!(nodes.get_value(), object(vec![("c", text("3")), ("b", text("2"))]));

    assert_eq!(NodeValues::new().get_value(), Node::Null);
}

#[test]
fn xml_numbers_and_booleans_are_not_written() {
    let value = object(vec![("n", Node::Number("1".to_string())), ("s", text("x"))]);
    assert_eq!(
        SyntaxToken::pure_text(&highlight(&value, "r", 0)),
        "<r>\n  <s>x</s>\n</r>\n"
    );
}

#[test]
fn xml_ready_check() {
    assert!(is_xml_ready(&object(vec![("@a", text("1")), ("#text", text("t"))])));
    assert!(!is_xml_ready(&object(vec![("@a", Node::Null)])));
    assert!(!is_xml_ready(&object(vec![("#text", object(vec![]))])));
    assert!(!is_xml_ready(&Node::Array(vec![object(vec![("@a", Node::Bool(true))])])));
    assert!(!is_xml_ready(&object(vec![("c", object(vec![("@a", Node::Null)]))])));
    // The children of an element with text are not written.
    assert!(is_xml_ready(&object(vec![
        ("#text", text("t")),
        ("c", object(vec![("@a", Node::Null)])),
    ])));
}

#[test]
fn xml_named_element_with_attributes_and_children() {
    let value = object(vec![
        ("@@id", text("7")),
        ("child", Node::Array(vec![Node::Null, text("x")])),
    ]);
    assert_eq!(
        SyntaxToken::pure_text(&highlight(&value, "e", 1)),
        "  <e id=\"7\">\n    <child></child>\n    <child>x</child>\n  </e>\n"
    );
}
