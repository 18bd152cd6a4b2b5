use otree::doc::Node;

fn num(text: &str) -> Node {
    Node::Number(text.to_string())
}

fn object(fields: Vec<(&str, Node)>) -> Node {
    Node::Object(fields.into_iter().map(|(k, v)| (k.to_string(), v)).collect())
}

#[test]
fn same_document_ignores_the_order_of_fields() {
    let a = object(vec![("x", num("1")), ("y", Node::Array(vec![object(vec![("p", Node::Null), ("q", Node::Bool(true))])]))]);
    let b = object(vec![("y", Node::Array(vec![object(vec![("q", Node::Bool(true)), ("p", Node::Null)])])), ("x", num("1"))]);
    assert!(a.same_document(&b));
    assert!(b.same_document(&a));
    assert_ne!(a, b);
}

#[test]
fn same_document_tells_documents_apart() {
    let a = object(vec![("x", num("1")), ("y", num("2"))]);
    assert!(!a.same_document(&object(vec![("x", num("1"))])));
    assert!(!a.same_document(&object(vec![("x", num("1")), ("y", num("3"))])));
    assert!(!a.same_document(&object(vec![("x", num("1")), ("z", num("2"))])));
    assert!(!Node::Array(vec![num("1"), num("2")]).same_document(&Node::Array(vec![num("2"), num("1")])));
    assert!(!Node::Null.same_document(&Node::Bool(false)));
    assert!(!num("1").same_document(&Node::String("1".to_string())));
    assert!(!num("1").same_document(&num("1.0")));
    assert!(Node::Null.same_document(&Node::Null));
}

#[test]
fn clone_copies_the_whole_value() {
    let a = object(vec![("x", Node::Array(vec![num("1"), Node::String("s".to_string())])), ("y", object(vec![]))]);
    let b = a.clone();
    assert_eq!(a, b);
}
