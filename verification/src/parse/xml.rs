//! XML: elements, attributes (`@name` fields) and text (`#text` fields).

use vstd::pervasive::unreached;
use vstd::prelude::*;
use vstd::string::*;

use crate::doc::{lemma_view_array, lemma_view_object, Doc, Node};
use crate::parse::syntax::{emit, str_eq, toks_of, SyntaxToken, Tok};
use crate::parse::xml_events::{read_events, xml_event_list};
use crate::parse::xml_tree::{lemma_xml_content_wf, read, xml_content, XmlAcc};
use crate::parse::{outcome, syntax_fault, ContentType, Fault, ParseError};
use crate::text::{
    debug_quote, debug_quoted, indent_succ, next_indent, starts_with_char, trim_start_matches,
    without_leading,
};

verus! {

/// The field holds an attribute: its name begins with `@`.
pub open spec fn is_attr(key: Seq<char>) -> bool {
    key.len() > 0 && key[0] == '@'
}

/// The field holds the text of the element.
pub open spec fn is_text(key: Seq<char>) -> bool {
    key == "#text"@
}

/// Among the first `n` fields there is an attribute.
pub open spec fn has_attrs(fields: Seq<(Seq<char>, Doc)>, n: nat) -> bool {
    exists|i: int| 0 <= i < n && i < fields.len() && is_attr(#[trigger] fields[i].0)
}

/// Among the first `n` fields there is a child element.
pub open spec fn has_children(fields: Seq<(Seq<char>, Doc)>, n: nat) -> bool {
    exists|i: int|
        0 <= i < n && i < fields.len() && !is_attr(#[trigger] fields[i].0) && !is_text(fields[i].0)
}

/// The text of the element: the value of the last `#text` among the first
/// `n` fields.
pub open spec fn xml_text(fields: Seq<(Seq<char>, Doc)>, n: nat) -> Option<Seq<char>>
    decreases n,
{
    if n == 0 || n > fields.len() {
        None
    } else if is_text(fields[n - 1].0) {
        Some(fields[n - 1].1->String_0)
    } else {
        xml_text(fields, (n - 1) as nat)
    }
}

/// The value can be written as XML: every attribute and every text of an
/// element that is written is a string.
pub open spec fn xml_ready(d: Doc) -> bool
    decreases d,
{
    match d {
        Doc::Object(fields) => {
            &&& forall|i: int|
                #![trigger fields[i]]
                0 <= i < fields.len() && (is_attr(fields[i].0) || is_text(fields[i].0))
                    ==> fields[i].1 is String
            &&& xml_text(fields, fields.len()) is None ==> forall|i: int|
                #![trigger fields[i]]
                0 <= i < fields.len() && !is_attr(fields[i].0) && !is_text(fields[i].0)
                    ==> xml_ready(fields[i].1)
        },
        Doc::Array(items) => forall|i: int|
            #![trigger items[i]]
            0 <= i < items.len() ==> xml_ready(items[i]),
        _ => true,
    }
}

/// The attributes among the first `n` fields, each as ` name="value"`.
pub open spec fn xml_attrs(fields: Seq<(Seq<char>, Doc)>, n: nat) -> Seq<Tok>
    decreases n,
{
    if n == 0 || n > fields.len() {
        Seq::empty()
    } else {
        xml_attrs(fields, (n - 1) as nat) + (if is_attr(fields[n - 1].0) {
            seq![
                Tok::Symbol(" "@),
                Tok::Name(without_leading(fields[n - 1].0, '@')),
                Tok::Symbol("="@),
                Tok::String(debug_quoted(fields[n - 1].1->String_0)),
            ]
        } else {
            Seq::empty()
        })
    }
}

/// The child elements among the first `n` fields.
pub open spec fn xml_children(fields: Seq<(Seq<char>, Doc)>, n: nat, indent: usize) -> Seq<Tok>
    decreases fields, n,
{
    if n == 0 || n > fields.len() {
        Seq::empty()
    } else {
        xml_children(fields, (n - 1) as nat, indent) + (if !is_attr(fields[n - 1].0) && !is_text(
            fields[n - 1].0,
        ) {
            xml_tokens(fields[n - 1].1, fields[n - 1].0, indent)
        } else {
            Seq::empty()
        })
    }
}

/// The first `n` items of an array: sibling elements of one name.
pub open spec fn xml_items(items: Seq<Doc>, n: nat, name: Seq<char>, indent: usize) -> Seq<Tok>
    decreases items, n,
{
    if n == 0 || n > items.len() {
        Seq::empty()
    } else {
        xml_items(items, (n - 1) as nat, name, indent) + xml_tokens(items[n - 1], name, indent)
    }
}

/// The opening tag of an object element, with its attributes.
pub open spec fn xml_open(fields: Seq<(Seq<char>, Doc)>, name: Seq<char>, indent: usize) -> Seq<
    Tok,
> {
    if name.len() == 0 {
        Seq::empty()
    } else if !has_attrs(fields, fields.len()) {
        seq![Tok::Indent(indent), Tok::Tag("<"@ + name + ">"@)]
    } else {
        seq![Tok::Indent(indent), Tok::Tag("<"@ + name)] + xml_attrs(fields, fields.len()) + seq![
            Tok::Tag(">"@),
        ]
    }
}

/// What stands between the tags of an object element: its text, or else its
/// child elements one level deeper, on lines of their own.
pub open spec fn xml_inside(fields: Seq<(Seq<char>, Doc)>, name: Seq<char>, indent: usize) -> Seq<
    Tok,
>
    decreases fields, fields.len() + 1,
{
    match xml_text(fields, fields.len()) {
        Some(text) => seq![Tok::String(text)],
        None => if !has_children(fields, fields.len()) {
            Seq::empty()
        } else if name.len() == 0 {
            xml_children(fields, fields.len(), indent)
        } else {
            seq![Tok::Break] + xml_children(fields, fields.len(), indent_succ(indent)) + seq![
                Tok::Indent(indent),
            ]
        },
    }
}

/// The tokens of the element `name` with the given value. An array is a run
/// of sibling elements. A number or a boolean is not written. An object
/// without a name is written as its inside alone.
pub open spec fn xml_tokens(d: Doc, name: Seq<char>, indent: usize) -> Seq<Tok>
    decreases d, 0nat,
{
    match d {
        Doc::Object(fields) => xml_open(fields, name, indent) + xml_inside(fields, name, indent) + (
        if name.len() == 0 {
            Seq::empty()
        } else {
            seq![Tok::Tag("</"@ + name + ">"@), Tok::Break]
        }),
        Doc::String(s) => seq![
            Tok::Indent(indent),
            Tok::Tag("<"@ + name + ">"@),
            Tok::String(s),
            Tok::Tag("</"@ + name + ">"@),
            Tok::Break,
        ],
        Doc::Array(items) => xml_items(items, items.len(), name, indent),
        Doc::Null => seq![
            Tok::Indent(indent),
            Tok::Tag("<"@ + name + "></"@ + name + ">"@),
            Tok::Break,
        ],
        _ => Seq::empty(),
    }
}

/// Whether a value can be written as XML.
pub fn is_xml_ready(value: &Node) -> (r: bool)
    ensures
        r == xml_ready(value@),
    decreases value,
{
    match value {
        Node::Object(obj) => {
            proof {
                lemma_view_object(*obj);
            }
            let ghost fields = value@->Object_0;
            let mut has_text = false;
            let mut idx: usize = 0;
            while idx < obj.len()
                invariant
                    idx <= obj.len(),
                    value@ is Object,
                    fields == value@->Object_0,
                    fields.len() == obj@.len(),
                    forall|k: int|
                        0 <= k < obj@.len() ==> #[trigger] fields[k] == (
                            obj@[k].0@,
                            obj@[k].1.view(),
                        ),
                    forall|i: int|
                        #![trigger fields[i]]
                        0 <= i < idx && (is_attr(fields[i].0) || is_text(fields[i].0))
                            ==> fields[i].1 is String,
                    has_text == (xml_text(fields, idx as nat) is Some),
                decreases obj.len() - idx,
            {
                assert(fields[idx as int] == (obj@[idx as int].0@, obj@[idx as int].1.view()));
                let key = obj[idx].0.as_str();
                let text = str_eq(key, "#text");
                if starts_with_char(key, '@') || text {
                    match &obj[idx].1 {
                        Node::String(_) => {},
                        _ => {
                            assert(!(fields[idx as int].1 is String));
                            return false;
                        },
                    }
                }
                if text {
                    has_text = true;
                }
                idx += 1;
            }
            if has_text {
                return true;
            }
            let mut idx: usize = 0;
            while idx < obj.len()
                invariant
                    idx <= obj.len(),
                    value is Object,
                    value->Object_0 == *obj,
                    fields == value@->Object_0,
                    fields.len() == obj@.len(),
                    forall|k: int|
                        0 <= k < obj@.len() ==> #[trigger] fields[k] == (
                            obj@[k].0@,
                            obj@[k].1.view(),
                        ),
                    forall|i: int|
                        #![trigger fields[i]]
                        0 <= i < fields.len() && (is_attr(fields[i].0) || is_text(fields[i].0))
                            ==> fields[i].1 is String,
                    xml_text(fields, fields.len()) is None,
                    forall|i: int|
                        #![trigger fields[i]]
                        0 <= i < idx && !is_attr(fields[i].0) && !is_text(fields[i].0)
                            ==> xml_ready(fields[i].1),
                decreases obj.len() - idx,
            {
                assert(fields[idx as int] == (obj@[idx as int].0@, obj@[idx as int].1.view()));
                proof {
                    assert(decreases_to!(value => value->Object_0));
                    assert(decreases_to!(value->Object_0 => value->Object_0@));
                    assert(decreases_to!(value->Object_0@ => value->Object_0@[idx as int]));
                    assert(decreases_to!(value->Object_0@[idx as int] => value->Object_0@[idx as int].1));
                }
                let key = obj[idx].0.as_str();
                if !starts_with_char(key, '@') && !str_eq(key, "#text") {
                    if !is_xml_ready(&obj[idx].1) {
                        assert(!xml_ready(fields[idx as int].1));
                        return false;
                    }
                }
                idx += 1;
            }
            true
        },
        Node::Array(arr) => {
            proof {
                lemma_view_array(*arr);
            }
            let ghost items = value@->Array_0;
            let mut idx: usize = 0;
            while idx < arr.len()
                invariant
                    idx <= arr.len(),
                    value is Array,
                    value->Array_0 == *arr,
                    items == value@->Array_0,
                    items.len() == arr@.len(),
                    forall|k: int| 0 <= k < arr@.len() ==> #[trigger] items[k] == arr@[k].view(),
                    forall|i: int| #![trigger items[i]] 0 <= i < idx ==> xml_ready(items[i]),
                decreases arr.len() - idx,
            {
                proof {
                    assert(decreases_to!(value => value->Array_0));
                    assert(decreases_to!(value->Array_0 => value->Array_0@));
                    assert(decreases_to!(value->Array_0@ => value->Array_0@[idx as int]));
                }
                if !is_xml_ready(&arr[idx]) {
                    assert(!xml_ready(items[idx as int]));
                    return false;
                }
                idx += 1;
            }
            true
        },
        _ => true,
    }
}

/// Highlights the element `field_name` with the given value as XML.
pub fn highlight(value: &Node, field_name: &str, indent: usize) -> (tokens: Vec<SyntaxToken>)
    requires
        xml_ready(value@),
    ensures
        toks_of(tokens@) == xml_tokens(value@, field_name@, indent),
{
    let mut tokens: Vec<SyntaxToken> = Vec::new();
    assert(toks_of(tokens@) =~= Seq::<Tok>::empty());
    highlight_into(&mut tokens, value, field_name, indent);
    assert(toks_of(tokens@) =~= xml_tokens(value@, field_name@, indent));
    tokens
}

fn open_tag(name: &str) -> (r: String)
    ensures
        r@ == "<"@ + name@ + ">"@,
{
    String::from_str("<").concat(name).concat(">")
}

fn close_tag(name: &str) -> (r: String)
    ensures
        r@ == "</"@ + name@ + ">"@,
{
    String::from_str("</").concat(name).concat(">")
}

fn emit_open(tokens: &mut Vec<SyntaxToken>, obj: &Vec<(String, Node)>, name: &str, indent: usize)
    requires
        xml_ready(Node::Object(*obj)@),
    ensures
        toks_of(final(tokens)@) == toks_of(old(tokens)@) + xml_open(
            Node::Object(*obj)@->Object_0,
            name@,
            indent,
        ),
{
    proof {
        lemma_view_object(*obj);
    }
    let ghost fields = Node::Object(*obj)@->Object_0;
    let ghost base = toks_of(tokens@);
    if name.is_empty() {
        assert(toks_of(tokens@) =~= base + Seq::<Tok>::empty());
        return ;
    }
    let mut any = false;
    let mut idx: usize = 0;
    while idx < obj.len()
        invariant
            idx <= obj.len(),
            fields.len() == obj@.len(),
            forall|k: int|
                0 <= k < obj@.len() ==> #[trigger] fields[k] == (obj@[k].0@, obj@[k].1.view()),
            any == has_attrs(fields, idx as nat),
        decreases obj.len() - idx,
    {
        if starts_with_char(obj[idx].0.as_str(), '@') {
            assert(is_attr(fields[idx as int].0));
            any = true;
        }
        idx += 1;
    }
    emit(tokens, SyntaxToken::Indent(indent));
    if !any {
        emit(tokens, SyntaxToken::Tag(open_tag(name)));
        assert(toks_of(tokens@) =~= base + seq![
            Tok::Indent(indent),
            Tok::Tag("<"@ + name@ + ">"@),
        ]);
        return ;
    }
    emit(tokens, SyntaxToken::Tag(String::from_str("<").concat(name)));
    let ghost start = toks_of(tokens@);
    assert(toks_of(tokens@) =~= start + Seq::<Tok>::empty());
    let mut idx: usize = 0;
    while idx < obj.len()
        invariant
            idx <= obj.len(),
            fields.len() == obj@.len(),
            forall|k: int|
                0 <= k < obj@.len() ==> #[trigger] fields[k] == (obj@[k].0@, obj@[k].1.view()),
            forall|i: int|
                #![trigger fields[i]]
                0 <= i < fields.len() && (is_attr(fields[i].0) || is_text(fields[i].0))
                    ==> fields[i].1 is String,
            toks_of(tokens@) == start + xml_attrs(fields, idx as nat),
        decreases obj.len() - idx,
    {
        let ghost before = xml_attrs(fields, idx as nat);
        assert(fields[idx as int] == (obj@[idx as int].0@, obj@[idx as int].1.view()));
        let key = obj[idx].0.as_str();
        if starts_with_char(key, '@') {
            assert(is_attr(fields[idx as int].0));
            let attr = String::from_str(trim_start_matches(key, '@'));
            let quoted = match &obj[idx].1 {
                Node::String(v) => debug_quote(v.as_str()),
                _ => unreached(),
            };
            emit(tokens, SyntaxToken::Symbol(" "));
            emit(tokens, SyntaxToken::Name(attr));
            emit(tokens, SyntaxToken::Symbol("="));
            emit(tokens, SyntaxToken::String(quoted));
            assert(toks_of(tokens@) =~= start + (before + seq![
                Tok::Symbol(" "@),
                Tok::Name(without_leading(fields[idx as int].0, '@')),
                Tok::Symbol("="@),
                Tok::String(debug_quoted(fields[idx as int].1->String_0)),
            ]));
        } else {
            assert(toks_of(tokens@) =~= start + (before + Seq::<Tok>::empty()));
        }
        idx += 1;
    }
    emit(tokens, SyntaxToken::Tag(String::from_str(">")));
    assert(toks_of(tokens@) =~= base + (seq![Tok::Indent(indent), Tok::Tag("<"@ + name@)]
        + xml_attrs(fields, fields.len()) + seq![Tok::Tag(">"@)]));
}

/// The text of an object element, if it has one.
fn find_text(obj: &Vec<(String, Node)>) -> (r: Option<&str>)
    requires
        xml_ready(Node::Object(*obj)@),
    ensures
        match r {
            Some(t) => xml_text(Node::Object(*obj)@->Object_0, obj@.len()) == Some(t@),
            None => xml_text(Node::Object(*obj)@->Object_0, obj@.len()) is None,
        },
{
    proof {
        lemma_view_object(*obj);
    }
    let ghost fields = Node::Object(*obj)@->Object_0;
    let mut text: Option<&str> = None;
    let mut idx: usize = 0;
    while idx < obj.len()
        invariant
            idx <= obj.len(),
            fields.len() == obj@.len(),
            forall|k: int|
                0 <= k < obj@.len() ==> #[trigger] fields[k] == (obj@[k].0@, obj@[k].1.view()),
            forall|i: int|
                #![trigger fields[i]]
                0 <= i < fields.len() && (is_attr(fields[i].0) || is_text(fields[i].0))
                    ==> fields[i].1 is String,
            match text {
                Some(t) => xml_text(fields, idx as nat) == Some(t@),
                None => xml_text(fields, idx as nat) is None,
            },
        decreases obj.len() - idx,
    {
        assert(fields[idx as int] == (obj@[idx as int].0@, obj@[idx as int].1.view()));
        if str_eq(obj[idx].0.as_str(), "#text") {
            assert(is_text(fields[idx as int].0));
            match &obj[idx].1 {
                Node::String(v) => {
                    text = Some(v.as_str());
                },
                _ => unreached(),
            }
        }
        idx += 1;
    }
    text
}

fn emit_children(
    tokens: &mut Vec<SyntaxToken>,
    value: &Node,
    obj: &Vec<(String, Node)>,
    indent: usize,
) -> (any: bool)
    requires
        value is Object,
        value->Object_0 == *obj,
        xml_ready(value@),
        xml_text(value@->Object_0, value@->Object_0.len()) is None,
    ensures
        toks_of(final(tokens)@) == toks_of(old(tokens)@) + xml_children(
            value@->Object_0,
            value@->Object_0.len(),
            indent,
        ),
        any == has_children(value@->Object_0, value@->Object_0.len()),
    decreases value, 0nat,
{
    proof {
        lemma_view_object(*obj);
    }
    let ghost fields = value@->Object_0;
    let ghost base = toks_of(tokens@);
    assert(toks_of(tokens@) =~= base + Seq::<Tok>::empty());
    let mut any = false;
    let mut idx: usize = 0;
    while idx < obj.len()
        invariant
            idx <= obj.len(),
            value is Object,
            value->Object_0 == *obj,
            fields == value@->Object_0,
            fields.len() == obj@.len(),
            forall|k: int|
                0 <= k < obj@.len() ==> #[trigger] fields[k] == (obj@[k].0@, obj@[k].1.view()),
            forall|i: int|
                #![trigger fields[i]]
                0 <= i < fields.len() && !is_attr(fields[i].0) && !is_text(fields[i].0)
                    ==> xml_ready(fields[i].1),
            toks_of(tokens@) == base + xml_children(fields, idx as nat, indent),
            any == has_children(fields, idx as nat),
        decreases obj.len() - idx,
    {
        proof {
            assert(decreases_to!(value => value->Object_0));
            assert(decreases_to!(value->Object_0 => value->Object_0@));
            assert(decreases_to!(value->Object_0@ => value->Object_0@[idx as int]));
            assert(decreases_to!(value->Object_0@[idx as int] => value->Object_0@[idx as int].1));
        }
        let ghost before = xml_children(fields, idx as nat, indent);
        assert(fields[idx as int] == (obj@[idx as int].0@, obj@[idx as int].1.view()));
        let key = obj[idx].0.as_str();
        if !starts_with_char(key, '@') && !str_eq(key, "#text") {
            assert(!is_attr(fields[idx as int].0) && !is_text(fields[idx as int].0));
            any = true;
            highlight_into(tokens, &obj[idx].1, key, indent);
            assert(toks_of(tokens@) =~= base + (before + xml_tokens(
                fields[idx as int].1,
                fields[idx as int].0,
                indent,
            )));
        } else {
            assert(toks_of(tokens@) =~= base + (before + Seq::<Tok>::empty()));
        }
        idx += 1;
    }
    any
}

/// Appends the XML tokens of the element `field_name` to a stream.
pub fn highlight_into(tokens: &mut Vec<SyntaxToken>, value: &Node, field_name: &str, indent: usize)
    requires
        xml_ready(value@),
    ensures
        toks_of(final(tokens)@) == toks_of(old(tokens)@) + xml_tokens(value@, field_name@, indent),
    decreases value, 1nat,
{
    let ghost base = toks_of(tokens@);
    match value {
        Node::Object(obj) => {
            proof {
                lemma_view_object(*obj);
            }
            let ghost fields = value@->Object_0;
            let named = !field_name.is_empty();
            assert(Node::Object(*obj) == *value);
            emit_open(tokens, obj, field_name, indent);
            let ghost inside: Seq<Tok>;
            let ghost opened = toks_of(tokens@);
            match find_text(obj) {
                Some(text) => {
                    emit(tokens, SyntaxToken::String(String::from_str(text)));
                    proof {
                        inside = seq![Tok::String(text@)];
                    }
                },
                None => {
                    let mut children: Vec<SyntaxToken> = Vec::new();
                    assert(toks_of(children@) =~= Seq::<Tok>::empty());
                    let child_indent = if named { next_indent(indent) } else { indent };
                    let any = emit_children(&mut children, value, obj, child_indent);
                    let ghost kids = toks_of(children@);
                    assert(kids =~= xml_children(fields, fields.len(), child_indent));
                    if any {
                        if named {
                            emit(tokens, SyntaxToken::Break);
                        }
                        let ghost mid = toks_of(tokens@);
                        tokens.append(&mut children);
                        assert(toks_of(tokens@) =~= mid + kids);
                        if named {
                            emit(tokens, SyntaxToken::Indent(indent));
                        }
                    }
                    proof {
                        inside = xml_inside(fields, field_name@, indent);
                    }
                },
            }
            assert(toks_of(tokens@) =~= opened + inside);
            if named {
                emit(tokens, SyntaxToken::Tag(close_tag(field_name)));
                emit(tokens, SyntaxToken::Break);
            }
            assert(toks_of(tokens@) =~= base + (xml_open(fields, field_name@, indent) + inside + (
            if field_name@.len() == 0 {
                Seq::empty()
            } else {
                seq![Tok::Tag("</"@ + field_name@ + ">"@), Tok::Break]
            })));
        },
        Node::String(s) => {
            emit(tokens, SyntaxToken::Indent(indent));
            emit(tokens, SyntaxToken::Tag(open_tag(field_name)));
            emit(tokens, SyntaxToken::String(s.clone()));
            emit(tokens, SyntaxToken::Tag(close_tag(field_name)));
            emit(tokens, SyntaxToken::Break);
            assert(toks_of(tokens@) =~= base + seq![
                Tok::Indent(indent),
                Tok::Tag("<"@ + field_name@ + ">"@),
                Tok::String(s@),
                Tok::Tag("</"@ + field_name@ + ">"@),
                Tok::Break,
            ]);
        },
        Node::Array(arr) => {
            proof {
                lemma_view_array(*arr);
            }
            let ghost items = value@->Array_0;
            assert(toks_of(tokens@) =~= base + Seq::<Tok>::empty());
            let mut idx: usize = 0;
            while idx < arr.len()
                invariant
                    idx <= arr.len(),
                    value is Array,
                    value->Array_0 == *arr,
                    items == value@->Array_0,
                    items.len() == arr@.len(),
                    forall|k: int| 0 <= k < arr@.len() ==> #[trigger] items[k] == arr@[k].view(),
                    forall|i: int| #![trigger items[i]] 0 <= i < items.len() ==> xml_ready(items[i]),
                    toks_of(tokens@) == base + xml_items(items, idx as nat, field_name@, indent),
                decreases arr.len() - idx,
            {
                proof {
                    assert(decreases_to!(value => value->Array_0));
                    assert(decreases_to!(value->Array_0 => value->Array_0@));
                    assert(decreases_to!(value->Array_0@ => value->Array_0@[idx as int]));
                }
                let ghost before = xml_items(items, idx as nat, field_name@, indent);
                assert(xml_ready(items[idx as int]));
                highlight_into(tokens, &arr[idx], field_name, indent);
                assert(toks_of(tokens@) =~= base + (before + xml_tokens(
                    items[idx as int],
                    field_name@,
                    indent,
                )));
                idx += 1;
            }
        },
        Node::Null => {
            let tag = String::from_str("<").concat(field_name).concat("></").concat(
                field_name,
            ).concat(">");
            emit(tokens, SyntaxToken::Indent(indent));
            emit(tokens, SyntaxToken::Tag(tag));
            emit(tokens, SyntaxToken::Break);
            assert(toks_of(tokens@) =~= base + seq![
                Tok::Indent(indent),
                Tok::Tag("<"@ + field_name@ + "></"@ + field_name@ + ">"@),
                Tok::Break,
            ]);
        },
        _ => {
            assert(toks_of(tokens@) =~= base + Seq::<Tok>::empty());
        },
    }
}

/// What parsing a text as XML gives: the content of the whole text, read
/// from its events.
pub open spec fn xml_parse(text: Seq<char>) -> Result<Doc, Fault> {
    match xml_content(xml_event_list(text), 0, XmlAcc::empty()).0 {
        Ok(d) => Ok(d),
        Err(e) => Err(syntax_fault(ContentType::Xml, e)),
    }
}

/// The XML codec.
#[derive(Debug, Clone, Copy, PartialEq, Eq)]
pub struct XmlParser {}

impl XmlParser {
    /// The file suffix for the text of a node.
    pub fn extension(&self) -> (r: &'static str)
        ensures
            r@ == "xml"@,
    {
        "xml"
    }

    /// The root of a document may be an array.
    pub fn allow_array_root(&self) -> (r: bool)
        ensures
            r,
    {
        true
    }

    /// Parses an XML text.
    pub fn parse(&self, data: &str) -> (r: Result<Node, ParseError>)
        ensures
            outcome(r) == xml_parse(data@),
            r matches Ok(node) ==> node@.wf(),
    {
        let events = read_events(data);
        proof {
            lemma_xml_content_wf(xml_event_list(data@), 0, XmlAcc::empty());
        }
        match read(&events, 0).0 {
            Ok(node) => Ok(node),
            Err(detail) => Err(ParseError::Syntax { format: ContentType::Xml, line: None, detail }),
        }
    }

    /// Highlights the element `name` with the given value as XML.
    pub fn syntax_highlight(&self, name: &str, value: &Node) -> (tokens: Vec<SyntaxToken>)
        requires
            xml_ready(value@),
        ensures
            toks_of(tokens@) == xml_tokens(value@, name@, 0),
    {
        highlight(value, name, 0)
    }
}

} // verus!
