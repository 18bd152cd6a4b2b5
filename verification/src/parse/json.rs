//! JSON: the pretty-printer that the other formats fall back on.

use vstd::prelude::*;
use vstd::string::*;

use crate::doc::{keys_unique, lemma_view_array, lemma_view_object, Doc, Node};
use crate::parse::syntax::{emit, toks_of, SyntaxToken, Tok};
use crate::parse::{check_root, decode, outcome, root_check, syntax_fault, ContentType, Fault, ParseError};
use crate::text::{debug_quote, debug_quoted, indent_succ, next_indent};

verus! {

/// The tokens of a value and of what ends its line: a comma if another
/// value follows, and a line break.
pub open spec fn json_tokens(d: Doc, indent: usize, has_next: bool) -> Seq<Tok>
    decreases d, 0nat,
{
    let body = match d {
        Doc::Null => seq![Tok::Null("null"@)],
        Doc::String(s) => seq![Tok::String(debug_quoted(s))],
        Doc::Number(n) => seq![Tok::Number(n)],
        Doc::Bool(b) => seq![Tok::Bool(if b { "true"@ } else { "false"@ })],
        Doc::Object(fields) => if fields.len() == 0 {
            seq![Tok::Symbol("{"@), Tok::Symbol("}"@)]
        } else {
            seq![Tok::Symbol("{"@), Tok::Break] + json_members(
                fields,
                fields.len(),
                indent_succ(indent),
            ) + seq![Tok::Indent(indent), Tok::Symbol("}"@)]
        },
        Doc::Array(items) => if items.len() == 0 {
            seq![Tok::Symbol("["@), Tok::Symbol("]"@)]
        } else {
            seq![Tok::Symbol("["@), Tok::Break] + json_elements(
                items,
                items.len(),
                indent_succ(indent),
            ) + seq![Tok::Indent(indent), Tok::Symbol("]"@)]
        },
    };
    body + (if has_next {
        seq![Tok::Symbol(","@), Tok::Break]
    } else {
        seq![Tok::Break]
    })
}

/// The lines of the first `n` fields of an object: for each the indentation,
/// the quoted name, a colon and the value. Every field but the last of the
/// object is followed by a comma.
pub open spec fn json_members(fields: Seq<(Seq<char>, Doc)>, n: nat, indent: usize) -> Seq<Tok>
    decreases fields, n,
{
    if n == 0 || n > fields.len() {
        Seq::empty()
    } else {
        json_members(fields, (n - 1) as nat, indent) + seq![
            Tok::Indent(indent),
            Tok::Name(debug_quoted(fields[n - 1].0)),
            Tok::Symbol(": "@),
        ] + json_tokens(fields[n - 1].1, indent, n != fields.len())
    }
}

/// The lines of the first `n` items of an array: for each the indentation
/// and the value. Every item but the last of the array is followed by a
/// comma.
pub open spec fn json_elements(items: Seq<Doc>, n: nat, indent: usize) -> Seq<Tok>
    decreases items, n,
{
    if n == 0 || n > items.len() {
        Seq::empty()
    } else {
        json_elements(items, (n - 1) as nat, indent) + seq![Tok::Indent(indent)] + json_tokens(
            items[n - 1],
            indent,
            n != items.len(),
        )
    }
}

/// The JSON line of a field holds the name in quotes, whatever the name is.
pub proof fn lemma_json_field_quoted(fields: Seq<(Seq<char>, Doc)>, n: nat, indent: usize)
    requires
        0 < n <= fields.len(),
    ensures
        json_members(fields, n, indent) == json_members(fields, (n - 1) as nat, indent) + seq![
            Tok::Indent(indent),
            Tok::Name(debug_quoted(fields[n - 1].0)),
            Tok::Symbol(": "@),
        ] + json_tokens(fields[n - 1].1, indent, n != fields.len()),
{
}

/// Highlights a value as JSON at the given indentation level. `has_next`
/// says that another value follows in the enclosing array or object.
pub fn highlight(value: &Node, indent: usize, has_next: bool) -> (tokens: Vec<SyntaxToken>)
    ensures
        toks_of(tokens@) == json_tokens(value@, indent, has_next),
{
    let mut tokens = Vec::new();
    assert(toks_of(tokens@) =~= Seq::<Tok>::empty());
    highlight_into(&mut tokens, value, indent, has_next);
    assert(Seq::<Tok>::empty() + json_tokens(value@, indent, has_next) =~= json_tokens(
        value@,
        indent,
        has_next,
    ));
    tokens
}

/// Appends the JSON tokens of a value to a stream.
pub fn highlight_into(tokens: &mut Vec<SyntaxToken>, value: &Node, indent: usize, has_next: bool)
    ensures
        toks_of(final(tokens)@) == toks_of(old(tokens)@) + json_tokens(value@, indent, has_next),
    decreases value,
{
    let ghost base = toks_of(tokens@);
    let ghost tail = if has_next {
        seq![Tok::Symbol(","@), Tok::Break]
    } else {
        seq![Tok::Break]
    };
    let ghost body: Seq<Tok>;
    match value {
        Node::Null => {
            emit(tokens, SyntaxToken::Null("null"));
            proof {
                body = seq![Tok::Null("null"@)];
            }
        },
        Node::String(s) => {
            emit(tokens, SyntaxToken::String(debug_quote(s.as_str())));
            proof {
                body = seq![Tok::String(debug_quoted(s@))];
            }
        },
        Node::Number(num) => {
            emit(tokens, SyntaxToken::Number(num.clone()));
            proof {
                body = seq![Tok::Number(num@)];
            }
        },
        Node::Bool(b) => {
            let b = if *b { "true" } else { "false" };
            emit(tokens, SyntaxToken::Bool(b));
            proof {
                body = seq![Tok::Bool(b@)];
            }
        },
        Node::Object(obj) => {
            proof {
                lemma_view_object(*obj);
            }
            let ghost fields = value@->Object_0;
            emit(tokens, SyntaxToken::Symbol("{"));
            if obj.len() == 0 {
                emit(tokens, SyntaxToken::Symbol("}"));
                proof {
                    body = seq![Tok::Symbol("{"@), Tok::Symbol("}"@)];
                }
            } else {
                emit(tokens, SyntaxToken::Break);
                let child_indent = next_indent(indent);
                let ghost start = toks_of(tokens@);
                let mut idx: usize = 0;
                while idx < obj.len()
                    invariant
                        idx <= obj.len(),
                        value is Object,
                        value->Object_0 == *obj,
                        fields == value@->Object_0,
                        fields.len() == obj@.len(),
                        forall|k: int|
                            0 <= k < obj@.len() ==> #[trigger] fields[k] == (
                                obj@[k].0@,
                                obj@[k].1.view(),
                            ),
                        toks_of(tokens@) == start + json_members(fields, idx as nat, child_indent),
                    decreases obj.len() - idx,
                {
                    proof {
                        assert(decreases_to!(value => value->Object_0));
                        assert(decreases_to!(value->Object_0 => value->Object_0@));
                        assert(decreases_to!(value->Object_0@ => value->Object_0@[idx as int]));
                        assert(decreases_to!(value->Object_0@[idx as int] => value->Object_0@[idx as int].1));
                    }
                    let ghost before = json_members(fields, idx as nat, child_indent);
                    emit(tokens, SyntaxToken::Indent(child_indent));
                    emit(tokens, SyntaxToken::Name(debug_quote(obj[idx].0.as_str())));
                    emit(tokens, SyntaxToken::Symbol(": "));
                    let has_next = idx != obj.len() - 1;
                    highlight_into(tokens, &obj[idx].1, child_indent, has_next);
                    proof {
                        assert(toks_of(tokens@) =~= start + (before + seq![
                            Tok::Indent(child_indent),
                            Tok::Name(debug_quoted(fields[idx as int].0)),
                            Tok::Symbol(": "@),
                        ] + json_tokens(fields[idx as int].1, child_indent, has_next)));
                    }
                    idx += 1;
                }
                emit(tokens, SyntaxToken::Indent(indent));
                emit(tokens, SyntaxToken::Symbol("}"));
                proof {
                    body = seq![Tok::Symbol("{"@), Tok::Break] + json_members(
                        fields,
                        fields.len(),
                        child_indent,
                    ) + seq![Tok::Indent(indent), Tok::Symbol("}"@)];
                }
            }
        },
        Node::Array(arr) => {
            proof {
                lemma_view_array(*arr);
            }
            let ghost items = value@->Array_0;
            emit(tokens, SyntaxToken::Symbol("["));
            if arr.len() == 0 {
                emit(tokens, SyntaxToken::Symbol("]"));
                proof {
                    body = seq![Tok::Symbol("["@), Tok::Symbol("]"@)];
                }
            } else {
                emit(tokens, SyntaxToken::Break);
                let child_indent = next_indent(indent);
                let ghost start = toks_of(tokens@);
                let mut idx: usize = 0;
                while idx < arr.len()
                    invariant
                        idx <= arr.len(),
                        value is Array,
                        value->Array_0 == *arr,
                        items == value@->Array_0,
                        items.len() == arr@.len(),
                        forall|k: int| 0 <= k < arr@.len() ==> #[trigger] items[k] == arr@[k].view(),
                        toks_of(tokens@) == start + json_elements(items, idx as nat, child_indent),
                    decreases arr.len() - idx,
                {
                    proof {
                        assert(decreases_to!(value => value->Array_0));
                        assert(decreases_to!(value->Array_0 => value->Array_0@));
                        assert(decreases_to!(value->Array_0@ => value->Array_0@[idx as int]));
                    }
                    let ghost before = json_elements(items, idx as nat, child_indent);
                    emit(tokens, SyntaxToken::Indent(child_indent));
                    let has_next = idx != arr.len() - 1;
                    highlight_into(tokens, &arr[idx], child_indent, has_next);
                    proof {
                        assert(toks_of(tokens@) =~= start + (before + seq![Tok::Indent(child_indent)]
                            + json_tokens(items[idx as int], child_indent, has_next)));
                    }
                    idx += 1;
                }
                emit(tokens, SyntaxToken::Indent(indent));
                emit(tokens, SyntaxToken::Symbol("]"));
                proof {
                    body = seq![Tok::Symbol("["@), Tok::Break] + json_elements(
                        items,
                        items.len(),
                        child_indent,
                    ) + seq![Tok::Indent(indent), Tok::Symbol("]"@)];
                }
            }
        },
    }
    proof {
        assert(toks_of(tokens@) =~= base + body);
    }
    if has_next {
        emit(tokens, SyntaxToken::Symbol(","));
    }
    emit(tokens, SyntaxToken::Break);
    proof {
        assert(toks_of(tokens@) =~= base + (body + tail));
    }
}

/// A document of `serde_json`.
#[verifier::external_type_specification]
#[verifier::external_body]
pub struct ExJsonValue(serde_json::Value);

/// The document that a `serde_json::Value` holds. Numbers are in the text
/// that `serde_json` prints them with; the fields of an object are in the
/// order in which its map hands them out.
pub uninterp spec fn json_doc(v: serde_json::Value) -> Doc;

/// What `serde_json::from_str` makes of a text: the document, or the message
/// of the error.
pub uninterp spec fn json_read(text: Seq<char>) -> Result<Doc, Seq<char>>;

/// The top of a `serde_json::Value`: its variant with what the variant
/// holds.
pub enum JsonShape<'a> {
    Null,
    Bool(bool),
    Number(String),
    String(&'a str),
    Array(&'a Vec<serde_json::Value>),
    Object(Vec<(&'a String, &'a serde_json::Value)>),
}

impl JsonShape<'_> {
    /// The document that the parts make up.
    pub open spec fn doc(self) -> Doc {
        match self {
            JsonShape::Null => Doc::Null,
            JsonShape::Bool(b) => Doc::Bool(b),
            JsonShape::Number(n) => Doc::Number(n@),
            JsonShape::String(s) => Doc::String(s@),
            JsonShape::Array(items) => Doc::Array(
                Seq::new(items@.len(), |i: int| json_doc(items@[i])),
            ),
            JsonShape::Object(entries) => Doc::Object(
                Seq::new(entries@.len(), |i: int| (entries@[i].0@, json_doc(*entries@[i].1))),
            ),
        }
    }
}

/// `serde_json::from_str` into a `serde_json::Value`, with the error as its
/// message: the result is named, not described.
#[verifier::external_body]
fn json_from_str(data: &str) -> (r: Result<serde_json::Value, String>)
    ensures
        match r {
            Ok(v) => json_read(data@) == Ok::<Doc, Seq<char>>(json_doc(v)),
            Err(e) => json_read(data@) == Err::<Doc, Seq<char>>(e@),
        },
{
    serde_json::from_str(data).map_err(|e: serde_json::Error| e.to_string())
}

/// Tells the variants of a `serde_json::Value` apart. A number is handed
/// out as the text that `Number`'s `Display` prints, the entries of a map in
/// the order of `Map::iter`. The names of the entries of a map differ from
/// each other.
#[verifier::external_body]
fn json_shape<'a>(v: &'a serde_json::Value) -> (r: JsonShape<'a>)
    ensures
        r.doc() == json_doc(*v),
        r matches JsonShape::Object(entries) ==> forall|i: int, j: int|
            0 <= i < j < entries@.len() ==> (#[trigger] entries@[i]).0@ != (
            #[trigger] entries@[j]).0@,
{
    match v {
        serde_json::Value::Null => JsonShape::Null,
        serde_json::Value::Bool(b) => JsonShape::Bool(*b),
        serde_json::Value::Number(n) => JsonShape::Number(n.to_string()),
        serde_json::Value::String(s) => JsonShape::String(s),
        serde_json::Value::Array(items) => JsonShape::Array(items),
        serde_json::Value::Object(map) => JsonShape::Object(map.iter().collect()),
    }
}

/// Copies a document of `serde_json` into a document value.
pub fn from_json(v: &serde_json::Value) -> (r: Node)
    ensures
        r@ == json_doc(*v),
        r@.wf(),
    decreases json_doc(*v),
{
    match json_shape(v) {
        JsonShape::Null => Node::Null,
        JsonShape::Bool(b) => Node::Bool(b),
        JsonShape::Number(n) => Node::Number(n),
        JsonShape::String(s) => Node::String(String::from_str(s)),
        JsonShape::Array(items) => {
            let ghost docs = json_doc(*v)->Array_0;
            let mut out: Vec<Node> = Vec::new();
            let mut i: usize = 0;
            while i < items.len()
                invariant
                    i <= items.len(),
                    out@.len() == i,
                    json_doc(*v) == Doc::Array(docs),
                    docs.len() == items@.len(),
                    forall|k: int| 0 <= k < items@.len() ==> #[trigger] docs[k] == json_doc(items@[k]),
                    forall|k: int| 0 <= k < i ==> (#[trigger] out@[k])@ == docs[k] && out@[k]@.wf(),
                decreases items.len() - i,
            {
                proof {
                    assert(decreases_to!(json_doc(*v) => json_doc(*v)->Array_0));
                    assert(decreases_to!(json_doc(*v)->Array_0 => json_doc(*v)->Array_0[i as int]));
                }
                let item = from_json(&items[i]);
                out.push(item);
                i += 1;
            }
            proof {
                lemma_view_array(out);
                assert(Node::Array(out)@->Array_0 =~= docs);
            }
            Node::Array(out)
        },
        JsonShape::Object(entries) => {
            let ghost fields = json_doc(*v)->Object_0;
            let mut out: Vec<(String, Node)> = Vec::new();
            let mut i: usize = 0;
            while i < entries.len()
                invariant
                    i <= entries.len(),
                    out@.len() == i,
                    json_doc(*v) == Doc::Object(fields),
                    fields.len() == entries@.len(),
                    forall|k: int|
                        0 <= k < entries@.len() ==> #[trigger] fields[k] == (
                            entries@[k].0@,
                            json_doc(*entries@[k].1),
                        ),
                    forall|k: int|
                        0 <= k < i ==> (#[trigger] out@[k]).0@ == fields[k].0 && out@[k].1@
                            == fields[k].1 && out@[k].1@.wf(),
                decreases entries.len() - i,
            {
                proof {
                    assert(decreases_to!(json_doc(*v) => json_doc(*v)->Object_0));
                    assert(decreases_to!(json_doc(*v)->Object_0 => json_doc(*v)->Object_0[i as int]));
                    assert(decreases_to!(json_doc(*v)->Object_0[i as int] => json_doc(*v)->Object_0[i as int].1));
                }
                let value = from_json(entries[i].1);
                out.push((entries[i].0.clone(), value));
                i += 1;
            }
            proof {
                lemma_view_object(out);
                assert(Node::Object(out)@->Object_0 =~= fields);
                assert(keys_unique(fields)) by {
                    assert forall|a: int, b: int| 0 <= a < b < fields.len() implies (
                    #[trigger] fields[a]).0 != (#[trigger] fields[b]).0 by {
                        assert(fields[a].0 == entries@[a].0@);
                        assert(fields[b].0 == entries@[b].0@);
                    }
                }
            }
            Node::Object(out)
        },
    }
}

/// What parsing a text as JSON gives.
pub open spec fn json_parse(text: Seq<char>) -> Result<Doc, Fault> {
    match json_read(text) {
        Ok(d) => Ok(d),
        Err(e) => Err(syntax_fault(ContentType::Json, e)),
    }
}

/// The JSON codec.
#[derive(Debug, Clone, Copy, PartialEq, Eq)]
pub struct JsonParser {}

impl JsonParser {
    /// The file suffix for the text of a node.
    pub fn extension(&self) -> (r: &'static str)
        ensures
            r@ == "json"@,
    {
        "json"
    }

    /// The root of a document may be an array.
    pub fn allow_array_root(&self) -> (r: bool)
        ensures
            r,
    {
        true
    }

    /// Parses a JSON text.
    pub fn parse(&self, data: &str) -> (r: Result<Node, ParseError>)
        ensures
            outcome(r) == json_parse(data@),
            r matches Ok(node) ==> node@.wf(),
    {
        match json_from_str(data) {
            Ok(v) => Ok(from_json(&v)),
            Err(detail) => Err(ParseError::Syntax { format: ContentType::Json, line: None, detail }),
        }
    }

    /// Highlights a value as JSON.
    pub fn syntax_highlight(&self, name: &str, value: &Node) -> (tokens: Vec<SyntaxToken>)
        ensures
            toks_of(tokens@) == json_tokens(value@, 0, false),
    {
        highlight(value, 0, false)
    }
}

} // verus!
