//! YAML: block style, one or more documents.

use vstd::prelude::*;
use vstd::string::*;

use crate::doc::{lemma_view_array, lemma_view_object, Doc, Node};
use crate::parse::json::{from_json, json_doc};
use crate::parse::{outcome, syntax_fault, ContentType, Fault, ParseError};
use crate::parse::syntax::{
    emit, field_name_text, quote_field_name, string_form, toks_of, StringForm, StringValue,
    SyntaxToken, Tok,
};
use crate::text::{indent_succ, is_standard_name, next_indent, texts_of};

verus! {

/// An array or an object that is not empty: its tokens start on a line of
/// their own.
pub open spec fn is_nested(d: Doc) -> bool {
    match d {
        Doc::Object(fields) => fields.len() > 0,
        Doc::Array(items) => items.len() > 0,
        _ => false,
    }
}

/// The tokens of a value in block style. `from_arr` says that the value is
/// an item of an array, so that its first line continues the item's dash.
pub open spec fn yaml_tokens(d: Doc, indent: usize, from_arr: bool) -> Seq<Tok>
    decreases d, 0nat,
{
    match d {
        Doc::Null => seq![Tok::Null("null"@), Tok::Break],
        Doc::String(s) => match string_form(s, false) {
            StringForm::String(t) => seq![Tok::String(t), Tok::Break],
            StringForm::MultiLines(lines) => seq![Tok::Symbol("|"@), Tok::Break] + yaml_block(
                lines,
                lines.len(),
                indent,
            ),
        },
        Doc::Number(n) => seq![Tok::Number(n), Tok::Break],
        Doc::Bool(b) => seq![Tok::Bool(if b { "true"@ } else { "false"@ }), Tok::Break],
        Doc::Object(fields) => if fields.len() == 0 {
            seq![Tok::Symbol("{}"@), Tok::Break]
        } else {
            yaml_members(fields, fields.len(), indent, from_arr)
        },
        Doc::Array(items) => if items.len() == 0 {
            seq![Tok::Symbol("[]"@), Tok::Break]
        } else {
            yaml_elements(items, items.len(), indent, from_arr)
        },
    }
}

/// The first `n` lines of a literal block: each line indented, an empty
/// line as a bare line break.
pub open spec fn yaml_block(lines: Seq<Seq<char>>, n: nat, indent: usize) -> Seq<Tok>
    decreases n,
{
    if n == 0 || n > lines.len() {
        Seq::empty()
    } else {
        yaml_block(lines, (n - 1) as nat, indent) + (if lines[n - 1].len() == 0 {
            seq![Tok::Break]
        } else {
            seq![Tok::Indent(indent), Tok::String(lines[n - 1]), Tok::Break]
        })
    }
}

/// What stands before the `i`-th field or item: the indentation, unless it
/// is the first one of an array item.
pub open spec fn yaml_lead(i: int, indent: usize, from_arr: bool) -> Seq<Tok> {
    if i > 0 || !from_arr {
        seq![Tok::Indent(indent)]
    } else {
        Seq::empty()
    }
}

/// The first `n` fields of an object: the name, a colon, and the value on
/// the same line, or one level deeper from the next line on if it is nested.
pub open spec fn yaml_members(
    fields: Seq<(Seq<char>, Doc)>,
    n: nat,
    indent: usize,
    from_arr: bool,
) -> Seq<Tok>
    decreases fields, n,
{
    if n == 0 || n > fields.len() {
        Seq::empty()
    } else {
        yaml_members(fields, (n - 1) as nat, indent, from_arr) + yaml_lead(
            n - 1,
            indent,
            from_arr,
        ) + seq![Tok::Name(field_name_text(fields[n - 1].0))] + (if is_nested(fields[n - 1].1) {
            seq![Tok::Symbol(":"@), Tok::Break]
        } else {
            seq![Tok::Symbol(": "@)]
        }) + yaml_tokens(fields[n - 1].1, indent_succ(indent), false)
    }
}

/// The first `n` items of an array: a dash and the value.
pub open spec fn yaml_elements(items: Seq<Doc>, n: nat, indent: usize, from_arr: bool) -> Seq<Tok>
    decreases items, n,
{
    if n == 0 || n > items.len() {
        Seq::empty()
    } else {
        yaml_elements(items, (n - 1) as nat, indent, from_arr) + yaml_lead(
            n - 1,
            indent,
            from_arr,
        ) + seq![Tok::Symbol("- "@)] + yaml_tokens(items[n - 1], indent_succ(indent), true)
    }
}

/// The first `n` documents of a stream, with a `---` line between each two.
pub open spec fn yaml_documents(items: Seq<Doc>, n: nat) -> Seq<Tok>
    decreases n,
{
    if n == 0 || n > items.len() {
        Seq::empty()
    } else if n == 1 {
        yaml_tokens(items[0], 0, false)
    } else {
        yaml_documents(items, (n - 1) as nat) + seq![Tok::Symbol("---"@), Tok::Break] + yaml_tokens(
            items[n - 1],
            0,
            false,
        )
    }
}

/// The stream without the line break that it ends with, if it ends with one.
pub open spec fn without_last_break(toks: Seq<Tok>) -> Seq<Tok> {
    if toks.len() > 0 && toks.last() is Break {
        toks.drop_last()
    } else {
        toks
    }
}

/// The rendering of a whole value. An array at the top stands for a stream
/// of documents. The line break at the very end is left out.
pub open spec fn yaml_stream(d: Doc) -> Seq<Tok> {
    without_last_break(
        match d {
            Doc::Array(items) => if items.len() == 0 {
                seq![Tok::Symbol("[]"@)]
            } else {
                yaml_documents(items, items.len())
            },
            _ => yaml_tokens(d, 0, false),
        },
    )
}

/// The YAML line of a field whose name is a standard identifier holds the
/// name as it is, without quotes.
pub proof fn lemma_yaml_standard_field(
    fields: Seq<(Seq<char>, Doc)>,
    n: nat,
    indent: usize,
    from_arr: bool,
)
    requires
        0 < n <= fields.len(),
        is_standard_name(fields[n - 1].0),
    ensures
        yaml_members(fields, n, indent, from_arr) == yaml_members(
            fields,
            (n - 1) as nat,
            indent,
            from_arr,
        ) + yaml_lead(n - 1, indent, from_arr) + seq![Tok::Name(fields[n - 1].0)] + (if is_nested(
            fields[n - 1].1,
        ) {
            seq![Tok::Symbol(":"@), Tok::Break]
        } else {
            seq![Tok::Symbol(": "@)]
        }) + yaml_tokens(fields[n - 1].1, indent_succ(indent), false),
{
}

/// A stream of two documents is written as the first document, a `---`
/// line and the second document, without the line break at the very end.
pub proof fn lemma_yaml_two_documents(first: Doc, second: Doc)
    ensures
        yaml_stream(Doc::Array(seq![first, second])) == without_last_break(
            yaml_tokens(first, 0, false) + seq![Tok::Symbol("---"@), Tok::Break] + yaml_tokens(
                second,
                0,
                false,
            ),
        ),
{
    let items = seq![first, second];
    assert(yaml_documents(items, 1) == yaml_tokens(first, 0, false));
    assert(yaml_documents(items, 2) == yaml_documents(items, 1) + seq![
        Tok::Symbol("---"@),
        Tok::Break,
    ] + yaml_tokens(second, 0, false));
}

/// Highlights a whole value as YAML.
pub fn highlight_stream(value: &Node) -> (tokens: Vec<SyntaxToken>)
    ensures
        toks_of(tokens@) == yaml_stream(value@),
{
    let mut tokens: Vec<SyntaxToken> = Vec::new();
    assert(toks_of(tokens@) =~= Seq::<Tok>::empty());
    match value {
        Node::Array(arr) => {
            proof {
                lemma_view_array(*arr);
            }
            let ghost items = value@->Array_0;
            if arr.len() == 0 {
                emit(&mut tokens, SyntaxToken::Symbol("[]"));
                assert(toks_of(tokens@) =~= seq![Tok::Symbol("[]"@)]);
            } else {
                let mut idx: usize = 0;
                while idx < arr.len()
                    invariant
                        idx <= arr.len(),
                        items.len() == arr@.len(),
                        forall|k: int| 0 <= k < arr@.len() ==> #[trigger] items[k] == arr@[k].view(),
                        toks_of(tokens@) == yaml_documents(items, idx as nat),
                    decreases arr.len() - idx,
                {
                    let ghost before = toks_of(tokens@);
                    if idx > 0 {
                        emit(&mut tokens, SyntaxToken::Symbol("---"));
                        emit(&mut tokens, SyntaxToken::Break);
                    }
                    highlight_into(&mut tokens, &arr[idx], 0, false);
                    proof {
                        if idx > 0 {
                            assert(toks_of(tokens@) =~= before + seq![
                                Tok::Symbol("---"@),
                                Tok::Break,
                            ] + yaml_tokens(items[idx as int], 0, false));
                        } else {
                            assert(toks_of(tokens@) =~= yaml_tokens(items[0], 0, false));
                        }
                    }
                    idx += 1;
                }
            }
        },
        _ => {
            highlight_into(&mut tokens, value, 0, false);
            assert(toks_of(tokens@) =~= yaml_tokens(value@, 0, false));
        },
    }
    let n = tokens.len();
    if n > 0 && is_break(&tokens[n - 1]) {
        let ghost full = toks_of(tokens@);
        tokens.pop();
        assert(toks_of(tokens@) =~= full.drop_last());
    }
    tokens
}

/// Whether a token is a line break.
pub fn is_break(token: &SyntaxToken) -> (r: bool)
    ensures
        r == (token@ is Break),
{
    match token {
        SyntaxToken::Break => true,
        _ => false,
    }
}

fn is_nested_value(value: &Node) -> (r: bool)
    ensures
        r == is_nested(value@),
{
    match value {
        Node::Object(obj) => {
            proof {
                lemma_view_object(*obj);
            }
            obj.len() > 0
        },
        Node::Array(arr) => {
            proof {
                lemma_view_array(*arr);
            }
            arr.len() > 0
        },
        _ => false,
    }
}

fn emit_lead(tokens: &mut Vec<SyntaxToken>, idx: usize, indent: usize, from_arr: bool)
    ensures
        toks_of(final(tokens)@) == toks_of(old(tokens)@) + yaml_lead(idx as int, indent, from_arr),
{
    if idx > 0 || !from_arr {
        emit(tokens, SyntaxToken::Indent(indent));
        assert(toks_of(tokens@) =~= toks_of(old(tokens)@) + seq![Tok::Indent(indent)]);
    } else {
        assert(toks_of(tokens@) =~= toks_of(old(tokens)@) + Seq::<Tok>::empty());
    }
}

/// Appends the block-style tokens of a value to a stream.
pub fn highlight_into(tokens: &mut Vec<SyntaxToken>, value: &Node, indent: usize, from_arr: bool)
    ensures
        toks_of(final(tokens)@) == toks_of(old(tokens)@) + yaml_tokens(value@, indent, from_arr),
    decreases value,
{
    let ghost base = toks_of(tokens@);
    match value {
        Node::Null => {
            emit(tokens, SyntaxToken::Null("null"));
            emit(tokens, SyntaxToken::Break);
            assert(toks_of(tokens@) =~= base + seq![Tok::Null("null"@), Tok::Break]);
        },
        Node::String(s) => {
            match StringValue::new(s.as_str(), false) {
                StringValue::String(t) => {
                    let ghost text = t@;
                    emit(tokens, SyntaxToken::String(t));
                    emit(tokens, SyntaxToken::Break);
                    assert(toks_of(tokens@) =~= base + seq![Tok::String(text), Tok::Break]);
                },
                StringValue::MultiLines(lines) => {
                    let ghost texts = texts_of(lines@);
                    emit(tokens, SyntaxToken::Symbol("|"));
                    emit(tokens, SyntaxToken::Break);
                    let ghost start = toks_of(tokens@);
                    let mut i: usize = 0;
                    while i < lines.len()
                        invariant
                            i <= lines.len(),
                            texts == texts_of(lines@),
                            toks_of(tokens@) == start + yaml_block(texts, i as nat, indent),
                        decreases lines.len() - i,
                    {
                        let ghost before = yaml_block(texts, i as nat, indent);
                        if lines[i].as_str().is_empty() {
                            emit(tokens, SyntaxToken::Break);
                            assert(toks_of(tokens@) =~= start + (before + seq![Tok::Break]));
                        } else {
                            emit(tokens, SyntaxToken::Indent(indent));
                            emit(tokens, SyntaxToken::String(lines[i].clone()));
                            emit(tokens, SyntaxToken::Break);
                            assert(toks_of(tokens@) =~= start + (before + seq![
                                Tok::Indent(indent),
                                Tok::String(texts[i as int]),
                                Tok::Break,
                            ]));
                        }
                        i += 1;
                    }
                    assert(toks_of(tokens@) =~= base + (seq![Tok::Symbol("|"@), Tok::Break]
                        + yaml_block(texts, texts.len(), indent)));
                },
            }
        },
        Node::Number(num) => {
            emit(tokens, SyntaxToken::Number(num.clone()));
            emit(tokens, SyntaxToken::Break);
            assert(toks_of(tokens@) =~= base + seq![Tok::Number(num@), Tok::Break]);
        },
        Node::Bool(b) => {
            let b = if *b { "true" } else { "false" };
            emit(tokens, SyntaxToken::Bool(b));
            emit(tokens, SyntaxToken::Break);
            assert(toks_of(tokens@) =~= base + seq![Tok::Bool(b@), Tok::Break]);
        },
        Node::Object(obj) => {
            proof {
                lemma_view_object(*obj);
            }
            let ghost fields = value@->Object_0;
            if obj.len() == 0 {
                emit(tokens, SyntaxToken::Symbol("{}"));
                emit(tokens, SyntaxToken::Break);
                assert(toks_of(tokens@) =~= base + seq![Tok::Symbol("{}"@), Tok::Break]);
            } else {
                let child_indent = next_indent(indent);
                let mut idx: usize = 0;
                assert(toks_of(tokens@) =~= base + Seq::<Tok>::empty());
                while idx < obj.len()
                    invariant
                        idx <= obj.len(),
                        value is Object,
                        value->Object_0 == *obj,
                        fields == value@->Object_0,
                        fields.len() == obj@.len(),
                        child_indent == indent_succ(indent),
                        forall|k: int|
                            0 <= k < obj@.len() ==> #[trigger] fields[k] == (
                                obj@[k].0@,
                                obj@[k].1.view(),
                            ),
                        toks_of(tokens@) == base + yaml_members(fields, idx as nat, indent, from_arr),
                    decreases obj.len() - idx,
                {
                    proof {
                        assert(decreases_to!(value => value->Object_0));
                        assert(decreases_to!(value->Object_0 => value->Object_0@));
                        assert(decreases_to!(value->Object_0@ => value->Object_0@[idx as int]));
                        assert(decreases_to!(value->Object_0@[idx as int] => value->Object_0@[idx as int].1));
                    }
                    let ghost before = yaml_members(fields, idx as nat, indent, from_arr);
                    emit_lead(tokens, idx, indent, from_arr);
                    emit(tokens, SyntaxToken::Name(quote_field_name(obj[idx].0.as_str())));
                    let ghost colon: Seq<Tok>;
                    if is_nested_value(&obj[idx].1) {
                        emit(tokens, SyntaxToken::Symbol(":"));
                        emit(tokens, SyntaxToken::Break);
                        proof {
                            colon = seq![Tok::Symbol(":"@), Tok::Break];
                        }
                    } else {
                        emit(tokens, SyntaxToken::Symbol(": "));
                        proof {
                            colon = seq![Tok::Symbol(": "@)];
                        }
                    }
                    highlight_into(tokens, &obj[idx].1, child_indent, false);
                    proof {
                        assert(toks_of(tokens@) =~= base + (before + yaml_lead(
                            idx as int,
                            indent,
                            from_arr,
                        ) + seq![Tok::Name(field_name_text(fields[idx as int].0))] + colon
                            + yaml_tokens(fields[idx as int].1, child_indent, false)));
                    }
                    idx += 1;
                }
            }
        },
        Node::Array(arr) => {
            proof {
                lemma_view_array(*arr);
            }
            let ghost items = value@->Array_0;
            if arr.len() == 0 {
                emit(tokens, SyntaxToken::Symbol("[]"));
                emit(tokens, SyntaxToken::Break);
                assert(toks_of(tokens@) =~= base + seq![Tok::Symbol("[]"@), Tok::Break]);
            } else {
                let child_indent = next_indent(indent);
                let mut idx: usize = 0;
                assert(toks_of(tokens@) =~= base + Seq::<Tok>::empty());
                while idx < arr.len()
                    invariant
                        idx <= arr.len(),
                        value is Array,
                        value->Array_0 == *arr,
                        items == value@->Array_0,
                        items.len() == arr@.len(),
                        child_indent == indent_succ(indent),
                        forall|k: int| 0 <= k < arr@.len() ==> #[trigger] items[k] == arr@[k].view(),
                        toks_of(tokens@) == base + yaml_elements(items, idx as nat, indent, from_arr),
                    decreases arr.len() - idx,
                {
                    proof {
                        assert(decreases_to!(value => value->Array_0));
                        assert(decreases_to!(value->Array_0 => value->Array_0@));
                        assert(decreases_to!(value->Array_0@ => value->Array_0@[idx as int]));
                    }
                    let ghost before = yaml_elements(items, idx as nat, indent, from_arr);
                    emit_lead(tokens, idx, indent, from_arr);
                    emit(tokens, SyntaxToken::Symbol("- "));
                    highlight_into(tokens, &arr[idx], child_indent, true);
                    proof {
                        assert(toks_of(tokens@) =~= base + (before + yaml_lead(
                            idx as int,
                            indent,
                            from_arr,
                        ) + seq![Tok::Symbol("- "@)] + yaml_tokens(
                            items[idx as int],
                            child_indent,
                            true,
                        )));
                    }
                    idx += 1;
                }
            }
        },
    }
}

/// What `serde_yml` makes of a text: the documents of the stream, or the
/// message of the first error.
pub uninterp spec fn yaml_read(text: Seq<char>) -> Result<Seq<Doc>, Seq<char>>;

/// The documents that a vector of `serde_json` values holds.
pub open spec fn json_docs(values: Seq<serde_json::Value>) -> Seq<Doc> {
    Seq::new(values.len(), |i: int| json_doc(values[i]))
}

/// `serde_yml::Deserializer::from_str` as an iterator over the documents of
/// the stream, each read as a `serde_json::Value`; the first error ends it
/// and is handed out as its message. The result is named, not described.
#[verifier::external_body]
fn yaml_from_str(data: &str) -> (r: Result<Vec<serde_json::Value>, String>)
    ensures
        match r {
            Ok(values) => yaml_read(data@) == Ok::<Seq<Doc>, Seq<char>>(json_docs(values@)),
            Err(e) => yaml_read(data@) == Err::<Seq<Doc>, Seq<char>>(e@),
        },
{
    serde_yml::Deserializer::from_str(data)
        .map(|document| -> Result<serde_json::Value, serde_yml::Error> {
            serde::Deserialize::deserialize(document)
        })
        .collect::<Result<Vec<serde_json::Value>, serde_yml::Error>>()
        .map_err(|e| e.to_string())
}

/// What parsing a text as YAML gives. A stream without a document is
/// refused; the only document of a stream is the value; several documents
/// are the items of an array.
pub open spec fn yaml_parse(text: Seq<char>) -> Result<Doc, Fault> {
    match yaml_read(text) {
        Err(e) => Err(syntax_fault(ContentType::Yaml, e)),
        Ok(docs) => if docs.len() == 0 {
            Err(syntax_fault(ContentType::Yaml, "no document found in YAML data"@))
        } else if docs.len() == 1 {
            Ok(docs[0])
        } else {
            Ok(Doc::Array(docs))
        },
    }
}

/// The value of a stream of documents.
pub fn from_documents(values: &Vec<serde_json::Value>) -> (r: Result<Node, ParseError>)
    ensures
        outcome(r) == (if values@.len() == 0 {
            Err::<Doc, Fault>(syntax_fault(ContentType::Yaml, "no document found in YAML data"@))
        } else if values@.len() == 1 {
            Ok::<Doc, Fault>(json_doc(values@[0]))
        } else {
            Ok::<Doc, Fault>(Doc::Array(json_docs(values@)))
        }),
        r matches Ok(node) ==> node@.wf(),
{
    if values.len() == 0 {
        return Err(
            ParseError::Syntax {
                format: ContentType::Yaml,
                line: None,
                detail: String::from_str("no document found in YAML data"),
            },
        );
    }
    if values.len() == 1 {
        return Ok(from_json(&values[0]));
    }
    let mut out: Vec<Node> = Vec::new();
    let mut i: usize = 0;
    while i < values.len()
        invariant
            i <= values.len(),
            out@.len() == i,
            forall|k: int|
                0 <= k < i ==> (#[trigger] out@[k])@ == json_doc(values@[k]) && out@[k]@.wf(),
        decreases values.len() - i,
    {
        let item = from_json(&values[i]);
        out.push(item);
        i += 1;
    }
    proof {
        lemma_view_array(out);
        assert(Node::Array(out)@->Array_0 =~= json_docs(values@));
    }
    Ok(Node::Array(out))
}

/// A text that holds two documents is parsed as the array of the two.
pub proof fn lemma_yaml_parse_two_documents(text: Seq<char>, first: Doc, second: Doc)
    requires
        yaml_read(text) == Ok::<Seq<Doc>, Seq<char>>(seq![first, second]),
    ensures
        yaml_parse(text) == Ok::<Doc, Fault>(Doc::Array(seq![first, second])),
{
}

/// The YAML codec.
#[derive(Debug, Clone, Copy, PartialEq, Eq)]
pub struct YamlParser {}

impl YamlParser {
    /// The file suffix for the text of a node.
    pub fn extension(&self) -> (r: &'static str)
        ensures
            r@ == "yaml"@,
    {
        "yaml"
    }

    /// The root of a document may be an array.
    pub fn allow_array_root(&self) -> (r: bool)
        ensures
            r,
    {
        true
    }

    /// Parses a YAML text.
    pub fn parse(&self, data: &str) -> (r: Result<Node, ParseError>)
        ensures
            outcome(r) == yaml_parse(data@),
            r matches Ok(node) ==> node@.wf(),
    {
        match yaml_from_str(data) {
            Ok(values) => from_documents(&values),
            Err(detail) => Err(ParseError::Syntax { format: ContentType::Yaml, line: None, detail }),
        }
    }

    /// Highlights a value as YAML.
    pub fn syntax_highlight(&self, name: &str, value: &Node) -> (tokens: Vec<SyntaxToken>)
        ensures
            toks_of(tokens@) == yaml_stream(value@),
    {
        highlight_stream(value)
    }
}

} // verus!
