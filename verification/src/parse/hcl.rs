//! HCL: attributes and blocks.

use vstd::prelude::*;
use vstd::string::*;

use crate::doc::{lemma_view_array, lemma_view_object, Doc, Node};
use crate::parse::json::{from_json, json_doc};
use crate::parse::{outcome, syntax_fault, ContentType, Fault, ParseError};
use crate::parse::json::{highlight_into as json_highlight_into, json_tokens};
use crate::parse::syntax::{
    emit, field_name_text, is_value_complex, quote_field_name, toks_of, SyntaxToken, Tok,
};
use crate::text::{debug_quote, debug_quoted, indent_succ, is_standard_name, next_indent};

verus! {

/// The indentation of what stands inside the block `name`: one level deeper,
/// or the same level if the block has no name and so no braces.
pub open spec fn block_indent(name: Seq<char>, indent: usize) -> usize {
    if name.len() == 0 {
        indent
    } else {
        indent_succ(indent)
    }
}

/// The tokens of the value of `name`. A value that is not complex is an
/// attribute, `name = value`, with an array written as JSON. An object is a
/// block, `name { .. }`, with its simple fields before its complex ones. A
/// complex array is one block or attribute per item, each under `name`.
/// Without a name only the value or the inside of the block is written.
pub open spec fn hcl_tokens(name: Seq<char>, d: Doc, indent: usize) -> Seq<Tok>
    decreases d, 0nat,
{
    if !d.is_complex() {
        (if name.len() > 0 {
            seq![Tok::Indent(indent), Tok::Name(field_name_text(name)), Tok::Symbol(" = "@)]
        } else {
            Seq::empty()
        }) + (match d {
            Doc::String(s) => seq![Tok::String(debug_quoted(s)), Tok::Break],
            Doc::Null => seq![Tok::Null("null"@), Tok::Break],
            Doc::Number(n) => seq![Tok::Number(n), Tok::Break],
            Doc::Bool(b) => seq![Tok::Bool(if b { "true"@ } else { "false"@ }), Tok::Break],
            Doc::Array(_) => json_tokens(d, indent, false),
            Doc::Object(_) => Seq::empty(),
        })
    } else {
        match d {
            Doc::Object(fields) => (if name.len() > 0 {
                seq![
                    Tok::Indent(indent),
                    Tok::Name(field_name_text(name)),
                    Tok::Symbol(" {"@),
                    Tok::Break,
                ]
            } else {
                Seq::empty()
            }) + hcl_fields(fields, fields.len(), block_indent(name, indent), false) + hcl_fields(
                fields,
                fields.len(),
                block_indent(name, indent),
                true,
            ) + (if name.len() > 0 {
                seq![Tok::Indent(indent), Tok::Symbol("}"@), Tok::Break]
            } else {
                Seq::empty()
            }),
            Doc::Array(items) => hcl_items(name, items, items.len(), indent),
            _ => Seq::empty(),
        }
    }
}

/// Those of the first `n` fields that are complex, or those that are not,
/// as `complex` says.
pub open spec fn hcl_fields(fields: Seq<(Seq<char>, Doc)>, n: nat, indent: usize, complex: bool) -> Seq<
    Tok,
>
    decreases fields, n,
{
    if n == 0 || n > fields.len() {
        Seq::empty()
    } else {
        hcl_fields(fields, (n - 1) as nat, indent, complex) + (if fields[n - 1].1.is_complex()
            == complex {
            hcl_tokens(fields[n - 1].0, fields[n - 1].1, indent)
        } else {
            Seq::empty()
        })
    }
}

/// The first `n` items of a complex array, each under the array's name.
pub open spec fn hcl_items(name: Seq<char>, items: Seq<Doc>, n: nat, indent: usize) -> Seq<Tok>
    decreases items, n,
{
    if n == 0 || n > items.len() {
        Seq::empty()
    } else {
        hcl_items(name, items, (n - 1) as nat, indent) + hcl_tokens(name, items[n - 1], indent)
    }
}

/// The HCL attribute of a name that is a standard identifier holds the name
/// as it is, without quotes; so does the head of its block.
pub proof fn lemma_hcl_standard_name(name: Seq<char>, d: Doc, indent: usize)
    requires
        is_standard_name(name),
        d is Object || !d.is_complex(),
    ensures
        hcl_tokens(name, d, indent).len() >= 3,
        hcl_tokens(name, d, indent)[0] == Tok::Indent(indent),
        hcl_tokens(name, d, indent)[1] == Tok::Name(name),
        hcl_tokens(name, d, indent)[2] == (if d is Object {
            Tok::Symbol(" {"@)
        } else {
            Tok::Symbol(" = "@)
        }),
{
}

/// Highlights the value of `name` as HCL.
pub fn highlight(name: &str, value: &Node, indent: usize) -> (tokens: Vec<SyntaxToken>)
    ensures
        toks_of(tokens@) == hcl_tokens(name@, value@, indent),
{
    let mut tokens: Vec<SyntaxToken> = Vec::new();
    assert(toks_of(tokens@) =~= Seq::<Tok>::empty());
    highlight_into(&mut tokens, name, value, indent);
    assert(toks_of(tokens@) =~= hcl_tokens(name@, value@, indent));
    tokens
}

fn emit_fields(
    tokens: &mut Vec<SyntaxToken>,
    value: &Node,
    obj: &Vec<(String, Node)>,
    indent: usize,
    complex: bool,
)
    requires
        value is Object,
        value->Object_0 == *obj,
    ensures
        toks_of(final(tokens)@) == toks_of(old(tokens)@) + hcl_fields(
            value@->Object_0,
            value@->Object_0.len(),
            indent,
            complex,
        ),
    decreases value, 0nat,
{
    proof {
        lemma_view_object(*obj);
    }
    let ghost fields = value@->Object_0;
    let ghost base = toks_of(tokens@);
    assert(toks_of(tokens@) =~= base + Seq::<Tok>::empty());
    let mut idx: usize = 0;
    while idx < obj.len()
        invariant
            idx <= obj.len(),
            value is Object,
            value->Object_0 == *obj,
            fields == value@->Object_0,
            fields.len() == obj@.len(),
            forall|k: int|
                0 <= k < obj@.len() ==> #[trigger] fields[k] == (obj@[k].0@, obj@[k].1.view()),
            toks_of(tokens@) == base + hcl_fields(fields, idx as nat, indent, complex),
        decreases obj.len() - idx,
    {
        proof {
            assert(decreases_to!(value => value->Object_0));
            assert(decreases_to!(value->Object_0 => value->Object_0@));
            assert(decreases_to!(value->Object_0@ => value->Object_0@[idx as int]));
            assert(decreases_to!(value->Object_0@[idx as int] => value->Object_0@[idx as int].1));
        }
        let ghost before = hcl_fields(fields, idx as nat, indent, complex);
        if is_value_complex(&obj[idx].1) == complex {
            highlight_into(tokens, obj[idx].0.as_str(), &obj[idx].1, indent);
            assert(toks_of(tokens@) =~= base + (before + hcl_tokens(
                fields[idx as int].0,
                fields[idx as int].1,
                indent,
            )));
        } else {
            assert(toks_of(tokens@) =~= base + (before + Seq::<Tok>::empty()));
        }
        idx += 1;
    }
}

/// Appends the HCL tokens of the value of `name` to a stream.
pub fn highlight_into(tokens: &mut Vec<SyntaxToken>, name: &str, value: &Node, indent: usize)
    ensures
        toks_of(final(tokens)@) == toks_of(old(tokens)@) + hcl_tokens(name@, value@, indent),
    decreases value, 1nat,
{
    let ghost base = toks_of(tokens@);
    if !is_value_complex(value) {
        let ghost head: Seq<Tok>;
        if !name.is_empty() {
            emit(tokens, SyntaxToken::Indent(indent));
            emit(tokens, SyntaxToken::Name(quote_field_name(name)));
            emit(tokens, SyntaxToken::Symbol(" = "));
            proof {
                head = seq![
                    Tok::Indent(indent),
                    Tok::Name(field_name_text(name@)),
                    Tok::Symbol(" = "@),
                ];
            }
        } else {
            proof {
                head = Seq::empty();
            }
        }
        assert(toks_of(tokens@) =~= base + head);
        let ghost body: Seq<Tok>;
        match value {
            Node::String(s) => {
                emit(tokens, SyntaxToken::String(debug_quote(s.as_str())));
                emit(tokens, SyntaxToken::Break);
                proof {
                    body = seq![Tok::String(debug_quoted(s@)), Tok::Break];
                }
            },
            Node::Null => {
                emit(tokens, SyntaxToken::Null("null"));
                emit(tokens, SyntaxToken::Break);
                proof {
                    body = seq![Tok::Null("null"@), Tok::Break];
                }
            },
            Node::Number(num) => {
                emit(tokens, SyntaxToken::Number(num.clone()));
                emit(tokens, SyntaxToken::Break);
                proof {
                    body = seq![Tok::Number(num@), Tok::Break];
                }
            },
            Node::Bool(b) => {
                let b = if *b { "true" } else { "false" };
                emit(tokens, SyntaxToken::Bool(b));
                emit(tokens, SyntaxToken::Break);
                proof {
                    body = seq![Tok::Bool(b@), Tok::Break];
                }
            },
            Node::Array(_) => {
                json_highlight_into(tokens, value, indent, false);
                proof {
                    body = json_tokens(value@, indent, false);
                }
            },
            Node::Object(_) => {
                proof {
                    body = Seq::empty();
                }
            },
        }
        assert(toks_of(tokens@) =~= base + (head + body));
        return ;
    }
    match value {
        Node::Object(obj) => {
            let ghost fields = value@->Object_0;
            let ghost head: Seq<Tok>;
            if !name.is_empty() {
                emit(tokens, SyntaxToken::Indent(indent));
                emit(tokens, SyntaxToken::Name(quote_field_name(name)));
                emit(tokens, SyntaxToken::Symbol(" {"));
                emit(tokens, SyntaxToken::Break);
                proof {
                    head = seq![
                        Tok::Indent(indent),
                        Tok::Name(field_name_text(name@)),
                        Tok::Symbol(" {"@),
                        Tok::Break,
                    ];
                }
            } else {
                proof {
                    head = Seq::empty();
                }
            }
            assert(toks_of(tokens@) =~= base + head);
            let child_indent = if name.is_empty() { indent } else { next_indent(indent) };
            emit_fields(tokens, value, obj, child_indent, false);
            emit_fields(tokens, value, obj, child_indent, true);
            let ghost foot: Seq<Tok>;
            if !name.is_empty() {
                emit(tokens, SyntaxToken::Indent(indent));
                emit(tokens, SyntaxToken::Symbol("}"));
                emit(tokens, SyntaxToken::Break);
                proof {
                    foot = seq![Tok::Indent(indent), Tok::Symbol("}"@), Tok::Break];
                }
            } else {
                proof {
                    foot = Seq::empty();
                }
            }
            assert(toks_of(tokens@) =~= base + (head + hcl_fields(
                fields,
                fields.len(),
                child_indent,
                false,
            ) + hcl_fields(fields, fields.len(), child_indent, true) + foot));
        },
        Node::Array(arr) => {
            proof {
                lemma_view_array(*arr);
            }
            let ghost items = value@->Array_0;
            assert(toks_of(tokens@) =~= base + Seq::<Tok>::empty());
            let mut idx: usize = 0;
            while idx < arr.len()
                invariant
                    idx <= arr.len(),
                    value is Array,
                    value->Array_0 == *arr,
                    items == value@->Array_0,
                    items.len() == arr@.len(),
                    forall|k: int| 0 <= k < arr@.len() ==> #[trigger] items[k] == arr@[k].view(),
                    toks_of(tokens@) == base + hcl_items(name@, items, idx as nat, indent),
                decreases arr.len() - idx,
            {
                proof {
                    assert(decreases_to!(value => value->Array_0));
                    assert(decreases_to!(value->Array_0 => value->Array_0@));
                    assert(decreases_to!(value->Array_0@ => value->Array_0@[idx as int]));
                }
                let ghost before = hcl_items(name@, items, idx as nat, indent);
                highlight_into(tokens, name, &arr[idx], indent);
                assert(toks_of(tokens@) =~= base + (before + hcl_tokens(
                    name@,
                    items[idx as int],
                    indent,
                )));
                idx += 1;
            }
        },
        _ => {
            assert(toks_of(tokens@) =~= base + Seq::<Tok>::empty());
        },
    }
}

/// What `hcl::from_str` makes of a text, read as a `serde_json::Value`: the
/// document, or the message of the error.
pub uninterp spec fn hcl_read(text: Seq<char>) -> Result<Doc, Seq<char>>;

/// `hcl::from_str` into a `serde_json::Value`, with the error as its
/// message: the result is named, not described.
#[verifier::external_body]
fn hcl_from_str(data: &str) -> (r: Result<serde_json::Value, String>)
    ensures
        match r {
            Ok(v) => hcl_read(data@) == Ok::<Doc, Seq<char>>(json_doc(v)),
            Err(e) => hcl_read(data@) == Err::<Doc, Seq<char>>(e@),
        },
{
    hcl::from_str::<serde_json::Value>(data).map_err(|e| e.to_string())
}

/// What parsing a text as HCL gives.
pub open spec fn hcl_parse(text: Seq<char>) -> Result<Doc, Fault> {
    match hcl_read(text) {
        Ok(d) => Ok(d),
        Err(e) => Err(syntax_fault(ContentType::Hcl, e)),
    }
}

/// The HCL codec.
#[derive(Debug, Clone, Copy, PartialEq, Eq)]
pub struct HclParser {}

impl HclParser {
    /// The file suffix for the text of a node.
    pub fn extension(&self) -> (r: &'static str)
        ensures
            r@ == "hcl"@,
    {
        "hcl"
    }

    /// The root of an HCL document is an object.
    pub fn allow_array_root(&self) -> (r: bool)
        ensures
            !r,
    {
        false
    }

    /// Parses an HCL text.
    pub fn parse(&self, data: &str) -> (r: Result<Node, ParseError>)
        ensures
            outcome(r) == hcl_parse(data@),
            r matches Ok(node) ==> node@.wf(),
    {
        match hcl_from_str(data) {
            Ok(v) => Ok(from_json(&v)),
            Err(detail) => Err(ParseError::Syntax { format: ContentType::Hcl, line: None, detail }),
        }
    }

    /// Highlights the value of the node `name` as HCL.
    pub fn syntax_highlight(&self, name: &str, value: &Node) -> (tokens: Vec<SyntaxToken>)
        ensures
            toks_of(tokens@) == hcl_tokens(name@, value@, 0),
    {
        highlight(name, value, 0)
    }
}

} // verus!
