//! TOML: key/value lines, `[section]` tables and `[[section]]` arrays of
//! tables.

use vstd::prelude::*;
use vstd::string::*;

use crate::doc::{keys_unique, lemma_view_array, lemma_view_object, Doc, Node};
use crate::parse::{outcome, syntax_fault, ContentType, Fault, ParseError};
use crate::parse::json::{highlight_into as json_highlight_into, json_tokens};
use crate::parse::syntax::{
    emit, field_name_text, is_value_complex, quote_field_name, string_form, toks_of, StringForm,
    StringValue, SyntaxToken, Tok,
};
use crate::parse::yaml::is_break;
use crate::text::{
    contains_str, debug_quote, debug_quoted, has_substring, is_standard_name, texts_of,
};

verus! {

/// The header of a table: the section path in brackets, on a line of its
/// own after an empty line.
pub open spec fn table_header(section: Seq<char>) -> Seq<Tok> {
    seq![Tok::Break, Tok::Section("["@ + section + "]"@), Tok::Break]
}

/// The header of one table of an array of tables.
pub open spec fn array_header(section: Seq<char>) -> Seq<Tok> {
    seq![Tok::Break, Tok::Section("[["@ + section + "]]"@), Tok::Break]
}

/// The section path of a field inside a section: the two joined by a dot.
pub open spec fn child_section(section: Option<Seq<char>>, field: Seq<char>) -> Seq<char> {
    match section {
        Some(s) => s + "."@ + field_name_text(field),
        None => field_name_text(field),
    }
}

/// A string value: quoted on one line, or between `'''` on lines of its own
/// if it has several lines and holds no `'''` itself.
pub open spec fn toml_string(s: Seq<char>) -> Seq<Tok> {
    match string_form(s, true) {
        StringForm::String(t) => seq![Tok::String(t)],
        StringForm::MultiLines(lines) => if !has_substring(s, "'''"@) {
            seq![Tok::String("'''"@), Tok::Break] + toml_block(lines, lines.len()) + seq![
                Tok::String("'''"@),
            ]
        } else {
            seq![Tok::String(debug_quoted(s))]
        },
    }
}

/// The first `n` lines of a multi-line string.
pub open spec fn toml_block(lines: Seq<Seq<char>>, n: nat) -> Seq<Tok>
    decreases n,
{
    if n == 0 || n > lines.len() {
        Seq::empty()
    } else {
        toml_block(lines, (n - 1) as nat) + seq![Tok::String(lines[n - 1]), Tok::Break]
    }
}

/// The tokens of a value. `section` is the path of the table that the value
/// is written as; `from_arr` says that it is an item of an array of tables;
/// `arr_complex` that an array is written as an array of tables and not
/// inline. There is no null in TOML: it is written as an empty string.
pub open spec fn toml_tokens(
    d: Doc,
    section: Option<Seq<char>>,
    from_arr: bool,
    arr_complex: bool,
) -> Seq<Tok>
    decreases d, 0nat,
{
    let head = if from_arr && section is Some {
        array_header(section->0)
    } else {
        Seq::empty()
    };
    head + (match d {
        Doc::Null => seq![Tok::String("\"\""@), Tok::Break],
        Doc::String(s) => toml_string(s) + seq![Tok::Break],
        Doc::Number(n) => seq![Tok::Number(n), Tok::Break],
        Doc::Bool(b) => seq![Tok::Bool(if b { "true"@ } else { "false"@ }), Tok::Break],
        Doc::Object(fields) => (if !from_arr && section is Some {
            table_header(section->0)
        } else {
            Seq::empty()
        }) + toml_simple(fields, fields.len()) + toml_complex(fields, fields.len(), section),
        Doc::Array(items) => if !arr_complex {
            json_tokens(d, 0, false)
        } else {
            toml_items(items, items.len(), section)
        },
    })
}

/// The lines of those of the first `n` fields that are not complex.
pub open spec fn toml_simple(fields: Seq<(Seq<char>, Doc)>, n: nat) -> Seq<Tok>
    decreases fields, n,
{
    if n == 0 || n > fields.len() {
        Seq::empty()
    } else {
        toml_simple(fields, (n - 1) as nat) + (if fields[n - 1].1.is_complex() {
            Seq::empty()
        } else {
            seq![Tok::Name(field_name_text(fields[n - 1].0)), Tok::Symbol(" = "@)] + toml_tokens(
                fields[n - 1].1,
                None,
                false,
                false,
            )
        })
    }
}

/// The sections of those of the first `n` fields that are complex.
pub open spec fn toml_complex(
    fields: Seq<(Seq<char>, Doc)>,
    n: nat,
    section: Option<Seq<char>>,
) -> Seq<Tok>
    decreases fields, n,
{
    if n == 0 || n > fields.len() {
        Seq::empty()
    } else {
        toml_complex(fields, (n - 1) as nat, section) + (if fields[n - 1].1.is_complex() {
            toml_tokens(fields[n - 1].1, Some(child_section(section, fields[n - 1].0)), false, true)
        } else {
            Seq::empty()
        })
    }
}

/// The first `n` tables of an array of tables.
pub open spec fn toml_items(items: Seq<Doc>, n: nat, section: Option<Seq<char>>) -> Seq<Tok>
    decreases items, n,
{
    if n == 0 || n > items.len() {
        Seq::empty()
    } else {
        toml_items(items, (n - 1) as nat, section) + toml_tokens(items[n - 1], section, true, false)
    }
}

/// The TOML line of a simple field whose name is a standard identifier
/// holds the name as it is, without quotes.
pub proof fn lemma_toml_standard_field(fields: Seq<(Seq<char>, Doc)>, n: nat)
    requires
        0 < n <= fields.len(),
        is_standard_name(fields[n - 1].0),
        !fields[n - 1].1.is_complex(),
    ensures
        toml_simple(fields, n) == toml_simple(fields, (n - 1) as nat) + (seq![
            Tok::Name(fields[n - 1].0),
            Tok::Symbol(" = "@),
        ] + toml_tokens(fields[n - 1].1, None, false, false)),
{
}

/// The section of a field whose name is a standard identifier holds the name
/// as it is, without quotes.
pub proof fn lemma_toml_standard_section(section: Option<Seq<char>>, field: Seq<char>)
    requires
        is_standard_name(field),
    ensures
        child_section(section, field) == (match section {
            Some(s) => s + "."@ + field,
            None => field,
        }),
{
}

/// An item of the array is itself an array or an object.
pub open spec fn has_nested_item(d: Doc) -> bool {
    d is Array && exists|i: int|
        0 <= i < d->Array_0.len() && (#[trigger] d->Array_0[i] is Array || d->Array_0[i] is Object)
}

/// The stream without the line break that it begins with, if it begins with
/// one.
pub open spec fn without_first_break(toks: Seq<Tok>) -> Seq<Tok> {
    if toks.len() > 0 && toks[0] is Break {
        toks.drop_first()
    } else {
        toks
    }
}

/// The rendering of the value of the node `name`. An array is written under
/// the node's name, as an array of tables if an item is nested.
pub open spec fn toml_stream(name: Seq<char>, d: Doc) -> Seq<Tok> {
    without_first_break(
        toml_tokens(
            d,
            if d is Array {
                Some(name)
            } else {
                None
            },
            false,
            has_nested_item(d),
        ),
    )
}

/// The text of an optional section path.
pub open spec fn section_text(section: Option<&str>) -> Option<Seq<char>> {
    match section {
        Some(s) => Some(s@),
        None => None,
    }
}

/// Highlights the value of the node `name` as TOML.
pub fn highlight_stream(name: &str, value: &Node) -> (tokens: Vec<SyntaxToken>)
    ensures
        toks_of(tokens@) == toml_stream(name@, value@),
{
    let mut section: Option<&str> = None;
    let mut arr_complex = false;
    match value {
        Node::Array(arr) => {
            proof {
                lemma_view_array(*arr);
            }
            section = Some(name);
            let mut i: usize = 0;
            while i < arr.len()
                invariant
                    i <= arr.len(),
                    value@ is Array,
                    value@->Array_0.len() == arr@.len(),
                    forall|k: int|
                        0 <= k < arr@.len() ==> #[trigger] value@->Array_0[k] == arr@[k].view(),
                    arr_complex == exists|k: int|
                        0 <= k < i && (#[trigger] value@->Array_0[k] is Array
                            || value@->Array_0[k] is Object),
                decreases arr.len() - i,
            {
                let nested = match &arr[i] {
                    Node::Object(_) => true,
                    Node::Array(_) => true,
                    _ => false,
                };
                proof {
                    let d = value@->Array_0[i as int];
                    assert(nested == (d is Array || d is Object));
                }
                if nested {
                    arr_complex = true;
                }
                i += 1;
            }
        },
        _ => {},
    }
    let mut tokens: Vec<SyntaxToken> = Vec::new();
    assert(toks_of(tokens@) =~= Seq::<Tok>::empty());
    highlight_into(&mut tokens, value, section, false, arr_complex);
    let ghost full = toml_tokens(value@, section_text(section), false, arr_complex);
    assert(toks_of(tokens@) =~= full);
    if tokens.len() > 0 && is_break(&tokens[0]) {
        tokens.remove(0);
        assert(toks_of(tokens@) =~= full.drop_first());
    }
    tokens
}

/// Highlights a value as TOML. An array that is written as an array of
/// tables needs the name of its section.
pub fn highlight(value: &Node, section: Option<&str>, from_arr: bool, arr_complex: bool) -> (tokens:
    Vec<SyntaxToken>)
    requires
        value@ is Array && arr_complex ==> section is Some,
    ensures
        toks_of(tokens@) == toml_tokens(value@, section_text(section), from_arr, arr_complex),
{
    let mut tokens: Vec<SyntaxToken> = Vec::new();
    assert(toks_of(tokens@) =~= Seq::<Tok>::empty());
    highlight_into(&mut tokens, value, section, from_arr, arr_complex);
    assert(toks_of(tokens@) =~= toml_tokens(
        value@,
        section_text(section),
        from_arr,
        arr_complex,
    ));
    tokens
}

fn bracketed(open: &str, section: &str, close: &str) -> (r: String)
    ensures
        r@ == open@ + section@ + close@,
{
    String::from_str(open).concat(section).concat(close)
}

fn emit_string(tokens: &mut Vec<SyntaxToken>, s: &str)
    ensures
        toks_of(final(tokens)@) == toks_of(old(tokens)@) + toml_string(s@),
{
    let ghost base = toks_of(tokens@);
    match StringValue::new(s, true) {
        StringValue::String(t) => {
            let ghost text = t@;
            emit(tokens, SyntaxToken::String(t));
            assert(toks_of(tokens@) =~= base + seq![Tok::String(text)]);
        },
        StringValue::MultiLines(lines) => {
            let ghost texts = texts_of(lines@);
            if !contains_str(s, "'''") {
                emit(tokens, SyntaxToken::String(String::from_str("'''")));
                emit(tokens, SyntaxToken::Break);
                let ghost start = toks_of(tokens@);
                let mut i: usize = 0;
                while i < lines.len()
                    invariant
                        i <= lines.len(),
                        texts == texts_of(lines@),
                        toks_of(tokens@) == start + toml_block(texts, i as nat),
                    decreases lines.len() - i,
                {
                    let ghost before = toml_block(texts, i as nat);
                    emit(tokens, SyntaxToken::String(lines[i].clone()));
                    emit(tokens, SyntaxToken::Break);
                    assert(toks_of(tokens@) =~= start + (before + seq![
                        Tok::String(texts[i as int]),
                        Tok::Break,
                    ]));
                    i += 1;
                }
                emit(tokens, SyntaxToken::String(String::from_str("'''")));
                assert(toks_of(tokens@) =~= base + (seq![Tok::String("'''"@), Tok::Break]
                    + toml_block(texts, texts.len()) + seq![Tok::String("'''"@)]));
            } else {
                emit(tokens, SyntaxToken::String(debug_quote(s)));
                assert(toks_of(tokens@) =~= base + seq![Tok::String(debug_quoted(s@))]);
            }
        },
    }
}

/// Appends the TOML tokens of a value to a stream.
pub fn highlight_into(
    tokens: &mut Vec<SyntaxToken>,
    value: &Node,
    section: Option<&str>,
    from_arr: bool,
    arr_complex: bool,
)
    requires
        value@ is Array && arr_complex ==> section is Some,
    ensures
        toks_of(final(tokens)@) == toks_of(old(tokens)@) + toml_tokens(
            value@,
            section_text(section),
            from_arr,
            arr_complex,
        ),
    decreases value,
{
    let ghost base = toks_of(tokens@);
    let ghost sec = section_text(section);
    let ghost head: Seq<Tok>;
    match (from_arr, section) {
        (true, Some(s)) => {
            emit(tokens, SyntaxToken::Break);
            emit(tokens, SyntaxToken::Section(bracketed("[[", s, "]]")));
            emit(tokens, SyntaxToken::Break);
            proof {
                head = array_header(s@);
            }
        },
        _ => {
            proof {
                head = Seq::empty();
            }
        },
    }
    assert(toks_of(tokens@) =~= base + head);
    let ghost body: Seq<Tok>;
    match value {
        Node::Null => {
            emit(tokens, SyntaxToken::String(String::from_str("\"\"")));
            emit(tokens, SyntaxToken::Break);
            proof {
                body = seq![Tok::String("\"\""@), Tok::Break];
            }
        },
        Node::String(s) => {
            emit_string(tokens, s.as_str());
            emit(tokens, SyntaxToken::Break);
            proof {
                body = toml_string(s@) + seq![Tok::Break];
            }
        },
        Node::Number(num) => {
            emit(tokens, SyntaxToken::Number(num.clone()));
            emit(tokens, SyntaxToken::Break);
            proof {
                body = seq![Tok::Number(num@), Tok::Break];
            }
        },
        Node::Bool(b) => {
            let b = if *b { "true" } else { "false" };
            emit(tokens, SyntaxToken::Bool(b));
            emit(tokens, SyntaxToken::Break);
            proof {
                body = seq![Tok::Bool(b@), Tok::Break];
            }
        },
        Node::Object(obj) => {
            proof {
                lemma_view_object(*obj);
            }
            let ghost fields = value@->Object_0;
            let ghost header: Seq<Tok>;
            match (from_arr, section) {
                (false, Some(s)) => {
                    emit(tokens, SyntaxToken::Break);
                    emit(tokens, SyntaxToken::Section(bracketed("[", s, "]")));
                    emit(tokens, SyntaxToken::Break);
                    proof {
                        header = table_header(s@);
                    }
                },
                _ => {
                    proof {
                        header = Seq::empty();
                    }
                },
            }
            let ghost start = toks_of(tokens@);
            assert(start =~= base + head + header);
            assert(toks_of(tokens@) =~= start + Seq::<Tok>::empty());
            let mut idx: usize = 0;
            while idx < obj.len()
                invariant
                    idx <= obj.len(),
                    value is Object,
                    value->Object_0 == *obj,
                    fields == value@->Object_0,
                    fields.len() == obj@.len(),
                    forall|k: int|
                        0 <= k < obj@.len() ==> #[trigger] fields[k] == (
                            obj@[k].0@,
                            obj@[k].1.view(),
                        ),
                    toks_of(tokens@) == start + toml_simple(fields, idx as nat),
                decreases obj.len() - idx,
            {
                proof {
                    assert(decreases_to!(value => value->Object_0));
                    assert(decreases_to!(value->Object_0 => value->Object_0@));
                    assert(decreases_to!(value->Object_0@ => value->Object_0@[idx as int]));
                    assert(decreases_to!(value->Object_0@[idx as int] => value->Object_0@[idx as int].1));
                }
                let ghost before = toml_simple(fields, idx as nat);
                if !is_value_complex(&obj[idx].1) {
                    emit(tokens, SyntaxToken::Name(quote_field_name(obj[idx].0.as_str())));
                    emit(tokens, SyntaxToken::Symbol(" = "));
                    highlight_into(tokens, &obj[idx].1, None, false, false);
                    assert(toks_of(tokens@) =~= start + (before + (seq![
                        Tok::Name(field_name_text(fields[idx as int].0)),
                        Tok::Symbol(" = "@),
                    ] + toml_tokens(fields[idx as int].1, None, false, false))));
                } else {
                    assert(toks_of(tokens@) =~= start + (before + Seq::<Tok>::empty()));
                }
                idx += 1;
            }
            let ghost middle = toks_of(tokens@);
            assert(toks_of(tokens@) =~= middle + Seq::<Tok>::empty());
            let mut idx: usize = 0;
            while idx < obj.len()
                invariant
                    idx <= obj.len(),
                    value is Object,
                    value->Object_0 == *obj,
                    fields == value@->Object_0,
                    fields.len() == obj@.len(),
                    sec == section_text(section),
                    forall|k: int|
                        0 <= k < obj@.len() ==> #[trigger] fields[k] == (
                            obj@[k].0@,
                            obj@[k].1.view(),
                        ),
                    toks_of(tokens@) == middle + toml_complex(fields, idx as nat, sec),
                decreases obj.len() - idx,
            {
                proof {
                    assert(decreases_to!(value => value->Object_0));
                    assert(decreases_to!(value->Object_0 => value->Object_0@));
                    assert(decreases_to!(value->Object_0@ => value->Object_0@[idx as int]));
                    assert(decreases_to!(value->Object_0@[idx as int] => value->Object_0@[idx as int].1));
                }
                let ghost before = toml_complex(fields, idx as nat, sec);
                if is_value_complex(&obj[idx].1) {
                    let field = quote_field_name(obj[idx].0.as_str());
                    let child = match section {
                        Some(s) => String::from_str(s).concat(".").concat(field.as_str()),
                        None => field,
                    };
                    assert(child@ == child_section(sec, fields[idx as int].0));
                    highlight_into(tokens, &obj[idx].1, Some(child.as_str()), false, true);
                    assert(toks_of(tokens@) =~= middle + (before + toml_tokens(
                        fields[idx as int].1,
                        Some(child_section(sec, fields[idx as int].0)),
                        false,
                        true,
                    )));
                } else {
                    assert(toks_of(tokens@) =~= middle + (before + Seq::<Tok>::empty()));
                }
                idx += 1;
            }
            proof {
                body = header + toml_simple(fields, fields.len()) + toml_complex(
                    fields,
                    fields.len(),
                    sec,
                );
            }
        },
        Node::Array(arr) => {
            proof {
                lemma_view_array(*arr);
            }
            let ghost items = value@->Array_0;
            if !arr_complex {
                json_highlight_into(tokens, value, 0, false);
                proof {
                    body = json_tokens(value@, 0, false);
                }
            } else {
                let ghost start = toks_of(tokens@);
                assert(toks_of(tokens@) =~= start + Seq::<Tok>::empty());
                let mut idx: usize = 0;
                while idx < arr.len()
                    invariant
                        idx <= arr.len(),
                        value is Array,
                        value->Array_0 == *arr,
                        items == value@->Array_0,
                        items.len() == arr@.len(),
                        sec == section_text(section),
                        forall|k: int| 0 <= k < arr@.len() ==> #[trigger] items[k] == arr@[k].view(),
                        toks_of(tokens@) == start + toml_items(items, idx as nat, sec),
                    decreases arr.len() - idx,
                {
                    proof {
                        assert(decreases_to!(value => value->Array_0));
                        assert(decreases_to!(value->Array_0 => value->Array_0@));
                        assert(decreases_to!(value->Array_0@ => value->Array_0@[idx as int]));
                    }
                    let ghost before = toml_items(items, idx as nat, sec);
                    highlight_into(tokens, &arr[idx], section, true, false);
                    assert(toks_of(tokens@) =~= start + (before + toml_tokens(
                        items[idx as int],
                        sec,
                        true,
                        false,
                    )));
                    idx += 1;
                }
                proof {
                    body = toml_items(items, items.len(), sec);
                }
            }
        },
    }
    proof {
        assert(toks_of(tokens@) =~= base + (head + body));
    }
}

/// A value of the `toml` crate.
#[verifier::external_type_specification]
#[verifier::external_body]
pub struct ExTomlValue(toml::Value);

/// What a value of the `toml` crate holds.
pub enum TomlDoc {
    String(Seq<char>),
    /// An integer, in decimal.
    Integer(Seq<char>),
    /// A number with a fraction, as JSON writes it; nothing if it is not
    /// finite.
    Float(Option<Seq<char>>),
    Boolean(bool),
    /// A date or a time, as TOML writes it.
    Datetime(Seq<char>),
    Array(Seq<TomlDoc>),
    Table(Seq<(Seq<char>, TomlDoc)>),
}

/// What a `toml::Value` holds. The fields of a table are in the order in
/// which its map hands them out.
pub uninterp spec fn toml_doc(v: toml::Value) -> TomlDoc;

/// What `toml::from_str` makes of a text: the value, or the message of the
/// error.
pub uninterp spec fn toml_read(text: Seq<char>) -> Result<TomlDoc, Seq<char>>;

/// The top of a `toml::Value`: its variant with what the variant holds.
pub enum TomlShape<'a> {
    String(&'a str),
    Integer(String),
    Float(Option<String>),
    Boolean(bool),
    Datetime(String),
    Array(&'a Vec<toml::Value>),
    Table(Vec<(&'a String, &'a toml::Value)>),
}

impl TomlShape<'_> {
    /// The value that the parts make up.
    pub open spec fn doc(self) -> TomlDoc {
        match self {
            TomlShape::String(s) => TomlDoc::String(s@),
            TomlShape::Integer(n) => TomlDoc::Integer(n@),
            TomlShape::Float(n) => TomlDoc::Float(
                match n {
                    Some(text) => Some(text@),
                    None => None,
                },
            ),
            TomlShape::Boolean(b) => TomlDoc::Boolean(b),
            TomlShape::Datetime(d) => TomlDoc::Datetime(d@),
            TomlShape::Array(items) => TomlDoc::Array(
                Seq::new(items@.len(), |i: int| toml_doc(items@[i])),
            ),
            TomlShape::Table(entries) => TomlDoc::Table(
                Seq::new(entries@.len(), |i: int| (entries@[i].0@, toml_doc(*entries@[i].1))),
            ),
        }
    }
}

/// `toml::from_str` into a `toml::Value`, with the error as its message: the
/// result is named, not described.
#[verifier::external_body]
fn toml_from_str(data: &str) -> (r: Result<toml::Value, String>)
    ensures
        match r {
            Ok(v) => toml_read(data@) == Ok::<TomlDoc, Seq<char>>(toml_doc(v)),
            Err(e) => toml_read(data@) == Err::<TomlDoc, Seq<char>>(e@),
        },
{
    toml::from_str::<toml::Value>(data).map_err(|e| e.to_string())
}

/// Tells the variants of a `toml::Value` apart. An integer and a finite
/// number are handed out as the text of the `serde_json::Number` made from
/// them, a date as the text that its `Display` prints, the entries of a
/// table in the order of its `iter`. The names of the entries of a table
/// differ from each other.
#[verifier::external_body]
fn toml_shape<'a>(v: &'a toml::Value) -> (r: TomlShape<'a>)
    ensures
        r.doc() == toml_doc(*v),
        r matches TomlShape::Table(entries) ==> forall|i: int, j: int|
            0 <= i < j < entries@.len() ==> (#[trigger] entries@[i]).0@ != (
            #[trigger] entries@[j]).0@,
{
    match v {
        toml::Value::String(s) => TomlShape::String(s),
        toml::Value::Integer(i) => TomlShape::Integer(serde_json::Number::from(*i).to_string()),
        toml::Value::Float(f) => TomlShape::Float(
            serde_json::Number::from_f64(*f).map(|n| n.to_string()),
        ),
        toml::Value::Boolean(b) => TomlShape::Boolean(*b),
        toml::Value::Datetime(d) => TomlShape::Datetime(d.to_string()),
        toml::Value::Array(items) => TomlShape::Array(items),
        toml::Value::Table(table) => TomlShape::Table(table.iter().collect()),
    }
}

/// The document of a TOML value. A date becomes a string, an integer and a
/// finite number a number; a number that is not finite becomes zero.
pub open spec fn toml_to_doc(t: TomlDoc) -> Doc
    decreases t,
{
    match t {
        TomlDoc::String(s) => Doc::String(s),
        TomlDoc::Integer(n) => Doc::Number(n),
        TomlDoc::Float(Some(n)) => Doc::Number(n),
        TomlDoc::Float(None) => Doc::Number("0"@),
        TomlDoc::Boolean(b) => Doc::Bool(b),
        TomlDoc::Datetime(d) => Doc::String(d),
        TomlDoc::Array(items) => Doc::Array(
            Seq::new(
                items.len(),
                |i: int|
                    if 0 <= i < items.len() {
                        toml_to_doc(items[i])
                    } else {
                        Doc::Null
                    },
            ),
        ),
        TomlDoc::Table(entries) => Doc::Object(
            Seq::new(
                entries.len(),
                |i: int|
                    if 0 <= i < entries.len() {
                        (entries[i].0, toml_to_doc(entries[i].1))
                    } else {
                        (Seq::empty(), Doc::Null)
                    },
            ),
        ),
    }
}

/// Copies a value of the `toml` crate into a document value.
pub fn toml_value_to_json(v: &toml::Value) -> (r: Node)
    ensures
        r@ == toml_to_doc(toml_doc(*v)),
        r@.wf(),
    decreases toml_doc(*v),
{
    match toml_shape(v) {
        TomlShape::String(s) => Node::String(String::from_str(s)),
        TomlShape::Integer(n) => Node::Number(n),
        TomlShape::Float(Some(n)) => Node::Number(n),
        TomlShape::Float(None) => Node::Number(String::from_str("0")),
        TomlShape::Boolean(b) => Node::Bool(b),
        TomlShape::Datetime(d) => Node::String(d),
        TomlShape::Array(items) => {
            let ghost docs = toml_doc(*v)->Array_0;
            let mut out: Vec<Node> = Vec::new();
            let mut i: usize = 0;
            while i < items.len()
                invariant
                    i <= items.len(),
                    out@.len() == i,
                    toml_doc(*v) == TomlDoc::Array(docs),
                    docs.len() == items@.len(),
                    forall|k: int| 0 <= k < items@.len() ==> #[trigger] docs[k] == toml_doc(items@[k]),
                    forall|k: int|
                        0 <= k < i ==> (#[trigger] out@[k])@ == toml_to_doc(docs[k]) && out@[k]@.wf(),
                decreases items.len() - i,
            {
                proof {
                    assert(decreases_to!(toml_doc(*v) => toml_doc(*v)->Array_0));
                    assert(decreases_to!(toml_doc(*v)->Array_0 => toml_doc(*v)->Array_0[i as int]));
                }
                let item = toml_value_to_json(&items[i]);
                out.push(item);
                i += 1;
            }
            proof {
                lemma_view_array(out);
                assert(Node::Array(out)@->Array_0 =~= toml_to_doc(toml_doc(*v))->Array_0);
            }
            Node::Array(out)
        },
        TomlShape::Table(entries) => {
            let ghost fields = toml_doc(*v)->Table_0;
            let mut out: Vec<(String, Node)> = Vec::new();
            let mut i: usize = 0;
            while i < entries.len()
                invariant
                    i <= entries.len(),
                    out@.len() == i,
                    toml_doc(*v) == TomlDoc::Table(fields),
                    fields.len() == entries@.len(),
                    forall|k: int|
                        0 <= k < entries@.len() ==> #[trigger] fields[k] == (
                            entries@[k].0@,
                            toml_doc(*entries@[k].1),
                        ),
                    forall|k: int|
                        0 <= k < i ==> (#[trigger] out@[k]).0@ == fields[k].0 && out@[k].1@
                            == toml_to_doc(fields[k].1) && out@[k].1@.wf(),
                decreases entries.len() - i,
            {
                proof {
                    assert(decreases_to!(toml_doc(*v) => toml_doc(*v)->Table_0));
                    assert(decreases_to!(toml_doc(*v)->Table_0 => toml_doc(*v)->Table_0[i as int]));
                    assert(decreases_to!(toml_doc(*v)->Table_0[i as int] => toml_doc(*v)->Table_0[i as int].1));
                }
                let value = toml_value_to_json(entries[i].1);
                out.push((entries[i].0.clone(), value));
                i += 1;
            }
            proof {
                lemma_view_object(out);
                let got = Node::Object(out)@->Object_0;
                assert(got =~= toml_to_doc(toml_doc(*v))->Object_0);
                assert(keys_unique(got)) by {
                    assert forall|a: int, b: int| 0 <= a < b < got.len() implies (#[trigger] got[a]).0
                        != (#[trigger] got[b]).0 by {
                        assert(got[a].0 == entries@[a].0@);
                        assert(got[b].0 == entries@[b].0@);
                    }
                }
            }
            Node::Object(out)
        },
    }
}

/// What parsing a text as TOML gives.
pub open spec fn toml_parse(text: Seq<char>) -> Result<Doc, Fault> {
    match toml_read(text) {
        Ok(t) => Ok(toml_to_doc(t)),
        Err(e) => Err(syntax_fault(ContentType::Toml, e)),
    }
}

/// The TOML codec.
#[derive(Debug, Clone, Copy, PartialEq, Eq)]
pub struct TomlParser {}

impl TomlParser {
    /// The file suffix for the text of a node.
    pub fn extension(&self) -> (r: &'static str)
        ensures
            r@ == "toml"@,
    {
        "toml"
    }

    /// The root of a TOML document is a table.
    pub fn allow_array_root(&self) -> (r: bool)
        ensures
            !r,
    {
        false
    }

    /// Parses a TOML text.
    pub fn parse(&self, data: &str) -> (r: Result<Node, ParseError>)
        ensures
            outcome(r) == toml_parse(data@),
            r matches Ok(node) ==> node@.wf(),
    {
        match toml_from_str(data) {
            Ok(v) => Ok(toml_value_to_json(&v)),
            Err(detail) => Err(ParseError::Syntax { format: ContentType::Toml, line: None, detail }),
        }
    }

    /// Highlights the value of the node `name` as TOML.
    pub fn syntax_highlight(&self, name: &str, value: &Node) -> (tokens: Vec<SyntaxToken>)
        ensures
            toks_of(tokens@) == toml_stream(name@, value@),
    {
        highlight_stream(name, value)
    }
}

} // verus!
