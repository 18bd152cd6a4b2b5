//! The items of the tree that a document is browsed as.

use vstd::hash_map::StringHashMap;
use vstd::prelude::*;
use vstd::string::*;

use crate::doc::{lemma_view_array, lemma_view_object, Doc, Node};
use crate::parse::render::{rendering, RenderOptions, Rendered};
use crate::parse::syntax::{emit, toks_of, SyntaxToken, Tok};
use crate::parse::xml::{is_xml_ready, xml_ready};
use crate::parse::{detect_format, detected, read_root, ContentType, Fault, ParseError};
use crate::config::types::Types;
use crate::ui::filter::FilterOptions;
use crate::text::{
    debug_quote, debug_quoted, decimal, decimal_text, lines, lines_of, lowercased, match_indices,
    match_starts, slice, texts_of, to_lowercase,
};
use vstd::utf8::{decode_utf8, encode_utf8, is_char_boundary};

verus! {

/// The type of the value of an item.
#[derive(Debug, Clone, Copy, PartialEq, Eq, Structural)]
pub enum FieldType {
    Null,
    Num,
    Bool,
    Str,
    Obj,
    Arr,
}

/// A word to mark in the text of an item.
#[derive(Debug, Clone, Copy)]
pub struct HighlightKeyword<'a> {
    pub text: &'a str,
    pub ignore_case: bool,
}

/// The text of the value of an item.
#[derive(Debug, PartialEq, Eq)]
pub struct Detail {
    pub value: String,
}

/// The type of a value.
pub open spec fn type_of(d: Doc) -> FieldType {
    match d {
        Doc::Null => FieldType::Null,
        Doc::Number(_) => FieldType::Num,
        Doc::Bool(_) => FieldType::Bool,
        Doc::String(_) => FieldType::Str,
        Doc::Object(_) => FieldType::Obj,
        Doc::Array(_) => FieldType::Arr,
    }
}

/// The type of a value.
pub fn field_type(value: &Node) -> (r: FieldType)
    ensures
        r == type_of(value@),
{
    match value {
        Node::Null => FieldType::Null,
        Node::Number(_) => FieldType::Num,
        Node::Bool(_) => FieldType::Bool,
        Node::String(_) => FieldType::Str,
        Node::Object(_) => FieldType::Obj,
        Node::Array(_) => FieldType::Arr,
    }
}

/// The first `n` lines as tokens, with a line break between each two.
pub open spec fn line_tokens(lines: Seq<Seq<char>>, n: nat) -> Seq<Tok>
    decreases n,
{
    if n == 0 || n > lines.len() {
        Seq::empty()
    } else if n == 1 {
        seq![Tok::String(lines[0])]
    } else {
        line_tokens(lines, (n - 1) as nat) + seq![Tok::Break, Tok::String(lines[n - 1])]
    }
}

/// The tokens of a string value as the data block shows it: its lines if
/// it has more than one, else the string as it is.
pub open spec fn string_tokens_of(s: Seq<char>) -> Seq<Tok> {
    if lines_of(s).len() > 1 {
        line_tokens(lines_of(s), lines_of(s).len())
    } else {
        seq![Tok::String(s)]
    }
}

/// The tokens of a string value as the data block shows it.
pub fn string_tokens(s: String) -> (tokens: Vec<SyntaxToken>)
    ensures
        toks_of(tokens@) == string_tokens_of(s@),
{
    let all = lines(s.as_str());
    let ghost texts = texts_of(all@);
    let mut tokens: Vec<SyntaxToken> = Vec::new();
    if all.len() > 1 {
        let mut idx: usize = 0;
        assert(toks_of(tokens@) =~= Seq::<Tok>::empty());
        while idx < all.len()
            invariant
                idx <= all.len(),
                texts == texts_of(all@),
                toks_of(tokens@) == line_tokens(texts, idx as nat),
            decreases all.len() - idx,
        {
            let ghost before = toks_of(tokens@);
            if idx > 0 {
                emit(&mut tokens, SyntaxToken::Break);
            }
            emit(&mut tokens, SyntaxToken::String(all[idx].clone()));
            proof {
                if idx > 0 {
                    assert(toks_of(tokens@) =~= before + seq![
                        Tok::Break,
                        Tok::String(texts[idx as int]),
                    ]);
                } else {
                    assert(toks_of(tokens@) =~= seq![Tok::String(texts[0])]);
                }
            }
            idx += 1;
        }
        return tokens;
    }
    let ghost text = s@;
    emit(&mut tokens, SyntaxToken::String(s));
    assert(toks_of(tokens@) =~= seq![Tok::String(text)]);
    tokens
}

/// What the tree knows of an item: its name, its value and how the value
/// is shown.
#[derive(Debug, PartialEq, Eq)]
pub struct ItemValue {
    pub name: String,
    pub value: Node,
    pub field_type: FieldType,
    /// The value in short, for the line of the item.
    pub description: String,
    /// The value in full, for the data block.
    pub tokens: Vec<SyntaxToken>,
}

/// The mathematical model of an `ItemValue`.
pub struct ItemView {
    pub name: Seq<char>,
    pub value: Doc,
    pub field_type: FieldType,
    pub description: Seq<char>,
    pub tokens: Seq<Tok>,
}

impl ItemValue {
    /// The mathematical model of the value.
    pub open spec fn view(&self) -> ItemView {
        ItemView {
            name: self.name@,
            value: self.value@,
            field_type: self.field_type,
            description: self.description@,
            tokens: toks_of(self.tokens@),
        }
    }

    /// The value laid out for a view of the given width.
    pub fn render(&self, options: &RenderOptions, width: usize) -> (r: Rendered)
        ensures
            r@ == rendering(*options, toks_of(self.tokens@), width),
    {
        SyntaxToken::render(options, self.tokens.as_slice(), width)
    }

    /// The text of the value, without styling.
    pub fn plain_text(&self) -> (r: String)
        ensures
            r@ == crate::parse::syntax::plain_text(toks_of(self.tokens@)),
    {
        SyntaxToken::pure_text(self.tokens.as_slice())
    }
}

/// An item of the tree: its identifier among its siblings, and its
/// children.
#[derive(Debug, PartialEq, Eq)]
pub struct TreeItem {
    pub identifier: String,
    pub children: Vec<TreeItem>,
}

/// The mathematical model of a `TreeItem`.
pub struct Shape {
    pub identifier: Seq<char>,
    pub children: Seq<Shape>,
}

impl TreeItem {
    /// The mathematical model of the value.
    pub open spec fn view(&self) -> Shape
        decreases self,
    {
        Shape {
            identifier: self.identifier@,
            children: Seq::new(
                self.children@.len(),
                |i: int|
                    if 0 <= i < self.children@.len() {
                        self.children@[i].view()
                    } else {
                        Shape { identifier: Seq::empty(), children: Seq::empty() }
                    },
            ),
        }
    }
}

/// The models of a list of items.
pub open spec fn shapes_of(items: Seq<TreeItem>) -> Seq<Shape> {
    Seq::new(items.len(), |i: int| items[i].view())
}

/// The models of a list of values with their paths.
pub open spec fn entries_of(values: Seq<(String, ItemValue)>) -> Seq<(Seq<char>, ItemView)> {
    Seq::new(values.len(), |i: int| (values[i].0@, values[i].1@))
}

/// The path of an item: its name behind the path of its parent.
pub open spec fn item_path(parent: Option<Seq<char>>, name: Seq<char>) -> Seq<char> {
    match parent {
        None => name,
        Some(path) => path + "/"@ + name,
    }
}

/// `one` for at most one thing, `many` for more.
pub open spec fn counted(n: nat, one: Seq<char>, many: Seq<char>) -> Seq<char> {
    decimal_text(n) + " "@ + (if n > 1 {
        many
    } else {
        one
    })
}

/// The value of an item in short.
pub open spec fn description_of(d: Doc) -> Seq<char> {
    match d {
        Doc::Null => "null"@,
        Doc::String(s) => "= "@ + debug_quoted(s),
        Doc::Number(n) => "= "@ + n,
        Doc::Bool(b) => if b {
            "= true"@
        } else {
            "= false"@
        },
        Doc::Array(items) => "[ "@ + counted(items.len(), "item"@, "items"@) + " ]"@,
        Doc::Object(fields) => "{ "@ + counted(fields.len(), "field"@, "fields"@) + " }"@,
    }
}

/// The value of an item in full. An array or an object is highlighted in
/// the format of the document, under the name `data_name`.
pub open spec fn item_tokens(format: ContentType, data_name: Seq<char>, d: Doc) -> Seq<Tok> {
    match d {
        Doc::Null => seq![Tok::Null("null"@)],
        Doc::String(s) => string_tokens_of(s),
        Doc::Number(n) => seq![Tok::Number(n)],
        Doc::Bool(b) => seq![Tok::Bool(if b { "true"@ } else { "false"@ })],
        _ => format.highlighted(data_name, d),
    }
}

/// What the tree knows of the item `name` with the value `d`. An item of an
/// array is highlighted under the name of the array.
pub open spec fn item_view(format: ContentType, name: Seq<char>, d: Doc, arr_name: Option<Seq<char>>) -> ItemView {
    ItemView {
        name,
        value: d,
        field_type: type_of(d),
        description: description_of(d),
        tokens: item_tokens(
            format,
            match arr_name {
                Some(n) => n,
                None => name,
            },
            d,
        ),
    }
}

/// The item `name` with the value `d` and all the items below it, each
/// with its path, parents before children and siblings in their order.
pub open spec fn entries(
    format: ContentType,
    parent: Option<Seq<char>>,
    name: Seq<char>,
    d: Doc,
    arr_name: Option<Seq<char>>,
) -> Seq<(Seq<char>, ItemView)>
    decreases d, 0nat,
{
    let path = item_path(parent, name);
    seq![(path, item_view(format, name, d, arr_name))] + (match d {
        Doc::Array(items) => array_entries(format, path, name, items, items.len()),
        Doc::Object(fields) => object_entries(format, path, fields, fields.len()),
        _ => Seq::empty(),
    })
}

/// The first `n` items of the array `name` at `path`, each under its index.
pub open spec fn array_entries(
    format: ContentType,
    path: Seq<char>,
    name: Seq<char>,
    items: Seq<Doc>,
    n: nat,
) -> Seq<(Seq<char>, ItemView)>
    decreases items, n,
{
    if n == 0 || n > items.len() {
        Seq::empty()
    } else {
        array_entries(format, path, name, items, (n - 1) as nat) + entries(
            format,
            Some(path),
            decimal_text((n - 1) as nat),
            items[n - 1],
            Some(name),
        )
    }
}

/// The first `n` fields of the object at `path`.
pub open spec fn object_entries(
    format: ContentType,
    path: Seq<char>,
    fields: Seq<(Seq<char>, Doc)>,
    n: nat,
) -> Seq<(Seq<char>, ItemView)>
    decreases fields, n,
{
    if n == 0 || n > fields.len() {
        Seq::empty()
    } else {
        object_entries(format, path, fields, (n - 1) as nat) + entries(
            format,
            Some(path),
            fields[n - 1].0,
            fields[n - 1].1,
            None,
        )
    }
}

/// The item `name` of the tree of the value `d`.
pub open spec fn shape_of(name: Seq<char>, d: Doc) -> Shape
    decreases d,
{
    Shape {
        identifier: name,
        children: match d {
            Doc::Array(items) => Seq::new(
                items.len(),
                |i: int|
                    if 0 <= i < items.len() {
                        shape_of(decimal_text(i as nat), items[i])
                    } else {
                        Shape { identifier: Seq::empty(), children: Seq::empty() }
                    },
            ),
            Doc::Object(fields) => Seq::new(
                fields.len(),
                |i: int|
                    if 0 <= i < fields.len() {
                        shape_of(fields[i].0, fields[i].1)
                    } else {
                        Shape { identifier: Seq::empty(), children: Seq::empty() }
                    },
            ),
            _ => Seq::empty(),
        },
    }
}

/// Every array and every object of the document can be highlighted in the
/// format: in XML each is ready to be written; any other format takes every
/// value.
pub open spec fn renderable(format: ContentType, d: Doc) -> bool
    decreases d,
{
    format is Xml ==> match d {
        Doc::Array(items) => xml_ready(d) && forall|i: int|
            #![trigger items[i]]
            0 <= i < items.len() ==> renderable(format, items[i]),
        Doc::Object(fields) => xml_ready(d) && forall|i: int|
            #![trigger fields[i]]
            0 <= i < fields.len() ==> renderable(format, fields[i].1),
        _ => true,
    }
}

/// Whether every array and every object of a value can be highlighted in
/// the format.
pub fn is_renderable(format: ContentType, value: &Node) -> (r: bool)
    ensures
        r == renderable(format, value@),
    decreases value,
{
    match format {
        ContentType::Xml => {},
        _ => {
            return true;
        },
    }
    match value {
        Node::Array(arr) => {
            proof {
                lemma_view_array(*arr);
            }
            if !is_xml_ready(value) {
                return false;
            }
            let ghost items = value@->Array_0;
            let mut i: usize = 0;
            while i < arr.len()
                invariant
                    i <= arr.len(),
                    format is Xml,
                    value is Array,
                    value->Array_0 == *arr,
                    items == value@->Array_0,
                    items.len() == arr@.len(),
                    forall|k: int| 0 <= k < arr@.len() ==> #[trigger] items[k] == arr@[k].view(),
                    forall|k: int| #![trigger items[k]] 0 <= k < i ==> renderable(format, items[k]),
                decreases arr.len() - i,
            {
                proof {
                    assert(decreases_to!(value => value->Array_0));
                    assert(decreases_to!(value->Array_0 => value->Array_0@));
                    assert(decreases_to!(value->Array_0@ => value->Array_0@[i as int]));
                }
                if !is_renderable(format, &arr[i]) {
                    assert(!renderable(format, items[i as int]));
                    return false;
                }
                i += 1;
            }
            true
        },
        Node::Object(obj) => {
            proof {
                lemma_view_object(*obj);
            }
            if !is_xml_ready(value) {
                return false;
            }
            let ghost fields = value@->Object_0;
            let mut i: usize = 0;
            while i < obj.len()
                invariant
                    i <= obj.len(),
                    format is Xml,
                    value is Object,
                    value->Object_0 == *obj,
                    fields == value@->Object_0,
                    fields.len() == obj@.len(),
                    forall|k: int|
                        0 <= k < obj@.len() ==> #[trigger] fields[k] == (
                            obj@[k].0@,
                            obj@[k].1.view(),
                        ),
                    forall|k: int|
                        #![trigger fields[k]]
                        0 <= k < i ==> renderable(format, fields[k].1),
                decreases obj.len() - i,
            {
                proof {
                    assert(decreases_to!(value => value->Object_0));
                    assert(decreases_to!(value->Object_0 => value->Object_0@));
                    assert(decreases_to!(value->Object_0@ => value->Object_0@[i as int]));
                    assert(decreases_to!(value->Object_0@[i as int] => value->Object_0@[i as int].1));
                }
                assert(fields[i as int] == (obj@[i as int].0@, obj@[i as int].1.view()));
                if !is_renderable(format, &obj[i].1) {
                    assert(!renderable(format, fields[i as int].1));
                    return false;
                }
                i += 1;
            }
            true
        },
        _ => true,
    }
}

/// The value of an item in short.
pub fn describe(value: &Node) -> (r: String)
    ensures
        r@ == description_of(value@),
{
    match value {
        Node::Null => String::from_str("null"),
        Node::String(s) => String::from_str("= ").concat(debug_quote(s.as_str()).as_str()),
        Node::Number(n) => String::from_str("= ").concat(n.as_str()),
        Node::Bool(b) => String::from_str(if *b { "= true" } else { "= false" }),
        Node::Array(arr) => {
            proof {
                lemma_view_array(*arr);
            }
            let word = if arr.len() > 1 { "items" } else { "item" };
            String::from_str("[ ").concat(decimal(arr.len()).as_str()).concat(" ").concat(
                word,
            ).concat(" ]")
        },
        Node::Object(obj) => {
            proof {
                lemma_view_object(*obj);
            }
            let word = if obj.len() > 1 { "fields" } else { "field" };
            String::from_str("{ ").concat(decimal(obj.len()).as_str()).concat(" ").concat(
                word,
            ).concat(" }")
        },
    }
}

/// The path of an item.
pub fn path_of(parent: Option<&str>, name: &str) -> (r: String)
    ensures
        r@ == item_path(
            match parent {
                Some(p) => Some(p@),
                None => None,
            },
            name@,
        ),
{
    match parent {
        None => String::from_str(name),
        Some(path) => String::from_str(path).concat("/").concat(name),
    }
}

/// The tree of a document.
pub struct Tree {
    /// The format of the document.
    parser: ContentType,
    /// The items at the top of the tree.
    items: Vec<TreeItem>,
    /// Every item of the tree with its path, parents before children.
    values: Vec<(String, ItemValue)>,
    /// The paths of the items, in the same order.
    identifies: Vec<String>,
    /// For each path the place in `values` of the last item of that path.
    index: StringHashMap<usize>,
}

/// The place of the last of the first `n` entries with the given path.
pub open spec fn entry_place(entries: Seq<(Seq<char>, ItemView)>, path: Seq<char>, n: nat) -> Option<
    int,
>
    decreases n,
{
    if n == 0 || n > entries.len() {
        None
    } else if entries[n - 1].0 == path {
        Some(n - 1)
    } else {
        entry_place(entries, path, (n - 1) as nat)
    }
}

/// The index holds for each path the place of the last of the first `n`
/// entries with that path, and no other path.
pub open spec fn indexes(index: Map<Seq<char>, usize>, entries: Seq<(Seq<char>, ItemView)>, n: nat) -> bool {
    forall|path: Seq<char>|
        (#[trigger] index.contains_key(path) <==> entry_place(entries, path, n) is Some) && (
        index.contains_key(path) ==> index[path] as int == entry_place(entries, path, n)->0)
}

/// The place of an entry is within the entries, the entry has the path, and
/// it is the entry that `entry_at` finds.
pub proof fn lemma_entry_place(entries: Seq<(Seq<char>, ItemView)>, path: Seq<char>, n: nat)
    requires
        n <= entries.len(),
    ensures
        match entry_place(entries, path, n) {
            Some(i) => 0 <= i < n && entries[i].0 == path && entry_at(entries, path, n) == Some(
                entries[i].1,
            ),
            None => entry_at(entries, path, n) is None,
        },
    decreases n,
{
    if n > 0 && entries[n - 1].0 != path {
        lemma_entry_place(entries, path, (n - 1) as nat);
    }
}

/// Why a tree could not be made of content.
#[derive(Debug, PartialEq, Eq)]
pub enum TreeError {
    /// The content could not be read.
    Parse(ParseError),
    /// A value of the document cannot be highlighted in its format.
    NotRenderable,
}

/// The items at the top of the tree of a document: those of an array or of
/// an object, or the value itself under the name `root`.
pub open spec fn top_entries(format: ContentType, d: Doc) -> Seq<(Seq<char>, ItemView)> {
    match d {
        Doc::Array(items) => top_array_entries(format, items, items.len()),
        Doc::Object(fields) => top_object_entries(format, fields, fields.len()),
        _ => entries(format, None, "root"@, d, None),
    }
}

/// The first `n` items of an array at the top, each under its index, with
/// the items below them.
pub open spec fn top_array_entries(format: ContentType, items: Seq<Doc>, n: nat) -> Seq<
    (Seq<char>, ItemView),
>
    decreases n,
{
    if n == 0 || n > items.len() {
        Seq::empty()
    } else {
        top_array_entries(format, items, (n - 1) as nat) + entries(
            format,
            None,
            decimal_text((n - 1) as nat),
            items[n - 1],
            None,
        )
    }
}

/// The first `n` fields of an object at the top, with the items below them.
pub open spec fn top_object_entries(format: ContentType, fields: Seq<(Seq<char>, Doc)>, n: nat) -> Seq<
    (Seq<char>, ItemView),
>
    decreases n,
{
    if n == 0 || n > fields.len() {
        Seq::empty()
    } else {
        top_object_entries(format, fields, (n - 1) as nat) + entries(
            format,
            None,
            fields[n - 1].0,
            fields[n - 1].1,
            None,
        )
    }
}

/// The items at the top of the tree of a document.
pub open spec fn top_shapes(d: Doc) -> Seq<Shape> {
    match d {
        Doc::Array(_) => shape_of(Seq::empty(), d).children,
        Doc::Object(_) => shape_of(Seq::empty(), d).children,
        _ => seq![shape_of("root"@, d)],
    }
}

/// The format of content and the document that it holds: `Any` stands for
/// the first format that reads the content.
pub open spec fn located(content_type: ContentType, bytes: Seq<u8>) -> Result<
    (ContentType, Doc),
    Fault,
> {
    if content_type is Any {
        detected(None, bytes, 0)
    } else {
        match read_root(content_type, None, bytes) {
            Ok(d) => Ok((content_type, d)),
            Err(e) => Err(e),
        }
    }
}

/// The text of an optional name.
pub open spec fn name_text(name: Option<&str>) -> Option<Seq<char>> {
    match name {
        Some(n) => Some(n@),
        None => None,
    }
}

/// Adds the item `name` with the given value, and all the items below it,
/// to the values of a tree.
pub fn build_item(
    values: &mut Vec<(String, ItemValue)>,
    format: ContentType,
    parent: Option<&str>,
    name: String,
    value: &Node,
    arr_name: Option<&str>,
) -> (item: TreeItem)
    requires
        format.is_concrete(),
        renderable(format, value@),
    ensures
        entries_of(final(values)@) == entries_of(old(values)@) + entries(
            format,
            name_text(parent),
            name@,
            value@,
            name_text(arr_name),
        ),
        item@ == shape_of(name@, value@),
    decreases value,
{
    let ghost base = entries_of(values@);
    let path = path_of(parent, name.as_str());
    let data_name = match arr_name {
        Some(n) => n,
        None => name.as_str(),
    };
    let tokens = match value {
        Node::Null => {
            let mut tokens: Vec<SyntaxToken> = Vec::new();
            emit(&mut tokens, SyntaxToken::Null("null"));
            assert(toks_of(tokens@) =~= seq![Tok::Null("null"@)]);
            tokens
        },
        Node::String(s) => string_tokens(s.clone()),
        Node::Number(n) => {
            let mut tokens: Vec<SyntaxToken> = Vec::new();
            emit(&mut tokens, SyntaxToken::Number(n.clone()));
            assert(toks_of(tokens@) =~= seq![Tok::Number(n@)]);
            tokens
        },
        Node::Bool(b) => {
            let mut tokens: Vec<SyntaxToken> = Vec::new();
            let b = if *b { "true" } else { "false" };
            emit(&mut tokens, SyntaxToken::Bool(b));
            assert(toks_of(tokens@) =~= seq![Tok::Bool(b@)]);
            tokens
        },
        _ => format.syntax_highlight(data_name, value),
    };
    let info = ItemValue {
        name: name.clone(),
        value: value.clone(),
        field_type: field_type(value),
        description: describe(value),
        tokens,
    };
    assert(info@ == item_view(format, name@, value@, name_text(arr_name)));
    values.push((path.clone(), info));
    let ghost own = seq![(path@, item_view(format, name@, value@, name_text(arr_name)))];
    assert(entries_of(values@) =~= base + own);
    let mut children: Vec<TreeItem> = Vec::new();
    match value {
        Node::Array(arr) => {
            proof {
                lemma_view_array(*arr);
            }
            let ghost items = value@->Array_0;
            let mut idx: usize = 0;
            assert(entries_of(values@) =~= base + own + Seq::<(Seq<char>, ItemView)>::empty());
            while idx < arr.len()
                invariant
                    idx <= arr.len(),
                    format.is_concrete(),
                    renderable(format, value@),
                    value is Array,
                    value->Array_0 == *arr,
                    items == value@->Array_0,
                    items.len() == arr@.len(),
                    forall|k: int| 0 <= k < arr@.len() ==> #[trigger] items[k] == arr@[k].view(),
                    entries_of(values@) == base + own + array_entries(
                        format,
                        path@,
                        name@,
                        items,
                        idx as nat,
                    ),
                    children@.len() == idx,
                    forall|k: int|
                        0 <= k < idx ==> (#[trigger] children@[k])@ == shape_of(
                            decimal_text(k as nat),
                            items[k],
                        ),
                decreases arr.len() - idx,
            {
                proof {
                    assert(decreases_to!(value => value->Array_0));
                    assert(decreases_to!(value->Array_0 => value->Array_0@));
                    assert(decreases_to!(value->Array_0@ => value->Array_0@[idx as int]));
                    assert(renderable(format, items[idx as int]));
                }
                let ghost before = array_entries(format, path@, name@, items, idx as nat);
                let child = build_item(
                    values,
                    format,
                    Some(path.as_str()),
                    decimal(idx),
                    &arr[idx],
                    Some(name.as_str()),
                );
                assert(entries_of(values@) =~= base + own + (before + entries(
                    format,
                    Some(path@),
                    decimal_text(idx as nat),
                    items[idx as int],
                    Some(name@),
                )));
                children.push(child);
                idx += 1;
            }
        },
        Node::Object(obj) => {
            proof {
                lemma_view_object(*obj);
            }
            let ghost fields = value@->Object_0;
            let mut idx: usize = 0;
            assert(entries_of(values@) =~= base + own + Seq::<(Seq<char>, ItemView)>::empty());
            while idx < obj.len()
                invariant
                    idx <= obj.len(),
                    format.is_concrete(),
                    renderable(format, value@),
                    value is Object,
                    value->Object_0 == *obj,
                    fields == value@->Object_0,
                    fields.len() == obj@.len(),
                    forall|k: int|
                        0 <= k < obj@.len() ==> #[trigger] fields[k] == (
                            obj@[k].0@,
                            obj@[k].1.view(),
                        ),
                    entries_of(values@) == base + own + object_entries(
                        format,
                        path@,
                        fields,
                        idx as nat,
                    ),
                    children@.len() == idx,
                    forall|k: int|
                        0 <= k < idx ==> (#[trigger] children@[k])@ == shape_of(
                            fields[k].0,
                            fields[k].1,
                        ),
                decreases obj.len() - idx,
            {
                proof {
                    assert(decreases_to!(value => value->Object_0));
                    assert(decreases_to!(value->Object_0 => value->Object_0@));
                    assert(decreases_to!(value->Object_0@ => value->Object_0@[idx as int]));
                    assert(decreases_to!(value->Object_0@[idx as int] => value->Object_0@[idx as int].1));
                    assert(fields[idx as int] == (obj@[idx as int].0@, obj@[idx as int].1.view()));
                    assert(renderable(format, fields[idx as int].1));
                }
                let ghost before = object_entries(format, path@, fields, idx as nat);
                let child = build_item(
                    values,
                    format,
                    Some(path.as_str()),
                    obj[idx].0.clone(),
                    &obj[idx].1,
                    None,
                );
                assert(entries_of(values@) =~= base + own + (before + entries(
                    format,
                    Some(path@),
                    fields[idx as int].0,
                    fields[idx as int].1,
                    None,
                )));
                children.push(child);
                idx += 1;
            }
        },
        _ => {
            assert(entries_of(values@) =~= base + (own + Seq::<(Seq<char>, ItemView)>::empty()));
        },
    }
    let item = TreeItem { identifier: name, children };
    assert(item@.children =~= shape_of(name@, value@).children);
    proof {
        assert(entries_of(values@) =~= base + entries(
            format,
            name_text(parent),
            name@,
            value@,
            name_text(arr_name),
        ));
    }
    item
}

impl Tree {
    /// The tree of a document of the given format. The items of the root
    /// are at the top of the tree; a root that is neither an array nor an
    /// object is the only item, named `root`.
    pub fn from_value(value: &Node, parser: ContentType) -> (tree: Tree)
        requires
            parser.is_concrete(),
            renderable(parser, value@),
        ensures
            tree.format() == parser,
            tree.entries() == top_entries(parser, value@),
            tree.shapes() == top_shapes(value@),
    {
        let mut values: Vec<(String, ItemValue)> = Vec::new();
        let mut items: Vec<TreeItem> = Vec::new();
        assert(entries_of(values@) =~= Seq::<(Seq<char>, ItemView)>::empty());
        match value {
            Node::Array(arr) => {
                proof {
                    lemma_view_array(*arr);
                }
                let ghost docs = value@->Array_0;
                let mut idx: usize = 0;
                while idx < arr.len()
                    invariant
                        idx <= arr.len(),
                        parser.is_concrete(),
                        renderable(parser, value@),
                        value@ is Array,
                        docs == value@->Array_0,
                        docs.len() == arr@.len(),
                        forall|k: int| 0 <= k < arr@.len() ==> #[trigger] docs[k] == arr@[k].view(),
                        entries_of(values@) == top_array_entries(parser, docs, idx as nat),
                        items@.len() == idx,
                        forall|k: int|
                            0 <= k < idx ==> (#[trigger] items@[k])@ == shape_of(
                                decimal_text(k as nat),
                                docs[k],
                            ),
                    decreases arr.len() - idx,
                {
                    let ghost before = entries_of(values@);
                    assert(renderable(parser, docs[idx as int]));
                    let item = build_item(&mut values, parser, None, decimal(idx), &arr[idx], None);
                    items.push(item);
                    idx += 1;
                }
                assert(shapes_of(items@) =~= top_shapes(value@));
            },
            Node::Object(obj) => {
                proof {
                    lemma_view_object(*obj);
                }
                let ghost fields = value@->Object_0;
                let mut idx: usize = 0;
                while idx < obj.len()
                    invariant
                        idx <= obj.len(),
                        parser.is_concrete(),
                        renderable(parser, value@),
                        value@ is Object,
                        fields == value@->Object_0,
                        fields.len() == obj@.len(),
                        forall|k: int|
                            0 <= k < obj@.len() ==> #[trigger] fields[k] == (
                                obj@[k].0@,
                                obj@[k].1.view(),
                            ),
                        entries_of(values@) == top_object_entries(parser, fields, idx as nat),
                        items@.len() == idx,
                        forall|k: int|
                            0 <= k < idx ==> (#[trigger] items@[k])@ == shape_of(
                                fields[k].0,
                                fields[k].1,
                            ),
                    decreases obj.len() - idx,
                {
                    assert(fields[idx as int] == (obj@[idx as int].0@, obj@[idx as int].1.view()));
                    assert(renderable(parser, fields[idx as int].1));
                    let item = build_item(
                        &mut values,
                        parser,
                        None,
                        obj[idx].0.clone(),
                        &obj[idx].1,
                        None,
                    );
                    items.push(item);
                    idx += 1;
                }
                assert(shapes_of(items@) =~= top_shapes(value@));
            },
            _ => {
                let item = build_item(
                    &mut values,
                    parser,
                    None,
                    String::from_str("root"),
                    value,
                    None,
                );
                items.push(item);
                assert(shapes_of(items@) =~= top_shapes(value@));
                assert(entries_of(values@) =~= top_entries(parser, value@));
            },
        }
        let mut identifies: Vec<String> = Vec::new();
        let mut index: StringHashMap<usize> = StringHashMap::new();
        let ghost all = entries_of(values@);
        let mut i: usize = 0;
        while i < values.len()
            invariant
                i <= values.len(),
                all == entries_of(values@),
                identifies@.len() == i,
                forall|k: int| 0 <= k < i ==> (#[trigger] identifies@[k])@ == values@[k].0@,
                indexes(index@, all, i as nat),
            decreases values.len() - i,
        {
            let ghost before = index@;
            identifies.push(values[i].0.clone());
            index.insert(values[i].0.clone(), i);
            proof {
                let added = all[i as int].0;
                assert forall|path: Seq<char>|
                    (#[trigger] index@.contains_key(path) <==> entry_place(
                        all,
                        path,
                        (i + 1) as nat,
                    ) is Some) && (index@.contains_key(path) ==> index@[path] as int
                        == entry_place(all, path, (i + 1) as nat)->0) by {
                    if path != added {
                        assert(before.contains_key(path) <==> entry_place(all, path, i as nat) is Some);
                    }
                }
            }
            i += 1;
        }
        Tree { parser, items, values, identifies, index }
    }

    /// Reads content and makes its tree. `Any` stands for the first format
    /// that reads the content. Content that is read but holds a value that
    /// cannot be highlighted in its format is refused.
    pub fn parse(data: &[u8], content_type: ContentType) -> (r: Result<Tree, TreeError>)
        ensures
            match located(content_type, data@) {
                Err(e) => r matches Err(TreeError::Parse(error)) && error@ == e,
                Ok((format, d)) => if renderable(format, d) {
                    &&& r matches Ok(tree)
                    &&& r->Ok_0.format() == format
                    &&& r->Ok_0.entries() == top_entries(format, d)
                    &&& r->Ok_0.shapes() == top_shapes(d)
                } else {
                    r == Err::<Tree, TreeError>(TreeError::NotRenderable)
                },
            },
    {
        let (parser, value) = match content_type {
            ContentType::Any => match detect_format(None, data) {
                Ok(found) => found,
                Err(e) => {
                    return Err(TreeError::Parse(e));
                },
            },
            _ => match content_type.parse_concrete(None, data) {
                Ok(value) => (content_type, value),
                Err(e) => {
                    return Err(TreeError::Parse(e));
                },
            },
        };
        if !is_renderable(parser, &value) {
            return Err(TreeError::NotRenderable);
        }
        Ok(Tree::from_value(&value, parser))
    }

    /// The format of the document.
    pub closed spec fn format(&self) -> ContentType {
        self.parser
    }

    /// Every item of the tree with its path, parents before children.
    pub closed spec fn entries(&self) -> Seq<(Seq<char>, ItemView)> {
        entries_of(self.values@)
    }

    /// The items at the top of the tree.
    pub closed spec fn shapes(&self) -> Seq<Shape> {
        shapes_of(self.items@)
    }

    /// The paths are those of the values, and the index finds the last
    /// value of each path.
    #[verifier::type_invariant]
    spec fn inv(&self) -> bool {
        &&& self.identifies@.len() == self.values@.len()
        &&& forall|i: int|
            0 <= i < self.values@.len() ==> (#[trigger] self.identifies@[i])@ == self.values@[i].0@
        &&& indexes(self.index@, entries_of(self.values@), self.values@.len())
    }

    /// The items at the top of the tree.
    pub fn items(&self) -> (r: &Vec<TreeItem>)
        ensures
            shapes_of(r@) == self.shapes(),
    {
        &self.items
    }

    /// Every item of the tree with its path, parents before children.
    pub fn values(&self) -> (r: &Vec<(String, ItemValue)>)
        ensures
            entries_of(r@) == self.entries(),
    {
        &self.values
    }

    /// The paths of the items, parents before children.
    pub fn identifies(&self) -> (r: &Vec<String>)
        ensures
            r@.len() == self.entries().len(),
            forall|i: int| 0 <= i < r@.len() ==> (#[trigger] r@[i])@ == self.entries()[i].0,
    {
        proof {
            use_type_invariant(self);
        }
        &self.identifies
    }

    /// The item at a path: the last one, if several items share the path.
    pub fn get_value(&self, path: &str) -> (r: Option<&ItemValue>)
        ensures
            match r {
                Some(item) => entry_at(self.entries(), path@, self.entries().len()) == Some(item@),
                None => entry_at(self.entries(), path@, self.entries().len()) is None,
            },
    {
        proof {
            use_type_invariant(self);
            lemma_entry_place(entries_of(self.values@), path@, self.values@.len());
        }
        match self.index.get(path) {
            Some(i) => Some(&self.values[*i].1),
            None => None,
        }
    }

    /// The format of the document.
    pub fn get_parser(&self) -> (r: ContentType)
        ensures
            r == self.format(),
    {
        self.parser
    }
}

/// A piece of the text of an item: marked if it is an occurrence of the
/// keyword.
#[derive(Debug, PartialEq, Eq)]
pub struct Segment {
    pub text: String,
    pub marked: bool,
}

/// The mathematical model of a `Segment`.
pub struct SegmentView {
    pub text: Seq<char>,
    pub marked: bool,
}

impl Segment {
    /// The mathematical model of the value.
    pub open spec fn view(&self) -> SegmentView {
        SegmentView { text: self.text@, marked: self.marked }
    }
}

/// The models of a list of segments.
pub open spec fn segments_of(segments: Seq<Segment>) -> Seq<SegmentView> {
    Seq::new(segments.len(), |i: int| segments[i]@)
}

/// The text of the bytes from `from` up to `to`.
pub open spec fn piece(bytes: Seq<u8>, from: int, to: int, marked: bool) -> SegmentView {
    SegmentView { text: decode_utf8(bytes.subrange(from, to)), marked }
}

/// Where the marking of a text stands: the segments so far, the position
/// behind the last occurrence, and whether an occurrence did not fit the
/// text, so that the marking ended there.
pub struct Marking {
    pub segments: Seq<SegmentView>,
    pub last_end: int,
    pub stopped: bool,
}

/// The marking after the first `n` occurrences of a keyword of `len`
/// bytes. An occurrence is marked, and so is the text before it left
/// unmarked, if it lies behind the occurrence before it, within the text and
/// between character boundaries.
pub open spec fn marking(bytes: Seq<u8>, starts: Seq<usize>, len: int, n: nat) -> Marking
    decreases n,
{
    if n == 0 || n > starts.len() {
        Marking { segments: Seq::empty(), last_end: 0, stopped: false }
    } else {
        let m = marking(bytes, starts, len, (n - 1) as nat);
        let start = starts[n - 1] as int;
        let end = start + len;
        if m.stopped {
            m
        } else if !(m.last_end <= start && end <= bytes.len() && is_char_boundary(bytes, start)
            && is_char_boundary(bytes, end)) {
            Marking { stopped: true, ..m }
        } else {
            Marking {
                segments: (if start > m.last_end {
                    m.segments.push(piece(bytes, m.last_end, start, false))
                } else {
                    m.segments
                }).push(piece(bytes, start, end, true)),
                last_end: end,
                stopped: false,
            }
        }
    }
}

/// The text in segments, with the occurrences of the keyword marked. Where
/// case is ignored, the occurrences are those of the lower-case keyword in
/// the lower-case text. An empty keyword marks nothing.
pub open spec fn keyword_segments(text: Seq<char>, keyword: Seq<char>, ignore_case: bool) -> Seq<
    SegmentView,
> {
    if keyword.len() == 0 {
        seq![SegmentView { text, marked: false }]
    } else {
        let hay = if ignore_case {
            lowercased(text)
        } else {
            text
        };
        let needle = if ignore_case {
            lowercased(keyword)
        } else {
            keyword
        };
        let bytes = encode_utf8(text);
        let starts = match_starts(hay, needle);
        let m = marking(bytes, starts, encode_utf8(needle).len() as int, starts.len());
        if m.last_end < bytes.len() {
            m.segments.push(piece(bytes, m.last_end, bytes.len() as int, false))
        } else {
            m.segments
        }
    }
}

/// Splits a text into segments, with the occurrences of a keyword marked.
pub fn highlight_keyword(text: &str, keyword: HighlightKeyword) -> (r: Vec<Segment>)
    ensures
        segments_of(r@) == keyword_segments(text@, keyword.text@, keyword.ignore_case),
{
    let mut spans: Vec<Segment> = Vec::new();
    if keyword.text.is_empty() {
        spans.push(Segment { text: String::from_str(text), marked: false });
        assert(segments_of(spans@) =~= seq![SegmentView { text: text@, marked: false }]);
        return spans;
    }
    let lower_text: String;
    let lower_keyword: String;
    let (text_compare, keyword_compare): (&str, &str) = if keyword.ignore_case {
        lower_text = to_lowercase(text);
        lower_keyword = to_lowercase(keyword.text);
        (lower_text.as_str(), lower_keyword.as_str())
    } else {
        (text, keyword.text)
    };
    let starts = match_indices(text_compare, keyword_compare);
    let width = keyword_compare.as_bytes().len();
    let total = text.as_bytes().len();
    let ghost bytes = text.spec_bytes();
    proof {
        vstd::utf8::encode_utf8_valid_utf8(text@);
        vstd::utf8::is_char_boundary_start_end_of_seq(bytes);
    }
    let mut last_end: usize = 0;
    let mut stopped = false;
    let mut i: usize = 0;
    assert(segments_of(spans@) =~= Seq::<SegmentView>::empty());
    while i < starts.len() && !stopped
        invariant
            i <= starts.len(),
            bytes == text.spec_bytes(),
            total == bytes.len(),
            last_end <= total,
            is_char_boundary(bytes, last_end as int),
            marking(bytes, starts@, width as int, i as nat) == (Marking {
                segments: segments_of(spans@),
                last_end: last_end as int,
                stopped,
            }),
        decreases starts.len() - i + (if stopped { 0int } else { 1int }),
    {
        let ghost before = segments_of(spans@);
        let start = starts[i];
        if start < last_end || start > total || width > total - start || !text.is_char_boundary(
            start,
        ) || !text.is_char_boundary(start + width) {
            stopped = true;
        } else {
            let end = start + width;
            if start > last_end {
                spans.push(
                    Segment { text: String::from_str(slice(text, last_end, start)), marked: false },
                );
            }
            spans.push(Segment { text: String::from_str(slice(text, start, end)), marked: true });
            proof {
                if start > last_end {
                    assert(segments_of(spans@) =~= before.push(
                        piece(bytes, last_end as int, start as int, false),
                    ).push(piece(bytes, start as int, end as int, true)));
                } else {
                    assert(segments_of(spans@) =~= before.push(
                        piece(bytes, start as int, end as int, true),
                    ));
                }
            }
            last_end = end;
        }
        i += 1;
    }
    proof {
        lemma_marking_stopped(bytes, starts@, width as int, i as nat, starts@.len());
    }
    if last_end < total {
        let ghost before = segments_of(spans@);
        spans.push(Segment { text: String::from_str(slice(text, last_end, total)), marked: false });
        assert(segments_of(spans@) =~= before.push(
            piece(bytes, last_end as int, total as int, false),
        ));
    }
    spans
}

/// Once the marking has ended, the occurrences after that change nothing.
pub proof fn lemma_marking_stopped(bytes: Seq<u8>, starts: Seq<usize>, len: int, n: nat, m: nat)
    requires
        n <= m <= starts.len(),
        marking(bytes, starts, len, n).stopped || n == m,
    ensures
        marking(bytes, starts, len, m) == marking(bytes, starts, len, n),
    decreases m - n,
{
    if n < m {
        lemma_marking_stopped(bytes, starts, len, n, (m - 1) as nat);
    }
}

/// The line of an item in the tree: its name, the word for its type and
/// its description.
#[derive(Debug, PartialEq, Eq)]
pub struct ItemText {
    pub name: Vec<Segment>,
    pub type_text: String,
    pub description: Vec<Segment>,
}

/// The word for a type.
pub open spec fn type_word(types: &Types, field_type: FieldType) -> Seq<char> {
    match field_type {
        FieldType::Null => types.null@,
        FieldType::Num => types.num@,
        FieldType::Bool => types.bool@,
        FieldType::Str => types.str@,
        FieldType::Obj => types.obj@,
        FieldType::Arr => types.arr@,
    }
}

/// The segments of a text: with the occurrences of the keyword marked, or
/// the text as one segment where there is no keyword.
pub open spec fn text_segments(text: Seq<char>, keyword: Option<HighlightKeyword>) -> Seq<
    SegmentView,
> {
    match keyword {
        Some(k) => keyword_segments(text, k.text@, k.ignore_case),
        None => seq![SegmentView { text, marked: false }],
    }
}

fn segments(text: &str, keyword: Option<HighlightKeyword>) -> (r: Vec<Segment>)
    ensures
        segments_of(r@) == text_segments(text@, keyword),
{
    match keyword {
        Some(k) => highlight_keyword(text, k),
        None => {
            let mut spans: Vec<Segment> = Vec::new();
            spans.push(Segment { text: String::from_str(text), marked: false });
            assert(segments_of(spans@) =~= seq![SegmentView { text: text@, marked: false }]);
            spans
        },
    }
}

/// The line of an item in the tree.
pub fn build_item_text(
    types: &Types,
    name: &str,
    field_type: FieldType,
    description: &str,
    keyword: Option<HighlightKeyword>,
) -> (r: ItemText)
    ensures
        segments_of(r.name@) == text_segments(name@, keyword),
        r.type_text@ == type_word(types, field_type),
        segments_of(r.description@) == text_segments(description@, keyword),
{
    let type_text = match field_type {
        FieldType::Null => types.null.clone(),
        FieldType::Num => types.num.clone(),
        FieldType::Bool => types.bool.clone(),
        FieldType::Str => types.str.clone(),
        FieldType::Obj => types.obj.clone(),
        FieldType::Arr => types.arr.clone(),
    };
    ItemText {
        name: segments(name, keyword),
        type_text,
        description: segments(description, keyword),
    }
}

impl ItemValue {
    /// The line of the item in the tree, with the occurrences of a keyword
    /// marked.
    pub fn build_highlighted_text(&self, types: &Types, keyword: &str, ignore_case: bool) -> (r:
        ItemText)
        ensures
            segments_of(r.name@) == keyword_segments(self.name@, keyword@, ignore_case),
            r.type_text@ == type_word(types, self.field_type),
            segments_of(r.description@) == keyword_segments(
                self.description@,
                keyword@,
                ignore_case,
            ),
    {
        build_item_text(
            types,
            self.name.as_str(),
            self.field_type,
            self.description.as_str(),
            Some(HighlightKeyword { text: keyword, ignore_case }),
        )
    }
}

/// The children of an item are the items of its children.
pub proof fn lemma_view_item(item: TreeItem)
    ensures
        item@.children == shapes_of(item.children@),
{
    assert(item@.children =~= shapes_of(item.children@));
}

/// The value of the last of the first `n` entries with the given path.
pub open spec fn entry_at(entries: Seq<(Seq<char>, ItemView)>, path: Seq<char>, n: nat) -> Option<
    ItemView,
>
    decreases n,
{
    if n == 0 || n > entries.len() {
        None
    } else if entries[n - 1].0 == path {
        Some(entries[n - 1].1)
    } else {
        entry_at(entries, path, (n - 1) as nat)
    }
}

/// Whether a filter lets the item at a path through by itself. An item
/// without an entry is not let through.
pub open spec fn passes(entries: Seq<(Seq<char>, ItemView)>, path: Seq<char>, options: &FilterOptions) -> bool {
    match entry_at(entries, path, entries.len()) {
        Some(item) => options.accepts(item.name, item.value),
        None => false,
    }
}

/// What a filter leaves of an item: the item with what the filter leaves of
/// its children, if it leaves any; else the item without children, if the
/// item itself passes; else nothing.
pub open spec fn filtered(
    shape: Shape,
    parent: Option<Seq<char>>,
    entries: Seq<(Seq<char>, ItemView)>,
    options: &FilterOptions,
) -> Option<Shape>
    decreases shape, 0nat,
{
    let path = item_path(parent, shape.identifier);
    let kids = filtered_children(shape.children, shape.children.len(), path, entries, options);
    if kids.len() > 0 {
        Some(Shape { identifier: shape.identifier, children: kids })
    } else if passes(entries, path, options) {
        Some(Shape { identifier: shape.identifier, children: Seq::empty() })
    } else {
        None
    }
}

/// What a filter leaves of the first `n` children of the item at `path`.
pub open spec fn filtered_children(
    children: Seq<Shape>,
    n: nat,
    path: Seq<char>,
    entries: Seq<(Seq<char>, ItemView)>,
    options: &FilterOptions,
) -> Seq<Shape>
    decreases children, n,
{
    if n == 0 || n > children.len() {
        Seq::empty()
    } else {
        filtered_children(children, (n - 1) as nat, path, entries, options) + (match filtered(
            children[n - 1],
            Some(path),
            entries,
            options,
        ) {
            Some(shape) => seq![shape],
            None => Seq::empty(),
        })
    }
}

/// The items that a filter opens below and at an item: every item of which
/// it leaves children, children before parents. An item is named by the
/// identifiers from the top of the tree down to it.
pub open spec fn opened(
    shape: Shape,
    above: Seq<Seq<char>>,
    parent: Option<Seq<char>>,
    entries: Seq<(Seq<char>, ItemView)>,
    options: &FilterOptions,
) -> Seq<Seq<Seq<char>>>
    decreases shape, 0nat,
{
    let path = item_path(parent, shape.identifier);
    let id = above.push(shape.identifier);
    let kids = filtered_children(shape.children, shape.children.len(), path, entries, options);
    opened_children(shape.children, shape.children.len(), id, path, entries, options) + (
    if kids.len() > 0 {
        seq![id]
    } else {
        Seq::empty()
    })
}

/// The items that a filter opens below the first `n` children of an item.
pub open spec fn opened_children(
    children: Seq<Shape>,
    n: nat,
    id: Seq<Seq<char>>,
    path: Seq<char>,
    entries: Seq<(Seq<char>, ItemView)>,
    options: &FilterOptions,
) -> Seq<Seq<Seq<char>>>
    decreases children, n,
{
    if n == 0 || n > children.len() {
        Seq::empty()
    } else {
        opened_children(children, (n - 1) as nat, id, path, entries, options) + opened(
            children[n - 1],
            id,
            Some(path),
            entries,
            options,
        )
    }
}

/// The texts of a list of lists of strings.
pub open spec fn ids_of(ids: Seq<Vec<String>>) -> Seq<Seq<Seq<char>>> {
    Seq::new(ids.len(), |i: int| texts_of(ids[i]@))
}

/// A copy of a list of strings with one more string.
pub fn extended(list: &Vec<String>, last: &str) -> (r: Vec<String>)
    ensures
        texts_of(r@) == texts_of(list@).push(last@),
{
    let mut out: Vec<String> = Vec::new();
    let mut i: usize = 0;
    while i < list.len()
        invariant
            i <= list.len(),
            out@.len() == i,
            forall|k: int| 0 <= k < i ==> (#[trigger] out@[k])@ == list@[k]@,
        decreases list.len() - i,
    {
        out.push(list[i].clone());
        i += 1;
    }
    out.push(String::from_str(last));
    assert(texts_of(out@) =~= texts_of(list@).push(last@));
    out
}

impl Tree {
    /// Whether a filter lets the item at a path through by itself.
    pub fn passes_filter(&self, path: &str, options: &FilterOptions) -> (r: bool)
        ensures
            r == passes(self.entries(), path@, options),
    {
        match self.get_value(path) {
            Some(item) => options.filter(item.name.as_str(), &item.value),
            None => false,
        }
    }

    /// Applies a filter to an item and the items below it. `above` are the
    /// identifiers from the top of the tree down to the parent of the item,
    /// `parent` is the path of the parent. The items that the filter opens
    /// are added to `opens`.
    pub fn filter_item(
        &self,
        above: &Vec<String>,
        parent: Option<&str>,
        item: &TreeItem,
        options: &FilterOptions,
        opens: &mut Vec<Vec<String>>,
    ) -> (r: Option<TreeItem>)
        ensures
            match filtered(item@, name_text(parent), self.entries(), options) {
                Some(shape) => r is Some && r->0@ == shape,
                None => r is None,
            },
            ids_of(final(opens)@) == ids_of(old(opens)@) + opened(
                item@,
                texts_of(above@),
                name_text(parent),
                self.entries(),
                options,
            ),
        decreases item,
    {
        proof {
            lemma_view_item(*item);
        }
        let ghost entries = self.entries();
        let ghost base = ids_of(opens@);
        let ghost shapes = item@.children;
        let id = extended(above, item.identifier.as_str());
        let path = path_of(parent, item.identifier.as_str());
        let ok = self.passes_filter(path.as_str(), options);
        let mut kids: Vec<TreeItem> = Vec::new();
        let mut i: usize = 0;
        assert(shapes_of(kids@) =~= Seq::<Shape>::empty());
        assert(ids_of(opens@) =~= base + Seq::<Seq<Seq<char>>>::empty());
        while i < item.children.len()
            invariant
                i <= item.children.len(),
                entries == self.entries(),
                shapes == item@.children,
                shapes == shapes_of(item.children@),
                shapes_of(kids@) == filtered_children(shapes, i as nat, path@, entries, options),
                ids_of(opens@) == base + opened_children(
                    shapes,
                    i as nat,
                    texts_of(id@),
                    path@,
                    entries,
                    options,
                ),
            decreases item.children.len() - i,
        {
            proof {
                assert(decreases_to!(item => item.children));
                assert(decreases_to!(item.children => item.children@));
                assert(decreases_to!(item.children@ => item.children@[i as int]));
            }
            let ghost before = shapes_of(kids@);
            let ghost opened_before = opened_children(
                shapes,
                i as nat,
                texts_of(id@),
                path@,
                entries,
                options,
            );
            assert(shapes[i as int] == item.children@[i as int]@);
            match self.filter_item(&id, Some(path.as_str()), &item.children[i], options, opens) {
                Some(kid) => {
                    kids.push(kid);
                    assert(shapes_of(kids@) =~= before + seq![kid@]);
                },
                None => {
                    assert(shapes_of(kids@) =~= before + Seq::<Shape>::empty());
                },
            }
            assert(ids_of(opens@) =~= base + (opened_before + opened(
                shapes[i as int],
                texts_of(id@),
                Some(path@),
                entries,
                options,
            )));
            i += 1;
        }
        if kids.len() > 0 {
            let ghost before = ids_of(opens@);
            opens.push(id);
            assert(ids_of(opens@) =~= before + seq![texts_of(id@)]);
            let kept = TreeItem { identifier: item.identifier.clone(), children: kids };
            proof {
                lemma_view_item(kept);
            }
            return Some(kept);
        }
        assert(ids_of(opens@) =~= base + (opened_children(
            shapes,
            shapes.len(),
            texts_of(id@),
            path@,
            entries,
            options,
        ) + Seq::<Seq<Seq<char>>>::empty()));
        if ok {
            let kept = TreeItem { identifier: item.identifier.clone(), children: Vec::new() };
            proof {
                lemma_view_item(kept);
                assert(kept@.children =~= Seq::<Shape>::empty());
            }
            return Some(kept);
        }
        None
    }
}

/// An item and the items below it, parents before children. An item is
/// named by the identifiers from the top of the tree down to it.
pub open spec fn all_ids(shape: Shape, above: Seq<Seq<char>>) -> Seq<Seq<Seq<char>>>
    decreases shape, 0nat,
{
    seq![above.push(shape.identifier)] + all_child_ids(
        shape.children,
        shape.children.len(),
        above.push(shape.identifier),
    )
}

/// The items below the first `n` children of the item `id`.
pub open spec fn all_child_ids(children: Seq<Shape>, n: nat, id: Seq<Seq<char>>) -> Seq<
    Seq<Seq<char>>,
>
    decreases children, n,
{
    if n == 0 || n > children.len() {
        Seq::empty()
    } else {
        all_child_ids(children, (n - 1) as nat, id) + all_ids(children[n - 1], id)
    }
}

/// Adds an item and the items below it to a list.
pub fn collect_ids(item: &TreeItem, above: &Vec<String>, ids: &mut Vec<Vec<String>>)
    ensures
        ids_of(final(ids)@) == ids_of(old(ids)@) + all_ids(item@, texts_of(above@)),
    decreases item,
{
    proof {
        lemma_view_item(*item);
    }
    let ghost base = ids_of(ids@);
    let ghost shapes = item@.children;
    let id = extended(above, item.identifier.as_str());
    ids.push(extended(above, item.identifier.as_str()));
    assert(ids_of(ids@) =~= base + seq![texts_of(id@)] + Seq::<Seq<Seq<char>>>::empty());
    let mut i: usize = 0;
    while i < item.children.len()
        invariant
            i <= item.children.len(),
            shapes == item@.children,
            shapes == shapes_of(item.children@),
            ids_of(ids@) == base + seq![texts_of(id@)] + all_child_ids(
                shapes,
                i as nat,
                texts_of(id@),
            ),
        decreases item.children.len() - i,
    {
        proof {
            assert(decreases_to!(item => item.children));
            assert(decreases_to!(item.children => item.children@));
            assert(decreases_to!(item.children@ => item.children@[i as int]));
        }
        let ghost before = all_child_ids(shapes, i as nat, texts_of(id@));
        assert(shapes[i as int] == item.children@[i as int]@);
        collect_ids(&item.children[i], &id, ids);
        assert(ids_of(ids@) =~= base + seq![texts_of(id@)] + (before + all_ids(
            shapes[i as int],
            texts_of(id@),
        )));
        i += 1;
    }
    assert(ids_of(ids@) =~= base + (seq![texts_of(id@)] + all_child_ids(
        shapes,
        shapes.len(),
        texts_of(id@),
    )));
}

/// The text of a value for an editor: that of a scalar as it is, or the
/// highlighted text of an array or an object. The second part is the file
/// suffix: `txt` for a scalar, that of the format for the rest.
pub fn edit_text(item: &ItemValue, parser: ContentType) -> (r: (String, &'static str))
    requires
        parser.is_concrete(),
    ensures
        r.0@ == (match item.value@ {
            Doc::String(s) => s,
            Doc::Null => "null"@,
            Doc::Number(n) => n,
            Doc::Bool(b) => if b {
                "true"@
            } else {
                "false"@
            },
            _ => crate::parse::syntax::plain_text(toks_of(item.tokens@)),
        }),
        r.1@ == (match item.value@ {
            Doc::Array(_) => parser.extension_text(),
            Doc::Object(_) => parser.extension_text(),
            _ => "txt"@,
        }),
{
    match &item.value {
        Node::String(s) => (s.clone(), "txt"),
        Node::Null => (String::from_str("null"), "txt"),
        Node::Number(n) => (n.clone(), "txt"),
        Node::Bool(b) => (String::from_str(if *b { "true" } else { "false" }), "txt"),
        _ => (item.plain_text(), parser.extension()),
    }
}

/// The text of a value for the clipboard: that of a string, a number or a
/// boolean as it is, else the text of its tokens.
pub fn copy_text(item: &ItemValue) -> (r: String)
    ensures
        r@ == (match item.value@ {
            Doc::String(s) => s,
            Doc::Number(n) => n,
            Doc::Bool(b) => if b {
                "true"@
            } else {
                "false"@
            },
            _ => crate::parse::syntax::plain_text(toks_of(item.tokens@)),
        }),
{
    match &item.value {
        Node::String(s) => s.clone(),
        Node::Number(n) => n.clone(),
        Node::Bool(b) => String::from_str(if *b { "true" } else { "false" }),
        _ => item.plain_text(),
    }
}

} // verus!
