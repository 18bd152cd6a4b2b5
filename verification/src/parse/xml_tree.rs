//! Folds the events of an XML text into a document value.

use vstd::prelude::*;
use vstd::string::*;

use crate::doc::{keys_unique, lemma_view_array, lemma_view_object, Doc, Node};
use crate::parse::syntax::str_eq;
use crate::text::{char_text, trim, trimmed};

verus! {

/// The fields of an object in the making.
pub type Fields = Seq<(Seq<char>, Doc)>;

/// The position of the field `key`.
pub open spec fn position(fields: Fields, key: Seq<char>, n: nat) -> Option<int>
    decreases n,
{
    if n == 0 || n > fields.len() {
        None
    } else {
        match position(fields, key, (n - 1) as nat) {
            Some(i) => Some(i),
            None => if fields[n - 1].0 == key {
                Some(n - 1)
            } else {
                None
            },
        }
    }
}

/// The fields with `key` set to `value`: in place if the field exists, at
/// the end if it does not.
pub open spec fn put(fields: Fields, key: Seq<char>, value: Doc) -> Fields {
    match position(fields, key, fields.len()) {
        Some(i) => fields.update(i, (key, value)),
        None => fields.push((key, value)),
    }
}

/// The fields without the field at `i`: the last field takes its place.
pub open spec fn without(fields: Fields, i: int) -> Fields {
    fields.update(i, fields.last()).drop_last()
}

/// The position of a field is that of the first field of the name; without a
/// position no field has the name.
pub proof fn lemma_position(fields: Fields, key: Seq<char>, n: nat)
    requires
        n <= fields.len(),
    ensures
        match position(fields, key, n) {
            Some(i) => 0 <= i < n && fields[i].0 == key && forall|k: int|
                0 <= k < i ==> (#[trigger] fields[k]).0 != key,
            None => forall|k: int| 0 <= k < n ==> (#[trigger] fields[k]).0 != key,
        },
    decreases n,
{
    if n > 0 {
        lemma_position(fields, key, (n - 1) as nat);
    }
}

/// Setting a field keeps the names distinct.
pub proof fn lemma_put_unique(fields: Fields, key: Seq<char>, value: Doc)
    requires
        keys_unique(fields),
    ensures
        keys_unique(put(fields, key, value)),
{
    lemma_position(fields, key, fields.len());
}

/// Removing a field keeps the names distinct, and the name is gone.
pub proof fn lemma_without_unique(fields: Fields, i: int)
    requires
        keys_unique(fields),
        0 <= i < fields.len(),
    ensures
        keys_unique(without(fields, i)),
        position(without(fields, i), fields[i].0, without(fields, i).len()) is None,
{
    let rest = without(fields, i);
    assert forall|a: int, b: int| 0 <= a < b < rest.len() implies (#[trigger] rest[a]).0 != (
    #[trigger] rest[b]).0 by {
        let x = if a == i { fields.len() - 1 } else { a };
        let y = if b == i { fields.len() - 1 } else { b };
        assert(rest[a] == fields[x]);
        assert(rest[b] == fields[y]);
        if x < y {
            assert(fields[x].0 != fields[y].0);
        } else {
            assert(fields[y].0 != fields[x].0);
        }
    }
    lemma_position(rest, fields[i].0, rest.len());
    if position(rest, fields[i].0, rest.len()) is Some {
        let k = position(rest, fields[i].0, rest.len())->0;
        let x = if k == i { fields.len() - 1 } else { k };
        assert(rest[k] == fields[x]);
        if x < i {
            assert(fields[x].0 != fields[i].0);
        } else {
            assert(fields[i].0 != fields[x].0);
        }
    }
}

/// The models of the fields of a map in the making.
pub open spec fn fields_view(fields: Seq<(String, Node)>) -> Fields {
    Seq::new(fields.len(), |i: int| (fields[i].0@, fields[i].1@))
}

/// Finds the position of the field `key`.
pub fn find_field(fields: &Vec<(String, Node)>, key: &str) -> (r: Option<usize>)
    ensures
        match r {
            Some(i) => position(fields_view(fields@), key@, fields@.len()) == Some(i as int),
            None => position(fields_view(fields@), key@, fields@.len()) is None,
        },
{
    let ghost view = fields_view(fields@);
    let mut i: usize = 0;
    while i < fields.len()
        invariant
            i <= fields.len(),
            view == fields_view(fields@),
            position(view, key@, i as nat) is None,
        decreases fields.len() - i,
    {
        if str_eq(fields[i].0.as_str(), key) {
            proof {
                lemma_position_found(view, key@, (i + 1) as nat, view.len());
            }
            return Some(i);
        }
        i += 1;
    }
    None
}

/// Once the field is found, the fields after it change nothing.
pub proof fn lemma_position_found(fields: Fields, key: Seq<char>, n: nat, m: nat)
    requires
        n <= m <= fields.len(),
        position(fields, key, n) is Some,
    ensures
        position(fields, key, m) == position(fields, key, n),
    decreases m - n,
{
    if n < m {
        lemma_position_found(fields, key, n, (m - 1) as nat);
    }
}

/// Sets the field `key` to `value`.
pub fn insert_field(fields: &mut Vec<(String, Node)>, key: String, value: Node)
    ensures
        fields_view(final(fields)@) == put(fields_view(old(fields)@), key@, value@),
{
    let ghost before = fields_view(fields@);
    match find_field(fields, key.as_str()) {
        Some(i) => {
            proof {
                lemma_position(before, key@, before.len());
            }
            let mut entry = (key, value);
            fields.push(entry);
            let last = fields.swap_remove(i);
            assert(fields_view(fields@) =~= before.update(i as int, (key@, value@)));
        },
        None => {
            fields.push((key, value));
            assert(fields_view(fields@) =~= before.push((key@, value@)));
        },
    }
}

/// Takes the field `key` out: the last field takes its place.
pub fn remove_field(fields: &mut Vec<(String, Node)>, key: &str) -> (r: Option<Node>)
    ensures
        match position(fields_view(old(fields)@), key@, old(fields)@.len()) {
            Some(i) => r is Some && r->0@ == fields_view(old(fields)@)[i].1 && fields_view(
                final(fields)@,
            ) == without(fields_view(old(fields)@), i),
            None => r is None && fields_view(final(fields)@) == fields_view(old(fields)@),
        },
{
    let ghost before = fields_view(fields@);
    match find_field(fields, key) {
        Some(i) => {
            proof {
                lemma_position(before, key@, before.len());
            }
            let entry = fields.swap_remove(i);
            assert(fields_view(fields@) =~= without(before, i as int));
            Some(entry.1)
        },
        None => None,
    }
}

/// The names of the fields are distinct and their values well formed.
pub open spec fn fields_wf(fields: Fields) -> bool {
    &&& keys_unique(fields)
    &&& forall|i: int| 0 <= i < fields.len() ==> (#[trigger] fields[i]).1.wf()
}

/// Setting a field to a well-formed value keeps the fields well formed.
pub proof fn lemma_put_wf(fields: Fields, key: Seq<char>, value: Doc)
    requires
        fields_wf(fields),
        value.wf(),
    ensures
        fields_wf(put(fields, key, value)),
{
    lemma_put_unique(fields, key, value);
    lemma_position(fields, key, fields.len());
}

/// Removing a field keeps the fields well formed.
pub proof fn lemma_without_wf(fields: Fields, i: int)
    requires
        fields_wf(fields),
        0 <= i < fields.len(),
    ensures
        fields_wf(without(fields, i)),
{
    lemma_without_unique(fields, i);
    let rest = without(fields, i);
    assert forall|k: int| 0 <= k < rest.len() implies (#[trigger] rest[k]).1.wf() by {
        let x = if k == i { fields.len() - 1 } else { k };
        assert(rest[k] == fields[x]);
    }
}

/// What an element has gathered: a map of child elements, or a piece of
/// text.
pub enum XmlPart {
    Elements(Fields),
    Text(Seq<char>),
}

/// The content of an element while it is read: the map that is open, and
/// before it the maps and texts that are done, in the order of the source.
pub struct XmlAcc {
    pub node: Fields,
    pub parts: Seq<XmlPart>,
}

/// The text of a string value; nothing for any other value.
pub open spec fn string_of(d: Doc) -> Seq<char> {
    match d {
        Doc::String(s) => s,
        _ => Seq::empty(),
    }
}

/// The map with the text as its `#text`, unless the text is white space
/// alone.
pub open spec fn with_text(map: Fields, text: Seq<char>) -> Fields {
    if trimmed(text).len() > 0 {
        put(map, "#text"@, Doc::String(trimmed(text)))
    } else {
        map
    }
}

/// The values of the first `n` parts: a map is an object, a text is a
/// string without the white space around it, and is left out if nothing
/// remains.
pub open spec fn part_values(parts: Seq<XmlPart>, n: nat) -> Seq<Doc>
    decreases n,
{
    if n == 0 || n > parts.len() {
        Seq::empty()
    } else {
        let rest = part_values(parts, (n - 1) as nat);
        match parts[n - 1] {
            XmlPart::Elements(map) => rest.push(Doc::Object(map)),
            XmlPart::Text(text) => if trimmed(text).len() == 0 {
                rest
            } else {
                rest.push(Doc::String(trimmed(text)))
            },
        }
    }
}

/// No value is null, one value is itself, several are an array.
pub open spec fn pack(values: Seq<Doc>) -> Doc {
    if values.len() == 0 {
        Doc::Null
    } else if values.len() == 1 {
        values[0]
    } else {
        Doc::Array(values)
    }
}

/// The value of an element with the given parts. One map, alone or with
/// one text, is an object, with the text as its `#text`. Anything else is
/// packed: texts alone are a string, maps and texts mixed are an array.
pub open spec fn finish_parts(parts: Seq<XmlPart>) -> Doc {
    if parts.len() == 1 && parts[0] is Elements {
        Doc::Object(parts[0]->Elements_0)
    } else if parts.len() == 2 && parts[0] is Elements && parts[1] is Text {
        Doc::Object(with_text(parts[0]->Elements_0, parts[1]->Text_0))
    } else if parts.len() == 2 && parts[0] is Text && parts[1] is Elements {
        Doc::Object(with_text(parts[1]->Elements_0, parts[0]->Text_0))
    } else {
        pack(part_values(parts, parts.len()))
    }
}

/// The fields with the first `n` attributes set, each under its name with
/// `@` before it.
pub open spec fn attr_fields(base: Fields, attrs: Seq<(Seq<char>, Seq<char>)>, n: nat) -> Fields
    decreases n,
{
    if n == 0 || n > attrs.len() {
        base
    } else {
        put(
            attr_fields(base, attrs, (n - 1) as nat),
            "@"@ + attrs[n - 1].0,
            Doc::String(attrs[n - 1].1),
        )
    }
}

/// The value of an element, given the value of its content and its
/// attributes. The attributes join the fields of an object. With any other
/// content they make an object of their own, which holds a string content
/// as its `#text` and drops any other content. Without attributes the
/// value is the content.
pub open spec fn element_value(content: Doc, attrs: Seq<(Seq<char>, Seq<char>)>) -> Doc {
    match content {
        Doc::Object(fields) => Doc::Object(attr_fields(fields, attrs, attrs.len())),
        _ => if attrs.len() == 0 {
            content
        } else if content is String {
            Doc::Object(put(attr_fields(Seq::empty(), attrs, attrs.len()), "#text"@, content))
        } else {
            Doc::Object(attr_fields(Seq::empty(), attrs, attrs.len()))
        },
    }
}

impl XmlAcc {
    /// Nothing gathered yet.
    pub open spec fn empty() -> XmlAcc {
        XmlAcc { node: Seq::empty(), parts: Seq::empty() }
    }

    /// The open map and the maps that are done are well formed.
    pub open spec fn wf(self) -> bool {
        &&& fields_wf(self.node)
        &&& forall|i: int|
            0 <= i < self.parts.len() && (#[trigger] self.parts[i]) is Elements ==> fields_wf(
                self.parts[i]->Elements_0,
            )
    }

    /// A field of the open map is set.
    pub open spec fn insert(self, key: Seq<char>, value: Doc) -> XmlAcc {
        XmlAcc { node: put(self.node, key, value), ..self }
    }

    /// A character data section is added to the `#cdata` of the open map.
    pub open spec fn cdata(self, text: Seq<char>) -> XmlAcc {
        let value = match position(self.node, "#cdata"@, self.node.len()) {
            Some(i) => string_of(self.node[i].1) + text,
            None => text,
        };
        self.insert("#cdata"@, Doc::String(value))
    }

    /// A piece of text is added. While no map is open it continues the text
    /// before it. After child elements it closes their map, unless it is
    /// white space alone: then it is dropped.
    pub open spec fn text(self, text: Seq<char>) -> XmlAcc {
        if self.node.len() == 0 {
            if self.parts.len() > 0 && self.parts.last() is Text {
                XmlAcc {
                    parts: self.parts.update(
                        self.parts.len() - 1,
                        XmlPart::Text(self.parts.last()->Text_0 + text),
                    ),
                    ..self
                }
            } else {
                XmlAcc { parts: self.parts.push(XmlPart::Text(text)), ..self }
            }
        } else if trimmed(text).len() == 0 {
            self
        } else {
            XmlAcc {
                node: Seq::empty(),
                parts: self.parts.push(XmlPart::Elements(self.node)).push(XmlPart::Text(text)),
            }
        }
    }

    /// A child element is added to the open map. A second element of one
    /// name makes an array of the two; a further one joins the array. The
    /// array takes the place at the end of the map.
    pub open spec fn child(self, name: Seq<char>, value: Doc) -> XmlAcc {
        match position(self.node, name, self.node.len()) {
            Some(i) => {
                let existing = self.node[i].1;
                let ents = match existing {
                    Doc::Array(items) => items,
                    _ => seq![existing],
                };
                XmlAcc {
                    node: put(without(self.node, i), name, Doc::Array(ents.push(value))),
                    ..self
                }
            },
            None => self.insert(name, value),
        }
    }

    /// The value of the element.
    pub open spec fn finish(self) -> Doc {
        finish_parts(
            if self.node.len() > 0 {
                self.parts.push(XmlPart::Elements(self.node))
            } else {
                self.parts
            },
        )
    }
}

/// A map of child elements, or a piece of text.
#[derive(Debug, PartialEq, Eq)]
pub enum Part {
    Elements(Vec<(String, Node)>),
    Text(String),
}

impl Part {
    /// The mathematical model of the value.
    pub open spec fn view(&self) -> XmlPart {
        match self {
            Part::Elements(map) => XmlPart::Elements(fields_view(map@)),
            Part::Text(text) => XmlPart::Text(text@),
        }
    }
}

/// The models of the parts of an element.
pub open spec fn parts_view(parts: Seq<Part>) -> Seq<XmlPart> {
    Seq::new(parts.len(), |i: int| parts[i]@)
}

/// The content of an element while it is read.
#[derive(Debug, PartialEq, Eq)]
pub struct NodeValues {
    pub node: Vec<(String, Node)>,
    pub parts: Vec<Part>,
}

/// The object of the given fields.
pub fn object(fields: Vec<(String, Node)>) -> (r: Node)
    ensures
        r@ == Doc::Object(fields_view(fields@)),
{
    proof {
        lemma_view_object(fields);
        assert(crate::doc::fields_of(fields@) =~= fields_view(fields@));
    }
    Node::Object(fields)
}

/// The map with the text as its `#text`, unless the text is white space
/// alone.
pub fn insert_text_node(map: &mut Vec<(String, Node)>, text: &str)
    ensures
        fields_view(final(map)@) == with_text(fields_view(old(map)@), text@),
{
    let inner = trim(text);
    if !inner.is_empty() {
        insert_field(map, String::from_str("#text"), Node::String(String::from_str(inner)));
    }
}

impl NodeValues {
    /// The mathematical model of the value.
    pub open spec fn view(&self) -> XmlAcc {
        XmlAcc { node: fields_view(self.node@), parts: parts_view(self.parts@) }
    }

    /// Nothing gathered yet.
    pub fn new() -> (r: NodeValues)
        ensures
            r@ == XmlAcc::empty(),
    {
        let r = NodeValues { node: Vec::new(), parts: Vec::new() };
        assert(fields_view(r.node@) =~= Seq::empty());
        assert(parts_view(r.parts@) =~= Seq::empty());
        r
    }

    /// Sets a field of the open map.
    pub fn insert(&mut self, key: String, value: Node)
        ensures
            final(self)@ == old(self)@.insert(key@, value@),
    {
        insert_field(&mut self.node, key, value);
    }

    /// Adds a character data section.
    pub fn insert_cdata(&mut self, value: &str)
        ensures
            final(self)@ == old(self)@.cdata(value@),
    {
        let ghost before = fields_view(self.node@);
        let new_value = match find_field(&self.node, "#cdata") {
            Some(i) => {
                proof {
                    lemma_position(before, "#cdata"@, before.len());
                }
                let old_value = match &self.node[i].1 {
                    Node::String(s) => s.clone(),
                    _ => String::new(),
                };
                assert(old_value@ =~= string_of(before[i as int].1));
                old_value.concat(value)
            },
            None => String::from_str(value),
        };
        insert_field(&mut self.node, String::from_str("#cdata"), Node::String(new_value));
    }

    /// Adds a piece of text.
    pub fn insert_text(&mut self, text: &str)
        ensures
            final(self)@ == old(self)@.text(text@),
    {
        let ghost before = self@;
        if self.node.len() == 0 {
            let n = self.parts.len();
            if n > 0 {
                match self.parts.pop() {
                    Some(Part::Text(previous)) => {
                        self.parts.push(Part::Text(previous.concat(text)));
                        assert(parts_view(self.parts@) =~= before.parts.update(
                            before.parts.len() - 1,
                            XmlPart::Text(before.parts.last()->Text_0 + text@),
                        ));
                        return ;
                    },
                    Some(part) => {
                        self.parts.push(part);
                        assert(parts_view(self.parts@) =~= before.parts);
                    },
                    None => {},
                }
            }
        } else {
            if trim(text).is_empty() {
                return ;
            }
            let mut node: Vec<(String, Node)> = Vec::new();
            core::mem::swap(&mut self.node, &mut node);
            self.parts.push(Part::Elements(node));
            assert(fields_view(self.node@) =~= Seq::empty());
        }
        self.parts.push(Part::Text(String::from_str(text)));
        proof {
            if before.node.len() == 0 {
                assert(parts_view(self.parts@) =~= before.parts.push(XmlPart::Text(text@)));
            } else {
                assert(parts_view(self.parts@) =~= before.parts.push(
                    XmlPart::Elements(before.node),
                ).push(XmlPart::Text(text@)));
            }
        }
    }

    /// Takes a field out of the open map.
    pub fn remove_entry(&mut self, key: &str) -> (r: Option<Node>)
        ensures
            match position(old(self)@.node, key@, old(self)@.node.len()) {
                Some(i) => r is Some && r->0@ == old(self)@.node[i].1 && final(self)@ == (XmlAcc {
                    node: without(old(self)@.node, i),
                    ..old(self)@
                }),
                None => r is None && final(self)@ == old(self)@,
            },
    {
        remove_field(&mut self.node, key)
    }

    /// Adds a child element.
    pub fn insert_child(&mut self, name: String, value: Node)
        ensures
            final(self)@ == old(self)@.child(name@, value@),
    {
        let ghost before = self@;
        match self.remove_entry(name.as_str()) {
            Some(existing) => {
                let ghost found = position(before.node, name@, before.node.len())->0;
                let mut ents: Vec<Node> = match existing {
                    Node::Array(items) => {
                        proof {
                            lemma_view_array(items);
                        }
                        items
                    },
                    other => {
                        let mut single: Vec<Node> = Vec::new();
                        single.push(other);
                        assert(crate::doc::docs_of(single@) =~= seq![before.node[found].1]);
                        single
                    },
                };
                let ghost items = crate::doc::docs_of(ents@);
                ents.push(value);
                proof {
                    lemma_view_array(ents);
                    assert(crate::doc::docs_of(ents@) =~= items.push(value@));
                }
                self.insert(name, Node::Array(ents));
            },
            None => {
                self.insert(name, value);
            },
        }
    }

    /// The value of the element.
    pub fn get_value(self) -> (r: Node)
        ensures
            r@ == self@.finish(),
    {
        let NodeValues { node, mut parts } = self;
        let ghost before = parts_view(parts@);
        if node.len() > 0 {
            parts.push(Part::Elements(node));
            assert(parts_view(parts@) =~= before.push(XmlPart::Elements(fields_view(node@))));
        } else {
            assert(fields_view(node@).len() == 0);
        }
        let ghost all = parts_view(parts@);
        let n = parts.len();
        if n == 1 {
            match &parts[0] {
                Part::Elements(map) => {
                    return object(clone_fields(map));
                },
                _ => {},
            }
        } else if n == 2 {
            match (&parts[0], &parts[1]) {
                (Part::Elements(map), Part::Text(text)) => {
                    let mut map = clone_fields(map);
                    insert_text_node(&mut map, text.as_str());
                    return object(map);
                },
                (Part::Text(text), Part::Elements(map)) => {
                    let mut map = clone_fields(map);
                    insert_text_node(&mut map, text.as_str());
                    return object(map);
                },
                _ => {},
            }
        }
        let mut values: Vec<Node> = Vec::new();
        let mut i: usize = 0;
        assert(crate::doc::docs_of(values@) =~= Seq::<Doc>::empty());
        while i < parts.len()
            invariant
                i <= parts.len(),
                all == parts_view(parts@),
                crate::doc::docs_of(values@) == part_values(all, i as nat),
            decreases parts.len() - i,
        {
            let ghost done = crate::doc::docs_of(values@);
            match &parts[i] {
                Part::Elements(map) => {
                    let value = object(clone_fields(map));
                    values.push(value);
                    assert(crate::doc::docs_of(values@) =~= done.push(value@));
                },
                Part::Text(text) => {
                    let inner = trim(text.as_str());
                    if !inner.is_empty() {
                        values.push(Node::String(String::from_str(inner)));
                        assert(crate::doc::docs_of(values@) =~= done.push(Doc::String(inner@)));
                    }
                },
            }
            i += 1;
        }
        let ghost docs = crate::doc::docs_of(values@);
        if values.len() == 0 {
            Node::Null
        } else if values.len() == 1 {
            match values.pop() {
                Some(value) => value,
                None => Node::Null,
            }
        } else {
            proof {
                lemma_view_array(values);
            }
            Node::Array(values)
        }
    }
}

/// A copy of the fields of a map.
pub fn clone_fields(fields: &Vec<(String, Node)>) -> (r: Vec<(String, Node)>)
    ensures
        fields_view(r@) == fields_view(fields@),
{
    let mut out: Vec<(String, Node)> = Vec::new();
    let mut i: usize = 0;
    while i < fields.len()
        invariant
            i <= fields.len(),
            out@.len() == i,
            forall|k: int|
                0 <= k < i ==> (#[trigger] out@[k]).0@ == fields@[k].0@ && out@[k].1@
                    == fields@[k].1@,
        decreases fields.len() - i,
    {
        let value = fields[i].1.clone();
        out.push((fields[i].0.clone(), value));
        i += 1;
    }
    assert(fields_view(out@) =~= fields_view(fields@));
    out
}

/// One event of an XML text, in plain values.
#[derive(Debug, PartialEq, Eq)]
pub enum XmlEvent {
    /// A start tag: its name, and its attributes or why they could not be
    /// read.
    Start(String, Result<Vec<(String, String)>, String>),
    /// An end tag.
    End,
    /// Character data.
    Text(String),
    /// A character data section.
    CData(String),
    /// A reference to a character by its number.
    CharRef(char),
    /// A reference to an entity by its name.
    EntityRef(String),
    /// A comment, a declaration or the like.
    Other,
    /// The end of the text.
    Eof,
    /// The text could not be read on: the message of the error.
    Failed(String),
}

/// The mathematical model of an event.
pub enum XmlItem {
    Start(Seq<char>, Result<Seq<(Seq<char>, Seq<char>)>, Seq<char>>),
    End,
    Text(Seq<char>),
    CData(Seq<char>),
    CharRef(char),
    EntityRef(Seq<char>),
    Other,
    Eof,
    Failed(Seq<char>),
}

/// The models of a list of attributes.
pub open spec fn attrs_view(attrs: Seq<(String, String)>) -> Seq<(Seq<char>, Seq<char>)> {
    Seq::new(attrs.len(), |i: int| (attrs[i].0@, attrs[i].1@))
}

impl XmlEvent {
    /// The mathematical model of the value.
    pub open spec fn view(&self) -> XmlItem {
        match self {
            XmlEvent::Start(name, attrs) => XmlItem::Start(
                name@,
                match attrs {
                    Ok(list) => Ok(attrs_view(list@)),
                    Err(e) => Err(e@),
                },
            ),
            XmlEvent::End => XmlItem::End,
            XmlEvent::Text(t) => XmlItem::Text(t@),
            XmlEvent::CData(t) => XmlItem::CData(t@),
            XmlEvent::CharRef(c) => XmlItem::CharRef(*c),
            XmlEvent::EntityRef(name) => XmlItem::EntityRef(name@),
            XmlEvent::Other => XmlItem::Other,
            XmlEvent::Eof => XmlItem::Eof,
            XmlEvent::Failed(e) => XmlItem::Failed(e@),
        }
    }
}

/// The models of a list of events.
pub open spec fn items_of(events: Seq<XmlEvent>) -> Seq<XmlItem> {
    Seq::new(events.len(), |i: int| events[i]@)
}

/// The text of a predefined entity of XML.
pub open spec fn predefined_entity(name: Seq<char>) -> Option<Seq<char>> {
    if name == "lt"@ {
        Some("<"@)
    } else if name == "gt"@ {
        Some(">"@)
    } else if name == "amp"@ {
        Some("&"@)
    } else if name == "apos"@ {
        Some("'"@)
    } else if name == "quot"@ {
        Some("\""@)
    } else {
        None
    }
}

/// `quick_xml::escape::resolve_predefined_entity`: the text of the five
/// predefined entities of XML, and nothing for any other name.
#[verifier::external_body]
fn resolve_entity(name: &str) -> (r: Option<&'static str>)
    ensures
        match r {
            Some(text) => predefined_entity(name@) == Some(text@),
            None => predefined_entity(name@) is None,
        },
{
    quick_xml::escape::resolve_predefined_entity(name)
}

/// The content of an element, read from the item at `pos` on, on top of
/// what `acc` has gathered: its value or the first error, and the position
/// behind the item that ended it. An end tag or the end of the text ends
/// the element. A start tag begins a child element, which is read first;
/// its attributes are looked at after that. A reference to a character is
/// text; so is one to a predefined entity; one to another entity is
/// dropped.
pub open spec fn xml_content(items: Seq<XmlItem>, pos: nat, acc: XmlAcc) -> (
    Result<Doc, Seq<char>>,
    nat,
)
    decreases items.len() - pos,
{
    if pos >= items.len() {
        (Ok(acc.finish()), pos)
    } else {
        match items[pos as int] {
            XmlItem::Start(name, attrs) => {
                let (content, next) = xml_content(items, pos + 1, XmlAcc::empty());
                match (content, attrs) {
                    (Err(e), _) => (Err(e), next),
                    (Ok(_), Err(e)) => (Err(e), next),
                    (Ok(value), Ok(list)) => if pos < next <= items.len() {
                        xml_content(items, next, acc.child(name, element_value(value, list)))
                    } else {
                        (Ok(acc.finish()), next)
                    },
                }
            },
            XmlItem::End => (Ok(acc.finish()), pos + 1),
            XmlItem::Eof => (Ok(acc.finish()), pos + 1),
            XmlItem::Text(text) => xml_content(items, pos + 1, acc.text(text)),
            XmlItem::CData(text) => xml_content(items, pos + 1, acc.cdata(text)),
            XmlItem::CharRef(c) => xml_content(items, pos + 1, acc.text(seq![c])),
            XmlItem::EntityRef(name) => xml_content(
                items,
                pos + 1,
                match predefined_entity(name) {
                    Some(text) => acc.text(text),
                    None => acc,
                },
            ),
            XmlItem::Other => xml_content(items, pos + 1, acc),
            XmlItem::Failed(e) => (Err(e), pos + 1),
        }
    }
}

/// The content of an element ends behind where it began.
pub proof fn lemma_xml_content_advances(items: Seq<XmlItem>, pos: nat, acc: XmlAcc)
    ensures
        pos < items.len() ==> pos < xml_content(items, pos, acc).1 <= items.len(),
        pos >= items.len() ==> xml_content(items, pos, acc).1 == pos,
    decreases items.len() - pos,
{
    if pos < items.len() {
        match items[pos as int] {
            XmlItem::Start(name, attrs) => {
                lemma_xml_content_advances(items, pos + 1, XmlAcc::empty());
                let (content, next) = xml_content(items, pos + 1, XmlAcc::empty());
                match (content, attrs) {
                    (Ok(value), Ok(list)) => {
                        lemma_xml_content_advances(
                            items,
                            next,
                            acc.child(name, element_value(value, list)),
                        );
                    },
                    _ => {},
                }
            },
            XmlItem::Text(text) => lemma_xml_content_advances(items, pos + 1, acc.text(text)),
            XmlItem::CData(text) => lemma_xml_content_advances(items, pos + 1, acc.cdata(text)),
            XmlItem::CharRef(c) => lemma_xml_content_advances(items, pos + 1, acc.text(seq![c])),
            XmlItem::EntityRef(name) => lemma_xml_content_advances(
                items,
                pos + 1,
                match predefined_entity(name) {
                    Some(text) => acc.text(text),
                    None => acc,
                },
            ),
            XmlItem::Other => lemma_xml_content_advances(items, pos + 1, acc),
            _ => {},
        }
    }
}

/// Sets the attributes as fields, each under its name with `@` before it.
pub fn insert_attrs(map: &mut Vec<(String, Node)>, attrs: &Vec<(String, String)>)
    ensures
        fields_view(final(map)@) == attr_fields(
            fields_view(old(map)@),
            attrs_view(attrs@),
            attrs@.len(),
        ),
{
    let ghost base = fields_view(map@);
    let ghost list = attrs_view(attrs@);
    let mut i: usize = 0;
    while i < attrs.len()
        invariant
            i <= attrs.len(),
            list == attrs_view(attrs@),
            fields_view(map@) == attr_fields(base, list, i as nat),
        decreases attrs.len() - i,
    {
        let key = String::from_str("@").concat(attrs[i].0.as_str());
        insert_field(map, key, Node::String(attrs[i].1.clone()));
        i += 1;
    }
}

/// The value of an element, given the value of its content and its
/// attributes.
pub fn element(content: Node, attrs: &Vec<(String, String)>) -> (r: Node)
    ensures
        r@ == element_value(content@, attrs_view(attrs@)),
{
    match content {
        Node::Object(mut fields) => {
            proof {
                lemma_view_object(fields);
                assert(crate::doc::fields_of(fields@) =~= fields_view(fields@));
            }
            insert_attrs(&mut fields, attrs);
            object(fields)
        },
        other => {
            if attrs.len() == 0 {
                return other;
            }
            let mut extra: Vec<(String, Node)> = Vec::new();
            assert(fields_view(extra@) =~= Seq::empty());
            insert_attrs(&mut extra, attrs);
            match other {
                Node::String(text) => {
                    insert_field(&mut extra, String::from_str("#text"), Node::String(text));
                },
                _ => {},
            }
            object(extra)
        },
    }
}

/// Reads the content of an element from the event at `pos` on.
pub fn read(events: &Vec<XmlEvent>, pos: usize) -> (r: (Result<Node, String>, usize))
    ensures
        match r.0 {
            Ok(node) => xml_content(items_of(events@), pos as nat, XmlAcc::empty()).0 == Ok::<
                Doc,
                Seq<char>,
            >(node@),
            Err(e) => xml_content(items_of(events@), pos as nat, XmlAcc::empty()).0 == Err::<
                Doc,
                Seq<char>,
            >(e@),
        },
        r.1 == xml_content(items_of(events@), pos as nat, XmlAcc::empty()).1,
        pos <= events@.len() ==> pos <= r.1 <= events@.len(),
    decreases events@.len() - pos,
{
    let ghost items = items_of(events@);
    let ghost goal = xml_content(items, pos as nat, XmlAcc::empty());
    proof {
        lemma_xml_content_advances(items, pos as nat, XmlAcc::empty());
    }
    let mut nodes = NodeValues::new();
    let mut at = pos;
    while at < events.len()
        invariant
            pos <= at,
            pos <= events@.len() ==> at <= events@.len(),
            items == items_of(events@),
            goal == xml_content(items, pos as nat, XmlAcc::empty()),
            xml_content(items, at as nat, nodes@) == goal,
        decreases events@.len() - at,
    {
        let ghost acc = nodes@;
        assert(items[at as int] == events@[at as int]@);
        match &events[at] {
            XmlEvent::Start(name, attrs) => {
                proof {
                    lemma_xml_content_advances(items, (at + 1) as nat, XmlAcc::empty());
                }
                let (content, next) = read(events, at + 1);
                let child = match content {
                    Ok(child) => child,
                    Err(e) => {
                        return (Err(e), next);
                    },
                };
                let list = match attrs {
                    Ok(list) => list,
                    Err(e) => {
                        return (Err(e.clone()), next);
                    },
                };
                nodes.insert_child(name.clone(), element(child, list));
                at = next;
            },
            XmlEvent::End => {
                return (Ok(nodes.get_value()), at + 1);
            },
            XmlEvent::Eof => {
                return (Ok(nodes.get_value()), at + 1);
            },
            XmlEvent::Text(text) => {
                nodes.insert_text(text.as_str());
                at += 1;
            },
            XmlEvent::CData(text) => {
                nodes.insert_cdata(text.as_str());
                at += 1;
            },
            XmlEvent::CharRef(c) => {
                nodes.insert_text(char_text(*c).as_str());
                at += 1;
            },
            XmlEvent::EntityRef(name) => {
                match resolve_entity(name.as_str()) {
                    Some(text) => {
                        nodes.insert_text(text);
                    },
                    None => {},
                }
                at += 1;
            },
            XmlEvent::Other => {
                at += 1;
            },
            XmlEvent::Failed(e) => {
                return (Err(e.clone()), at + 1);
            },
        }
    }
    (Ok(nodes.get_value()), at)
}

/// Setting attributes keeps the fields well formed.
pub proof fn lemma_attr_fields_wf(base: Fields, attrs: Seq<(Seq<char>, Seq<char>)>, n: nat)
    requires
        fields_wf(base),
    ensures
        fields_wf(attr_fields(base, attrs, n)),
    decreases n,
{
    if n > 0 && n <= attrs.len() {
        lemma_attr_fields_wf(base, attrs, (n - 1) as nat);
        lemma_put_wf(
            attr_fields(base, attrs, (n - 1) as nat),
            "@"@ + attrs[n - 1].0,
            Doc::String(attrs[n - 1].1),
        );
    }
}

/// The value of an element is well formed if its content is.
pub proof fn lemma_element_value_wf(content: Doc, attrs: Seq<(Seq<char>, Seq<char>)>)
    requires
        content.wf(),
    ensures
        element_value(content, attrs).wf(),
{
    match content {
        Doc::Object(fields) => {
            lemma_attr_fields_wf(fields, attrs, attrs.len());
        },
        _ => {
            let extra = attr_fields(Seq::empty(), attrs, attrs.len());
            lemma_attr_fields_wf(Seq::empty(), attrs, attrs.len());
            if content is String {
                lemma_put_wf(extra, "#text"@, content);
            }
        },
    }
}

/// The values of well-formed parts are well formed.
pub proof fn lemma_part_values_wf(parts: Seq<XmlPart>, n: nat)
    requires
        forall|i: int|
            0 <= i < parts.len() && (#[trigger] parts[i]) is Elements ==> fields_wf(
                parts[i]->Elements_0,
            ),
    ensures
        forall|i: int|
            0 <= i < part_values(parts, n).len() ==> (#[trigger] part_values(parts, n)[i]).wf(),
    decreases n,
{
    if n > 0 && n <= parts.len() {
        lemma_part_values_wf(parts, (n - 1) as nat);
        let rest = part_values(parts, (n - 1) as nat);
        match parts[n - 1] {
            XmlPart::Elements(map) => {
                assert(fields_wf(map));
                assert(Doc::Object(map).wf());
            },
            XmlPart::Text(_) => {},
        }
    }
}

impl XmlAcc {
    /// Adding text keeps the content well formed.
    pub proof fn lemma_text_wf(self, text: Seq<char>)
        requires
            self.wf(),
        ensures
            self.text(text).wf(),
    {
        let after = self.text(text);
        assert forall|i: int| 0 <= i < after.parts.len() && (#[trigger] after.parts[i]) is Elements implies fields_wf(
            after.parts[i]->Elements_0,
        ) by {
            if i < self.parts.len() {
                if after.parts[i] != self.parts[i] {
                } else {
                    assert(self.parts[i] is Elements);
                }
            }
        }
    }

    /// Adding character data keeps the content well formed.
    pub proof fn lemma_cdata_wf(self, text: Seq<char>)
        requires
            self.wf(),
        ensures
            self.cdata(text).wf(),
    {
        let value = match position(self.node, "#cdata"@, self.node.len()) {
            Some(i) => string_of(self.node[i].1) + text,
            None => text,
        };
        lemma_put_wf(self.node, "#cdata"@, Doc::String(value));
    }

    /// Adding a well-formed child keeps the content well formed.
    pub proof fn lemma_child_wf(self, name: Seq<char>, value: Doc)
        requires
            self.wf(),
            value.wf(),
        ensures
            self.child(name, value).wf(),
    {
        lemma_position(self.node, name, self.node.len());
        match position(self.node, name, self.node.len()) {
            Some(i) => {
                let existing = self.node[i].1;
                assert(existing.wf());
                let ents = match existing {
                    Doc::Array(items) => items,
                    _ => seq![existing],
                };
                let all = ents.push(value);
                assert forall|k: int| 0 <= k < all.len() implies (#[trigger] all[k]).wf() by {
                    if k < ents.len() {
                        match existing {
                            Doc::Array(items) => {
                                assert(items[k].wf());
                            },
                            _ => {},
                        }
                    }
                }
                assert(Doc::Array(all).wf());
                lemma_without_wf(self.node, i);
                lemma_put_wf(without(self.node, i), name, Doc::Array(all));
            },
            None => {
                lemma_put_wf(self.node, name, value);
            },
        }
    }

    /// The value of well-formed content is well formed.
    pub proof fn lemma_finish_wf(self)
        requires
            self.wf(),
        ensures
            self.finish().wf(),
    {
        let parts = if self.node.len() > 0 {
            self.parts.push(XmlPart::Elements(self.node))
        } else {
            self.parts
        };
        assert forall|i: int| 0 <= i < parts.len() && (#[trigger] parts[i]) is Elements implies fields_wf(
            parts[i]->Elements_0,
        ) by {
            if i < self.parts.len() {
                assert(self.parts[i] is Elements);
            }
        }
        lemma_part_values_wf(parts, parts.len());
        if parts.len() == 1 && parts[0] is Elements {
            assert(fields_wf(parts[0]->Elements_0));
        } else if parts.len() == 2 && parts[0] is Elements && parts[1] is Text {
            assert(fields_wf(parts[0]->Elements_0));
            lemma_put_wf(parts[0]->Elements_0, "#text"@, Doc::String(trimmed(parts[1]->Text_0)));
        } else if parts.len() == 2 && parts[0] is Text && parts[1] is Elements {
            assert(fields_wf(parts[1]->Elements_0));
            lemma_put_wf(parts[1]->Elements_0, "#text"@, Doc::String(trimmed(parts[0]->Text_0)));
        } else {
            let values = part_values(parts, parts.len());
            if values.len() == 1 {
                assert(values[0].wf());
            }
        }
    }
}

/// The value that is read from a list of events is well formed.
pub proof fn lemma_xml_content_wf(items: Seq<XmlItem>, pos: nat, acc: XmlAcc)
    requires
        acc.wf(),
    ensures
        xml_content(items, pos, acc).0 matches Ok(d) ==> d.wf(),
    decreases items.len() - pos,
{
    if pos >= items.len() {
        acc.lemma_finish_wf();
    } else {
        match items[pos as int] {
            XmlItem::Start(name, attrs) => {
                lemma_xml_content_wf(items, pos + 1, XmlAcc::empty());
                let (content, next) = xml_content(items, pos + 1, XmlAcc::empty());
                match (content, attrs) {
                    (Ok(value), Ok(list)) => {
                        if pos < next <= items.len() {
                            lemma_element_value_wf(value, list);
                            acc.lemma_child_wf(name, element_value(value, list));
                            lemma_xml_content_wf(
                                items,
                                next,
                                acc.child(name, element_value(value, list)),
                            );
                        } else {
                            acc.lemma_finish_wf();
                        }
                    },
                    _ => {},
                }
            },
            XmlItem::End => acc.lemma_finish_wf(),
            XmlItem::Eof => acc.lemma_finish_wf(),
            XmlItem::Text(text) => {
                acc.lemma_text_wf(text);
                lemma_xml_content_wf(items, pos + 1, acc.text(text));
            },
            XmlItem::CData(text) => {
                acc.lemma_cdata_wf(text);
                lemma_xml_content_wf(items, pos + 1, acc.cdata(text));
            },
            XmlItem::CharRef(c) => {
                acc.lemma_text_wf(seq![c]);
                lemma_xml_content_wf(items, pos + 1, acc.text(seq![c]));
            },
            XmlItem::EntityRef(name) => {
                match predefined_entity(name) {
                    Some(text) => {
                        acc.lemma_text_wf(text);
                        lemma_xml_content_wf(items, pos + 1, acc.text(text));
                    },
                    None => {
                        lemma_xml_content_wf(items, pos + 1, acc);
                    },
                }
            },
            XmlItem::Other => lemma_xml_content_wf(items, pos + 1, acc),
            XmlItem::Failed(_) => {},
        }
    }
}

} // verus!
