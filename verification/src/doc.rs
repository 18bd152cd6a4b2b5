//! The format-agnostic document value and its mathematical model.

use vstd::prelude::*;

use crate::parse::syntax::str_eq;

verus! {

/// The mathematical model of a document value.
///
/// Numbers keep the decimal text they were read with. Objects are ordered
/// lists of fields: the order is that of the source.
pub enum Doc {
    Null,
    Bool(bool),
    Number(Seq<char>),
    String(Seq<char>),
    Array(Seq<Doc>),
    Object(Seq<(Seq<char>, Doc)>),
}

/// A parsed document value.
#[derive(Debug, PartialEq, Eq)]
pub enum Node {
    Null,
    Bool(bool),
    Number(String),
    String(String),
    Array(Vec<Node>),
    Object(Vec<(String, Node)>),
}

/// The models of a sequence of values.
pub open spec fn docs_of(items: Seq<Node>) -> Seq<Doc> {
    Seq::new(items.len(), |i: int| items[i].view())
}

/// The models of a sequence of fields.
pub open spec fn fields_of(fields: Seq<(String, Node)>) -> Seq<(Seq<char>, Doc)> {
    Seq::new(fields.len(), |i: int| (fields[i].0@, fields[i].1.view()))
}

impl Node {
    /// The mathematical model of the value.
    pub open spec fn view(&self) -> Doc
        decreases self,
    {
        match self {
            Node::Null => Doc::Null,
            Node::Bool(b) => Doc::Bool(*b),
            Node::Number(n) => Doc::Number(n@),
            Node::String(s) => Doc::String(s@),
            Node::Array(items) => Doc::Array(
                Seq::new(
                    items@.len(),
                    |i: int|
                        if 0 <= i < items@.len() {
                            items@[i].view()
                        } else {
                            Doc::Null
                        },
                ),
            ),
            Node::Object(fields) => Doc::Object(
                Seq::new(
                    fields@.len(),
                    |i: int|
                        if 0 <= i < fields@.len() {
                            (fields@[i].0@, fields@[i].1.view())
                        } else {
                            (Seq::empty(), Doc::Null)
                        },
                ),
            ),
        }
    }
}

impl Clone for Node {
    /// A copy of the value.
    fn clone(&self) -> (r: Node)
        ensures
            r@ == self@,
        decreases self,
    {
        match self {
            Node::Null => Node::Null,
            Node::Bool(b) => Node::Bool(*b),
            Node::Number(n) => Node::Number(n.clone()),
            Node::String(s) => Node::String(s.clone()),
            Node::Array(items) => {
                let mut out: Vec<Node> = Vec::new();
                let mut i: usize = 0;
                while i < items.len()
                    invariant
                        i <= items.len(),
                        self is Array,
                        self->Array_0 == *items,
                        out@.len() == i,
                        forall|k: int| 0 <= k < i ==> (#[trigger] out@[k])@ == items@[k]@,
                    decreases items.len() - i,
                {
                    proof {
                        assert(decreases_to!(self => self->Array_0));
                        assert(decreases_to!(self->Array_0 => self->Array_0@));
                        assert(decreases_to!(self->Array_0@ => self->Array_0@[i as int]));
                    }
                    let item = items[i].clone();
                    out.push(item);
                    i += 1;
                }
                proof {
                    lemma_view_array(out);
                    lemma_view_array(*items);
                    assert(docs_of(out@) =~= docs_of(items@));
                }
                Node::Array(out)
            },
            Node::Object(fields) => {
                let mut out: Vec<(String, Node)> = Vec::new();
                let mut i: usize = 0;
                while i < fields.len()
                    invariant
                        i <= fields.len(),
                        self is Object,
                        self->Object_0 == *fields,
                        out@.len() == i,
                        forall|k: int|
                            0 <= k < i ==> (#[trigger] out@[k]).0@ == fields@[k].0@ && out@[k].1@
                                == fields@[k].1@,
                    decreases fields.len() - i,
                {
                    proof {
                        assert(decreases_to!(self => self->Object_0));
                        assert(decreases_to!(self->Object_0 => self->Object_0@));
                        assert(decreases_to!(self->Object_0@ => self->Object_0@[i as int]));
                        assert(decreases_to!(self->Object_0@[i as int] => self->Object_0@[i as int].1));
                    }
                    let value = fields[i].1.clone();
                    out.push((fields[i].0.clone(), value));
                    i += 1;
                }
                proof {
                    lemma_view_object(out);
                    lemma_view_object(*fields);
                    assert(fields_of(out@) =~= fields_of(fields@));
                }
                Node::Object(out)
            },
        }
    }
}

/// The view of an array is the sequence of the views of its items.
pub proof fn lemma_view_array(items: Vec<Node>)
    ensures
        Node::Array(items)@ == Doc::Array(docs_of(items@)),
{
    assert(Node::Array(items)@->Array_0 =~= docs_of(items@));
}

/// The view of an object is the sequence of the views of its fields.
pub proof fn lemma_view_object(fields: Vec<(String, Node)>)
    ensures
        Node::Object(fields)@ == Doc::Object(fields_of(fields@)),
{
    assert(Node::Object(fields)@->Object_0 =~= fields_of(fields@));
}

impl Doc {
    /// The field names of an object occur once each, at every level.
    pub open spec fn wf(self) -> bool
        decreases self,
    {
        match self {
            Doc::Array(items) => forall|i: int| 0 <= i < items.len() ==> (#[trigger] items[i]).wf(),
            Doc::Object(fields) => {
                &&& forall|i: int| 0 <= i < fields.len() ==> (#[trigger] fields[i]).1.wf()
                &&& keys_unique(fields)
            },
            _ => true,
        }
    }

    /// An object, or an array that holds a complex value.
    pub open spec fn is_complex(self) -> bool
        decreases self,
    {
        match self {
            Doc::Object(_) => true,
            Doc::Array(items) => exists|i: int| 0 <= i < items.len() && (#[trigger] items[i]).is_complex(),
            _ => false,
        }
    }
}

impl Doc {
    /// The two documents are the same but for the order of the fields of
    /// their objects: every field of the one has its like in the other.
    pub open spec fn same(self, other: Doc) -> bool
        decreases self,
    {
        match (self, other) {
            (Doc::Null, Doc::Null) => true,
            (Doc::Bool(a), Doc::Bool(b)) => a == b,
            (Doc::Number(a), Doc::Number(b)) => a == b,
            (Doc::String(a), Doc::String(b)) => a == b,
            (Doc::Array(a), Doc::Array(b)) => a.len() == b.len() && forall|i: int|
                0 <= i < a.len() ==> (#[trigger] a[i]).same(b[i]),
            (Doc::Object(a), Doc::Object(b)) => a.len() == b.len() && forall|i: int|
                0 <= i < a.len() ==> has_like(#[trigger] a[i], b, b.len()),
            _ => false,
        }
    }
}

/// Among the first `n` of `fields` there is one of the name of `field`
/// whose value is the same as its value.
pub open spec fn has_like(field: (Seq<char>, Doc), fields: Seq<(Seq<char>, Doc)>, n: nat) -> bool
    decreases field, n,
{
    if n == 0 || n > fields.len() {
        false
    } else {
        (fields[n - 1].0 == field.0 && field.1.same(fields[n - 1].1)) || has_like(
            field,
            fields,
            (n - 1) as nat,
        )
    }
}

impl Node {
    /// Whether two values are the same document, whatever the order of the
    /// fields of their objects.
    pub fn same_document(&self, other: &Node) -> (r: bool)
        ensures
            r == self@.same(other@),
        decreases self,
    {
        match (self, other) {
            (Node::Null, Node::Null) => true,
            (Node::Bool(a), Node::Bool(b)) => *a == *b,
            (Node::Number(a), Node::Number(b)) => str_eq(a.as_str(), b.as_str()),
            (Node::String(a), Node::String(b)) => str_eq(a.as_str(), b.as_str()),
            (Node::Array(a), Node::Array(b)) => {
                proof {
                    lemma_view_array(*a);
                    lemma_view_array(*b);
                }
                if a.len() != b.len() {
                    return false;
                }
                let mut i: usize = 0;
                while i < a.len()
                    invariant
                        i <= a.len(),
                        a.len() == b.len(),
                        self is Array,
                        self->Array_0 == *a,
                        self@ == Doc::Array(docs_of(a@)),
                        other@ == Doc::Array(docs_of(b@)),
                        forall|k: int| 0 <= k < i ==> (#[trigger] docs_of(a@)[k]).same(docs_of(b@)[k]),
                    decreases a.len() - i,
                {
                    proof {
                        assert(decreases_to!(self => self->Array_0));
                        assert(decreases_to!(self->Array_0 => self->Array_0@));
                        assert(decreases_to!(self->Array_0@ => self->Array_0@[i as int]));
                    }
                    if !a[i].same_document(&b[i]) {
                        assert(!docs_of(a@)[i as int].same(docs_of(b@)[i as int]));
                        return false;
                    }
                    i += 1;
                }
                true
            },
            (Node::Object(a), Node::Object(b)) => {
                proof {
                    lemma_view_object(*a);
                    lemma_view_object(*b);
                }
                if a.len() != b.len() {
                    return false;
                }
                let ghost fa = fields_of(a@);
                let ghost fb = fields_of(b@);
                let mut i: usize = 0;
                while i < a.len()
                    invariant
                        i <= a.len(),
                        a.len() == b.len(),
                        self is Object,
                        self->Object_0 == *a,
                        fa == fields_of(a@),
                        fb == fields_of(b@),
                        self@ == Doc::Object(fa),
                        other@ == Doc::Object(fb),
                        forall|k: int| 0 <= k < i ==> has_like(#[trigger] fa[k], fb, fb.len()),
                    decreases a.len() - i,
                {
                    let mut found = false;
                    let mut j: usize = 0;
                    while j < b.len()
                        invariant
                            j <= b.len(),
                            i < a.len(),
                            self is Object,
                            self->Object_0 == *a,
                            fa == fields_of(a@),
                            fb == fields_of(b@),
                            found == has_like(fa[i as int], fb, j as nat),
                        decreases b.len() - j,
                    {
                        proof {
                            assert(decreases_to!(self => self->Object_0));
                            assert(decreases_to!(self->Object_0 => self->Object_0@));
                            assert(decreases_to!(self->Object_0@ => self->Object_0@[i as int]));
                            assert(decreases_to!(self->Object_0@[i as int] => self->Object_0@[i as int].1));
                        }
                        if str_eq(b[j].0.as_str(), a[i].0.as_str()) && a[i].1.same_document(&b[j].1) {
                            found = true;
                        }
                        j += 1;
                    }
                    if !found {
                        assert(!has_like(fa[i as int], fb, fb.len()));
                        return false;
                    }
                    i += 1;
                }
                true
            },
            _ => false,
        }
    }
}

/// No two fields of the list have the same name.
pub open spec fn keys_unique(fields: Seq<(Seq<char>, Doc)>) -> bool {
    forall|i: int, j: int|
        0 <= i < j < fields.len() ==> (#[trigger] fields[i]).0 != (#[trigger] fields[j]).0
}

} // verus!
