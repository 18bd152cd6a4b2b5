//! What a watched file hands over to the screen.

use vstd::prelude::*;
use vstd::string::*;

use crate::parse::ContentType;
use crate::tree::{located, renderable, top_entries, top_shapes, Tree, TreeError};

verus! {

/// The message for a document that cannot be shown.
pub const NOT_RENDERABLE: &'static str =
    "the document holds a value that cannot be shown in its format";

/// The content of a file that has changed, and the error of the last
/// attempt to show it. Each is handed out once.
#[derive(Debug, PartialEq, Eq)]
pub struct Data {
    pub data: Option<String>,
    pub err: Option<String>,
}

impl Data {
    /// Nothing has come in.
    pub fn new() -> (r: Data)
        ensures
            r.data is None,
            r.err is None,
    {
        Data { data: None, err: None }
    }

    /// Takes the content out.
    pub fn get_data(&mut self) -> (r: Option<String>)
        ensures
            r == old(self).data,
            final(self).data is None,
            final(self).err == old(self).err,
    {
        let mut taken: Option<String> = None;
        core::mem::swap(&mut self.data, &mut taken);
        taken
    }

    /// Takes the error out.
    pub fn get_err(&mut self) -> (r: Option<String>)
        ensures
            r == old(self).err,
            final(self).err is None,
            final(self).data == old(self).data,
    {
        let mut taken: Option<String> = None;
        core::mem::swap(&mut self.err, &mut taken);
        taken
    }

    /// New content has come in.
    pub fn set_data(&mut self, data: String)
        ensures
            final(self).data == Some(data),
            final(self).err == old(self).err,
    {
        self.data = Some(data);
    }

    /// An attempt to show the content has failed.
    pub fn set_err(&mut self, err: String)
        ensures
            final(self).err == Some(err),
            final(self).data == old(self).data,
    {
        self.err = Some(err);
    }

    /// Makes the tree of the content that has come in, if any. The content
    /// is taken out. Content above the limit, or content that gives no
    /// tree, leaves an error behind.
    pub fn parse_tree(&mut self, content_type: ContentType, max_data_size: usize) -> (r: Option<Tree>)
        ensures
            final(self).data is None,
            match old(self).data {
                None => r is None && final(self).err == old(self).err,
                Some(text) => if vstd::utf8::encode_utf8(text@).len() > max_data_size {
                    r is None && final(self).err is Some && final(self).err->0@
                        == "file size exceeds the limit"@
                } else {
                    match located(content_type, vstd::utf8::encode_utf8(text@)) {
                        Ok((format, d)) => if renderable(format, d) {
                            &&& r is Some
                            &&& r->0.format() == format
                            &&& r->0.entries() == top_entries(format, d)
                            &&& r->0.shapes() == top_shapes(d)
                            &&& final(self).err == old(self).err
                        } else {
                            r is None && final(self).err is Some && final(self).err->0@
                                == NOT_RENDERABLE@
                        },
                        Err(e) => r is None && final(self).err is Some && final(self).err->0@
                            == crate::parse::fault_message(e),
                    }
                },
            },
    {
        let new_data = match self.get_data() {
            Some(text) => text,
            None => {
                return None;
            },
        };
        let bytes = new_data.as_str().as_bytes();
        if bytes.len() > max_data_size {
            self.set_err(String::from_str("file size exceeds the limit"));
            return None;
        }
        match Tree::parse(bytes, content_type) {
            Ok(tree) => Some(tree),
            Err(e) => {
                self.set_err(e.message());
                None
            },
        }
    }
}

impl TreeError {
    /// The message of the error.
    pub fn message(&self) -> (r: String)
        ensures
            r@ == (match self {
                TreeError::Parse(e) => crate::parse::fault_message(e@),
                TreeError::NotRenderable => NOT_RENDERABLE@,
            }),
    {
        match self {
            TreeError::Parse(e) => e.message(),
            TreeError::NotRenderable => String::from_str(NOT_RENDERABLE),
        }
    }
}

} // verus!
