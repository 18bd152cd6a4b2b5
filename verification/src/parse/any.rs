//! The parser that finds out the format by itself.

use vstd::prelude::*;

use crate::doc::{Doc, Node};
use crate::parse::syntax::{toks_of, SyntaxToken};
use crate::parse::xml::xml_ready;
use crate::parse::{detect_format, detected, outcome, ContentType, Fault, ParseError, Parser};

verus! {

/// A parser for content of an unknown format. The first content that it
/// reads settles the format, and from then on it is a parser of that format.
#[derive(Debug, Clone, Copy, PartialEq, Eq)]
pub struct AnyParser {
    inner: Option<ContentType>,
}

impl AnyParser {
    /// The format that has been settled on, if any.
    pub closed spec fn resolved(&self) -> Option<ContentType> {
        self.inner
    }

    /// The format that has been settled on is a concrete one.
    pub open spec fn wf(&self) -> bool {
        self.resolved() matches Some(format) ==> format.is_concrete()
    }

    /// A parser that has not settled on a format.
    pub fn new() -> (r: AnyParser)
        ensures
            r.resolved() is None,
            r.wf(),
    {
        AnyParser { inner: None }
    }

    /// Settles on a format.
    pub fn set_parser(&mut self, parser: ContentType)
        requires
            parser.is_concrete(),
        ensures
            final(self).resolved() == Some(parser),
            final(self).wf(),
    {
        self.inner = Some(parser);
    }

    /// The format that has been settled on.
    pub fn parser(&self) -> (r: Option<ContentType>)
        ensures
            r == self.resolved(),
    {
        self.inner
    }

    /// The file suffix of the format that has been settled on.
    pub fn extension(&self) -> (r: &'static str)
        requires
            self.wf(),
            self.resolved() is Some,
        ensures
            r@ == self.resolved()->0.extension_text(),
    {
        match self.inner {
            Some(format) => format.extension(),
            None => vstd::pervasive::unreached(),
        }
    }

    /// Whether the format that has been settled on allows an array as root.
    pub fn allow_array_root(&self) -> (r: bool)
        requires
            self.wf(),
            self.resolved() is Some,
        ensures
            r == self.resolved()->0.allows_array_root(),
    {
        match self.inner {
            Some(format) => format.allow_array_root(),
            None => vstd::pervasive::unreached(),
        }
    }

    /// Parses a text in the format that has been settled on.
    pub fn parse(&self, data: &str) -> (r: Result<Node, ParseError>)
        requires
            self.wf(),
            self.resolved() is Some,
        ensures
            outcome(r) == self.resolved()->0.parsed(data@),
            r matches Ok(node) ==> node@.wf(),
    {
        match self.inner {
            Some(format) => format.parse(data),
            None => vstd::pervasive::unreached(),
        }
    }

    /// Highlights a value in the format that has been settled on.
    pub fn syntax_highlight(&self, name: &str, value: &Node) -> (tokens: Vec<SyntaxToken>)
        requires
            self.wf(),
            self.resolved() is Some,
            self.resolved() == Some(ContentType::Xml) ==> xml_ready(value@),
        ensures
            toks_of(tokens@) == self.resolved()->0.highlighted(name@, value@),
    {
        match self.inner {
            Some(format) => format.syntax_highlight(name, value),
            None => vstd::pervasive::unreached(),
        }
    }

    /// Reads bytes as a document. A parser that has settled on a format
    /// reads them in that format. One that has not tries the concrete
    /// formats in their order, and settles on the first that reads the
    /// bytes; if none does, it stays as it is.
    pub fn parse_root(&mut self, validator: Option<ContentType>, data: &[u8]) -> (r: Result<
        Node,
        ParseError,
    >)
        requires
            old(self).wf(),
            validator matches Some(v) ==> v.is_concrete(),
        ensures
            final(self).wf(),
            match old(self).resolved() {
                Some(format) => final(self).resolved() == Some(format) && outcome(r)
                    == crate::parse::read_root(format, validator, data@),
                None => match detected(validator, data@, 0) {
                    Ok((format, d)) => final(self).resolved() == Some(format) && outcome(r) == Ok::<
                        Doc,
                        Fault,
                    >(d),
                    Err(e) => final(self).resolved() is None && outcome(r) == Err::<Doc, Fault>(e),
                },
            },
            r matches Ok(node) ==> node@.wf(),
    {
        match self.inner {
            Some(format) => format.parse_concrete(validator, data),
            None => match detect_format(validator, data) {
                Ok((format, value)) => {
                    self.inner = Some(format);
                    Ok(value)
                },
                Err(e) => Err(e),
            },
        }
    }
}

impl Parser for AnyParser {
    open spec fn format(&self) -> ContentType {
        match self.resolved() {
            Some(format) => format,
            None => ContentType::Any,
        }
    }

    fn content_type(&self) -> (r: ContentType) {
        match self.inner {
            Some(format) => format,
            None => ContentType::Any,
        }
    }

    fn extension(&self) -> (r: &'static str) {
        match self.inner {
            Some(format) => format.extension(),
            None => vstd::pervasive::unreached(),
        }
    }

    fn allow_array_root(&self) -> (r: bool) {
        match self.inner {
            Some(format) => format.allow_array_root(),
            None => vstd::pervasive::unreached(),
        }
    }

    fn parse(&self, data: &str) -> (r: Result<Node, ParseError>) {
        match self.inner {
            Some(format) => format.parse(data),
            None => vstd::pervasive::unreached(),
        }
    }

    fn syntax_highlight(&self, name: &str, value: &Node) -> (tokens: Vec<SyntaxToken>) {
        match self.inner {
            Some(format) => format.syntax_highlight(name, value),
            None => vstd::pervasive::unreached(),
        }
    }
}

} // verus!
