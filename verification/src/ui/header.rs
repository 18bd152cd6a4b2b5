//! The line at the top of the screen.

use vstd::prelude::*;
use vstd::string::*;

use crate::parse::ContentType;
use crate::text::{replace, replaced};

verus! {

/// What the header can show.
#[derive(Debug, PartialEq, Eq)]
pub struct HeaderContext {
    pub version: String,
    pub data_source: String,
    pub content_type: &'static str,
    pub data_size: String,
}

/// The name of a format in the header.
pub open spec fn format_name(content_type: ContentType) -> Seq<char> {
    match content_type {
        ContentType::Json => "json"@,
        ContentType::Yaml => "yaml"@,
        ContentType::Toml => "toml"@,
        ContentType::Xml => "xml"@,
        ContentType::Hcl => "hcl"@,
        ContentType::Jsonl => "jsonl"@,
        ContentType::Any => "any"@,
    }
}

/// The header line for a format: each placeholder gives way to its value,
/// the version first, then the source, the format and the size.
pub open spec fn formatted(
    s: Seq<char>,
    version: Seq<char>,
    data_source: Seq<char>,
    content_type: Seq<char>,
    data_size: Seq<char>,
) -> Seq<char> {
    replaced(
        replaced(
            replaced(replaced(s, "{version}"@, version), "{data_source}"@, data_source),
            "{content_type}"@,
            content_type,
        ),
        "{data_size}"@,
        data_size,
    )
}

impl HeaderContext {
    /// The context of a document: the version of the program, where the
    /// data came from (the standard input if from no file), its format and
    /// its size as text.
    pub fn new(version: String, source: Option<String>, content_type: ContentType, size: String) -> (r:
        HeaderContext)
        ensures
            r.version == version,
            r.data_source@ == (match source {
                Some(path) => path@,
                None => "stdin"@,
            }),
            r.content_type@ == format_name(content_type),
            r.data_size == size,
    {
        let data_source = match source {
            Some(path) => path,
            None => String::from_str("stdin"),
        };
        let content_type = match content_type {
            ContentType::Json => "json",
            ContentType::Yaml => "yaml",
            ContentType::Toml => "toml",
            ContentType::Xml => "xml",
            ContentType::Hcl => "hcl",
            ContentType::Jsonl => "jsonl",
            ContentType::Any => "any",
        };
        HeaderContext { version, data_source, content_type, data_size: size }
    }

    /// Fills the placeholders of a header format.
    pub fn format(&self, s: &str) -> (r: String)
        ensures
            r@ == formatted(
                s@,
                self.version@,
                self.data_source@,
                self.content_type@,
                self.data_size@,
            ),
    {
        let s = replace(s, "{version}", self.version.as_str());
        let s = replace(s.as_str(), "{data_source}", self.data_source.as_str());
        let s = replace(s.as_str(), "{content_type}", self.content_type);
        replace(s.as_str(), "{data_size}", self.data_size.as_str())
    }
}

} // verus!
