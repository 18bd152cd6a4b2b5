//! Parsers and highlighters for the supported formats.

pub mod any;
pub mod hcl;
pub mod json;
pub mod jsonl;
pub mod render;
pub mod syntax;
pub mod toml;
pub mod wrap;
pub mod xml;
pub mod xml_events;
pub mod xml_tree;
pub mod yaml;

use vstd::prelude::*;
use vstd::string::*;
use vstd::utf8::*;

use crate::doc::{Doc, Node};
use crate::parse::hcl::{hcl_parse, hcl_tokens, HclParser};
use crate::parse::json::{json_parse, json_tokens, JsonParser};
use crate::parse::jsonl::{jsonl_parse, JsonlParser};
use crate::parse::syntax::{str_eq, toks_of, SyntaxToken, Tok};
use crate::parse::toml::{toml_parse, toml_stream, TomlParser};
use crate::parse::xml::{xml_parse, xml_ready, xml_tokens, XmlParser};
use crate::parse::yaml::{yaml_parse, yaml_stream, YamlParser};
use crate::text::{decimal, decimal_text, utf8_text};

verus! {

/// A format of structured data.
#[derive(Debug, Clone, Copy, PartialEq, Eq, Structural)]
pub enum ContentType {
    Json,
    Yaml,
    Toml,
    Xml,
    /// The configuration language of HashiCorp.
    Hcl,
    /// JSON Lines: one JSON value on each line.
    Jsonl,
    /// Whichever of the other formats reads the content first.
    Any,
}

/// Why a root value was refused.
#[derive(Debug, Clone, Copy, PartialEq, Eq, Structural)]
pub enum RootFault {
    /// The root is an array, which the given format does not allow.
    ArrayRoot(ContentType),
    /// The root is neither an object nor an array.
    NotContainer,
}

/// Why content could not be read.
#[derive(Debug, PartialEq, Eq)]
pub enum ParseError {
    /// The bytes are not valid UTF-8.
    Encoding,
    /// The parser of the format refused the text. `line` is the line of a
    /// JSON Lines text that was refused.
    Syntax { format: ContentType, line: Option<usize>, detail: String },
    /// The root value has a shape that is not allowed.
    Schema(RootFault),
    /// No supported format reads the content.
    FormatDetection,
}

/// The mathematical model of a `ParseError`.
pub enum Fault {
    Encoding,
    Syntax { format: ContentType, line: Option<usize>, detail: Seq<char> },
    Schema(RootFault),
    FormatDetection,
}

impl ParseError {
    /// The mathematical model of the value.
    pub open spec fn view(&self) -> Fault {
        match self {
            ParseError::Encoding => Fault::Encoding,
            ParseError::Syntax { format, line, detail } => Fault::Syntax {
                format: *format,
                line: *line,
                detail: detail@,
            },
            ParseError::Schema(fault) => Fault::Schema(*fault),
            ParseError::FormatDetection => Fault::FormatDetection,
        }
    }
}

/// The model of the result of a parse.
pub open spec fn outcome(r: Result<Node, ParseError>) -> Result<Doc, Fault> {
    match r {
        Ok(node) => Ok(node@),
        Err(e) => Err(e@),
    }
}

/// A syntax error of a format, without a line.
pub open spec fn syntax_fault(format: ContentType, detail: Seq<char>) -> Fault {
    Fault::Syntax { format, line: None, detail }
}

/// The rule on the root of a document: it is an object, or an array where
/// arrays are allowed.
pub open spec fn root_check(d: Doc, allow_array: bool, schema: ContentType) -> Result<Doc, Fault> {
    match d {
        Doc::Object(_) => Ok(d),
        Doc::Array(_) => if allow_array {
            Ok(d)
        } else {
            Err(Fault::Schema(RootFault::ArrayRoot(schema)))
        },
        _ => Err(Fault::Schema(RootFault::NotContainer)),
    }
}

/// Checks the root of a parsed document.
pub fn check_root(value: Node, allow_array: bool, schema: ContentType) -> (r: Result<
    Node,
    ParseError,
>)
    ensures
        outcome(r) == root_check(value@, allow_array, schema),
{
    match &value {
        Node::Object(_) => Ok(value),
        Node::Array(_) => {
            if allow_array {
                Ok(value)
            } else {
                Err(ParseError::Schema(RootFault::ArrayRoot(schema)))
            }
        },
        _ => Err(ParseError::Schema(RootFault::NotContainer)),
    }
}

/// Decodes bytes as UTF-8.
pub fn decode(data: &[u8]) -> (r: Result<String, ParseError>)
    ensures
        match r {
            Ok(text) => valid_utf8(data@) && text@ == decode_utf8(data@),
            Err(e) => !valid_utf8(data@) && e@ == Fault::Encoding,
        },
{
    match utf8_text(data) {
        Some(text) => Ok(text),
        None => Err(ParseError::Encoding),
    }
}

/// The formats that detection tries, in this order.
pub open spec fn format_order() -> Seq<ContentType> {
    seq![
        ContentType::Json,
        ContentType::Yaml,
        ContentType::Toml,
        ContentType::Xml,
        ContentType::Hcl,
        ContentType::Jsonl,
    ]
}

/// What reading bytes as a document of a concrete format gives: the bytes
/// are decoded as UTF-8, the text is parsed, and the root is checked against
/// the rule of the validator, or of the format where there is none.
pub open spec fn read_root(format: ContentType, validator: Option<ContentType>, bytes: Seq<u8>) -> Result<
    Doc,
    Fault,
> {
    let schema = match validator {
        Some(v) => v,
        None => format,
    };
    if !valid_utf8(bytes) {
        Err(Fault::Encoding)
    } else {
        match format.parsed(decode_utf8(bytes)) {
            Err(e) => Err(e),
            Ok(d) => root_check(d, schema.allows_array_root(), schema),
        }
    }
}

/// What detection gives when it starts with the `i`-th format of the order:
/// the first format that reads the bytes, with the document.
pub open spec fn detected(validator: Option<ContentType>, bytes: Seq<u8>, i: nat) -> Result<
    (ContentType, Doc),
    Fault,
>
    decreases format_order().len() - i,
{
    if i >= format_order().len() {
        Err(Fault::FormatDetection)
    } else {
        match read_root(format_order()[i as int], validator, bytes) {
            Ok(d) => Ok((format_order()[i as int], d)),
            Err(_) => detected(validator, bytes, i + 1),
        }
    }
}

/// Detection adopts JSON wherever JSON reads the content, whatever the
/// other formats make of it.
pub proof fn lemma_detection_prefers_json(validator: Option<ContentType>, bytes: Seq<u8>)
    requires
        read_root(ContentType::Json, validator, bytes) is Ok,
    ensures
        detected(validator, bytes, 0) == Ok::<(ContentType, Doc), Fault>(
            (ContentType::Json, read_root(ContentType::Json, validator, bytes)->Ok_0),
        ),
{
}

/// The format that detection adopts reads the content, and no format
/// before it in the order does.
pub proof fn lemma_detection_first(validator: Option<ContentType>, bytes: Seq<u8>, i: nat)
    ensures
        match detected(validator, bytes, i) {
            Ok((format, d)) => exists|k: int|
                i <= k < format_order().len() && format == #[trigger] format_order()[k]
                    && read_root(format, validator, bytes) == Ok::<Doc, Fault>(d) && forall|j: int|
                    i <= j < k ==> read_root(#[trigger] format_order()[j], validator, bytes) is Err,
            Err(e) => e == Fault::FormatDetection && forall|j: int|
                i <= j < format_order().len() ==> read_root(
                    #[trigger] format_order()[j],
                    validator,
                    bytes,
                ) is Err,
        },
    decreases format_order().len() - i,
{
    if i < format_order().len() {
        match read_root(format_order()[i as int], validator, bytes) {
            Ok(d) => {
                assert(format_order()[i as int] == format_order()[i as int]);
            },
            Err(_) => {
                lemma_detection_first(validator, bytes, i + 1);
                match detected(validator, bytes, i + 1) {
                    Ok((format, d)) => {
                        let k = choose|k: int|
                            i + 1 <= k < format_order().len() && format == #[trigger] format_order()[k]
                                && read_root(format, validator, bytes) == Ok::<Doc, Fault>(d)
                                && forall|j: int|
                                i + 1 <= j < k ==> read_root(
                                    #[trigger] format_order()[j],
                                    validator,
                                    bytes,
                                ) is Err;
                        assert(format == format_order()[k]);
                    },
                    Err(_) => {},
                }
            },
        }
    }
}

impl ContentType {
    /// Any format but `Any`.
    pub open spec fn is_concrete(self) -> bool {
        !(self is Any)
    }

    /// The file suffix for the text of a node of a document of the format.
    pub open spec fn extension_text(self) -> Seq<char> {
        match self {
            ContentType::Json => "json"@,
            ContentType::Yaml => "yaml"@,
            ContentType::Toml => "toml"@,
            ContentType::Xml => "xml"@,
            ContentType::Hcl => "hcl"@,
            ContentType::Jsonl => "json"@,
            ContentType::Any => Seq::empty(),
        }
    }

    /// Whether the root of a document of the format may be an array.
    pub open spec fn allows_array_root(self) -> bool {
        !(self is Toml || self is Hcl)
    }

    /// What parsing a text as the format gives.
    pub open spec fn parsed(self, text: Seq<char>) -> Result<Doc, Fault> {
        match self {
            ContentType::Json => json_parse(text),
            ContentType::Yaml => yaml_parse(text),
            ContentType::Toml => toml_parse(text),
            ContentType::Xml => xml_parse(text),
            ContentType::Hcl => hcl_parse(text),
            ContentType::Jsonl => jsonl_parse(text),
            ContentType::Any => Err(Fault::FormatDetection),
        }
    }

    /// The rendering of the value of the node `name` in the format.
    pub open spec fn highlighted(self, name: Seq<char>, d: Doc) -> Seq<Tok> {
        match self {
            ContentType::Json => json_tokens(d, 0, false),
            ContentType::Yaml => yaml_stream(d),
            ContentType::Toml => toml_stream(name, d),
            ContentType::Xml => xml_tokens(d, name, 0),
            ContentType::Hcl => hcl_tokens(name, d, 0),
            ContentType::Jsonl => json_tokens(d, 0, false),
            ContentType::Any => Seq::empty(),
        }
    }

    /// What reading bytes as a document of the format gives. `Any` stands
    /// for the first format that reads them.
    pub open spec fn read(self, validator: Option<ContentType>, bytes: Seq<u8>) -> Result<
        Doc,
        Fault,
    > {
        if self is Any {
            match detected(validator, bytes, 0) {
                Ok((_, d)) => Ok(d),
                Err(e) => Err(e),
            }
        } else {
            read_root(self, validator, bytes)
        }
    }

    /// The file suffix for the text of a node.
    pub fn extension(self) -> (r: &'static str)
        requires
            self.is_concrete(),
        ensures
            r@ == self.extension_text(),
    {
        match self {
            ContentType::Json => (JsonParser {}).extension(),
            ContentType::Yaml => (YamlParser {}).extension(),
            ContentType::Toml => (TomlParser {}).extension(),
            ContentType::Xml => (XmlParser {}).extension(),
            ContentType::Hcl => (HclParser {}).extension(),
            ContentType::Jsonl => (JsonlParser {}).extension(),
            ContentType::Any => vstd::pervasive::unreached(),
        }
    }

    /// Whether the root of a document may be an array.
    pub fn allow_array_root(self) -> (r: bool)
        requires
            self.is_concrete(),
        ensures
            r == self.allows_array_root(),
    {
        match self {
            ContentType::Json => (JsonParser {}).allow_array_root(),
            ContentType::Yaml => (YamlParser {}).allow_array_root(),
            ContentType::Toml => (TomlParser {}).allow_array_root(),
            ContentType::Xml => (XmlParser {}).allow_array_root(),
            ContentType::Hcl => (HclParser {}).allow_array_root(),
            ContentType::Jsonl => (JsonlParser {}).allow_array_root(),
            ContentType::Any => vstd::pervasive::unreached(),
        }
    }

    /// Parses a text.
    pub fn parse(self, data: &str) -> (r: Result<Node, ParseError>)
        requires
            self.is_concrete(),
        ensures
            outcome(r) == self.parsed(data@),
            r matches Ok(node) ==> node@.wf(),
    {
        match self {
            ContentType::Json => (JsonParser {}).parse(data),
            ContentType::Yaml => (YamlParser {}).parse(data),
            ContentType::Toml => (TomlParser {}).parse(data),
            ContentType::Xml => (XmlParser {}).parse(data),
            ContentType::Hcl => (HclParser {}).parse(data),
            ContentType::Jsonl => (JsonlParser {}).parse(data),
            ContentType::Any => vstd::pervasive::unreached(),
        }
    }

    /// Highlights the value of the node `name`.
    pub fn syntax_highlight(self, name: &str, value: &Node) -> (tokens: Vec<SyntaxToken>)
        requires
            self.is_concrete(),
            self is Xml ==> xml_ready(value@),
        ensures
            toks_of(tokens@) == self.highlighted(name@, value@),
    {
        match self {
            ContentType::Json => (JsonParser {}).syntax_highlight(name, value),
            ContentType::Yaml => (YamlParser {}).syntax_highlight(name, value),
            ContentType::Toml => (TomlParser {}).syntax_highlight(name, value),
            ContentType::Xml => (XmlParser {}).syntax_highlight(name, value),
            ContentType::Hcl => (HclParser {}).syntax_highlight(name, value),
            ContentType::Jsonl => (JsonlParser {}).syntax_highlight(name, value),
            ContentType::Any => vstd::pervasive::unreached(),
        }
    }

    /// Reads bytes as a document of a concrete format.
    pub fn parse_concrete(self, validator: Option<ContentType>, data: &[u8]) -> (r: Result<
        Node,
        ParseError,
    >)
        requires
            self.is_concrete(),
            validator matches Some(v) ==> v.is_concrete(),
        ensures
            outcome(r) == read_root(self, validator, data@),
            r matches Ok(node) ==> node@.wf(),
    {
        let text = match decode(data) {
            Ok(text) => text,
            Err(e) => {
                return Err(e);
            },
        };
        let value = match self.parse(text.as_str()) {
            Ok(value) => value,
            Err(e) => {
                return Err(e);
            },
        };
        let schema = match validator {
            Some(v) => v,
            None => self,
        };
        check_root(value, schema.allow_array_root(), schema)
    }

    /// Reads bytes as a document. `Any` tries the concrete formats in their
    /// order and gives what the first that reads the bytes gives.
    pub fn parse_root(self, validator: Option<ContentType>, data: &[u8]) -> (r: Result<
        Node,
        ParseError,
    >)
        requires
            validator matches Some(v) ==> v.is_concrete(),
        ensures
            outcome(r) == self.read(validator, data@),
            r matches Ok(node) ==> node@.wf(),
    {
        match self {
            ContentType::Any => match detect_format(validator, data) {
                Ok((_, value)) => Ok(value),
                Err(e) => Err(e),
            },
            _ => self.parse_concrete(validator, data),
        }
    }

    /// The format that a file of the given suffix holds.
    pub fn from_extension(ext: &str) -> (r: Option<ContentType>)
        ensures
            r == format_of_extension(ext@),
    {
        if str_eq(ext, "json") {
            Some(ContentType::Json)
        } else if str_eq(ext, "yaml") || str_eq(ext, "yml") {
            Some(ContentType::Yaml)
        } else if str_eq(ext, "toml") {
            Some(ContentType::Toml)
        } else if str_eq(ext, "xml") {
            Some(ContentType::Xml)
        } else if str_eq(ext, "hcl") {
            Some(ContentType::Hcl)
        } else if str_eq(ext, "jsonl") {
            Some(ContentType::Jsonl)
        } else {
            None
        }
    }
}

/// The format that a file of the given suffix holds.
pub open spec fn format_of_extension(ext: Seq<char>) -> Option<ContentType> {
    if ext == "json"@ {
        Some(ContentType::Json)
    } else if ext == "yaml"@ || ext == "yml"@ {
        Some(ContentType::Yaml)
    } else if ext == "toml"@ {
        Some(ContentType::Toml)
    } else if ext == "xml"@ {
        Some(ContentType::Xml)
    } else if ext == "hcl"@ {
        Some(ContentType::Hcl)
    } else if ext == "jsonl"@ {
        Some(ContentType::Jsonl)
    } else {
        None
    }
}

/// The model of the result of a detection.
pub open spec fn detection(r: Result<(ContentType, Node), ParseError>) -> Result<
    (ContentType, Doc),
    Fault,
> {
    match r {
        Ok((format, node)) => Ok((format, node@)),
        Err(e) => Err(e@),
    }
}

/// Finds the first format of the order that reads the bytes, and reads
/// them.
pub fn detect_format(validator: Option<ContentType>, data: &[u8]) -> (r: Result<
    (ContentType, Node),
    ParseError,
>)
    requires
        validator matches Some(v) ==> v.is_concrete(),
    ensures
        detection(r) == detected(validator, data@, 0),
        r matches Ok((format, node)) ==> format.is_concrete() && node@.wf(),
{
    let order: [ContentType; 6] = [
        ContentType::Json,
        ContentType::Yaml,
        ContentType::Toml,
        ContentType::Xml,
        ContentType::Hcl,
        ContentType::Jsonl,
    ];
    assert(order@ =~= format_order());
    let mut i: usize = 0;
    while i < 6
        invariant
            i <= 6,
            order@ == format_order(),
            validator matches Some(v) ==> v.is_concrete(),
            detected(validator, data@, 0) == detected(validator, data@, i as nat),
        decreases 6 - i,
    {
        let format = order[i];
        match format.parse_concrete(validator, data) {
            Ok(value) => {
                return Ok((format, value));
            },
            Err(_) => {},
        }
        i += 1;
    }
    Err(ParseError::FormatDetection)
}

/// The message of an error.
pub open spec fn fault_message(fault: Fault) -> Seq<char> {
    match fault {
        Fault::Encoding => "parse content utf8"@,
        Fault::Syntax { format, line, detail } => (match line {
            Some(n) => "parse JSON object at line "@ + decimal_text(n as nat),
            None => match format {
                ContentType::Json => "parse JSON"@,
                ContentType::Yaml => "parse YAML"@,
                ContentType::Toml => "parse TOML"@,
                ContentType::Xml => "parse XML"@,
                ContentType::Hcl => "parse HCL"@,
                ContentType::Jsonl => "parse JSON Lines"@,
                ContentType::Any => "parse"@,
            },
        }) + ": "@ + detail,
        Fault::Schema(RootFault::ArrayRoot(schema)) => "schema '"@ + schema.extension_text()
            + "' does not allow array as root"@,
        Fault::Schema(RootFault::NotContainer) => "root value must be either object or array"@,
        Fault::FormatDetection => "unable to parse content with any supported format"@,
    }
}

impl ParseError {
    /// The message of the error.
    pub fn message(&self) -> (r: String)
        ensures
            r@ == fault_message(self@),
    {
        match self {
            ParseError::Encoding => String::from_str("parse content utf8"),
            ParseError::Syntax { format, line, detail } => {
                let head = match line {
                    Some(n) => String::from_str("parse JSON object at line ").concat(
                        decimal(*n).as_str(),
                    ),
                    None => String::from_str(
                        match format {
                            ContentType::Json => "parse JSON",
                            ContentType::Yaml => "parse YAML",
                            ContentType::Toml => "parse TOML",
                            ContentType::Xml => "parse XML",
                            ContentType::Hcl => "parse HCL",
                            ContentType::Jsonl => "parse JSON Lines",
                            ContentType::Any => "parse",
                        },
                    ),
                };
                head.concat(": ").concat(detail.as_str())
            },
            ParseError::Schema(RootFault::ArrayRoot(schema)) => {
                let ext = match schema {
                    ContentType::Any => "",
                    _ => schema.extension(),
                };
                proof {
                    reveal_strlit("");
                    assert(ext@ =~= schema.extension_text());
                }
                String::from_str("schema '").concat(ext).concat("' does not allow array as root")
            },
            ParseError::Schema(RootFault::NotContainer) => String::from_str(
                "root value must be either object or array",
            ),
            ParseError::FormatDetection => String::from_str(
                "unable to parse content with any supported format",
            ),
        }
    }
}

/// A parser and highlighter of one format.
pub trait Parser {
    /// The format that the parser stands for. `Any` is the format of a
    /// parser that has not settled on one.
    spec fn format(&self) -> ContentType;

    /// The format that the parser stands for.
    fn content_type(&self) -> (r: ContentType)
        ensures
            r == self.format(),
    ;

    /// The file suffix for the text of a node.
    fn extension(&self) -> (r: &'static str)
        requires
            self.format().is_concrete(),
        ensures
            r@ == self.format().extension_text(),
    ;

    /// Whether the root of a document may be an array.
    fn allow_array_root(&self) -> (r: bool)
        requires
            self.format().is_concrete(),
        ensures
            r == self.format().allows_array_root(),
    ;

    /// Parses a text.
    fn parse(&self, data: &str) -> (r: Result<Node, ParseError>)
        requires
            self.format().is_concrete(),
        ensures
            outcome(r) == self.format().parsed(data@),
            r matches Ok(node) ==> node@.wf(),
    ;

    /// Highlights the value of the node `name`.
    fn syntax_highlight(&self, name: &str, value: &Node) -> (tokens: Vec<SyntaxToken>)
        requires
            self.format().is_concrete(),
            self.format() is Xml ==> xml_ready(value@),
        ensures
            toks_of(tokens@) == self.format().highlighted(name@, value@),
    ;
}

impl Parser for JsonParser {
    open spec fn format(&self) -> ContentType {
        ContentType::Json
    }

    fn content_type(&self) -> (r: ContentType) {
        ContentType::Json
    }

    fn extension(&self) -> (r: &'static str) {
        ContentType::Json.extension()
    }

    fn allow_array_root(&self) -> (r: bool) {
        ContentType::Json.allow_array_root()
    }

    fn parse(&self, data: &str) -> (r: Result<Node, ParseError>) {
        ContentType::Json.parse(data)
    }

    fn syntax_highlight(&self, name: &str, value: &Node) -> (tokens: Vec<SyntaxToken>) {
        ContentType::Json.syntax_highlight(name, value)
    }
}

impl Parser for YamlParser {
    open spec fn format(&self) -> ContentType {
        ContentType::Yaml
    }

    fn content_type(&self) -> (r: ContentType) {
        ContentType::Yaml
    }

    fn extension(&self) -> (r: &'static str) {
        ContentType::Yaml.extension()
    }

    fn allow_array_root(&self) -> (r: bool) {
        ContentType::Yaml.allow_array_root()
    }

    fn parse(&self, data: &str) -> (r: Result<Node, ParseError>) {
        ContentType::Yaml.parse(data)
    }

    fn syntax_highlight(&self, name: &str, value: &Node) -> (tokens: Vec<SyntaxToken>) {
        ContentType::Yaml.syntax_highlight(name, value)
    }
}

impl Parser for TomlParser {
    open spec fn format(&self) -> ContentType {
        ContentType::Toml
    }

    fn content_type(&self) -> (r: ContentType) {
        ContentType::Toml
    }

    fn extension(&self) -> (r: &'static str) {
        ContentType::Toml.extension()
    }

    fn allow_array_root(&self) -> (r: bool) {
        ContentType::Toml.allow_array_root()
    }

    fn parse(&self, data: &str) -> (r: Result<Node, ParseError>) {
        ContentType::Toml.parse(data)
    }

    fn syntax_highlight(&self, name: &str, value: &Node) -> (tokens: Vec<SyntaxToken>) {
        ContentType::Toml.syntax_highlight(name, value)
    }
}

impl Parser for XmlParser {
    open spec fn format(&self) -> ContentType {
        ContentType::Xml
    }

    fn content_type(&self) -> (r: ContentType) {
        ContentType::Xml
    }

    fn extension(&self) -> (r: &'static str) {
        ContentType::Xml.extension()
    }

    fn allow_array_root(&self) -> (r: bool) {
        ContentType::Xml.allow_array_root()
    }

    fn parse(&self, data: &str) -> (r: Result<Node, ParseError>) {
        ContentType::Xml.parse(data)
    }

    fn syntax_highlight(&self, name: &str, value: &Node) -> (tokens: Vec<SyntaxToken>) {
        ContentType::Xml.syntax_highlight(name, value)
    }
}

impl Parser for HclParser {
    open spec fn format(&self) -> ContentType {
        ContentType::Hcl
    }

    fn content_type(&self) -> (r: ContentType) {
        ContentType::Hcl
    }

    fn extension(&self) -> (r: &'static str) {
        ContentType::Hcl.extension()
    }

    fn allow_array_root(&self) -> (r: bool) {
        ContentType::Hcl.allow_array_root()
    }

    fn parse(&self, data: &str) -> (r: Result<Node, ParseError>) {
        ContentType::Hcl.parse(data)
    }

    fn syntax_highlight(&self, name: &str, value: &Node) -> (tokens: Vec<SyntaxToken>) {
        ContentType::Hcl.syntax_highlight(name, value)
    }
}

impl Parser for JsonlParser {
    open spec fn format(&self) -> ContentType {
        ContentType::Jsonl
    }

    fn content_type(&self) -> (r: ContentType) {
        ContentType::Jsonl
    }

    fn extension(&self) -> (r: &'static str) {
        ContentType::Jsonl.extension()
    }

    fn allow_array_root(&self) -> (r: bool) {
        ContentType::Jsonl.allow_array_root()
    }

    fn parse(&self, data: &str) -> (r: Result<Node, ParseError>) {
        ContentType::Jsonl.parse(data)
    }

    fn syntax_highlight(&self, name: &str, value: &Node) -> (tokens: Vec<SyntaxToken>) {
        ContentType::Jsonl.syntax_highlight(name, value)
    }
}

/// Reads bytes as a document with a parser: the bytes are decoded as UTF-8,
/// the text is parsed, and the root is checked against the rule of the
/// validator, or of the parser where there is none.
pub fn parse_root<P: Parser>(parser: &P, validator: Option<ContentType>, data: &[u8]) -> (r: Result<
    Node,
    ParseError,
>)
    requires
        parser.format().is_concrete(),
        validator matches Some(v) ==> v.is_concrete(),
    ensures
        outcome(r) == read_root(parser.format(), validator, data@),
        r matches Ok(node) ==> node@.wf(),
{
    let text = match decode(data) {
        Ok(text) => text,
        Err(e) => {
            return Err(e);
        },
    };
    let value = match parser.parse(text.as_str()) {
        Ok(value) => value,
        Err(e) => {
            return Err(e);
        },
    };
    match validator {
        Some(v) => check_root(value, v.allow_array_root(), v),
        None => check_root(value, parser.allow_array_root(), parser.content_type()),
    }
}

} // verus!
