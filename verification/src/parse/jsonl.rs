//! JSON Lines: one JSON value on each line.

use vstd::prelude::*;
use vstd::string::*;

use crate::doc::{docs_of, lemma_view_array, Doc, Node};
use crate::parse::json::{highlight, json_read, json_tokens, JsonParser};
use crate::parse::syntax::{toks_of, SyntaxToken};
use crate::parse::{outcome, ContentType, Fault, ParseError};
use crate::text::{lines, lines_of, texts_of, trim, trimmed};

verus! {

/// The values of the first `n` lines. A line is read without the white
/// space around it; a line of white space alone is skipped. The first line
/// that is not JSON ends the parse with its number, counted from one.
pub open spec fn jsonl_items(lines: Seq<Seq<char>>, n: nat) -> Result<Seq<Doc>, Fault>
    decreases n,
{
    if n == 0 || n > lines.len() {
        Ok(Seq::empty())
    } else {
        match jsonl_items(lines, (n - 1) as nat) {
            Err(e) => Err(e),
            Ok(items) => {
                let line = trimmed(lines[n - 1]);
                if line.len() == 0 {
                    Ok(items)
                } else {
                    match json_read(line) {
                        Ok(d) => Ok(items.push(d)),
                        Err(e) => Err(
                            Fault::Syntax {
                                format: ContentType::Jsonl,
                                line: Some(n as usize),
                                detail: e,
                            },
                        ),
                    }
                }
            },
        }
    }
}

/// What parsing a text as JSON Lines gives: the array of the values of its
/// lines.
pub open spec fn jsonl_parse(text: Seq<char>) -> Result<Doc, Fault> {
    match jsonl_items(lines_of(text), lines_of(text).len()) {
        Ok(items) => Ok(Doc::Array(items)),
        Err(e) => Err(e),
    }
}

/// The JSON Lines codec.
#[derive(Debug, Clone, Copy, PartialEq, Eq)]
pub struct JsonlParser {}

impl JsonlParser {
    /// A node of a JSON Lines document is written as JSON.
    pub fn extension(&self) -> (r: &'static str)
        ensures
            r@ == "json"@,
    {
        "json"
    }

    /// The root of a document may be an array.
    pub fn allow_array_root(&self) -> (r: bool)
        ensures
            r,
    {
        true
    }

    /// Parses a JSON Lines text.
    pub fn parse(&self, data: &str) -> (r: Result<Node, ParseError>)
        ensures
            outcome(r) == jsonl_parse(data@),
            r matches Ok(node) ==> node@.wf(),
    {
        let all = lines(data);
        let ghost texts = lines_of(data@);
        let mut objects: Vec<Node> = Vec::new();
        let mut idx: usize = 0;
        assert(docs_of(objects@) =~= Seq::<Doc>::empty());
        while idx < all.len()
            invariant
                idx <= all.len(),
                texts == texts_of(all@),
                texts == lines_of(data@),
                jsonl_items(texts, idx as nat) == Ok::<Seq<Doc>, Fault>(docs_of(objects@)),
                forall|k: int| 0 <= k < objects@.len() ==> (#[trigger] objects@[k])@.wf(),
            decreases all.len() - idx,
        {
            let ghost before = docs_of(objects@);
            let line = trim(all[idx].as_str());
            assert(line@ == trimmed(texts[idx as int]));
            if !line.is_empty() {
                match (JsonParser {}).parse(line) {
                    Ok(object) => {
                        objects.push(object);
                        assert(docs_of(objects@) =~= before.push(object@));
                    },
                    Err(e) => {
                        let ghost fault = e@;
                        let detail = match e {
                            ParseError::Syntax { format: _, line: _, detail } => detail,
                            _ => String::new(),
                        };
                        proof {
                            let msg = json_read(line@)->Err_0;
                            assert(json_read(line@) is Err);
                            assert(fault == crate::parse::syntax_fault(ContentType::Json, msg));
                            assert(detail@ == msg);
                            assert(jsonl_items(texts, (idx + 1) as nat) == Err::<Seq<Doc>, Fault>(
                                Fault::Syntax {
                                    format: ContentType::Jsonl,
                                    line: Some((idx + 1) as usize),
                                    detail: msg,
                                },
                            ));
                            lemma_jsonl_items_fail(texts, (idx + 1) as nat, texts.len());
                        }
                        return Err(
                            ParseError::Syntax {
                                format: ContentType::Jsonl,
                                line: Some(idx + 1),
                                detail,
                            },
                        );
                    },
                }
            }
            idx += 1;
        }
        proof {
            lemma_view_array(objects);
            assert(Node::Array(objects)@->Array_0 =~= docs_of(objects@));
        }
        Ok(Node::Array(objects))
    }

    /// Highlights a value as JSON.
    pub fn syntax_highlight(&self, name: &str, value: &Node) -> (tokens: Vec<SyntaxToken>)
        ensures
            toks_of(tokens@) == json_tokens(value@, 0, false),
    {
        highlight(value, 0, false)
    }
}

/// Once a line has been refused, the lines after it change nothing.
pub proof fn lemma_jsonl_items_fail(lines: Seq<Seq<char>>, n: nat, m: nat)
    requires
        n <= m <= lines.len(),
        jsonl_items(lines, n) is Err,
    ensures
        jsonl_items(lines, m) == jsonl_items(lines, n),
    decreases m - n,
{
    if n < m {
        lemma_jsonl_items_fail(lines, n, (m - 1) as nat);
    }
}

} // verus!
