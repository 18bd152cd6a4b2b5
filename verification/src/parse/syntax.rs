//! The token stream that the highlighters produce, and the helpers that
//! decide how a field name or a string value is written.

use vstd::prelude::*;
use vstd::string::*;

use crate::doc::{Doc, Node};
use crate::text::{
    contains_char, debug_quote, debug_quoted, is_standard_name, lines, lines_of,
    matches_standard_name, texts_of, trim, trimmed,
};

verus! {

/// One element of a highlighted rendering.
#[derive(Debug, PartialEq, Eq)]
pub enum SyntaxToken {
    /// Punctuation.
    Symbol(&'static str),
    /// A field or attribute name.
    Name(String),
    /// A markup tag.
    Tag(String),
    String(String),
    Number(String),
    Null(&'static str),
    Bool(&'static str),
    /// A section or block header.
    Section(String),
    /// The end of a visual line.
    Break,
    /// Two spaces for each level.
    Indent(usize),
}

/// The mathematical model of a token.
pub enum Tok {
    Symbol(Seq<char>),
    Name(Seq<char>),
    Tag(Seq<char>),
    String(Seq<char>),
    Number(Seq<char>),
    Null(Seq<char>),
    Bool(Seq<char>),
    Section(Seq<char>),
    Break,
    Indent(usize),
}

/// A run of `n` spaces.
pub open spec fn spaces(n: nat) -> Seq<char> {
    Seq::new(n, |i: int| ' ')
}

impl Tok {
    /// The characters that the token stands for.
    pub open spec fn text(self) -> Seq<char> {
        match self {
            Tok::Symbol(s) => s,
            Tok::Name(s) => s,
            Tok::Tag(s) => s,
            Tok::String(s) => s,
            Tok::Number(s) => s,
            Tok::Null(s) => s,
            Tok::Bool(s) => s,
            Tok::Section(s) => s,
            Tok::Break => seq!['\n'],
            Tok::Indent(n) => spaces(2 * (n as nat)),
        }
    }
}

/// The models of a sequence of tokens.
pub open spec fn toks_of(tokens: Seq<SyntaxToken>) -> Seq<Tok> {
    Seq::new(tokens.len(), |i: int| tokens[i].view())
}

/// The text of a token stream: the texts of its tokens, in order.
pub open spec fn plain_text(toks: Seq<Tok>) -> Seq<char>
    decreases toks.len(),
{
    if toks.len() == 0 {
        Seq::empty()
    } else {
        plain_text(toks.drop_last()) + toks.last().text()
    }
}

/// The text of a stream that ends in `t` is the text of what precedes it,
/// followed by the text of `t`.
pub proof fn lemma_plain_text_push(toks: Seq<Tok>, t: Tok)
    ensures
        plain_text(toks.push(t)) == plain_text(toks) + t.text(),
{
    assert(toks.push(t).drop_last() =~= toks);
}

impl SyntaxToken {
    /// The mathematical model of the value.
    pub open spec fn view(&self) -> Tok {
        match self {
            SyntaxToken::Symbol(s) => Tok::Symbol(s@),
            SyntaxToken::Name(s) => Tok::Name(s@),
            SyntaxToken::Tag(s) => Tok::Tag(s@),
            SyntaxToken::String(s) => Tok::String(s@),
            SyntaxToken::Number(s) => Tok::Number(s@),
            SyntaxToken::Null(s) => Tok::Null(s@),
            SyntaxToken::Bool(s) => Tok::Bool(s@),
            SyntaxToken::Section(s) => Tok::Section(s@),
            SyntaxToken::Break => Tok::Break,
            SyntaxToken::Indent(n) => Tok::Indent(*n),
        }
    }

    /// The text of a token stream, without styling or wrapping.
    pub fn pure_text(tokens: &[SyntaxToken]) -> (text: String)
        ensures
            text@ == plain_text(toks_of(tokens@)),
    {
        let mut text = String::new();
        let mut i: usize = 0;
        while i < tokens.len()
            invariant
                i <= tokens.len(),
                text@ == plain_text(toks_of(tokens@).subrange(0, i as int)),
            decreases tokens.len() - i,
        {
            let ghost before = toks_of(tokens@).subrange(0, i as int);
            let ghost t = tokens@[i as int].view();
            proof {
                assert(toks_of(tokens@).subrange(0, i + 1) =~= before.push(t));
                lemma_plain_text_push(before, t);
            }
            match &tokens[i] {
                SyntaxToken::Symbol(s) => text.append(s),
                SyntaxToken::Name(s) => text.append(s.as_str()),
                SyntaxToken::Tag(s) => text.append(s.as_str()),
                SyntaxToken::String(s) => text.append(s.as_str()),
                SyntaxToken::Number(s) => text.append(s.as_str()),
                SyntaxToken::Null(s) => text.append(s),
                SyntaxToken::Bool(s) => text.append(s),
                SyntaxToken::Section(s) => text.append(s.as_str()),
                SyntaxToken::Break => {
                    proof {
                        reveal_strlit("\n");
                        assert("\n"@ =~= seq!['\n']);
                    }
                    text.append("\n");
                },
                SyntaxToken::Indent(indent) => {
                    let ghost base = text@;
                    let mut k: usize = 0;
                    while k < *indent
                        invariant
                            k <= *indent,
                            text@ == base + spaces(2 * (k as nat)),
                        decreases *indent - k,
                    {
                        proof {
                            reveal_strlit("  ");
                            assert(base + spaces(2 * (k as nat)) + "  "@ =~= base + spaces(
                                2 * ((k + 1) as nat),
                            ));
                        }
                        text.append("  ");
                        k += 1;
                    }
                },
            }
            i += 1;
        }
        proof {
            assert(toks_of(tokens@).subrange(0, i as int) =~= toks_of(tokens@));
        }
        text
    }
}

/// Appends a token to a stream.
pub fn emit(tokens: &mut Vec<SyntaxToken>, token: SyntaxToken)
    ensures
        toks_of(final(tokens)@) == toks_of(old(tokens)@).push(token@),
{
    tokens.push(token);
    assert(toks_of(tokens@) =~= toks_of(old(tokens)@).push(token@));
}

/// How a field name is written where the format does not force quotes: as it
/// is if it is a standard identifier, else in its quoted form.
pub open spec fn field_name_text(name: Seq<char>) -> Seq<char> {
    if is_standard_name(name) {
        name
    } else {
        debug_quoted(name)
    }
}

/// A field name that is a standard identifier is written as it is, without
/// quotes.
pub proof fn lemma_standard_name_unquoted(name: Seq<char>)
    requires
        is_standard_name(name),
    ensures
        field_name_text(name) == name,
{
}

/// Writes a field name, with quotes only if it is not a standard identifier.
pub fn quote_field_name(name: &str) -> (r: String)
    ensures
        r@ == field_name_text(name@),
        is_standard_name(name@) ==> r@ == name@,
{
    if matches_standard_name(name) {
        String::from_str(name)
    } else {
        debug_quote(name)
    }
}

/// Whether a text reads as a number: an optional sign, then `inf`,
/// `infinity` or `nan` in any case, or decimal digits with an optional
/// point and an optional exponent.
pub open spec fn is_numeric_text(b: Seq<u8>) -> bool {
    let start: int = if b.len() > 0 && is_sign(b[0]) { 1 } else { 0 };
    is_special_number(b.subrange(start, b.len() as int)) || is_decimal_from(b, start)
}

/// `+` or `-`.
pub open spec fn is_sign(c: u8) -> bool {
    c == 0x2b || c == 0x2d
}

/// A decimal digit.
pub open spec fn is_digit(c: u8) -> bool {
    0x30 <= c <= 0x39
}

/// The lower-case form of a letter of the basic Latin alphabet; any other
/// byte is unchanged.
pub open spec fn ascii_lower(c: u8) -> u8 {
    if 0x41 <= c <= 0x5a {
        (c + 0x20) as u8
    } else {
        c
    }
}

/// The bytes spell `word` when case is ignored. `word` is in lower case.
pub open spec fn spells(b: Seq<u8>, word: Seq<u8>) -> bool {
    b.len() == word.len() && forall|i: int| 0 <= i < b.len() ==> ascii_lower(#[trigger] b[i]) == word[i]
}

/// `inf`, `infinity` or `nan`, in any case.
pub open spec fn is_special_number(b: Seq<u8>) -> bool {
    ||| spells(b, seq![0x69u8, 0x6e, 0x66])
    ||| spells(b, seq![0x69u8, 0x6e, 0x66, 0x69, 0x6e, 0x69, 0x74, 0x79])
    ||| spells(b, seq![0x6eu8, 0x61, 0x6e])
}

/// The first position at or after `i` that holds no digit.
pub open spec fn digits_end(b: Seq<u8>, i: int) -> int
    decreases b.len() - i,
{
    if 0 <= i < b.len() && is_digit(b[i]) {
        digits_end(b, i + 1)
    } else {
        i
    }
}

/// From `start` on the bytes are digits with an optional point among them,
/// at least one digit in all, and then nothing or an exponent.
pub open spec fn is_decimal_from(b: Seq<u8>, start: int) -> bool {
    let int_end = digits_end(b, start);
    let has_point = int_end < b.len() && b[int_end] == 0x2e;
    let frac_end = if has_point { digits_end(b, int_end + 1) } else { int_end };
    let digits = if has_point { frac_end - start - 1 } else { int_end - start };
    digits > 0 && (frac_end == b.len() || is_exponent_from(b, frac_end))
}

/// From `at` on the bytes are `e` or `E`, an optional sign and one or more
/// digits, up to the end.
pub open spec fn is_exponent_from(b: Seq<u8>, at: int) -> bool {
    &&& 0 <= at < b.len()
    &&& (b[at] == 0x65 || b[at] == 0x45)
    &&& {
        let first = if at + 1 < b.len() && is_sign(b[at + 1]) { at + 2 } else { at + 1 };
        let end = digits_end(b, first);
        end > first && end == b.len()
    }
}

/// A string value as a highlighter writes it.
#[derive(Debug, PartialEq, Eq)]
pub enum StringValue {
    /// On one line: plain or quoted.
    String(String),
    /// The lines of a block.
    MultiLines(Vec<String>),
}

/// The mathematical model of a `StringValue`.
pub enum StringForm {
    String(Seq<char>),
    MultiLines(Seq<Seq<char>>),
}

/// How a string value is written. An empty string is a pair of quotes. A
/// string with a line feed that is not white space alone is a block of
/// lines. Any other string is quoted if the format demands it, if it reads
/// as a boolean or a number, or if it is not a standard identifier; else it
/// is written as it is.
pub open spec fn string_form(s: Seq<char>, must_quote: bool) -> StringForm {
    if s.len() == 0 {
        StringForm::String("\"\""@)
    } else if trimmed(s).len() > 0 && s.contains('\n') {
        StringForm::MultiLines(lines_of(s))
    } else if must_quote || reads_as_literal(s) || !is_standard_name(s) {
        StringForm::String(debug_quoted(s))
    } else {
        StringForm::String(s)
    }
}

/// The text would be read back as a boolean or a number.
pub open spec fn reads_as_literal(s: Seq<char>) -> bool {
    s == "true"@ || s == "false"@ || is_numeric_text(vstd::utf8::encode_utf8(s))
}

impl StringValue {
    /// The mathematical model of the value.
    pub open spec fn view(&self) -> StringForm {
        match self {
            StringValue::String(s) => StringForm::String(s@),
            StringValue::MultiLines(lines) => StringForm::MultiLines(texts_of(lines@)),
        }
    }

    /// Classifies a string value.
    pub fn new(s: &str, must_quote: bool) -> (r: StringValue)
        ensures
            r@ == string_form(s@, must_quote),
    {
        if s.is_empty() {
            return StringValue::String(String::from_str("\"\""));
        }
        let trim_str = trim(s);
        if !trim_str.is_empty() && contains_char(s, '\n') {
            return StringValue::MultiLines(lines(s));
        }
        if must_quote {
            return StringValue::String(Self::quote_string(s));
        }
        if str_eq(s, "true") || str_eq(s, "false") || Self::is_numeric(s) {
            return StringValue::String(Self::quote_string(s));
        }
        if matches_standard_name(s) {
            StringValue::String(String::from_str(s))
        } else {
            StringValue::String(Self::quote_string(s))
        }
    }

    /// The quoted form of a string.
    pub fn quote_string(s: &str) -> (r: String)
        ensures
            r@ == debug_quoted(s@),
    {
        debug_quote(s)
    }

    /// Whether the text reads as a number.
    pub fn is_numeric(s: &str) -> (r: bool)
        ensures
            r == is_numeric_text(s.spec_bytes()),
    {
        let b = s.as_bytes();
        let n = b.len();
        let start: usize = if n > 0 && (b[0] == 0x2b || b[0] == 0x2d) { 1 } else { 0 };
        if is_special(b, start) {
            return true;
        }
        let int_end = scan_digits(b, start);
        let has_point = int_end < n && b[int_end] == 0x2e;
        let frac_end = if has_point { scan_digits(b, int_end + 1) } else { int_end };
        let digits = if has_point { frac_end - start - 1 } else { int_end - start };
        if digits == 0 {
            return false;
        }
        if frac_end == n {
            return true;
        }
        if !(b[frac_end] == 0x65 || b[frac_end] == 0x45) {
            return false;
        }
        let first = if frac_end + 1 < n && (b[frac_end + 1] == 0x2b || b[frac_end + 1] == 0x2d) {
            frac_end + 2
        } else {
            frac_end + 1
        };
        let end = scan_digits(b, first);
        end > first && end == n
    }
}

fn scan_digits(b: &[u8], from: usize) -> (end: usize)
    requires
        from <= b@.len(),
    ensures
        end == digits_end(b@, from as int),
        from <= end <= b@.len(),
{
    let mut i = from;
    while i < b.len() && 0x30 <= b[i] && b[i] <= 0x39
        invariant
            from <= i <= b@.len(),
            digits_end(b@, from as int) == digits_end(b@, i as int),
        decreases b@.len() - i,
    {
        i += 1;
    }
    i
}

fn lower(c: u8) -> (r: u8)
    ensures
        r == ascii_lower(c),
{
    if 0x41 <= c && c <= 0x5a {
        c + 0x20
    } else {
        c
    }
}

fn spells_word(b: &[u8], start: usize, word: &[u8]) -> (r: bool)
    requires
        start <= b@.len(),
    ensures
        r == spells(b@.subrange(start as int, b@.len() as int), word@),
{
    if b.len() - start != word.len() {
        return false;
    }
    let ghost tail = b@.subrange(start as int, b@.len() as int);
    let mut i: usize = 0;
    while i < word.len()
        invariant
            start <= b@.len() <= usize::MAX,
            b@.len() - start == word@.len(),
            i <= word@.len(),
            tail == b@.subrange(start as int, b@.len() as int),
            forall|k: int| 0 <= k < i ==> ascii_lower(#[trigger] tail[k]) == word@[k],
        decreases word@.len() - i,
    {
        if lower(b[start + i]) != word[i] {
            assert(ascii_lower(tail[i as int]) != word@[i as int]);
            return false;
        }
        i += 1;
    }
    true
}

fn is_special(b: &[u8], start: usize) -> (r: bool)
    requires
        start <= b@.len(),
    ensures
        r == is_special_number(b@.subrange(start as int, b@.len() as int)),
{
    let inf: [u8; 3] = [0x69, 0x6e, 0x66];
    let infinity: [u8; 8] = [0x69, 0x6e, 0x66, 0x69, 0x6e, 0x69, 0x74, 0x79];
    let nan: [u8; 3] = [0x6e, 0x61, 0x6e];
    assert(inf@ =~= seq![0x69u8, 0x6e, 0x66]);
    assert(infinity@ =~= seq![0x69u8, 0x6e, 0x66, 0x69, 0x6e, 0x69, 0x74, 0x79]);
    assert(nan@ =~= seq![0x6eu8, 0x61, 0x6e]);
    spells_word(b, start, inf.as_slice()) || spells_word(b, start, infinity.as_slice())
        || spells_word(b, start, nan.as_slice())
}

/// Whether two texts are the same.
pub fn str_eq(a: &str, b: &str) -> (r: bool)
    ensures
        r == (a@ == b@),
{
    let x = a.as_bytes();
    let y = b.as_bytes();
    proof {
        vstd::utf8::encode_utf8_decode_utf8(a@);
        vstd::utf8::encode_utf8_decode_utf8(b@);
    }
    if x.len() != y.len() {
        return false;
    }
    let mut i: usize = 0;
    while i < x.len()
        invariant
            i <= x@.len(),
            x@.len() == y@.len(),
            a@ == b@ ==> x@ == y@,
            forall|k: int| 0 <= k < i ==> x@[k] == y@[k],
        decreases x@.len() - i,
    {
        if x[i] != y[i] {
            return false;
        }
        i += 1;
    }
    assert(x@ =~= y@);
    true
}

/// Whether a value is an object, or an array that holds a complex value.
pub fn is_value_complex(value: &Node) -> (r: bool)
    ensures
        r == value@.is_complex(),
    decreases value,
{
    match value {
        Node::Object(_) => true,
        Node::Array(arr) => {
            let mut i: usize = 0;
            while i < arr.len()
                invariant
                    i <= arr.len(),
                    value is Array,
                    value->Array_0 == *arr,
                    forall|k: int| 0 <= k < i ==> !(#[trigger] value@->Array_0[k]).is_complex(),
                decreases arr.len() - i,
            {
                proof {
                    assert(decreases_to!(value => value->Array_0));
                    assert(decreases_to!(value->Array_0 => value->Array_0@));
                    assert(decreases_to!(value->Array_0@ => value->Array_0@[i as int]));
                }
                if is_value_complex(&arr[i]) {
                    assert(value@->Array_0[i as int].is_complex());
                    return true;
                }
                i += 1;
            }
            false
        },
        _ => false,
    }
}

} // verus!
