//! Lays a token stream out as styled lines for a viewport of a given width.

use vstd::prelude::*;
use vstd::string::*;
use vstd::utf8::*;

use crate::parse::syntax::{spaces, toks_of, SyntaxToken, Tok};
use crate::parse::wrap::{find_split_position, split_position};

verus! {

/// The columns kept free at the right edge of the viewport.
pub const WRAP_WIDTH_RESERVED: usize = 3;

/// The marker that a wrapped line begins with.
pub const WRAP_SYMBOL: &'static str = "\u{2937} ";

/// The width that the marker takes from a wrapped line.
pub const WRAP_SYMBOL_LEN: usize = 4;

/// The marker is left out where the viewport is not wider than the marker
/// and this many columns.
pub const WRAP_RESERVED: usize = 5;

/// The kind of token that a piece of text came from. The colours are the
/// caller's.
#[derive(Debug, Clone, Copy, PartialEq, Eq, Structural)]
pub enum Style {
    Symbol,
    Name,
    Tag,
    Str,
    Num,
    Null,
    Bool,
    Section,
}

/// A piece of text of one style. Without highlighting, and for indentation,
/// the style is `None`.
#[derive(Debug, PartialEq, Eq)]
pub struct Span {
    pub text: String,
    pub style: Option<Style>,
}

/// The mathematical model of a span.
pub struct SpanView {
    pub text: Seq<char>,
    pub style: Option<Style>,
}

impl Span {
    /// The mathematical model of the value.
    pub open spec fn view(&self) -> SpanView {
        SpanView { text: self.text@, style: self.style }
    }
}

/// The models of the spans of a line.
pub open spec fn spans_of(line: Seq<Span>) -> Seq<SpanView> {
    Seq::new(line.len(), |i: int| line[i]@)
}

/// The models of the lines of a text.
pub open spec fn lines_view(lines: Seq<Vec<Span>>) -> Seq<Seq<SpanView>> {
    Seq::new(lines.len(), |i: int| spans_of(lines[i]@))
}

/// How a token stream is rendered.
#[derive(Debug, Clone, Copy, PartialEq, Eq, Structural)]
pub struct RenderOptions {
    /// Leave every span without a style.
    pub disable_highlight: bool,
    /// Wrap lines that are wider than the viewport.
    pub wrap: bool,
}

/// A rendered token stream: its lines, the number of line ends, and the
/// width of the widest line that was ended.
#[derive(Debug, PartialEq, Eq)]
pub struct Rendered {
    pub lines: Vec<Vec<Span>>,
    pub rows: usize,
    pub columns: usize,
}

/// The mathematical model of a rendered token stream.
pub struct RenderedView {
    pub lines: Seq<Seq<SpanView>>,
    pub rows: usize,
    pub columns: usize,
}

impl Rendered {
    /// The mathematical model of the value.
    pub open spec fn view(&self) -> RenderedView {
        RenderedView { lines: lines_view(self.lines@), rows: self.rows, columns: self.columns }
    }
}

/// The width of a text in terminal columns, as `console::measure_text_width`
/// measures it.
pub uninterp spec fn text_width(s: Seq<char>) -> usize;

/// `console::measure_text_width`: the result is named, not described.
#[verifier::external_body]
fn measure_text_width(s: &str) -> (w: usize)
    ensures
        w == text_width(s@),
{
    console::measure_text_width(s)
}

/// The width of a span in terminal cells, as `ratatui::text::Span::width`
/// measures it.
pub uninterp spec fn cell_width(s: Seq<char>) -> usize;

/// `ratatui::text::Span::width` of a span with the given content: the result
/// is named, not described.
#[verifier::external_body]
fn span_width(s: &str) -> (w: usize)
    ensures
        w == cell_width(s@),
{
    ratatui::text::Span::raw(s).width()
}

/// The state of a layout in progress: the lines that are done, the line
/// that is open and its width, the number of line ends and the width of the
/// widest line that was ended. The counters stay at the largest value a
/// `usize` holds once they reach it.
pub struct Canvas {
    pub lines: Seq<Seq<SpanView>>,
    pub current: Seq<SpanView>,
    pub width: usize,
    pub rows: usize,
    pub max_width: usize,
}

impl Canvas {
    /// The state before the first token.
    pub open spec fn start() -> Canvas {
        Canvas { lines: Seq::empty(), current: Seq::empty(), width: 0, rows: 0, max_width: 0 }
    }

    /// The open line is ended and an empty one is opened.
    pub open spec fn end_line(self) -> Canvas {
        Canvas {
            lines: self.lines.push(self.current),
            current: Seq::empty(),
            width: 0,
            rows: self.rows.saturating_add(1),
            max_width: if self.width > self.max_width {
                self.width
            } else {
                self.max_width
            },
        }
    }

    /// A span of the given width is added to the open line.
    pub open spec fn push(self, text: Seq<char>, style: Option<Style>, width: usize) -> Canvas {
        Canvas {
            current: self.current.push(SpanView { text, style }),
            width: self.width.saturating_add(width),
            ..self
        }
    }

    /// The open line is ended and a wrapped line is opened: it begins with
    /// the marker if the viewport is wide enough for it.
    pub open spec fn wrap_line(self, area: usize) -> Canvas {
        let ended = self.end_line();
        if WRAP_SYMBOL_LEN + WRAP_RESERVED < area {
            Canvas {
                current: seq![SpanView { text: WRAP_SYMBOL@, style: Some(Style::Symbol) }],
                width: WRAP_SYMBOL_LEN,
                ..ended
            }
        } else {
            ended
        }
    }

    /// The width that is left on the open line.
    pub open spec fn available(self, area: usize) -> usize {
        if self.width == 0 {
            area
        } else {
            area.saturating_sub(self.width)
        }
    }

    /// The text is added to the open line, wrapped to the width of the
    /// viewport: as long as it does not fit what is left of the line, it is
    /// split, the first part is added and the rest goes on a wrapped line.
    pub open spec fn wrap(self, bytes: Seq<u8>, style: Option<Style>, area: usize) -> Canvas
        decreases
                bytes.len(),
                (if self.available(area) == 0 {
                    1nat
                } else {
                    0nat
                }),
    {
        if bytes.len() == 0 || area == 0 {
            self
        } else if self.available(area) == 0 {
            self.wrap_line(area).wrap(bytes, style, area)
        } else {
            let text = decode_utf8(bytes);
            let pos = split_position(bytes, self.available(area) as int);
            if text_width(text) <= self.available(area) || pos <= 0 || pos >= bytes.len() {
                self.push(text, style, text_width(text))
            } else {
                let head = decode_utf8(bytes.subrange(0, pos));
                self.push(head, style, text_width(head)).wrap_line(area).wrap(
                    bytes.subrange(pos, bytes.len() as int),
                    style,
                    area,
                )
            }
        }
    }

    /// The effect of one token.
    pub open spec fn step(self, tok: Tok, options: RenderOptions, area: usize) -> Canvas {
        if tok is Break {
            self.end_line()
        } else {
            let style = if options.disable_highlight {
                None
            } else {
                tok_style(tok)
            };
            if options.wrap {
                self.wrap(encode_utf8(tok.text()), style, area)
            } else {
                self.push(tok.text(), style, text_width(tok.text()))
            }
        }
    }

    /// The effect of the first `n` tokens of a stream.
    pub open spec fn run(self, toks: Seq<Tok>, n: nat, options: RenderOptions, area: usize) -> Canvas
        decreases n,
    {
        if n == 0 || n > toks.len() {
            self
        } else {
            self.run(toks, (n - 1) as nat, options, area).step(toks[n - 1], options, area)
        }
    }

    /// The result: the open line counts if it has any width.
    pub open spec fn finish(self) -> RenderedView {
        RenderedView {
            lines: if has_width(self.current) {
                self.lines.push(self.current)
            } else {
                self.lines
            },
            rows: self.rows,
            columns: self.max_width,
        }
    }
}

/// The style of the text of a token. Indentation has none.
pub open spec fn tok_style(tok: Tok) -> Option<Style> {
    match tok {
        Tok::Symbol(_) => Some(Style::Symbol),
        Tok::Name(_) => Some(Style::Name),
        Tok::Tag(_) => Some(Style::Tag),
        Tok::String(_) => Some(Style::Str),
        Tok::Number(_) => Some(Style::Num),
        Tok::Null(_) => Some(Style::Null),
        Tok::Bool(_) => Some(Style::Bool),
        Tok::Section(_) => Some(Style::Section),
        Tok::Break => None,
        Tok::Indent(_) => None,
    }
}

/// A span of the line takes up cells.
pub open spec fn has_width(line: Seq<SpanView>) -> bool {
    exists|i: int| 0 <= i < line.len() && cell_width((#[trigger] line[i]).text) > 0
}

/// The rendering of a token stream for a viewport of the given width.
pub open spec fn rendering(options: RenderOptions, toks: Seq<Tok>, width: usize) -> RenderedView {
    Canvas::start().run(
        toks,
        toks.len(),
        options,
        width.saturating_sub(WRAP_WIDTH_RESERVED),
    ).finish()
}

/// Rendering is a function of its inputs: two results for the same tokens,
/// options and width are the same.
pub proof fn lemma_render_repeatable(
    options: RenderOptions,
    toks: Seq<Tok>,
    width: usize,
    first: RenderedView,
    second: RenderedView,
)
    requires
        first == rendering(options, toks, width),
        second == rendering(options, toks, width),
    ensures
        first == second,
{
}

/// A layout in progress.
pub struct TextWrapper {
    pub lines: Vec<Vec<Span>>,
    pub current_line: Vec<Span>,
    pub current_width: usize,
    pub rows: usize,
    pub max_text_width: usize,
}

impl TextWrapper {
    /// The mathematical model of the value.
    pub open spec fn view(&self) -> Canvas {
        Canvas {
            lines: lines_view(self.lines@),
            current: spans_of(self.current_line@),
            width: self.current_width,
            rows: self.rows,
            max_width: self.max_text_width,
        }
    }

    /// A layout without any text.
    pub fn new() -> (r: TextWrapper)
        ensures
            r@ == Canvas::start(),
    {
        let r = TextWrapper {
            lines: Vec::new(),
            current_line: Vec::new(),
            current_width: 0,
            rows: 0,
            max_text_width: 0,
        };
        assert(lines_view(r.lines@) =~= Seq::empty());
        assert(spans_of(r.current_line@) =~= Seq::empty());
        r
    }

    /// Ends the open line.
    pub fn end_line(&mut self)
        ensures
            final(self)@ == old(self)@.end_line(),
    {
        let mut line: Vec<Span> = Vec::new();
        core::mem::swap(&mut self.current_line, &mut line);
        self.lines.push(line);
        self.rows = self.rows.saturating_add(1);
        if self.current_width > self.max_text_width {
            self.max_text_width = self.current_width;
        }
        self.current_width = 0;
        assert(lines_view(self.lines@) =~= old(self)@.lines.push(old(self)@.current));
        assert(spans_of(self.current_line@) =~= Seq::empty());
    }

    /// Adds a span of the given width to the open line.
    pub fn push(&mut self, text: String, style: Option<Style>, width: usize)
        ensures
            final(self)@ == old(self)@.push(text@, style, width),
    {
        self.current_line.push(Span { text, style });
        self.current_width = self.current_width.saturating_add(width);
        assert(spans_of(self.current_line@) =~= old(self)@.current.push(
            SpanView { text: text@, style },
        ));
    }

    /// Ends the open line and opens a wrapped one.
    pub fn wrap_new_line(&mut self, max_area_width: usize)
        ensures
            final(self)@ == old(self)@.wrap_line(max_area_width),
    {
        self.end_line();
        if WRAP_SYMBOL_LEN + WRAP_RESERVED < max_area_width {
            self.current_line.push(
                Span { text: String::from_str(WRAP_SYMBOL), style: Some(Style::Symbol) },
            );
            self.current_width = WRAP_SYMBOL_LEN;
            assert(spans_of(self.current_line@) =~= seq![
                SpanView { text: WRAP_SYMBOL@, style: Some(Style::Symbol) },
            ]);
        }
    }

    /// Adds a text to the open line, wrapped to the width of the viewport.
    pub fn add_text_with_wrap(&mut self, text: &str, style: Option<Style>, max_area_width: usize)
        ensures
            final(self)@ == old(self)@.wrap(text.spec_bytes(), style, max_area_width),
    {
        broadcast use encode_utf8_valid_utf8, encode_utf8_decode_utf8;

        let ghost goal = self@.wrap(text.spec_bytes(), style, max_area_width);
        if text.is_empty() {
            assert(text.spec_bytes().len() == 0) by {
                assert(text@ =~= Seq::<char>::empty());
                assert(encode_utf8(Seq::<char>::empty()).len() == 0);
            }
            return ;
        }
        if max_area_width == 0 {
            return ;
        }
        proof {
            encode_utf8_first_scalar(text@);
        }
        let mut rest: &str = text;
        let mut done = false;
        while !done
            invariant
                max_area_width > 0,
                !done ==> rest.spec_bytes().len() > 0 && self@.wrap(
                    rest.spec_bytes(),
                    style,
                    max_area_width,
                ) == goal,
                done ==> self@ == goal,
            decreases
                    (if done {
                        0nat
                    } else {
                        1nat
                    }),
                    rest.spec_bytes().len(),
                    (if self@.available(max_area_width) == 0 {
                        1nat
                    } else {
                        0nat
                    }),
        {
            let ghost bytes = rest.spec_bytes();
            let ghost prev = self@;
            proof {
                encode_utf8_valid_utf8(rest@);
                encode_utf8_decode_utf8(rest@);
                assert(bytes == encode_utf8(rest@));
                assert(decode_utf8(bytes) == rest@);
            }
            let available_width = if self.current_width == 0 {
                max_area_width
            } else {
                max_area_width.saturating_sub(self.current_width)
            };
            if available_width == 0 {
                self.wrap_new_line(max_area_width);
                assert(prev.wrap(bytes, style, max_area_width) == prev.wrap_line(
                    max_area_width,
                ).wrap(bytes, style, max_area_width));
            } else {
                let remaining_width = measure_text_width(rest);
                if remaining_width <= available_width {
                    self.push(String::from_str(rest), style, remaining_width);
                    done = true;
                    assert(prev.wrap(bytes, style, max_area_width) == prev.push(
                        rest@,
                        style,
                        remaining_width,
                    ));
                } else {
                    let split_pos = find_split_position(rest, available_width);
                    let len = rest.as_bytes().len();
                    if split_pos >= len {
                        self.push(String::from_str(rest), style, remaining_width);
                        done = true;
                        assert(prev.wrap(bytes, style, max_area_width) == prev.push(
                            rest@,
                            style,
                            remaining_width,
                        ));
                    } else {
                        let (current_part, tail) = rest.split_at(split_pos);
                        proof {
                            assert(current_part.spec_bytes() == bytes.subrange(0, split_pos as int));
                            assert(tail.spec_bytes() == bytes.subrange(
                                split_pos as int,
                                bytes.len() as int,
                            ));
                        }
                        let current_part_width = measure_text_width(current_part);
                        self.push(String::from_str(current_part), style, current_part_width);
                        rest = tail;
                        self.wrap_new_line(max_area_width);
                        proof {
                            let head = decode_utf8(bytes.subrange(0, split_pos as int));
                            encode_utf8_valid_utf8(current_part@);
                            encode_utf8_decode_utf8(current_part@);
                            assert(bytes.subrange(0, split_pos as int) == encode_utf8(
                                current_part@,
                            ));
                            assert(head == current_part@);
                            assert(prev.wrap(bytes, style, max_area_width) == prev.push(
                                head,
                                style,
                                text_width(head),
                            ).wrap_line(max_area_width).wrap(
                                bytes.subrange(split_pos as int, bytes.len() as int),
                                style,
                                max_area_width,
                            ));
                        }
                    }
                }
            }
        }
    }

    /// Whether the open line takes up any cells.
    pub fn current_has_width(&self) -> (r: bool)
        ensures
            r == has_width(self@.current),
    {
        let mut i: usize = 0;
        while i < self.current_line.len()
            invariant
                i <= self.current_line@.len(),
                forall|k: int|
                    0 <= k < i ==> cell_width((#[trigger] spans_of(self.current_line@)[k]).text) == 0,
            decreases self.current_line@.len() - i,
        {
            if span_width(self.current_line[i].text.as_str()) > 0 {
                assert(cell_width(spans_of(self.current_line@)[i as int].text) > 0);
                return true;
            }
            i += 1;
        }
        false
    }
}

/// The text of `indent` levels of indentation.
pub fn indent_text(indent: usize) -> (text: String)
    ensures
        text@ == spaces(2 * (indent as nat)),
{
    let mut text = String::new();
    let mut k: usize = 0;
    assert(text@ =~= spaces(0));
    while k < indent
        invariant
            k <= indent,
            text@ == spaces(2 * (k as nat)),
        decreases indent - k,
    {
        proof {
            reveal_strlit("  ");
            assert(spaces(2 * (k as nat)) + "  "@ =~= spaces(2 * ((k + 1) as nat)));
        }
        text.append("  ");
        k += 1;
    }
    text
}

impl SyntaxToken {
    /// Renders a token stream for a viewport of the given width.
    pub fn render(options: &RenderOptions, tokens: &[SyntaxToken], width: usize) -> (r: Rendered)
        ensures
            r@ == rendering(*options, toks_of(tokens@), width),
    {
        let area = width.saturating_sub(WRAP_WIDTH_RESERVED);
        let ghost toks = toks_of(tokens@);
        let mut wrapper = TextWrapper::new();
        let mut i: usize = 0;
        while i < tokens.len()
            invariant
                i <= tokens.len(),
                toks == toks_of(tokens@),
                wrapper@ == Canvas::start().run(toks, i as nat, *options, area),
            decreases tokens.len() - i,
        {
            let ghost tok = toks[i as int];
            let owned: String;
            let (text, kind): (&str, Option<Style>) = match &tokens[i] {
                SyntaxToken::Symbol(s) => (*s, Some(Style::Symbol)),
                SyntaxToken::Name(s) => (s.as_str(), Some(Style::Name)),
                SyntaxToken::Tag(s) => (s.as_str(), Some(Style::Tag)),
                SyntaxToken::String(s) => (s.as_str(), Some(Style::Str)),
                SyntaxToken::Number(s) => (s.as_str(), Some(Style::Num)),
                SyntaxToken::Null(s) => (*s, Some(Style::Null)),
                SyntaxToken::Bool(s) => (*s, Some(Style::Bool)),
                SyntaxToken::Section(s) => (s.as_str(), Some(Style::Section)),
                SyntaxToken::Break => ("", None),
                SyntaxToken::Indent(indent) => {
                    owned = indent_text(*indent);
                    (owned.as_str(), None)
                },
            };
            if is_break_token(&tokens[i]) {
                wrapper.end_line();
            } else {
                assert(text@ == tok.text());
                assert(kind == tok_style(tok));
                let style = if options.disable_highlight { None } else { kind };
                if options.wrap {
                    wrapper.add_text_with_wrap(text, style, area);
                } else {
                    let w = measure_text_width(text);
                    wrapper.push(String::from_str(text), style, w);
                }
            }
            i += 1;
        }
        let last = wrapper.current_has_width();
        let TextWrapper { mut lines, current_line, current_width: _, rows, max_text_width } =
            wrapper;
        if last {
            let ghost before = lines_view(lines@);
            let ghost line = spans_of(current_line@);
            lines.push(current_line);
            assert(lines_view(lines@) =~= before.push(line));
        }
        Rendered { lines, rows, columns: max_text_width }
    }
}

fn is_break_token(token: &SyntaxToken) -> (r: bool)
    ensures
        r == (token@ is Break),
{
    match token {
        SyntaxToken::Break => true,
        _ => false,
    }
}

} // verus!
