//! The line at the bottom of the screen.

use vstd::prelude::*;
use vstd::string::*;
use vstd::utf8::encode_utf8;

use crate::text::{char_text, decimal, decimal_text, texts_of};

verus! {

/// What the footer shows.
#[derive(Debug, PartialEq, Eq)]
pub enum FooterText<'a> {
    /// The roots that the tree was changed to, and the selected item.
    Identify(&'a [String], Option<String>),
    Message(String),
    /// Nothing.
    Empty,
}

/// What a piece of the footer stands for.
#[derive(Debug, Clone, Copy, PartialEq, Eq, Structural)]
pub enum FooterStyle {
    Root,
    Identify,
    Message,
    Plain,
}

/// A piece of the footer.
#[derive(Debug, PartialEq, Eq)]
pub struct FooterSpan {
    pub text: String,
    pub style: FooterStyle,
}

/// The mathematical model of a `FooterSpan`.
pub struct FooterSpanView {
    pub text: Seq<char>,
    pub style: FooterStyle,
}

impl FooterSpan {
    /// The mathematical model of the value.
    pub open spec fn view(&self) -> FooterSpanView {
        FooterSpanView { text: self.text@, style: self.style }
    }
}

/// The models of the pieces of a footer.
pub open spec fn spans_of(spans: Seq<FooterSpan>) -> Seq<FooterSpanView> {
    Seq::new(spans.len(), |i: int| spans[i]@)
}

/// A name as the footer shows it.
pub open spec fn label(name: Seq<char>) -> Seq<char> {
    " /"@ + name + " "@
}

/// A name in short: its first character, or `?` if it has none.
pub open spec fn short_label(name: Seq<char>) -> Seq<char> {
    " /"@ + seq![if name.len() > 0 { name[0] } else { '?' }] + ".. "@
}

/// The number of bytes of a text, and one more for the space behind it, as
/// far as a `usize` counts.
pub open spec fn width_with_space(text: Seq<char>) -> usize {
    byte_len(text).saturating_add(1)
}

/// The number of bytes of a text.
pub open spec fn byte_len(text: Seq<char>) -> usize {
    encode_utf8(text).len() as usize
}

/// The sum of the first `n` widths, as far as a `usize` counts.
pub open spec fn total(widths: Seq<usize>, n: nat) -> usize
    decreases n,
{
    if n == 0 || n > widths.len() {
        0
    } else {
        total(widths, (n - 1) as nat).saturating_add(widths[n - 1])
    }
}

/// The footer while it is fitted to the width of the screen: its pieces
/// and the width of each root and of the selected item.
pub struct Fitting {
    pub spans: Seq<FooterSpanView>,
    pub widths: Seq<usize>,
    pub done: bool,
}

/// The footer in full: each of the first `n` roots with a space behind it.
pub open spec fn full_roots(roots: Seq<Seq<char>>, n: nat) -> Fitting
    decreases n,
{
    if n == 0 || n > roots.len() {
        Fitting { spans: Seq::empty(), widths: Seq::empty(), done: false }
    } else {
        let before = full_roots(roots, (n - 1) as nat);
        Fitting {
            spans: before.spans.push(
                FooterSpanView { text: label(roots[n - 1]), style: FooterStyle::Root },
            ).push(FooterSpanView { text: " "@, style: FooterStyle::Plain }),
            widths: before.widths.push(width_with_space(label(roots[n - 1]))),
            done: false,
        }
    }
}

/// The footer in full: the roots and the selected item.
pub open spec fn full(roots: Seq<Seq<char>>, identify: Option<Seq<char>>) -> Fitting {
    let all = full_roots(roots, roots.len());
    match identify {
        Some(id) => Fitting {
            spans: all.spans.push(FooterSpanView { text: label(id), style: FooterStyle::Identify }),
            widths: all.widths.push(byte_len(label(id))),
            done: false,
        },
        None => all,
    }
}

/// The footer after the first `n` roots were looked at to be shortened:
/// from the left, a root is shortened as long as the footer is not narrower
/// than the screen.
pub open spec fn shortened(start: Fitting, roots: Seq<Seq<char>>, n: nat, width: usize) -> Fitting
    decreases n,
{
    if n == 0 || n > roots.len() {
        start
    } else {
        let before = shortened(start, roots, (n - 1) as nat, width);
        if before.done || total(before.widths, before.widths.len()) < width {
            Fitting { done: true, ..before }
        } else {
            Fitting {
                spans: before.spans.update(
                    2 * (n - 1),
                    FooterSpanView { text: short_label(roots[n - 1]), style: FooterStyle::Root },
                ),
                widths: before.widths.update(n - 1, width_with_space(short_label(roots[n - 1]))),
                done: false,
            }
        }
    }
}

/// How many roots are left out, and the widths that remain, after the
/// first `n` roots were looked at: from the left, a root is left out as
/// long as the footer with the room for the count is not narrower than the
/// screen.
pub struct Omitting {
    pub widths: Seq<usize>,
    pub count: nat,
    pub done: bool,
}

/// The roots that are left out after the first `n` roots were looked at.
pub open spec fn omitted(widths: Seq<usize>, n: nat, reserve: usize, width: usize) -> Omitting
    decreases n,
{
    if n == 0 {
        Omitting { widths, count: 0, done: false }
    } else {
        let before = omitted(widths, (n - 1) as nat, reserve, width);
        if before.done || n > before.widths.len() || total(
            before.widths,
            before.widths.len(),
        ).saturating_add(reserve) < width {
            Omitting { done: true, ..before }
        } else {
            Omitting {
                widths: before.widths.update(n - 1, 0),
                count: before.count + 1,
                done: false,
            }
        }
    }
}

/// The room for the count of the roots that are left out.
pub open spec fn reserve_width(roots: nat) -> usize {
    byte_len(decimal_text(roots)).saturating_add(3)
}

/// The pieces of the footer for the roots and the selected item on a
/// screen of the given width. The roots are shortened from the left to
/// their first character as long as the footer does not fit. If it is
/// still too wide, roots are left out from the left, and their number is
/// shown in their place.
pub open spec fn identify_spans(roots: Seq<Seq<char>>, identify: Option<Seq<char>>, width: usize) -> Seq<
    FooterSpanView,
> {
    let short = shortened(full(roots, identify), roots, roots.len(), width);
    if total(short.widths, short.widths.len()) > width {
        let reserve = reserve_width(roots.len());
        let left_out = omitted(short.widths.push(reserve), roots.len(), reserve, width);
        if left_out.count > 0 {
            seq![
                FooterSpanView {
                    text: decimal_text(left_out.count) + ".."@,
                    style: FooterStyle::Root,
                },
                FooterSpanView { text: " "@, style: FooterStyle::Plain },
            ] + short.spans.subrange(2 * (left_out.count as int), short.spans.len() as int)
        } else {
            short.spans
        }
    } else {
        short.spans
    }
}

/// The pieces of the footer.
pub open spec fn footer_spans(text: FooterText, width: usize) -> Seq<FooterSpanView> {
    match text {
        FooterText::Identify(roots, identify) => identify_spans(
            texts_of(roots@),
            match identify {
                Some(id) => Some(id@),
                None => None,
            },
            width,
        ),
        FooterText::Message(message) => seq![
            FooterSpanView { text: message@, style: FooterStyle::Message },
        ],
        FooterText::Empty => Seq::empty(),
    }
}

fn sum(widths: &Vec<usize>) -> (r: usize)
    ensures
        r == total(widths@, widths@.len()),
{
    let mut r: usize = 0;
    let mut i: usize = 0;
    while i < widths.len()
        invariant
            i <= widths.len(),
            r == total(widths@, i as nat),
        decreases widths.len() - i,
    {
        r = r.saturating_add(widths[i]);
        i += 1;
    }
    r
}

fn make_label(name: &str) -> (r: String)
    ensures
        r@ == label(name@),
{
    String::from_str(" /").concat(name).concat(" ")
}

fn make_short_label(name: &str) -> (r: String)
    ensures
        r@ == short_label(name@),
{
    let first = if name.unicode_len() > 0 { name.get_char(0) } else { '?' };
    String::from_str(" /").concat(char_text(first).as_str()).concat(".. ")
}

fn length(text: &str) -> (r: usize)
    ensures
        r == byte_len(text@),
{
    text.as_bytes().len()
}

/// Lays out the footer for a screen of the given width.
pub fn footer_line(text: &FooterText, width: usize) -> (r: Vec<FooterSpan>)
    ensures
        spans_of(r@) == footer_spans(*text, width),
{
    match text {
        FooterText::Identify(roots, identify) => {
            let ghost names = texts_of(roots@);
            let mut spans: Vec<FooterSpan> = Vec::new();
            let mut widths: Vec<usize> = Vec::new();
            let mut i: usize = 0;
            assert(spans_of(spans@) =~= Seq::<FooterSpanView>::empty());
            while i < roots.len()
                invariant
                    i <= roots@.len(),
                    names == texts_of(roots@),
                    spans@.len() == 2 * i,
                    widths@.len() == i,
                    full_roots(names, i as nat) == (Fitting {
                        spans: spans_of(spans@),
                        widths: widths@,
                        done: false,
                    }),
                decreases roots@.len() - i,
            {
                let ghost before = spans_of(spans@);
                let root = make_label(roots[i].as_str());
                widths.push(length(root.as_str()).saturating_add(1));
                spans.push(FooterSpan { text: root, style: FooterStyle::Root });
                spans.push(FooterSpan { text: String::from_str(" "), style: FooterStyle::Plain });
                assert(spans_of(spans@) =~= before.push(
                    FooterSpanView { text: label(names[i as int]), style: FooterStyle::Root },
                ).push(FooterSpanView { text: " "@, style: FooterStyle::Plain }));
                i += 1;
            }
            match identify {
                Some(id) => {
                    let ghost before = spans_of(spans@);
                    let shown = make_label(id.as_str());
                    widths.push(length(shown.as_str()));
                    spans.push(FooterSpan { text: shown, style: FooterStyle::Identify });
                    assert(spans_of(spans@) =~= before.push(
                        FooterSpanView { text: label(id@), style: FooterStyle::Identify },
                    ));
                },
                None => {},
            }
            let ghost start = full(
                names,
                match identify {
                    Some(id) => Some(id@),
                    None => None,
                },
            );
            assert(start.spans == spans_of(spans@) && start.widths == widths@);
            let pieces = spans.len();
            assert(2 * roots@.len() <= pieces);
            let mut idx: usize = 0;
            let mut done = false;
            while idx < roots.len() && !done
                invariant
                    idx <= roots@.len(),
                    names == texts_of(roots@),
                    usize::MAX >= spans@.len() >= 2 * roots@.len(),
                    widths@.len() >= roots@.len(),
                    shortened(start, names, idx as nat, width) == (Fitting {
                        spans: spans_of(spans@),
                        widths: widths@,
                        done,
                    }),
                decreases roots@.len() - idx + (if done { 0int } else { 1int }),
            {
                let ghost before = spans_of(spans@);
                if sum(&widths) < width {
                    done = true;
                } else {
                    let short = make_short_label(roots[idx].as_str());
                    widths.set(idx, length(short.as_str()).saturating_add(1));
                    spans.set(idx * 2, FooterSpan { text: short, style: FooterStyle::Root });
                    assert(spans_of(spans@) =~= before.update(
                        2 * idx,
                        FooterSpanView {
                            text: short_label(names[idx as int]),
                            style: FooterStyle::Root,
                        },
                    ));
                }
                idx += 1;
            }
            proof {
                lemma_shortened_done(start, names, idx as nat, names.len(), width);
            }
            let ghost short = shortened(start, names, names.len(), width);
            assert(short.spans == spans_of(spans@) && short.widths == widths@);
            assert(2 * roots@.len() <= spans@.len() <= usize::MAX);
            if sum(&widths) > width {
                let reserve = length(decimal(roots.len()).as_str()).saturating_add(3);
                widths.push(reserve);
                let ghost first = widths@;
                let mut omit_count: usize = 0;
                let mut idx: usize = 0;
                let mut done = false;
                while idx < roots.len() && !done
                    invariant
                        idx <= roots@.len(),
                        omit_count <= idx,
                        2 * roots@.len() <= usize::MAX,
                        widths@.len() == first.len(),
                        first.len() > roots@.len(),
                        omitted(first, idx as nat, reserve, width) == (Omitting {
                            widths: widths@,
                            count: omit_count as nat,
                            done,
                        }),
                    decreases roots@.len() - idx + (if done { 0int } else { 1int }),
                {
                    if sum(&widths).saturating_add(reserve) < width {
                        done = true;
                    } else {
                        widths.set(idx, 0);
                        omit_count += 1;
                    }
                    idx += 1;
                }
                proof {
                    lemma_omitted_done(first, idx as nat, roots@.len(), reserve, width);
                }
                if omit_count > 0 {
                    let mut out: Vec<FooterSpan> = Vec::new();
                    out.push(
                        FooterSpan {
                            text: decimal(omit_count).concat(".."),
                            style: FooterStyle::Root,
                        },
                    );
                    out.push(FooterSpan { text: String::from_str(" "), style: FooterStyle::Plain });
                    let ghost head = spans_of(out@);
                    let ghost all = spans_of(spans@);
                    let skip = 2 * omit_count;
                    let mut rest = spans.split_off(skip);
                    assert(spans_of(rest@) =~= all.subrange(skip as int, all.len() as int));
                    out.append(&mut rest);
                    assert(spans_of(out@) =~= head + all.subrange(skip as int, all.len() as int));
                    assert(head =~= seq![
                        FooterSpanView {
                            text: decimal_text(omit_count as nat) + ".."@,
                            style: FooterStyle::Root,
                        },
                        FooterSpanView { text: " "@, style: FooterStyle::Plain },
                    ]);
                    return out;
                }
            }
            spans
        },
        FooterText::Message(message) => {
            let mut spans: Vec<FooterSpan> = Vec::new();
            spans.push(FooterSpan { text: message.clone(), style: FooterStyle::Message });
            assert(spans_of(spans@) =~= seq![
                FooterSpanView { text: message@, style: FooterStyle::Message },
            ]);
            spans
        },
        FooterText::Empty => {
            let spans: Vec<FooterSpan> = Vec::new();
            assert(spans_of(spans@) =~= Seq::<FooterSpanView>::empty());
            spans
        },
    }
}

/// Once the footer fits, the roots after that stay as they are.
pub proof fn lemma_shortened_done(start: Fitting, roots: Seq<Seq<char>>, n: nat, m: nat, width: usize)
    requires
        n <= m <= roots.len(),
        shortened(start, roots, n, width).done || n == m,
    ensures
        shortened(start, roots, m, width).spans == shortened(start, roots, n, width).spans,
        shortened(start, roots, m, width).widths == shortened(start, roots, n, width).widths,
    decreases m - n,
{
    if n < m {
        lemma_shortened_done(start, roots, n, (m - 1) as nat, width);
        lemma_shortened_stays_done(start, roots, n, (m - 1) as nat, width);
    }
}

proof fn lemma_shortened_stays_done(start: Fitting, roots: Seq<Seq<char>>, n: nat, m: nat, width: usize)
    requires
        n <= m <= roots.len(),
        shortened(start, roots, n, width).done,
    ensures
        shortened(start, roots, m, width).done,
    decreases m - n,
{
    if n < m {
        lemma_shortened_stays_done(start, roots, n, (m - 1) as nat, width);
    }
}

/// Once the footer fits, no further root is left out.
pub proof fn lemma_omitted_done(widths: Seq<usize>, n: nat, m: nat, reserve: usize, width: usize)
    requires
        n <= m,
        omitted(widths, n, reserve, width).done || n == m,
    ensures
        omitted(widths, m, reserve, width).widths == omitted(widths, n, reserve, width).widths,
        omitted(widths, m, reserve, width).count == omitted(widths, n, reserve, width).count,
        omitted(widths, n, reserve, width).done ==> omitted(widths, m, reserve, width).done,
    decreases m - n,
{
    if n < m {
        lemma_omitted_done(widths, n, (m - 1) as nat, reserve, width);
    }
}

} // verus!
