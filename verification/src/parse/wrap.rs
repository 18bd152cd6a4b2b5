//! Where a text is split so that it fits a given width.

use vstd::prelude::*;
use vstd::string::*;
use vstd::utf8::*;

verus! {

/// How far back from the width a separator is looked for.
pub const WRAP_LOOKBACK: usize = 10;

/// A space or a tab.
pub open spec fn is_separator(b: u8) -> bool {
    b == 0x20 || b == 0x09
}

/// The last position in `lo..hi` that holds a separator.
pub open spec fn last_separator(bytes: Seq<u8>, lo: int, hi: int) -> Option<int>
    decreases hi - lo,
{
    if hi <= lo {
        None
    } else if is_separator(bytes[hi - 1]) {
        Some(hi - 1)
    } else {
        last_separator(bytes, lo, hi - 1)
    }
}

/// The last character boundary at or before `pos`.
pub open spec fn boundary_before(bytes: Seq<u8>, pos: int) -> int
    decreases pos,
{
    if pos <= 0 {
        0
    } else if is_char_boundary(bytes, pos) {
        pos
    } else {
        boundary_before(bytes, pos - 1)
    }
}

/// The first character boundary at or after `pos`; the end of the text is
/// one.
pub open spec fn boundary_after(bytes: Seq<u8>, pos: int) -> int
    decreases bytes.len() - pos,
{
    if pos >= bytes.len() {
        bytes.len() as int
    } else if is_char_boundary(bytes, pos) {
        pos
    } else {
        boundary_after(bytes, pos + 1)
    }
}

/// Where a text is split to fit `max_width` bytes. A text that fits is not
/// split. Else the split is behind the last separator among the ten bytes
/// before the width, or at the width if there is none, moved back to a
/// character boundary; and behind the first character if that would leave
/// nothing before the split.
pub open spec fn split_position(bytes: Seq<u8>, max_width: int) -> int {
    if bytes.len() <= max_width {
        bytes.len() as int
    } else {
        let lo = if max_width >= WRAP_LOOKBACK {
            max_width - WRAP_LOOKBACK
        } else {
            0
        };
        let best = match last_separator(bytes, lo, max_width) {
            Some(i) => i + 1,
            None => max_width,
        };
        let back = boundary_before(bytes, best);
        if back == 0 {
            boundary_after(bytes, 1)
        } else {
            back
        }
    }
}

/// No character boundary lies strictly between `from` and `to`.
pub open spec fn no_boundary_between(bytes: Seq<u8>, from: int, to: int) -> bool {
    forall|j: int| from < j < to ==> !is_char_boundary(bytes, j)
}

/// The last separator of a range lies in the range.
pub proof fn lemma_last_separator(bytes: Seq<u8>, lo: int, hi: int)
    ensures
        last_separator(bytes, lo, hi) matches Some(i) ==> lo <= i < hi,
    decreases hi - lo,
{
    if hi > lo && !is_separator(bytes[hi - 1]) {
        lemma_last_separator(bytes, lo, hi - 1);
    }
}

/// The last boundary at or before a position is a boundary, not behind the
/// position.
pub proof fn lemma_boundary_before(bytes: Seq<u8>, pos: int)
    requires
        valid_utf8(bytes),
        0 <= pos <= bytes.len(),
    ensures
        0 <= boundary_before(bytes, pos) <= pos,
        is_char_boundary(bytes, boundary_before(bytes, pos)),
    decreases pos,
{
    if pos > 0 && !is_char_boundary(bytes, pos) {
        lemma_boundary_before(bytes, pos - 1);
    }
}

/// The first boundary at or after a position is a boundary within the text,
/// and no boundary lies between the position and it.
pub proof fn lemma_boundary_after(bytes: Seq<u8>, pos: int)
    requires
        valid_utf8(bytes),
        0 <= pos <= bytes.len(),
    ensures
        pos <= boundary_after(bytes, pos) <= bytes.len(),
        is_char_boundary(bytes, boundary_after(bytes, pos)),
        no_boundary_between(bytes, pos - 1, boundary_after(bytes, pos)),
    decreases bytes.len() - pos,
{
    is_char_boundary_start_end_of_seq(bytes);
    if pos < bytes.len() && !is_char_boundary(bytes, pos) {
        lemma_boundary_after(bytes, pos + 1);
    }
}

/// The split of a text that is not empty is a character boundary behind the
/// start. What stands before it fits the width, unless it is one character.
pub proof fn lemma_split_position(bytes: Seq<u8>, max_width: int)
    requires
        valid_utf8(bytes),
        0 <= max_width,
    ensures
        0 <= split_position(bytes, max_width) <= bytes.len(),
        bytes.len() > 0 ==> split_position(bytes, max_width) > 0,
        is_char_boundary(bytes, split_position(bytes, max_width)),
        split_position(bytes, max_width) <= max_width || no_boundary_between(
            bytes,
            0,
            split_position(bytes, max_width),
        ),
{
    is_char_boundary_start_end_of_seq(bytes);
    if bytes.len() > max_width {
        let lo = if max_width >= WRAP_LOOKBACK {
            max_width - WRAP_LOOKBACK
        } else {
            0
        };
        lemma_last_separator(bytes, lo, max_width);
        let best = match last_separator(bytes, lo, max_width) {
            Some(i) => i + 1,
            None => max_width,
        };
        lemma_boundary_before(bytes, best);
        if boundary_before(bytes, best) == 0 {
            lemma_boundary_after(bytes, 1);
        }
    }
}

/// Finds the byte position at which `text` is split to fit `max_width`.
pub fn find_split_position(text: &str, max_width: usize) -> (pos: usize)
    ensures
        pos == split_position(text.spec_bytes(), max_width as int),
        pos <= text.spec_bytes().len(),
        text@.len() > 0 ==> pos > 0,
        is_char_boundary(text.spec_bytes(), pos as int),
        pos <= max_width || no_boundary_between(text.spec_bytes(), 0, pos as int),
{
    broadcast use encode_utf8_valid_utf8;

    let ghost all = text.spec_bytes();
    proof {
        lemma_split_position(all, max_width as int);
        if text@.len() > 0 {
            encode_utf8_first_scalar(text@);
        }
    }
    let bytes = text.as_bytes();
    let len = bytes.len();
    if len <= max_width {
        return len;
    }
    let mut best_pos = max_width;
    let lo = if max_width >= WRAP_LOOKBACK { max_width - WRAP_LOOKBACK } else { 0 };
    let mut i = max_width;
    let mut found = false;
    while i > lo && !found
        invariant
            lo <= i <= max_width < all.len(),
            bytes@ == all,
            all.len() == len,
            best_pos <= max_width,
            !found ==> best_pos == max_width && last_separator(all, lo as int, max_width as int)
                == last_separator(all, lo as int, i as int),
            found ==> last_separator(all, lo as int, max_width as int) == Some(best_pos - 1),
        decreases i - lo + (if found { 0int } else { 1int }),
    {
        if bytes[i - 1] == 0x20 || bytes[i - 1] == 0x09 {
            best_pos = i;
            found = true;
        } else {
            i -= 1;
        }
    }
    assert(best_pos == match last_separator(all, lo as int, max_width as int) {
        Some(i) => i + 1,
        None => max_width as int,
    });
    let ghost best = best_pos;
    while best_pos > 0 && !text.is_char_boundary(best_pos)
        invariant
            best_pos <= all.len() <= usize::MAX,
            all == text.spec_bytes(),
            boundary_before(all, best as int) == boundary_before(all, best_pos as int),
        decreases best_pos,
    {
        best_pos -= 1;
    }
    if best_pos == 0 {
        best_pos = 1;
        while best_pos < len && !text.is_char_boundary(best_pos)
            invariant
                1 <= best_pos <= all.len() <= usize::MAX,
                len == all.len(),
                all == text.spec_bytes(),
                boundary_after(all, 1) == boundary_after(all, best_pos as int),
            decreases all.len() - best_pos,
        {
            best_pos += 1;
        }
    }
    best_pos
}

/// The parts that a text falls into when it is split again and again.
pub open spec fn split_parts(bytes: Seq<u8>, max_width: int) -> Seq<Seq<u8>>
    decreases bytes.len(),
{
    let pos = split_position(bytes, max_width);
    if bytes.len() == 0 {
        Seq::empty()
    } else if 0 < pos < bytes.len() {
        seq![bytes.subrange(0, pos)] + split_parts(
            bytes.subrange(pos, bytes.len() as int),
            max_width,
        )
    } else {
        seq![bytes]
    }
}

/// The parts one after the other.
pub open spec fn joined(parts: Seq<Seq<u8>>) -> Seq<u8>
    decreases parts.len(),
{
    if parts.len() == 0 {
        Seq::empty()
    } else {
        parts[0] + joined(parts.drop_first())
    }
}

/// A text of one character: it is valid, not empty, and no character
/// boundary lies inside it.
pub open spec fn is_one_char(part: Seq<u8>) -> bool {
    valid_utf8(part) && part.len() > 0 && no_boundary_between(part, 0, part.len() as int)
}

/// A text without a character boundary inside it holds one character.
pub proof fn lemma_one_char(part: Seq<u8>)
    requires
        is_one_char(part),
    ensures
        decode_utf8(part).len() == 1,
{
    let k = length_of_first_scalar(part);
    reveal_with_fuel(is_char_boundary, 2);
    reveal_with_fuel(decode_utf8, 2);
    assert(valid_first_scalar(part));
    assert(0 < k <= part.len());
    assert(is_char_boundary(part, k));
    assert(k == part.len());
    assert(pop_first_scalar(part).len() == 0);
}

/// The boundaries of the first part of a split are those of the whole text.
pub proof fn lemma_prefix_boundaries(bytes: Seq<u8>, pos: int, j: int)
    requires
        valid_utf8(bytes),
        is_char_boundary(bytes, pos),
        0 <= j < pos <= bytes.len(),
    ensures
        is_char_boundary(bytes.subrange(0, pos), j) == is_char_boundary(bytes, j),
{
    valid_utf8_split(bytes, pos);
    let part = bytes.subrange(0, pos);
    is_char_boundary_iff_not_is_continuation_byte(bytes, j);
    is_char_boundary_iff_not_is_continuation_byte(part, j);
}

/// Splitting a text again and again and joining the parts gives the text
/// back. Every part is valid UTF-8 and not empty, so no split falls inside a
/// character. Every part fits the width, unless it is one character.
pub proof fn lemma_split_parts(bytes: Seq<u8>, max_width: int)
    requires
        valid_utf8(bytes),
        0 <= max_width,
    ensures
        joined(split_parts(bytes, max_width)) == bytes,
        forall|k: int|
            0 <= k < split_parts(bytes, max_width).len() ==> {
                let part = #[trigger] split_parts(bytes, max_width)[k];
                &&& valid_utf8(part)
                &&& part.len() > 0
                &&& (part.len() <= max_width || is_one_char(part))
            },
    decreases bytes.len(),
{
    let pos = split_position(bytes, max_width);
    let parts = split_parts(bytes, max_width);
    lemma_split_position(bytes, max_width);
    if bytes.len() == 0 {
    } else {
        let head = bytes.subrange(0, pos);
        assert(head.len() <= max_width || is_one_char(head)) by {
            valid_utf8_split(bytes, pos);
            if pos > max_width {
                assert forall|j: int| 0 < j < head.len() implies !is_char_boundary(head, j) by {
                    lemma_prefix_boundaries(bytes, pos, j);
                }
            }
        }
        if pos < bytes.len() {
            let rest = bytes.subrange(pos, bytes.len() as int);
            valid_utf8_split(bytes, pos);
            lemma_split_parts(rest, max_width);
            let tail = split_parts(rest, max_width);
            assert(parts =~= seq![head] + tail);
            assert(parts.drop_first() =~= tail);
            assert(joined(parts) =~= head + joined(tail));
            assert(head + rest =~= bytes);
            assert forall|k: int| 0 <= k < parts.len() implies {
                let part = #[trigger] parts[k];
                &&& valid_utf8(part)
                &&& part.len() > 0
                &&& (part.len() <= max_width || is_one_char(part))
            } by {
                if k > 0 {
                    assert(parts[k] == tail[k - 1]);
                }
            }
        } else {
            assert(head =~= bytes);
            assert(parts =~= seq![bytes]);
            assert(parts.drop_first() =~= Seq::<Seq<u8>>::empty());
            assert(joined(parts) =~= bytes + joined(Seq::<Seq<u8>>::empty()));
            assert(joined(parts) =~= bytes);
        }
    }
}

/// A part of a split that is wider than the width holds one character.
pub proof fn lemma_wide_part_is_one_char(bytes: Seq<u8>, max_width: int, k: int)
    requires
        valid_utf8(bytes),
        0 <= max_width,
        0 <= k < split_parts(bytes, max_width).len(),
        split_parts(bytes, max_width)[k].len() > max_width,
    ensures
        decode_utf8(split_parts(bytes, max_width)[k]).len() == 1,
{
    lemma_split_parts(bytes, max_width);
    lemma_one_char(split_parts(bytes, max_width)[k]);
}

} // verus!
