//! Key bindings: the notation of keys and the actions that they are bound to.

use vstd::prelude::*;
use vstd::string::*;

use crate::parse::syntax::str_eq;
use crate::text::texts_of;

verus! {

/// A key of the keyboard.
#[derive(Debug, Clone, Copy, PartialEq, Eq, Structural)]
pub enum Key {
    Char(char),
    Ctrl(char),
    Alt(char),
    F(u8),
    Backspace,
    Enter,
    Left,
    Right,
    Up,
    Down,
    PageUp,
    PageDown,
    Tab,
    Esc,
}

/// The modifier keys that are held while a key is pressed.
#[derive(Debug, Clone, Copy, PartialEq, Eq, Structural)]
pub enum Modifiers {
    /// No modifier.
    Plain,
    /// The control key alone.
    Control,
    /// The alt key alone.
    Alt,
    /// The shift key alone.
    Shift,
    /// Any other modifier, or several at once.
    Other,
}

/// What the terminal reports of a key that was pressed.
#[derive(Debug, Clone, Copy, PartialEq, Eq, Structural)]
pub enum Pressed {
    Char(char),
    Backspace,
    Enter,
    Left,
    Right,
    Up,
    Down,
    PageUp,
    PageDown,
    Tab,
    Esc,
    F(u8),
    /// Any other key.
    Other,
}

/// The key of a key press. With control or alt only a character is a key;
/// a character with shift is the character; with any other modifier there
/// is no key.
pub open spec fn pressed_key(modifiers: Modifiers, code: Pressed) -> Option<Key> {
    match (modifiers, code) {
        (Modifiers::Control, Pressed::Char(c)) => Some(Key::Ctrl(c)),
        (Modifiers::Alt, Pressed::Char(c)) => Some(Key::Alt(c)),
        (Modifiers::Shift, Pressed::Char(c)) => Some(Key::Char(c)),
        (Modifiers::Plain, Pressed::Char(c)) => Some(Key::Char(c)),
        (Modifiers::Plain, Pressed::Backspace) => Some(Key::Backspace),
        (Modifiers::Plain, Pressed::Enter) => Some(Key::Enter),
        (Modifiers::Plain, Pressed::Left) => Some(Key::Left),
        (Modifiers::Plain, Pressed::Right) => Some(Key::Right),
        (Modifiers::Plain, Pressed::Up) => Some(Key::Up),
        (Modifiers::Plain, Pressed::Down) => Some(Key::Down),
        (Modifiers::Plain, Pressed::PageUp) => Some(Key::PageUp),
        (Modifiers::Plain, Pressed::PageDown) => Some(Key::PageDown),
        (Modifiers::Plain, Pressed::Tab) => Some(Key::Tab),
        (Modifiers::Plain, Pressed::Esc) => Some(Key::Esc),
        (Modifiers::Plain, Pressed::F(n)) => Some(Key::F(n)),
        _ => None,
    }
}

/// Why the notation of a key was refused.
#[derive(Debug, Clone, Copy, PartialEq, Eq, Structural)]
pub enum KeyError {
    /// A plain key is not one byte long.
    Length,
    /// A key in angle brackets does not end with `>`.
    Unclosed,
    /// `<ctrl-x>` with anything but one byte for `x`.
    Ctrl,
    /// `<alt-x>` with anything but one byte for `x`.
    Alt,
    /// `<fN>` where `N` is no number.
    Function,
    /// `<fN>` where `N` is not between 1 and 12.
    FunctionRange,
    /// A name in angle brackets that stands for no key.
    Unsupported,
    /// The key is bound to another action already.
    Duplicate,
}

/// What the user can do.
#[derive(Debug, Clone, Copy, PartialEq, Eq, Structural)]
pub enum Action {
    MoveUp,
    MoveDown,
    MoveLeft,
    MoveRight,
    SelectFocus,
    SelectParent,
    SelectFirst,
    SelectLast,
    CloseParent,
    ChangeRoot,
    Reset,
    PageUp,
    PageDown,
    ChangeLayout,
    TreeScaleUp,
    TreeScaleDown,
    Switch,
    Edit,
    CopyName,
    CopyValue,
    Filter,
    FilterKey,
    FilterValue,
    FilterSwitchIgnoreCase,
    Quit,
}

/// A key that was pressed, with the action that it is bound to.
#[derive(Debug, Clone, Copy, PartialEq, Eq, Structural)]
pub struct KeyAction {
    pub key: Key,
    pub action: Option<Action>,
}

/// The bytes from `from` on begin with `prefix`.
pub open spec fn has_prefix(b: Seq<u8>, from: int, prefix: Seq<u8>) -> bool {
    0 <= from && from + prefix.len() <= b.len() && b.subrange(from, from + prefix.len()) == prefix
}

/// The number that decimal digits spell, if every byte is a digit and the
/// number fits a byte. `acc` is the number of the digits before them.
pub open spec fn digits_value(b: Seq<u8>, acc: int) -> Option<u8>
    decreases b.len(),
{
    if b.len() == 0 {
        Some(acc as u8)
    } else if 0x30 <= b[0] <= 0x39 && acc * 10 + (b[0] - 0x30) <= 255 {
        digits_value(b.drop_first(), acc * 10 + (b[0] - 0x30))
    } else {
        None
    }
}

/// The number that a text spells as `u8::from_str` reads it: an optional
/// `+` and one or more decimal digits, not above 255.
pub open spec fn byte_value(b: Seq<u8>) -> Option<u8> {
    let digits = if b.len() > 0 && b[0] == 0x2b {
        b.drop_first()
    } else {
        b
    };
    if digits.len() == 0 {
        None
    } else {
        digits_value(digits, 0)
    }
}

/// The bytes without `-` and `_`.
pub open spec fn without_dashes(b: Seq<u8>) -> Seq<u8>
    decreases b.len(),
{
    if b.len() == 0 {
        Seq::empty()
    } else if b.last() == 0x2d || b.last() == 0x5f {
        without_dashes(b.drop_last())
    } else {
        without_dashes(b.drop_last()).push(b.last())
    }
}

/// The key of a name in angle brackets, with `-` and `_` left out.
pub open spec fn named_key(name: Seq<u8>) -> Result<Key, KeyError> {
    if name == "backspace".spec_bytes() {
        Ok(Key::Backspace)
    } else if name == "enter".spec_bytes() {
        Ok(Key::Enter)
    } else if name == "left".spec_bytes() {
        Ok(Key::Left)
    } else if name == "right".spec_bytes() {
        Ok(Key::Right)
    } else if name == "up".spec_bytes() {
        Ok(Key::Up)
    } else if name == "down".spec_bytes() {
        Ok(Key::Down)
    } else if name == "pageup".spec_bytes() {
        Ok(Key::PageUp)
    } else if name == "pagedown".spec_bytes() {
        Ok(Key::PageDown)
    } else if name == "tab".spec_bytes() {
        Ok(Key::Tab)
    } else if name == "esc".spec_bytes() {
        Ok(Key::Esc)
    } else {
        Err(KeyError::Unsupported)
    }
}

/// The key that a notation stands for. A single byte is the key of that
/// character. `<ctrl-x>` and `<alt-x>` are `x` with a modifier, `<fN>` is a
/// function key, and any other name in angle brackets is a named key.
pub open spec fn parsed_key(b: Seq<u8>) -> Result<Key, KeyError> {
    if !(b.len() > 0 && b[0] == 0x3c) {
        if b.len() != 1 {
            Err(KeyError::Length)
        } else {
            Ok(Key::Char(b[0] as char))
        }
    } else if b.last() != 0x3e || b.len() < 2 {
        Err(KeyError::Unclosed)
    } else {
        let inner = b.subrange(1, b.len() - 1);
        if has_prefix(inner, 0, "ctrl-".spec_bytes()) {
            if inner.len() != 6 {
                Err(KeyError::Ctrl)
            } else {
                Ok(Key::Ctrl(inner[5] as char))
            }
        } else if has_prefix(inner, 0, "alt-".spec_bytes()) {
            if inner.len() != 5 {
                Err(KeyError::Alt)
            } else {
                Ok(Key::Alt(inner[4] as char))
            }
        } else if inner.len() > 0 && inner[0] == 0x66 {
            match byte_value(inner.drop_first()) {
                None => Err(KeyError::Function),
                Some(n) => if n == 0 || n > 12 {
                    Err(KeyError::FunctionRange)
                } else {
                    Ok(Key::F(n))
                },
            }
        } else {
            named_key(without_dashes(inner))
        }
    }
}

/// Whether two byte strings are the same.
pub fn bytes_eq(a: &[u8], b: &[u8]) -> (r: bool)
    ensures
        r == (a@ == b@),
{
    if a.len() != b.len() {
        return false;
    }
    let mut i: usize = 0;
    while i < a.len()
        invariant
            i <= a@.len(),
            a@.len() == b@.len(),
            forall|k: int| 0 <= k < i ==> a@[k] == b@[k],
        decreases a@.len() - i,
    {
        if a[i] != b[i] {
            return false;
        }
        i += 1;
    }
    assert(a@ =~= b@);
    true
}

fn starts_with(b: &[u8], from: usize, prefix: &[u8]) -> (r: bool)
    requires
        from <= b@.len(),
    ensures
        r == has_prefix(b@, from as int, prefix@),
{
    if b.len() - from < prefix.len() {
        return false;
    }
    let mut i: usize = 0;
    while i < prefix.len()
        invariant
            i <= prefix@.len(),
            from + prefix@.len() <= b@.len() <= usize::MAX,
            forall|k: int| 0 <= k < i ==> b@[from + k] == prefix@[k],
        decreases prefix@.len() - i,
    {
        if b[from + i] != prefix[i] {
            assert(b@.subrange(from as int, from + prefix@.len())[i as int] != prefix@[i as int]);
            return false;
        }
        i += 1;
    }
    assert(b@.subrange(from as int, from + prefix@.len()) =~= prefix@);
    true
}

fn parse_byte(b: &[u8], from: usize, to: usize) -> (r: Option<u8>)
    requires
        from <= to <= b@.len(),
    ensures
        r == byte_value(b@.subrange(from as int, to as int)),
{
    let ghost text = b@.subrange(from as int, to as int);
    let mut i = from;
    if i < to && b[i] == 0x2b {
        i += 1;
        assert(b@.subrange(i as int, to as int) =~= text.drop_first());
    }
    if i == to {
        return None;
    }
    let ghost digits = b@.subrange(i as int, to as int);
    let mut acc: u8 = 0;
    while i < to
        invariant
            from <= i <= to <= b@.len(),
            byte_value(b@.subrange(from as int, to as int)) == digits_value(digits, 0),
            digits_value(b@.subrange(i as int, to as int), acc as int) == digits_value(digits, 0),
        decreases to - i,
    {
        let ghost rest = b@.subrange(i as int, to as int);
        assert(rest.drop_first() =~= b@.subrange(i + 1, to as int));
        assert(rest[0] == b@[i as int]);
        let c = b[i];
        if !(0x30 <= c && c <= 0x39) {
            return None;
        }
        let d = c - 0x30;
        if acc > 25 || (acc == 25 && d > 5) {
            return None;
        }
        acc = acc * 10 + d;
        i += 1;
    }
    assert(b@.subrange(i as int, to as int).len() == 0);
    Some(acc)
}

fn strip_dashes(b: &[u8], from: usize, to: usize) -> (r: Vec<u8>)
    requires
        from <= to <= b@.len(),
    ensures
        r@ == without_dashes(b@.subrange(from as int, to as int)),
{
    let mut out: Vec<u8> = Vec::new();
    let mut i = from;
    assert(b@.subrange(from as int, from as int) =~= Seq::<u8>::empty());
    while i < to
        invariant
            from <= i <= to <= b@.len(),
            out@ == without_dashes(b@.subrange(from as int, i as int)),
        decreases to - i,
    {
        let ghost next = b@.subrange(from as int, i + 1);
        assert(next.drop_last() =~= b@.subrange(from as int, i as int));
        assert(next.last() == b@[i as int]);
        if !(b[i] == 0x2d || b[i] == 0x5f) {
            out.push(b[i]);
        }
        i += 1;
    }
    out
}

fn named(name: &[u8]) -> (r: Result<Key, KeyError>)
    ensures
        r == named_key(name@),
{
    if bytes_eq(name, "backspace".as_bytes()) {
        Ok(Key::Backspace)
    } else if bytes_eq(name, "enter".as_bytes()) {
        Ok(Key::Enter)
    } else if bytes_eq(name, "left".as_bytes()) {
        Ok(Key::Left)
    } else if bytes_eq(name, "right".as_bytes()) {
        Ok(Key::Right)
    } else if bytes_eq(name, "up".as_bytes()) {
        Ok(Key::Up)
    } else if bytes_eq(name, "down".as_bytes()) {
        Ok(Key::Down)
    } else if bytes_eq(name, "pageup".as_bytes()) {
        Ok(Key::PageUp)
    } else if bytes_eq(name, "pagedown".as_bytes()) {
        Ok(Key::PageDown)
    } else if bytes_eq(name, "tab".as_bytes()) {
        Ok(Key::Tab)
    } else if bytes_eq(name, "esc".as_bytes()) {
        Ok(Key::Esc)
    } else {
        Err(KeyError::Unsupported)
    }
}

impl Key {
    /// The key of a key press.
    pub fn from_event(modifiers: Modifiers, code: Pressed) -> (r: Option<Key>)
        ensures
            r == pressed_key(modifiers, code),
    {
        match modifiers {
            Modifiers::Control => {
                return match code {
                    Pressed::Char(c) => Some(Key::Ctrl(c)),
                    _ => None,
                };
            },
            Modifiers::Alt => {
                return match code {
                    Pressed::Char(c) => Some(Key::Alt(c)),
                    _ => None,
                };
            },
            Modifiers::Shift => {
                return match code {
                    Pressed::Char(c) => Some(Key::Char(c)),
                    _ => None,
                };
            },
            Modifiers::Other => {
                return None;
            },
            Modifiers::Plain => {},
        }
        match code {
            Pressed::Char(c) => Some(Key::Char(c)),
            Pressed::Backspace => Some(Key::Backspace),
            Pressed::Enter => Some(Key::Enter),
            Pressed::Left => Some(Key::Left),
            Pressed::Right => Some(Key::Right),
            Pressed::Up => Some(Key::Up),
            Pressed::Down => Some(Key::Down),
            Pressed::PageUp => Some(Key::PageUp),
            Pressed::PageDown => Some(Key::PageDown),
            Pressed::Tab => Some(Key::Tab),
            Pressed::Esc => Some(Key::Esc),
            Pressed::F(n) => Some(Key::F(n)),
            Pressed::Other => None,
        }
    }

    /// Reads the notation of a key.
    pub fn parse(key: &str) -> (r: Result<Key, KeyError>)
        ensures
            r == parsed_key(key.spec_bytes()),
    {
        let b = key.as_bytes();
        let n = b.len();
        if !(n > 0 && b[0] == 0x3c) {
            if n != 1 {
                return Err(KeyError::Length);
            }
            return Ok(Key::Char(b[0] as char));
        }
        if b[n - 1] != 0x3e || n < 2 {
            return Err(KeyError::Unclosed);
        }
        let ghost inner = b@.subrange(1, n - 1);
        proof {
            reveal_strlit("ctrl-");
            reveal_strlit("alt-");
            assert("ctrl-".spec_bytes().len() == 5) by {
                vstd::utf8::is_ascii_chars_encode_utf8("ctrl-"@);
            }
            assert("alt-".spec_bytes().len() == 4) by {
                vstd::utf8::is_ascii_chars_encode_utf8("alt-"@);
            }
        }
        if starts_with(b, 1, "ctrl-".as_bytes()) && n >= 7 {
            assert(has_prefix(inner, 0, "ctrl-".spec_bytes())) by {
                assert(inner.subrange(0, 5) =~= b@.subrange(1, 6));
            }
            if n != 8 {
                return Err(KeyError::Ctrl);
            }
            return Ok(Key::Ctrl(b[6] as char));
        }
        assert(!has_prefix(inner, 0, "ctrl-".spec_bytes())) by {
            if has_prefix(inner, 0, "ctrl-".spec_bytes()) {
                assert(inner.subrange(0, 5) =~= b@.subrange(1, 6));
            }
        }
        if starts_with(b, 1, "alt-".as_bytes()) && n >= 6 {
            assert(has_prefix(inner, 0, "alt-".spec_bytes())) by {
                assert(inner.subrange(0, 4) =~= b@.subrange(1, 5));
            }
            if n != 7 {
                return Err(KeyError::Alt);
            }
            return Ok(Key::Alt(b[5] as char));
        }
        assert(!has_prefix(inner, 0, "alt-".spec_bytes())) by {
            if has_prefix(inner, 0, "alt-".spec_bytes()) {
                assert(inner.subrange(0, 4) =~= b@.subrange(1, 5));
            }
        }
        if n > 2 && b[1] == 0x66 {
            assert(inner.drop_first() =~= b@.subrange(2, n - 1));
            return match parse_byte(b, 2, n - 1) {
                None => Err(KeyError::Function),
                Some(f) => {
                    if f == 0 || f > 12 {
                        Err(KeyError::FunctionRange)
                    } else {
                        Ok(Key::F(f))
                    }
                },
            };
        }
        let name = strip_dashes(b, 1, n - 1);
        named(name.as_slice())
    }

    /// Reads the notations of the keys of one action. `unique` holds the
    /// notations that are bound already: a notation that is among them is
    /// refused, any other joins them.
    pub fn parse_keys(raw_keys: &Vec<String>, unique: &mut Vec<String>) -> (r: Result<
        Vec<Key>,
        KeyError,
    >)
        ensures
            match parsed_keys(texts_of(raw_keys@), raw_keys@.len(), texts_of(old(unique)@)) {
                Ok((keys, seen)) => r is Ok && r->Ok_0@ == keys && texts_of(final(unique)@) == seen,
                Err(e) => r == Err::<Vec<Key>, KeyError>(e),
            },
    {
        let ghost texts = texts_of(raw_keys@);
        let ghost start = texts_of(unique@);
        let mut keys: Vec<Key> = Vec::new();
        let mut i: usize = 0;
        while i < raw_keys.len()
            invariant
                i <= raw_keys.len(),
                texts == texts_of(raw_keys@),
                start == texts_of(old(unique)@),
                parsed_keys(texts, i as nat, start) == Ok::<(Seq<Key>, Seq<Seq<char>>), KeyError>(
                    (keys@, texts_of(unique@)),
                ),
            decreases raw_keys.len() - i,
        {
            let ghost seen = texts_of(unique@);
            assert(texts[i as int] == raw_keys@[i as int]@);
            if contains_text(unique, raw_keys[i].as_str()) {
                proof {
                    assert(parsed_keys(texts, (i + 1) as nat, start) == Err::<
                        (Seq<Key>, Seq<Seq<char>>),
                        KeyError,
                    >(KeyError::Duplicate));
                    lemma_parsed_keys_fail(texts, (i + 1) as nat, texts.len(), start);
                }
                return Err(KeyError::Duplicate);
            }
            unique.push(raw_keys[i].clone());
            assert(texts_of(unique@) =~= seen.push(texts[i as int]));
            match Key::parse(raw_keys[i].as_str()) {
                Ok(key) => {
                    keys.push(key);
                },
                Err(e) => {
                    proof {
                        assert(parsed_keys(texts, (i + 1) as nat, start) == Err::<
                            (Seq<Key>, Seq<Seq<char>>),
                            KeyError,
                        >(e));
                        lemma_parsed_keys_fail(texts, (i + 1) as nat, texts.len(), start);
                    }
                    return Err(e);
                },
            }
            i += 1;
        }
        Ok(keys)
    }
}

/// Whether a text is among the given ones.
pub fn contains_text(list: &Vec<String>, text: &str) -> (r: bool)
    ensures
        r == texts_of(list@).contains(text@),
{
    let mut i: usize = 0;
    while i < list.len()
        invariant
            i <= list.len(),
            forall|k: int| 0 <= k < i ==> texts_of(list@)[k] != text@,
        decreases list.len() - i,
    {
        if str_eq(list[i].as_str(), text) {
            assert(texts_of(list@)[i as int] == text@);
            return true;
        }
        i += 1;
    }
    false
}

/// The keys of the first `n` notations, and the notations that are bound
/// after them; or why the first notation that is refused is refused.
pub open spec fn parsed_keys(raw: Seq<Seq<char>>, n: nat, seen: Seq<Seq<char>>) -> Result<
    (Seq<Key>, Seq<Seq<char>>),
    KeyError,
>
    decreases n,
{
    if n == 0 || n > raw.len() {
        Ok((Seq::empty(), seen))
    } else {
        match parsed_keys(raw, (n - 1) as nat, seen) {
            Err(e) => Err(e),
            Ok((keys, seen)) => if seen.contains(raw[n - 1]) {
                Err(KeyError::Duplicate)
            } else {
                match parsed_key(vstd::utf8::encode_utf8(raw[n - 1])) {
                    Ok(key) => Ok((keys.push(key), seen.push(raw[n - 1]))),
                    Err(e) => Err(e),
                }
            },
        }
    }
}

/// Once a notation has been refused, the notations after it change nothing.
pub proof fn lemma_parsed_keys_fail(raw: Seq<Seq<char>>, n: nat, m: nat, seen: Seq<Seq<char>>)
    requires
        n <= m <= raw.len(),
        parsed_keys(raw, n, seen) is Err,
    ensures
        parsed_keys(raw, m, seen) == parsed_keys(raw, n, seen),
    decreases m - n,
{
    if n < m {
        lemma_parsed_keys_fail(raw, n, (m - 1) as nat, seen);
    }
}

/// The keys that each action is bound to, in their notation.
#[derive(Debug, PartialEq, Eq)]
pub struct Keys {
    pub move_up: Vec<String>,
    pub move_down: Vec<String>,
    pub move_left: Vec<String>,
    pub move_right: Vec<String>,
    pub select_focus: Vec<String>,
    pub select_parent: Vec<String>,
    pub select_first: Vec<String>,
    pub select_last: Vec<String>,
    pub close_parent: Vec<String>,
    pub change_root: Vec<String>,
    pub reset: Vec<String>,
    pub page_up: Vec<String>,
    pub page_down: Vec<String>,
    pub change_layout: Vec<String>,
    pub tree_scale_up: Vec<String>,
    pub tree_scale_down: Vec<String>,
    pub switch: Vec<String>,
    pub edit: Vec<String>,
    pub copy_name: Vec<String>,
    pub copy_value: Vec<String>,
    pub filter: Vec<String>,
    pub filter_key: Vec<String>,
    pub filter_value: Vec<String>,
    pub filter_switch_ignore_case: Vec<String>,
    pub quit: Vec<String>,
    /// The bindings as keys, once `parse` has read them.
    pub actions: Vec<(Vec<Key>, Action)>,
}

/// The texts of a list of literals.
pub open spec fn literal_texts(list: Seq<&'static str>) -> Seq<Seq<char>> {
    Seq::new(list.len(), |i: int| list[i]@)
}

/// The strings of a list of literals.
pub fn strings(list: &[&'static str]) -> (r: Vec<String>)
    ensures
        texts_of(r@) == literal_texts(list@),
{
    let mut out: Vec<String> = Vec::new();
    let mut i: usize = 0;
    while i < list.len()
        invariant
            i <= list@.len(),
            out@.len() == i,
            forall|k: int| 0 <= k < i ==> (#[trigger] out@[k])@ == list@[k]@,
        decreases list@.len() - i,
    {
        out.push(String::from_str(list[i]));
        i += 1;
    }
    assert(texts_of(out@) =~= literal_texts(list@));
    out
}

/// The action that a key is bound to by the first `n` bindings: that of the
/// last binding that holds the key.
pub open spec fn bound_action(actions: Seq<(Vec<Key>, Action)>, n: nat, key: Key) -> Option<Action>
    decreases n,
{
    if n == 0 || n > actions.len() {
        None
    } else if actions[n - 1].0@.contains(key) {
        Some(actions[n - 1].1)
    } else {
        bound_action(actions, (n - 1) as nat, key)
    }
}

impl Keys {
    /// The keys of `move_up` unless the user sets others.
    pub fn default_move_up() -> (r: Vec<String>)
        ensures
            texts_of(r@) == seq!["k"@, "<up>"@],
    {
        let list: [&'static str; 2] = ["k", "<up>"];
        let r = strings(list.as_slice());
        assert(literal_texts(list@) =~= seq!["k"@, "<up>"@]);
        r
    }

    /// The keys of `move_down` unless the user sets others.
    pub fn default_move_down() -> (r: Vec<String>)
        ensures
            texts_of(r@) == seq!["j"@, "<down>"@],
    {
        let list: [&'static str; 2] = ["j", "<down>"];
        let r = strings(list.as_slice());
        assert(literal_texts(list@) =~= seq!["j"@, "<down>"@]);
        r
    }

    /// The keys of `move_left` unless the user sets others.
    pub fn default_move_left() -> (r: Vec<String>)
        ensures
            texts_of(r@) == seq!["h"@, "<left>"@],
    {
        let list: [&'static str; 2] = ["h", "<left>"];
        let r = strings(list.as_slice());
        assert(literal_texts(list@) =~= seq!["h"@, "<left>"@]);
        r
    }

    /// The keys of `move_right` unless the user sets others.
    pub fn default_move_right() -> (r: Vec<String>)
        ensures
            texts_of(r@) == seq!["l"@, "<right>"@],
    {
        let list: [&'static str; 2] = ["l", "<right>"];
        let r = strings(list.as_slice());
        assert(literal_texts(list@) =~= seq!["l"@, "<right>"@]);
        r
    }

    /// The keys of `select_focus` unless the user sets others.
    pub fn default_select_focus() -> (r: Vec<String>)
        ensures
            texts_of(r@) == seq!["<enter>"@],
    {
        let list: [&'static str; 1] = ["<enter>"];
        let r = strings(list.as_slice());
        assert(literal_texts(list@) =~= seq!["<enter>"@]);
        r
    }

    /// The keys of `select_parent` unless the user sets others.
    pub fn default_select_parent() -> (r: Vec<String>)
        ensures
            texts_of(r@) == seq!["p"@],
    {
        let list: [&'static str; 1] = ["p"];
        let r = strings(list.as_slice());
        assert(literal_texts(list@) =~= seq!["p"@]);
        r
    }

    /// The keys of `select_first` unless the user sets others.
    pub fn default_select_first() -> (r: Vec<String>)
        ensures
            texts_of(r@) == seq!["g"@, "<ctrl-a>"@],
    {
        let list: [&'static str; 2] = ["g", "<ctrl-a>"];
        let r = strings(list.as_slice());
        assert(literal_texts(list@) =~= seq!["g"@, "<ctrl-a>"@]);
        r
    }

    /// The keys of `select_last` unless the user sets others.
    pub fn default_select_last() -> (r: Vec<String>)
        ensures
            texts_of(r@) == seq!["G"@, "<ctrl-l>"@],
    {
        let list: [&'static str; 2] = ["G", "<ctrl-l>"];
        let r = strings(list.as_slice());
        assert(literal_texts(list@) =~= seq!["G"@, "<ctrl-l>"@]);
        r
    }

    /// The keys of `close_parent` unless the user sets others.
    pub fn default_close_parent() -> (r: Vec<String>)
        ensures
            texts_of(r@) == seq!["<backspace>"@],
    {
        let list: [&'static str; 1] = ["<backspace>"];
        let r = strings(list.as_slice());
        assert(literal_texts(list@) =~= seq!["<backspace>"@]);
        r
    }

    /// The keys of `change_root` unless the user sets others.
    pub fn default_change_root() -> (r: Vec<String>)
        ensures
            texts_of(r@) == seq!["r"@],
    {
        let list: [&'static str; 1] = ["r"];
        let r = strings(list.as_slice());
        assert(literal_texts(list@) =~= seq!["r"@]);
        r
    }

    /// The keys of `reset` unless the user sets others.
    pub fn default_reset() -> (r: Vec<String>)
        ensures
            texts_of(r@) == seq!["<esc>"@],
    {
        let list: [&'static str; 1] = ["<esc>"];
        let r = strings(list.as_slice());
        assert(literal_texts(list@) =~= seq!["<esc>"@]);
        r
    }

    /// The keys of `page_up` unless the user sets others.
    pub fn default_page_up() -> (r: Vec<String>)
        ensures
            texts_of(r@) == seq!["<page-up>"@, "<ctrl-y>"@],
    {
        let list: [&'static str; 2] = ["<page-up>", "<ctrl-y>"];
        let r = strings(list.as_slice());
        assert(literal_texts(list@) =~= seq!["<page-up>"@, "<ctrl-y>"@]);
        r
    }

    /// The keys of `page_down` unless the user sets others.
    pub fn default_page_down() -> (r: Vec<String>)
        ensures
            texts_of(r@) == seq!["<page-down>"@, "<ctrl-e>"@],
    {
        let list: [&'static str; 2] = ["<page-down>", "<ctrl-e>"];
        let r = strings(list.as_slice());
        assert(literal_texts(list@) =~= seq!["<page-down>"@, "<ctrl-e>"@]);
        r
    }

    /// The keys of `change_layout` unless the user sets others.
    pub fn default_change_layout() -> (r: Vec<String>)
        ensures
            texts_of(r@) == seq!["v"@],
    {
        let list: [&'static str; 1] = ["v"];
        let r = strings(list.as_slice());
        assert(literal_texts(list@) =~= seq!["v"@]);
        r
    }

    /// The keys of `tree_scale_up` unless the user sets others.
    pub fn default_tree_scale_up() -> (r: Vec<String>)
        ensures
            texts_of(r@) == seq!["["@],
    {
        let list: [&'static str; 1] = ["["];
        let r = strings(list.as_slice());
        assert(literal_texts(list@) =~= seq!["["@]);
        r
    }

    /// The keys of `tree_scale_down` unless the user sets others.
    pub fn default_tree_scale_down() -> (r: Vec<String>)
        ensures
            texts_of(r@) == seq!["]"@],
    {
        let list: [&'static str; 1] = ["]"];
        let r = strings(list.as_slice());
        assert(literal_texts(list@) =~= seq!["]"@]);
        r
    }

    /// The keys of `switch` unless the user sets others.
    pub fn default_switch() -> (r: Vec<String>)
        ensures
            texts_of(r@) == seq!["<tab>"@],
    {
        let list: [&'static str; 1] = ["<tab>"];
        let r = strings(list.as_slice());
        assert(literal_texts(list@) =~= seq!["<tab>"@]);
        r
    }

    /// The keys of `edit` unless the user sets others.
    pub fn default_edit() -> (r: Vec<String>)
        ensures
            texts_of(r@) == seq!["e"@],
    {
        let list: [&'static str; 1] = ["e"];
        let r = strings(list.as_slice());
        assert(literal_texts(list@) =~= seq!["e"@]);
        r
    }

    /// The keys of `copy_name` unless the user sets others.
    pub fn default_copy_name() -> (r: Vec<String>)
        ensures
            texts_of(r@) == seq!["y"@],
    {
        let list: [&'static str; 1] = ["y"];
        let r = strings(list.as_slice());
        assert(literal_texts(list@) =~= seq!["y"@]);
        r
    }

    /// The keys of `copy_value` unless the user sets others.
    pub fn default_copy_value() -> (r: Vec<String>)
        ensures
            texts_of(r@) == seq!["Y"@],
    {
        let list: [&'static str; 1] = ["Y"];
        let r = strings(list.as_slice());
        assert(literal_texts(list@) =~= seq!["Y"@]);
        r
    }

    /// The keys of `filter` unless the user sets others.
    pub fn default_filter() -> (r: Vec<String>)
        ensures
            texts_of(r@) == seq!["/"@],
    {
        let list: [&'static str; 1] = ["/"];
        let r = strings(list.as_slice());
        assert(literal_texts(list@) =~= seq!["/"@]);
        r
    }

    /// The keys of `filter_key` unless the user sets others.
    pub fn default_filter_key() -> (r: Vec<String>)
        ensures
            texts_of(r@) == seq!["?"@],
    {
        let list: [&'static str; 1] = ["?"];
        let r = strings(list.as_slice());
        assert(literal_texts(list@) =~= seq!["?"@]);
        r
    }

    /// The keys of `filter_value` unless the user sets others.
    pub fn default_filter_value() -> (r: Vec<String>)
        ensures
            texts_of(r@) == seq!["*"@],
    {
        let list: [&'static str; 1] = ["*"];
        let r = strings(list.as_slice());
        assert(literal_texts(list@) =~= seq!["*"@]);
        r
    }

    /// The keys of `filter_switch_ignore_case` unless the user sets others.
    pub fn default_filter_switch_ignore_case() -> (r: Vec<String>)
        ensures
            texts_of(r@) == seq!["I"@],
    {
        let list: [&'static str; 1] = ["I"];
        let r = strings(list.as_slice());
        assert(literal_texts(list@) =~= seq!["I"@]);
        r
    }

    /// The keys of `quit` unless the user sets others.
    pub fn default_quit() -> (r: Vec<String>)
        ensures
            texts_of(r@) == seq!["<ctrl-c>"@, "q"@],
    {
        let list: [&'static str; 2] = ["<ctrl-c>", "q"];
        let r = strings(list.as_slice());
        assert(literal_texts(list@) =~= seq!["<ctrl-c>"@, "q"@]);
        r
    }

    /// The bindings are those that hold unless the user sets others, and
    /// no keys have been read.
    pub open spec fn is_default(&self) -> bool {
        &&& self.actions@.len() == 0
        &&& texts_of(self.move_up@) == seq!["k"@, "<up>"@]
        &&& texts_of(self.move_down@) == seq!["j"@, "<down>"@]
        &&& texts_of(self.move_left@) == seq!["h"@, "<left>"@]
        &&& texts_of(self.move_right@) == seq!["l"@, "<right>"@]
        &&& texts_of(self.select_focus@) == seq!["<enter>"@]
        &&& texts_of(self.select_parent@) == seq!["p"@]
        &&& texts_of(self.select_first@) == seq!["g"@, "<ctrl-a>"@]
        &&& texts_of(self.select_last@) == seq!["G"@, "<ctrl-l>"@]
        &&& texts_of(self.close_parent@) == seq!["<backspace>"@]
        &&& texts_of(self.change_root@) == seq!["r"@]
        &&& texts_of(self.reset@) == seq!["<esc>"@]
        &&& texts_of(self.page_up@) == seq!["<page-up>"@, "<ctrl-y>"@]
        &&& texts_of(self.page_down@) == seq!["<page-down>"@, "<ctrl-e>"@]
        &&& texts_of(self.change_layout@) == seq!["v"@]
        &&& texts_of(self.tree_scale_up@) == seq!["["@]
        &&& texts_of(self.tree_scale_down@) == seq!["]"@]
        &&& texts_of(self.switch@) == seq!["<tab>"@]
        &&& texts_of(self.edit@) == seq!["e"@]
        &&& texts_of(self.copy_name@) == seq!["y"@]
        &&& texts_of(self.copy_value@) == seq!["Y"@]
        &&& texts_of(self.filter@) == seq!["/"@]
        &&& texts_of(self.filter_key@) == seq!["?"@]
        &&& texts_of(self.filter_value@) == seq!["*"@]
        &&& texts_of(self.filter_switch_ignore_case@) == seq!["I"@]
        &&& texts_of(self.quit@) == seq!["<ctrl-c>"@, "q"@]
    }

    /// The bindings that hold unless the user sets others.
    pub fn default() -> (r: Keys)
        ensures
            r.is_default(),
    {
        Keys {
            move_up: Keys::default_move_up(),
            move_down: Keys::default_move_down(),
            move_left: Keys::default_move_left(),
            move_right: Keys::default_move_right(),
            select_focus: Keys::default_select_focus(),
            select_parent: Keys::default_select_parent(),
            select_first: Keys::default_select_first(),
            select_last: Keys::default_select_last(),
            close_parent: Keys::default_close_parent(),
            change_root: Keys::default_change_root(),
            reset: Keys::default_reset(),
            page_up: Keys::default_page_up(),
            page_down: Keys::default_page_down(),
            change_layout: Keys::default_change_layout(),
            tree_scale_up: Keys::default_tree_scale_up(),
            tree_scale_down: Keys::default_tree_scale_down(),
            switch: Keys::default_switch(),
            edit: Keys::default_edit(),
            copy_name: Keys::default_copy_name(),
            copy_value: Keys::default_copy_value(),
            filter: Keys::default_filter(),
            filter_key: Keys::default_filter_key(),
            filter_value: Keys::default_filter_value(),
            filter_switch_ignore_case: Keys::default_filter_switch_ignore_case(),
            quit: Keys::default_quit(),
            actions: Vec::new(),
        }
    }

    /// The actions in their order, each with the notations of its keys.
    pub open spec fn bindings(&self) -> Seq<(Seq<Seq<char>>, Action)> {
        seq![
            (texts_of(self.move_up@), Action::MoveUp),
            (texts_of(self.move_down@), Action::MoveDown),
            (texts_of(self.move_left@), Action::MoveLeft),
            (texts_of(self.move_right@), Action::MoveRight),
            (texts_of(self.select_focus@), Action::SelectFocus),
            (texts_of(self.select_parent@), Action::SelectParent),
            (texts_of(self.select_first@), Action::SelectFirst),
            (texts_of(self.select_last@), Action::SelectLast),
            (texts_of(self.close_parent@), Action::CloseParent),
            (texts_of(self.change_root@), Action::ChangeRoot),
            (texts_of(self.reset@), Action::Reset),
            (texts_of(self.page_up@), Action::PageUp),
            (texts_of(self.page_down@), Action::PageDown),
            (texts_of(self.change_layout@), Action::ChangeLayout),
            (texts_of(self.tree_scale_up@), Action::TreeScaleUp),
            (texts_of(self.tree_scale_down@), Action::TreeScaleDown),
            (texts_of(self.switch@), Action::Switch),
            (texts_of(self.edit@), Action::Edit),
            (texts_of(self.copy_name@), Action::CopyName),
            (texts_of(self.copy_value@), Action::CopyValue),
            (texts_of(self.filter@), Action::Filter),
            (texts_of(self.filter_key@), Action::FilterKey),
            (texts_of(self.filter_value@), Action::FilterValue),
            (texts_of(self.filter_switch_ignore_case@), Action::FilterSwitchIgnoreCase),
            (texts_of(self.quit@), Action::Quit),
        ]
    }

    /// Reads the notations of all actions. The bindings are recorded if
    /// every notation is read and none occurs twice; else they stay as they
    /// are, and the number of the action with the first notation that is
    /// refused is handed out with the reason.
    pub fn parse(&mut self) -> (r: Result<(), (usize, KeyError)>)
        ensures
            final(self).bindings() == old(self).bindings(),
            match parsed_bindings(old(self).bindings(), old(self).bindings().len()) {
                Ok((all, _)) => r is Ok && bindings_view(final(self).actions@) == all,
                Err((i, e)) => {
                    &&& r == Err::<(), (usize, KeyError)>((i as usize, e))
                    &&& final(self).actions == old(self).actions
                },
            },
    {
        let list: [(&Vec<String>, Action); 25] = [
            (&self.move_up, Action::MoveUp),
            (&self.move_down, Action::MoveDown),
            (&self.move_left, Action::MoveLeft),
            (&self.move_right, Action::MoveRight),
            (&self.select_focus, Action::SelectFocus),
            (&self.select_parent, Action::SelectParent),
            (&self.select_first, Action::SelectFirst),
            (&self.select_last, Action::SelectLast),
            (&self.close_parent, Action::CloseParent),
            (&self.change_root, Action::ChangeRoot),
            (&self.reset, Action::Reset),
            (&self.page_up, Action::PageUp),
            (&self.page_down, Action::PageDown),
            (&self.change_layout, Action::ChangeLayout),
            (&self.tree_scale_up, Action::TreeScaleUp),
            (&self.tree_scale_down, Action::TreeScaleDown),
            (&self.switch, Action::Switch),
            (&self.edit, Action::Edit),
            (&self.copy_name, Action::CopyName),
            (&self.copy_value, Action::CopyValue),
            (&self.filter, Action::Filter),
            (&self.filter_key, Action::FilterKey),
            (&self.filter_value, Action::FilterValue),
            (&self.filter_switch_ignore_case, Action::FilterSwitchIgnoreCase),
            (&self.quit, Action::Quit),
        ];
        let ghost all = self.bindings();
        assert(all.len() == 25);
        assert(list@.len() == 25);
        assert forall|i: int| 0 <= i < 25 implies (texts_of(list@[i].0@), list@[i].1) == all[i] by {
            assert((texts_of(list@[0].0@), list@[0].1) == all[0]);
            assert((texts_of(list@[1].0@), list@[1].1) == all[1]);
            assert((texts_of(list@[2].0@), list@[2].1) == all[2]);
            assert((texts_of(list@[3].0@), list@[3].1) == all[3]);
            assert((texts_of(list@[4].0@), list@[4].1) == all[4]);
            assert((texts_of(list@[5].0@), list@[5].1) == all[5]);
            assert((texts_of(list@[6].0@), list@[6].1) == all[6]);
            assert((texts_of(list@[7].0@), list@[7].1) == all[7]);
            assert((texts_of(list@[8].0@), list@[8].1) == all[8]);
            assert((texts_of(list@[9].0@), list@[9].1) == all[9]);
            assert((texts_of(list@[10].0@), list@[10].1) == all[10]);
            assert((texts_of(list@[11].0@), list@[11].1) == all[11]);
            assert((texts_of(list@[12].0@), list@[12].1) == all[12]);
            assert((texts_of(list@[13].0@), list@[13].1) == all[13]);
            assert((texts_of(list@[14].0@), list@[14].1) == all[14]);
            assert((texts_of(list@[15].0@), list@[15].1) == all[15]);
            assert((texts_of(list@[16].0@), list@[16].1) == all[16]);
            assert((texts_of(list@[17].0@), list@[17].1) == all[17]);
            assert((texts_of(list@[18].0@), list@[18].1) == all[18]);
            assert((texts_of(list@[19].0@), list@[19].1) == all[19]);
            assert((texts_of(list@[20].0@), list@[20].1) == all[20]);
            assert((texts_of(list@[21].0@), list@[21].1) == all[21]);
            assert((texts_of(list@[22].0@), list@[22].1) == all[22]);
            assert((texts_of(list@[23].0@), list@[23].1) == all[23]);
            assert((texts_of(list@[24].0@), list@[24].1) == all[24]);
        }
        let mut actions: Vec<(Vec<Key>, Action)> = Vec::new();
        let mut unique: Vec<String> = Vec::new();
        assert(bindings_view(actions@) =~= Seq::<(Seq<Key>, Action)>::empty());
        assert(texts_of(unique@) =~= Seq::<Seq<char>>::empty());
        let mut i: usize = 0;
        while i < 25
            invariant
                i <= 25,
                all.len() == 25,
                all == old(self).bindings(),
                *self == *old(self),
                list@.len() == 25,
                forall|k: int| 0 <= k < 25 ==> (texts_of(list@[k].0@), list@[k].1) == #[trigger] all[k],
                parsed_bindings(all, i as nat) == Ok::<
                    (Seq<(Seq<Key>, Action)>, Seq<Seq<char>>),
                    (int, KeyError),
                >((bindings_view(actions@), texts_of(unique@))),
            decreases 25 - i,
        {
            let ghost before = bindings_view(actions@);
            assert((texts_of(list@[i as int].0@), list@[i as int].1) == all[i as int]);
            match Key::parse_keys(list[i].0, &mut unique) {
                Ok(keys) => {
                    actions.push((keys, list[i].1));
                    assert(bindings_view(actions@) =~= before.push((keys@, all[i as int].1)));
                },
                Err(e) => {
                    proof {
                        assert(parsed_bindings(all, (i + 1) as nat) == Err::<
                            (Seq<(Seq<Key>, Action)>, Seq<Seq<char>>),
                            (int, KeyError),
                        >((i as int, e)));
                        lemma_parsed_bindings_fail(all, (i + 1) as nat, 25);
                    }
                    return Err((i, e));
                },
            }
            i += 1;
        }
        self.actions = actions;
        Ok(())
    }

    /// The action that a key is bound to.
    pub fn get_key_action(&self, event_key: Key) -> (r: KeyAction)
        ensures
            r.key == event_key,
            r.action == bound_action(self.actions@, self.actions@.len(), event_key),
    {
        let mut current_action: Option<Action> = None;
        let mut i: usize = 0;
        while i < self.actions.len()
            invariant
                i <= self.actions@.len(),
                current_action == bound_action(self.actions@, i as nat, event_key),
            decreases self.actions@.len() - i,
        {
            if contains_key(&self.actions[i].0, event_key) {
                current_action = Some(self.actions[i].1);
            }
            i += 1;
        }
        KeyAction { key: event_key, action: current_action }
    }
}

/// The models of a list of bindings.
pub open spec fn bindings_view(actions: Seq<(Vec<Key>, Action)>) -> Seq<(Seq<Key>, Action)> {
    Seq::new(actions.len(), |i: int| (actions[i].0@, actions[i].1))
}

/// What reading the notations of the first `n` actions gives: the keys of
/// each action, and the notations that are bound; or why the first notation
/// that is refused is refused, with the number of its action.
pub open spec fn parsed_bindings(bindings: Seq<(Seq<Seq<char>>, Action)>, n: nat) -> Result<
    (Seq<(Seq<Key>, Action)>, Seq<Seq<char>>),
    (int, KeyError),
>
    decreases n,
{
    if n == 0 || n > bindings.len() {
        Ok((Seq::empty(), Seq::empty()))
    } else {
        match parsed_bindings(bindings, (n - 1) as nat) {
            Err(e) => Err(e),
            Ok((all, seen)) => match parsed_keys(
                bindings[n - 1].0,
                bindings[n - 1].0.len(),
                seen,
            ) {
                Ok((keys, seen)) => Ok((all.push((keys, bindings[n - 1].1)), seen)),
                Err(e) => Err((n - 1, e)),
            },
        }
    }
}

/// Once the notations of an action have been refused, the actions after it
/// change nothing.
pub proof fn lemma_parsed_bindings_fail(bindings: Seq<(Seq<Seq<char>>, Action)>, n: nat, m: nat)
    requires
        n <= m <= bindings.len(),
        parsed_bindings(bindings, n) is Err,
    ensures
        parsed_bindings(bindings, m) == parsed_bindings(bindings, n),
    decreases m - n,
{
    if n < m {
        lemma_parsed_bindings_fail(bindings, n, (m - 1) as nat);
    }
}

/// Whether a key is among the given ones.
pub fn contains_key(keys: &Vec<Key>, key: Key) -> (r: bool)
    ensures
        r == keys@.contains(key),
{
    let mut i: usize = 0;
    while i < keys.len()
        invariant
            i <= keys.len(),
            forall|k: int| 0 <= k < i ==> keys@[k] != key,
        decreases keys.len() - i,
    {
        if keys[i] == key {
            return true;
        }
        i += 1;
    }
    false
}

} // verus!
