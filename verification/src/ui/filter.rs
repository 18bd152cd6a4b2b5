//! The filter of the tree.

use vstd::prelude::*;
use vstd::string::*;

use crate::config::keys::{Action, Key, KeyAction};
use crate::doc::{Doc, Node};
use crate::text::{contains_str, has_substring, lowercased, to_lowercase};

verus! {

/// What a key did to the filter.
#[derive(Debug, Clone, Copy, PartialEq, Eq, Structural)]
pub enum FilterAction {
    /// The text was edited.
    Edit,
    /// The text is to be applied.
    Confirm,
    /// The key means nothing to the filter.
    Skip,
    /// The filter is to be closed.
    Quit,
}

/// What a filter looks at.
#[derive(Debug, Clone, Copy, PartialEq, Eq, Structural)]
pub enum FilterTarget {
    Key,
    Value,
    All,
}

/// An edit of the text of the filter.
#[derive(Debug, Clone, Copy, PartialEq, Eq, Structural)]
pub enum TextEdit {
    Insert(char),
    Delete,
    Back,
    Forward,
    Head,
    End,
}

/// A filter as it is applied.
#[derive(Debug, PartialEq, Eq)]
pub struct FilterOptions {
    pub text: String,
    pub target: FilterTarget,
    pub ignore_case: bool,
}

/// Whether `needle` occurs in `text`. Nothing occurs in an empty text, and
/// an empty needle occurs nowhere. Where case is ignored, the lower-case
/// forms are compared.
pub open spec fn occurs(needle: Seq<char>, text: Seq<char>, ignore_case: bool) -> bool {
    if needle.len() == 0 || text.len() == 0 {
        false
    } else if ignore_case {
        has_substring(lowercased(text), lowercased(needle))
    } else {
        has_substring(text, needle)
    }
}

/// The text that a filter sees of a value: that of a string or a number,
/// and nothing of any other value.
pub open spec fn value_text(d: Doc) -> Seq<char> {
    match d {
        Doc::String(s) => s,
        Doc::Number(n) => n,
        _ => Seq::empty(),
    }
}

/// What a key does to the filter, and how it edits the text. A character is
/// typed. Of the actions, selecting and switching apply the text, or close
/// the filter if the text is empty; resetting closes the filter; closing a
/// parent deletes a character; moving and selecting the first or the last
/// move the cursor.
pub open spec fn key_effect(ka: KeyAction, text_empty: bool) -> (FilterAction, Option<TextEdit>) {
    match ka.key {
        Key::Char(c) => (FilterAction::Edit, Some(TextEdit::Insert(c))),
        _ => match ka.action {
            None => (FilterAction::Skip, None),
            Some(Action::SelectFocus) | Some(Action::Switch) => if text_empty {
                (FilterAction::Quit, None)
            } else {
                (FilterAction::Confirm, None)
            },
            Some(Action::CloseParent) => (FilterAction::Edit, Some(TextEdit::Delete)),
            Some(Action::MoveLeft) => (FilterAction::Edit, Some(TextEdit::Back)),
            Some(Action::MoveRight) => (FilterAction::Edit, Some(TextEdit::Forward)),
            Some(Action::SelectFirst) => (FilterAction::Edit, Some(TextEdit::Head)),
            Some(Action::SelectLast) => (FilterAction::Edit, Some(TextEdit::End)),
            Some(Action::Reset) => (FilterAction::Quit, None),
            Some(_) => (FilterAction::Skip, None),
        },
    }
}

/// Decides what a key does to the filter.
pub fn on_key(ka: KeyAction, text_empty: bool) -> (r: (FilterAction, Option<TextEdit>))
    ensures
        r == key_effect(ka, text_empty),
{
    match ka.key {
        Key::Char(c) => {
            return (FilterAction::Edit, Some(TextEdit::Insert(c)));
        },
        _ => {},
    }
    let action = match ka.action {
        Some(action) => action,
        None => {
            return (FilterAction::Skip, None);
        },
    };
    match action {
        Action::SelectFocus | Action::Switch => {
            if text_empty {
                (FilterAction::Quit, None)
            } else {
                (FilterAction::Confirm, None)
            }
        },
        Action::CloseParent => (FilterAction::Edit, Some(TextEdit::Delete)),
        Action::MoveLeft => (FilterAction::Edit, Some(TextEdit::Back)),
        Action::MoveRight => (FilterAction::Edit, Some(TextEdit::Forward)),
        Action::SelectFirst => (FilterAction::Edit, Some(TextEdit::Head)),
        Action::SelectLast => (FilterAction::Edit, Some(TextEdit::End)),
        Action::Reset => (FilterAction::Quit, None),
        _ => (FilterAction::Skip, None),
    }
}

/// The title of the filter: its name, and in brackets `I` if it ignores
/// case and the sign of its target.
pub open spec fn filter_title(target: FilterTarget, ignore_case: bool) -> Seq<char> {
    "Filter ("@ + (if ignore_case {
        "I,"@
    } else {
        Seq::empty()
    }) + (match target {
        FilterTarget::All => "*"@,
        FilterTarget::Key => "K"@,
        FilterTarget::Value => "V"@,
    }) + ")"@
}

/// The title of the filter.
pub fn title(target: FilterTarget, ignore_case: bool) -> (r: String)
    ensures
        r@ == filter_title(target, ignore_case),
{
    let mut title = String::from_str("Filter (");
    if ignore_case {
        title = title.concat("I,");
    } else {
        assert(title@ + Seq::<char>::empty() =~= title@);
    }
    let sign = match target {
        FilterTarget::All => "*",
        FilterTarget::Key => "K",
        FilterTarget::Value => "V",
    };
    title.concat(sign).concat(")")
}

impl FilterOptions {
    /// Whether the filter lets an item through: its text occurs in what it
    /// looks at of the item.
    pub open spec fn accepts(&self, name: Seq<char>, value: Doc) -> bool {
        match self.target {
            FilterTarget::Key => occurs(self.text@, name, self.ignore_case),
            FilterTarget::Value => occurs(self.text@, value_text(value), self.ignore_case),
            FilterTarget::All => occurs(self.text@, name, self.ignore_case) || occurs(
                self.text@,
                value_text(value),
                self.ignore_case,
            ),
        }
    }

    /// Whether the filter lets the item of the given name and value through.
    pub fn filter(&self, name: &str, value: &Node) -> (r: bool)
        ensures
            r == self.accepts(name@, value@),
    {
        match self.target {
            FilterTarget::Key => {
                return self.contains(name);
            },
            _ => {},
        }
        let found = match value {
            Node::String(s) => self.contains(s.as_str()),
            Node::Number(n) => self.contains(n.as_str()),
            _ => {
                let empty = String::new();
                self.contains(empty.as_str())
            },
        };
        match self.target {
            FilterTarget::Value => found,
            _ => self.contains(name) || found,
        }
    }

    /// Whether the text of the filter occurs in `text`.
    pub fn contains(&self, text: &str) -> (r: bool)
        ensures
            r == occurs(self.text@, text@, self.ignore_case),
    {
        if self.text.as_str().is_empty() || text.is_empty() {
            return false;
        }
        if self.ignore_case {
            let haystack = to_lowercase(text);
            let needle = to_lowercase(self.text.as_str());
            contains_str(haystack.as_str(), needle.as_str())
        } else {
            contains_str(text, self.text.as_str())
        }
    }
}

} // verus!
