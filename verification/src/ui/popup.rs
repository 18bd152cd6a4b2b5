//! The scroll position of the popup.

use vstd::prelude::*;

use crate::config::keys::Action;
use crate::ui::scroll::ScrollDirection;

verus! {

/// A popup: whether it shows anything, and how far it is scrolled.
#[derive(Debug, Clone, Copy, PartialEq, Eq, Structural)]
pub struct Popup {
    pub shown: bool,
    pub scroll: usize,
}

impl Popup {
    /// A popup that shows nothing.
    pub fn new() -> (r: Popup)
        ensures
            r == (Popup { shown: false, scroll: 0 }),
    {
        Popup { shown: false, scroll: 0 }
    }

    /// The popup shows something.
    pub fn set_data(&mut self)
        ensures
            *final(self) == (Popup { shown: true, scroll: old(self).scroll }),
    {
        self.shown = true;
    }

    /// Applies an action. The result says whether anything changed.
    pub fn on_key(&mut self, action: Action) -> (r: bool)
        ensures
            (r, *final(self)) == (match action {
                Action::MoveDown => old(self).down(1),
                Action::MoveUp => old(self).up(1),
                Action::SelectFocus | Action::Reset => old(self).closed(),
                _ => (false, *old(self)),
            }),
    {
        match action {
            Action::MoveDown => self.scroll_down(1),
            Action::MoveUp => self.scroll_up(1),
            Action::SelectFocus | Action::Reset => self.disable(),
            _ => false,
        }
    }

    /// Applies a turn of the mouse wheel: three lines up or down.
    pub fn on_scroll(&mut self, direction: ScrollDirection) -> (r: bool)
        ensures
            (r, *final(self)) == (match direction {
                ScrollDirection::Up => old(self).up(3),
                ScrollDirection::Down => old(self).down(3),
            }),
    {
        match direction {
            ScrollDirection::Up => self.scroll_up(3),
            ScrollDirection::Down => self.scroll_down(3),
        }
    }

    /// The popup scrolled down by `lines`, and whether that changed it.
    pub open spec fn down(self, lines: usize) -> (bool, Popup) {
        if !self.shown {
            (false, self)
        } else {
            (true, Popup { scroll: self.scroll.saturating_add(lines), ..self })
        }
    }

    /// The popup scrolled up by `lines`, and whether that changed it.
    pub open spec fn up(self, lines: usize) -> (bool, Popup) {
        if !self.shown || self.scroll == 0 {
            (false, self)
        } else {
            (true, Popup { scroll: self.scroll.saturating_sub(lines), ..self })
        }
    }

    /// The popup closed, and whether that changed it.
    pub open spec fn closed(self) -> (bool, Popup) {
        if !self.shown {
            (false, self)
        } else {
            (true, Popup { shown: false, scroll: 0 })
        }
    }

    /// Scrolls down by `lines`.
    pub fn scroll_down(&mut self, lines: usize) -> (r: bool)
        ensures
            (r, *final(self)) == old(self).down(lines),
    {
        if !self.shown {
            return false;
        }
        self.scroll = self.scroll.saturating_add(lines);
        true
    }

    /// Scrolls up by `lines`.
    pub fn scroll_up(&mut self, lines: usize) -> (r: bool)
        ensures
            (r, *final(self)) == old(self).up(lines),
    {
        if !self.shown {
            return false;
        }
        if self.scroll == 0 {
            return false;
        }
        self.scroll = self.scroll.saturating_sub(lines);
        true
    }

    /// Closes the popup.
    pub fn disable(&mut self) -> (r: bool)
        ensures
            (r, *final(self)) == old(self).closed(),
    {
        if !self.shown {
            return false;
        }
        self.shown = false;
        self.scroll = 0;
        true
    }

    /// Whether the popup shows nothing.
    pub fn is_disabled(&self) -> (r: bool)
        ensures
            r == !self.shown,
    {
        !self.shown
    }
}

} // verus!
