//! How far the data block is scrolled.

use vstd::prelude::*;
use vstd::string::*;

use crate::config::keys::Action;
use crate::parse::syntax::str_eq;

verus! {

/// The direction of a turn of the mouse wheel.
#[derive(Debug, Clone, Copy, PartialEq, Eq, Structural)]
pub enum ScrollDirection {
    Up,
    Down,
}

/// The lines and columns that stay in view behind the end of the text.
pub const SCROLL_RETAIN: usize = 5;

/// The scroll position of the data block.
#[derive(Debug, PartialEq, Eq)]
pub struct DataBlock {
    pub can_vertical_scroll: bool,
    pub vertical_scroll: usize,
    pub vertical_scroll_last: usize,
    pub can_horizontal_scroll: bool,
    pub horizontal_scroll: usize,
    pub horizontal_scroll_last: usize,
    /// The node that is shown.
    pub identify: String,
}

/// A position moved forward by `lines`, but not beyond `last`.
pub open spec fn forward(position: usize, lines: usize, last: usize) -> usize {
    if position + lines > last {
        last
    } else {
        (position + lines) as usize
    }
}

/// A position moved back by `lines`, but not before the start.
pub open spec fn back(position: usize, lines: usize) -> usize {
    if position < lines {
        0
    } else {
        (position - lines) as usize
    }
}

/// How far a text of `extent` lines or columns can be scrolled in a
/// viewport of `room`: nothing if it fits with the retained space, else
/// what does not fit.
pub open spec fn scroll_last(extent: usize, room: usize) -> Option<usize> {
    let total = extent.saturating_add(SCROLL_RETAIN);
    if total > room {
        Some((total - room) as usize)
    } else {
        None
    }
}

impl DataBlock {
    /// A data block that shows nothing.
    pub fn new() -> (r: DataBlock)
        ensures
            !r.can_vertical_scroll,
            !r.can_horizontal_scroll,
            r.vertical_scroll == 0,
            r.vertical_scroll_last == 0,
            r.horizontal_scroll == 0,
            r.horizontal_scroll_last == 0,
            r.identify@.len() == 0,
    {
        DataBlock {
            can_vertical_scroll: false,
            vertical_scroll: 0,
            vertical_scroll_last: 0,
            can_horizontal_scroll: false,
            horizontal_scroll: 0,
            horizontal_scroll_last: 0,
            identify: String::new(),
        }
    }

    /// Applies an action. The result says whether the position changed.
    pub fn on_key(&mut self, action: Action) -> (r: bool)
        ensures
            final(self).identify == old(self).identify,
            match action {
                Action::MoveDown => old(self).moved_down(1, *final(self), r),
                Action::MoveUp => old(self).moved_up(1, *final(self), r),
                Action::MoveRight => old(self).moved_right(1, *final(self), r),
                Action::MoveLeft => old(self).moved_left(1, *final(self), r),
                Action::SelectFirst => old(self).moved_first(*final(self), r),
                Action::SelectLast => old(self).moved_last(*final(self), r),
                _ => !r && *final(self) == *old(self),
            },
    {
        match action {
            Action::MoveDown => self.scroll_down(1),
            Action::MoveUp => self.scroll_up(1),
            Action::MoveRight => self.scroll_right(1),
            Action::MoveLeft => self.scroll_left(1),
            Action::SelectFirst => self.scroll_first(),
            Action::SelectLast => self.scroll_last(),
            _ => false,
        }
    }

    /// Applies a turn of the mouse wheel: three lines up or down.
    pub fn on_scroll(&mut self, direction: ScrollDirection) -> (r: bool)
        ensures
            match direction {
                ScrollDirection::Up => old(self).moved_up(3, *final(self), r),
                ScrollDirection::Down => old(self).moved_down(3, *final(self), r),
            },
    {
        match direction {
            ScrollDirection::Up => self.scroll_up(3),
            ScrollDirection::Down => self.scroll_down(3),
        }
    }

    /// `after` is this block scrolled to the start in both directions, and
    /// `changed` says whether that changed anything.
    pub open spec fn moved_first(self, after: DataBlock, changed: bool) -> bool {
        &&& changed == ((self.can_vertical_scroll || self.can_horizontal_scroll) && !(
        self.vertical_scroll == 0 && self.horizontal_scroll == 0))
        &&& after == (if changed {
            DataBlock { vertical_scroll: 0, horizontal_scroll: 0, ..self }
        } else {
            self
        })
    }

    /// `after` is this block scrolled to the last line.
    pub open spec fn moved_last(self, after: DataBlock, changed: bool) -> bool {
        &&& changed == (self.can_vertical_scroll && self.vertical_scroll != self.vertical_scroll_last)
        &&& after == (if changed {
            DataBlock { vertical_scroll: self.vertical_scroll_last, ..self }
        } else {
            self
        })
    }

    /// `after` is this block scrolled down by `lines`.
    pub open spec fn moved_down(self, lines: usize, after: DataBlock, changed: bool) -> bool {
        &&& changed == (self.can_vertical_scroll && self.vertical_scroll != self.vertical_scroll_last)
        &&& after == (if changed {
            DataBlock {
                vertical_scroll: forward(self.vertical_scroll, lines, self.vertical_scroll_last),
                ..self
            }
        } else {
            self
        })
    }

    /// `after` is this block scrolled up by `lines`.
    pub open spec fn moved_up(self, lines: usize, after: DataBlock, changed: bool) -> bool {
        &&& changed == (self.can_vertical_scroll && self.vertical_scroll != 0)
        &&& after == (if changed {
            DataBlock { vertical_scroll: back(self.vertical_scroll, lines), ..self }
        } else {
            self
        })
    }

    /// `after` is this block scrolled right by `lines`.
    pub open spec fn moved_right(self, lines: usize, after: DataBlock, changed: bool) -> bool {
        &&& changed == (self.can_horizontal_scroll && self.horizontal_scroll
            != self.horizontal_scroll_last)
        &&& after == (if changed {
            DataBlock {
                horizontal_scroll: forward(
                    self.horizontal_scroll,
                    lines,
                    self.horizontal_scroll_last,
                ),
                ..self
            }
        } else {
            self
        })
    }

    /// `after` is this block scrolled left by `lines`.
    pub open spec fn moved_left(self, lines: usize, after: DataBlock, changed: bool) -> bool {
        &&& changed == (self.horizontal_scroll != 0)
        &&& after == (if changed {
            DataBlock { horizontal_scroll: back(self.horizontal_scroll, lines), ..self }
        } else {
            self
        })
    }

    /// Scrolls to the start in both directions.
    pub fn scroll_first(&mut self) -> (r: bool)
        ensures
            old(self).moved_first(*final(self), r),
    {
        let can_scroll = self.can_vertical_scroll || self.can_horizontal_scroll;
        let scroll_first = self.vertical_scroll == 0 && self.horizontal_scroll == 0;
        if !can_scroll || scroll_first {
            return false;
        }
        self.vertical_scroll = 0;
        self.horizontal_scroll = 0;
        true
    }

    /// Scrolls to the last line.
    pub fn scroll_last(&mut self) -> (r: bool)
        ensures
            old(self).moved_last(*final(self), r),
    {
        if !self.can_vertical_scroll || self.vertical_scroll == self.vertical_scroll_last {
            return false;
        }
        self.vertical_scroll = self.vertical_scroll_last;
        true
    }

    /// Scrolls down by `lines`, not beyond the last line.
    pub fn scroll_down(&mut self, lines: usize) -> (r: bool)
        ensures
            old(self).moved_down(lines, *final(self), r),
    {
        if !self.can_vertical_scroll || self.vertical_scroll == self.vertical_scroll_last {
            return false;
        }
        self.vertical_scroll = self.vertical_scroll.saturating_add(lines);
        if self.vertical_scroll > self.vertical_scroll_last {
            self.vertical_scroll = self.vertical_scroll_last;
        }
        true
    }

    /// Scrolls up by `lines`, not before the first line.
    pub fn scroll_up(&mut self, lines: usize) -> (r: bool)
        ensures
            old(self).moved_up(lines, *final(self), r),
    {
        if !self.can_vertical_scroll || self.vertical_scroll == 0 {
            return false;
        }
        self.vertical_scroll = self.vertical_scroll.saturating_sub(lines);
        true
    }

    /// Scrolls right by `lines` columns, not beyond the last column.
    pub fn scroll_right(&mut self, lines: usize) -> (r: bool)
        ensures
            old(self).moved_right(lines, *final(self), r),
    {
        if !self.can_horizontal_scroll || self.horizontal_scroll == self.horizontal_scroll_last {
            return false;
        }
        self.horizontal_scroll = self.horizontal_scroll.saturating_add(lines);
        if self.horizontal_scroll > self.horizontal_scroll_last {
            self.horizontal_scroll = self.horizontal_scroll_last;
        }
        true
    }

    /// Scrolls left by `lines` columns, not before the first column.
    pub fn scroll_left(&mut self, lines: usize) -> (r: bool)
        ensures
            old(self).moved_left(lines, *final(self), r),
    {
        if self.horizontal_scroll == 0 {
            return false;
        }
        self.horizontal_scroll = self.horizontal_scroll.saturating_sub(lines);
        true
    }

    /// Takes in the extent of the text of the node `identify` and the size
    /// of the viewport. Another node than before starts at the top left. A
    /// direction in which the text fits with the retained space cannot be
    /// scrolled, nor can a wrapped text be scrolled sideways.
    pub fn update_scroll(
        &mut self,
        identify: String,
        rows: usize,
        cols: usize,
        height: u16,
        width: u16,
        wrap: bool,
    )
        ensures
            final(self).identify@ == identify@,
            ({
                let same = old(self).identify@ == identify@;
                let vertical = scroll_last(rows, height as usize);
                let horizontal = if wrap {
                    None
                } else {
                    scroll_last(cols, width as usize)
                };
                &&& final(self).can_vertical_scroll == vertical is Some
                &&& final(self).vertical_scroll_last == (match vertical {
                    Some(last) => last,
                    None => 0,
                })
                &&& final(self).vertical_scroll == (if same && vertical is Some {
                    old(self).vertical_scroll
                } else {
                    0
                })
                &&& final(self).can_horizontal_scroll == horizontal is Some
                &&& final(self).horizontal_scroll_last == (match horizontal {
                    Some(last) => last,
                    None => 0,
                })
                &&& final(self).horizontal_scroll == (if same && horizontal is Some {
                    old(self).horizontal_scroll
                } else {
                    0
                })
            }),
    {
        if !str_eq(self.identify.as_str(), identify.as_str()) {
            self.reset_scroll();
            self.identify = identify;
        }
        let rows = rows.saturating_add(SCROLL_RETAIN);
        if rows > height as usize {
            self.can_vertical_scroll = true;
            self.vertical_scroll_last = rows - height as usize;
        } else {
            self.reset_scroll_vertical();
        }
        let columns = cols.saturating_add(SCROLL_RETAIN);
        if !wrap && columns > width as usize {
            self.can_horizontal_scroll = true;
            self.horizontal_scroll_last = columns - width as usize;
        } else {
            self.reset_scroll_horizontal();
        }
    }

    /// Shows nothing.
    pub fn reset(&mut self)
        ensures
            !final(self).can_vertical_scroll,
            !final(self).can_horizontal_scroll,
            final(self).vertical_scroll == 0,
            final(self).vertical_scroll_last == 0,
            final(self).horizontal_scroll == 0,
            final(self).horizontal_scroll_last == 0,
            final(self).identify@.len() == 0,
    {
        self.reset_scroll();
        self.identify = String::new();
    }

    /// Scrolls to the start and forgets how far the text can be scrolled.
    pub fn reset_scroll(&mut self)
        ensures
            !final(self).can_vertical_scroll,
            !final(self).can_horizontal_scroll,
            final(self).vertical_scroll == 0,
            final(self).vertical_scroll_last == 0,
            final(self).horizontal_scroll == 0,
            final(self).horizontal_scroll_last == 0,
            final(self).identify == old(self).identify,
    {
        self.reset_scroll_vertical();
        self.reset_scroll_horizontal();
    }

    /// Forgets the vertical scroll position.
    pub fn reset_scroll_vertical(&mut self)
        ensures
            *final(self) == (DataBlock {
                can_vertical_scroll: false,
                vertical_scroll: 0,
                vertical_scroll_last: 0,
                ..*old(self)
            }),
    {
        self.can_vertical_scroll = false;
        self.vertical_scroll = 0;
        self.vertical_scroll_last = 0;
    }

    /// Forgets the horizontal scroll position.
    pub fn reset_scroll_horizontal(&mut self)
        ensures
            *final(self) == (DataBlock {
                can_horizontal_scroll: false,
                horizontal_scroll: 0,
                horizontal_scroll_last: 0,
                ..*old(self)
            }),
    {
        self.can_horizontal_scroll = false;
        self.horizontal_scroll = 0;
        self.horizontal_scroll_last = 0;
    }
}

} // verus!
