//! Which part of the screen has the focus, and how the screen is divided.

use vstd::prelude::*;

use crate::config::{LayoutDirection, MAX_LAYOUT_TREE_SIZE, MIN_LAYOUT_TREE_SIZE};

verus! {

/// A part of the screen that can have the focus.
#[derive(Debug, Clone, Copy, PartialEq, Eq, Structural)]
pub enum ElementInFocus {
    TreeOverview,
    DataBlock,
    Popup,
    Filter,
    /// The terminal itself has lost the focus.
    Nothing,
}

/// The focus and what it was before.
#[derive(Debug, Clone, Copy, PartialEq, Eq, Structural)]
pub struct Focus {
    pub focus: ElementInFocus,
    /// The focus that the terminal lost.
    pub last_focus: Option<ElementInFocus>,
    /// The focus that a popup took.
    pub before_popup_focus: ElementInFocus,
}

/// The height of the header.
pub const HEADER_HEIGHT: u16 = 1;

/// The height of the footer.
pub const FOOTER_HEIGHT: u16 = 1;

/// The height of the filter.
pub const FILTER_HEIGHT: u16 = 3;

/// How the rows of the screen are divided between header, footer and the
/// rest.
#[derive(Debug, Clone, Copy, PartialEq, Eq, Structural)]
pub struct Rows {
    pub skip_header: bool,
    pub skip_footer: bool,
    /// The first row of the main area.
    pub main_y: u16,
    /// The height of the main area.
    pub main_height: u16,
    /// The row of the footer.
    pub footer_y: u16,
}

/// The share of the tree after a step up: two more, up to the largest.
pub open spec fn scaled_up(size: u16) -> u16 {
    if size + 2 > MAX_LAYOUT_TREE_SIZE {
        MAX_LAYOUT_TREE_SIZE
    } else {
        (size + 2) as u16
    }
}

/// The share of the tree after a step down: two less, down to the
/// smallest.
pub open spec fn scaled_down(size: u16) -> u16 {
    if size - 2 < MIN_LAYOUT_TREE_SIZE {
        MIN_LAYOUT_TREE_SIZE
    } else {
        (size - 2) as u16
    }
}

/// The share of the tree after a step up, or nothing if it is the largest
/// already.
pub fn tree_scale_up(size: u16) -> (r: Option<u16>)
    ensures
        r == (if size == MAX_LAYOUT_TREE_SIZE {
            None
        } else {
            Some(scaled_up(size))
        }),
{
    if size == MAX_LAYOUT_TREE_SIZE {
        return None;
    }
    let next = size.saturating_add(2);
    if next > MAX_LAYOUT_TREE_SIZE {
        Some(MAX_LAYOUT_TREE_SIZE)
    } else {
        Some(next)
    }
}

/// The share of the tree after a step down, or nothing if it is the
/// smallest already.
pub fn tree_scale_down(size: u16) -> (r: Option<u16>)
    ensures
        r == (if size == MIN_LAYOUT_TREE_SIZE {
            None
        } else {
            Some(scaled_down(size))
        }),
{
    if size == MIN_LAYOUT_TREE_SIZE {
        return None;
    }
    let next = size.saturating_sub(2);
    if next < MIN_LAYOUT_TREE_SIZE {
        Some(MIN_LAYOUT_TREE_SIZE)
    } else {
        Some(next)
    }
}

/// The other direction.
pub fn change_layout(direction: LayoutDirection) -> (r: LayoutDirection)
    ensures
        r == (match direction {
            LayoutDirection::Vertical => LayoutDirection::Horizontal,
            LayoutDirection::Horizontal => LayoutDirection::Vertical,
        }),
{
    match direction {
        LayoutDirection::Vertical => LayoutDirection::Horizontal,
        LayoutDirection::Horizontal => LayoutDirection::Vertical,
    }
}

/// The row inside an area that a position is on, counted from the row
/// below its border; nothing if the position is outside the area. The area
/// ends at the last column and the last row that a `u16` counts.
pub fn get_row_inside(column: u16, row: u16, x: u16, y: u16, width: u16, height: u16) -> (r: Option<
    u16,
>)
    ensures
        r == (if x <= column && column < x.saturating_add(width) && y <= row
            && row < y.saturating_add(height) {
            Some(row.saturating_sub(y).saturating_sub(1))
        } else {
            None
        }),
{
    if column >= x && column < x.saturating_add(width) && row >= y && row < y.saturating_add(
        height,
    ) {
        Some(row.saturating_sub(y).saturating_sub(1))
    } else {
        None
    }
}

/// Divides the rows of a screen of the given height. The header and the
/// footer are left out where they would leave no more than one row.
pub fn divide_rows(height: u16, header: bool, footer: bool) -> (r: Rows)
    ensures
        r.skip_header == (header && height <= HEADER_HEIGHT + 1),
        ({
            let shown = header && !r.skip_header;
            let rest = if shown {
                (height - HEADER_HEIGHT) as u16
            } else {
                height
            };
            &&& r.main_y == (if shown {
                HEADER_HEIGHT
            } else {
                0
            })
            &&& r.skip_footer == (footer && rest <= FOOTER_HEIGHT + 1)
            &&& r.main_height == (if footer && !r.skip_footer {
                (rest - FOOTER_HEIGHT) as u16
            } else {
                rest
            })
            &&& r.footer_y == (if footer && !r.skip_footer {
                rest
            } else {
                0
            })
        }),
{
    let mut skip_header = false;
    let mut main_y: u16 = 0;
    let mut rest = height;
    if header {
        if height <= HEADER_HEIGHT + 1 {
            skip_header = true;
        } else {
            main_y = HEADER_HEIGHT;
            rest = height - HEADER_HEIGHT;
        }
    }
    let mut skip_footer = false;
    let mut main_height = rest;
    let mut footer_y: u16 = 0;
    if footer {
        if rest <= FOOTER_HEIGHT + 1 {
            skip_footer = true;
        } else {
            footer_y = rest;
            main_height = rest - FOOTER_HEIGHT;
        }
    }
    Rows { skip_header, skip_footer, main_y, main_height, footer_y }
}

impl Focus {
    /// The focus at the start: on the tree.
    pub fn new() -> (r: Focus)
        ensures
            r == (Focus {
                focus: ElementInFocus::TreeOverview,
                last_focus: None,
                before_popup_focus: ElementInFocus::Nothing,
            }),
    {
        Focus {
            focus: ElementInFocus::TreeOverview,
            last_focus: None,
            before_popup_focus: ElementInFocus::Nothing,
        }
    }

    /// Whether the focus can go to the data block: from the tree if an item
    /// is selected, and from the filter or from nowhere.
    pub fn can_switch_to_data_block(&self, selected: bool) -> (r: bool)
        ensures
            r == (match self.focus {
                ElementInFocus::TreeOverview => selected,
                ElementInFocus::Nothing | ElementInFocus::Filter => true,
                ElementInFocus::DataBlock | ElementInFocus::Popup => false,
            }),
    {
        match self.focus {
            ElementInFocus::TreeOverview => selected,
            ElementInFocus::Nothing | ElementInFocus::Filter => true,
            ElementInFocus::DataBlock | ElementInFocus::Popup => false,
        }
    }

    /// A popup takes the focus. The focus that it takes is kept, unless it
    /// is a popup or none.
    pub fn popup(&mut self)
        ensures
            final(self).focus == ElementInFocus::Popup,
            final(self).last_focus == old(self).last_focus,
            final(self).before_popup_focus == (match old(self).focus {
                ElementInFocus::Popup | ElementInFocus::Nothing => old(self).before_popup_focus,
                focus => focus,
            }),
    {
        match self.focus {
            ElementInFocus::Popup | ElementInFocus::Nothing => {},
            focus => {
                self.before_popup_focus = focus;
            },
        }
        self.focus = ElementInFocus::Popup;
    }

    /// The popup gives the focus back, to the tree if it took it from a
    /// popup or from nowhere.
    pub fn disable_popup(&mut self)
        ensures
            final(self).focus == (match old(self).before_popup_focus {
                ElementInFocus::Popup | ElementInFocus::Nothing => ElementInFocus::TreeOverview,
                focus => focus,
            }),
            final(self).last_focus == old(self).last_focus,
            final(self).before_popup_focus == old(self).before_popup_focus,
    {
        match self.before_popup_focus {
            ElementInFocus::Popup | ElementInFocus::Nothing => {
                self.focus = ElementInFocus::TreeOverview;
            },
            focus => {
                self.focus = focus;
            },
        }
    }

    /// The terminal gains or loses the focus. Losing it, the focus is kept
    /// to come back to; gaining it, the kept focus comes back, or else the
    /// tree has it. The result says whether anything changed.
    pub fn on_focus_changed(&mut self, gained: bool) -> (r: bool)
        ensures
            final(self).before_popup_focus == old(self).before_popup_focus,
            r == (gained == (old(self).focus is Nothing)),
            !r ==> *final(self) == *old(self),
            r && gained ==> final(self).last_focus is None && final(self).focus == (
            match old(self).last_focus {
                Some(focus) => focus,
                None => ElementInFocus::TreeOverview,
            }),
            r && !gained ==> final(self).focus is Nothing && final(self).last_focus == Some(old(self).focus),
    {
        let unfocused = match self.focus {
            ElementInFocus::Nothing => true,
            _ => false,
        };
        if gained {
            if !unfocused {
                return false;
            }
            self.focus = match self.last_focus {
                Some(focus) => focus,
                None => ElementInFocus::TreeOverview,
            };
            self.last_focus = None;
            return true;
        }
        if unfocused {
            return false;
        }
        self.last_focus = Some(self.focus);
        self.focus = ElementInFocus::Nothing;
        true
    }
}

} // verus!
