//! What a key, a click or a turn of the mouse wheel does to the screen.

use vstd::prelude::*;

use crate::config::keys::{Action, KeyAction};
use crate::config::LayoutDirection;
use crate::ui::filter::{FilterAction, FilterTarget};
use crate::ui::focus::{
    scaled_down, scaled_up, tree_scale_down, tree_scale_up, ElementInFocus, Focus,
};
use crate::config::{MAX_LAYOUT_TREE_SIZE, MIN_LAYOUT_TREE_SIZE};

verus! {

/// A rectangle of the screen.
#[derive(Debug, Clone, Copy, PartialEq, Eq, Structural)]
pub struct Area {
    pub x: u16,
    pub y: u16,
    pub width: u16,
    pub height: u16,
}

impl Area {
    /// The position lies in the area. The area ends at the last column and
    /// the last row that a `u16` counts.
    pub open spec fn holds(self, column: u16, row: u16) -> bool {
        self.x <= column && column < self.x.saturating_add(self.width) && self.y <= row && row
            < self.y.saturating_add(self.height)
    }

    /// Whether a position lies in the area.
    pub fn contains(&self, column: u16, row: u16) -> (r: bool)
        ensures
            r == self.holds(column, row),
    {
        column >= self.x && column < self.x.saturating_add(self.width) && row >= self.y && row
            < self.y.saturating_add(self.height)
    }
}

/// The state of the screen that keys and the mouse act on.
#[derive(Debug, Clone, Copy, PartialEq, Eq, Structural)]
pub struct Screen {
    pub focus: Focus,
    pub layout_direction: LayoutDirection,
    pub layout_tree_size: u16,
    /// The filter is shown.
    pub filter_open: bool,
    pub tree_area: Area,
    pub data_area: Area,
    pub filter_area: Area,
}

/// What is left to do with the widgets after a key.
#[derive(Debug, Clone, Copy, PartialEq, Eq, Structural)]
pub enum KeyEffect {
    /// Nothing, and nothing to draw.
    Skip,
    /// Nothing but to draw the screen.
    Update,
    /// Leave the program.
    Quit,
    /// Take the filter away and give the tree its state from before the
    /// filter back.
    CloseFilter,
    /// Apply the filter to the tree.
    ApplyFilter,
    /// Make a filter with the target and let the tree begin to filter.
    OpenFilter(FilterTarget),
    /// Give the filter the target and apply it.
    RetargetFilter(FilterTarget),
    /// Switch whether the filter ignores case and apply it.
    SwitchFilterCase,
    /// Open the selected item in the editor, if there is one.
    Edit,
    /// Copy the name of the selected item, if there is one.
    CopyName,
    /// Copy the value of the selected item, if there is one.
    CopyValue,
    /// Hand the action to the tree, after closing the filter if
    /// `close_filter` says so; draw if the tree says that it changed.
    Tree { close_filter: bool },
    /// Hand the action to the data block; draw if it says that it changed.
    DataBlock,
    /// Hand the action to the popup; draw if it says that it changed.
    Popup,
}

/// What is left to do with the widgets after a click.
#[derive(Debug, Clone, Copy, PartialEq, Eq, Structural)]
pub enum ClickEffect {
    Skip,
    Update,
    /// Close the popup.
    ClosePopup,
    /// Hand the click to the tree.
    Tree,
}

/// The widget that a turn of the mouse wheel is for.
#[derive(Debug, Clone, Copy, PartialEq, Eq, Structural)]
pub enum ScrollTarget {
    Popup,
    Tree,
    DataBlock,
    Nothing,
}

/// The target of a filter action.
pub open spec fn filter_target(action: Action) -> FilterTarget {
    match action {
        Action::FilterKey => FilterTarget::Key,
        Action::FilterValue => FilterTarget::Value,
        _ => FilterTarget::All,
    }
}

impl Screen {
    /// The screen with the focus on `focus`.
    pub open spec fn focused(self, focus: ElementInFocus) -> Screen {
        Screen { focus: Focus { focus, ..self.focus }, ..self }
    }

    /// The focus after a popup gave it back.
    pub open spec fn popup_closed(self) -> Screen {
        self.focused(
            match self.focus.before_popup_focus {
                ElementInFocus::Popup | ElementInFocus::Nothing => ElementInFocus::TreeOverview,
                focus => focus,
            },
        )
    }

    /// Whether the focus can go to the data block.
    pub open spec fn can_switch(self, selected: bool) -> bool {
        match self.focus.focus {
            ElementInFocus::TreeOverview => selected,
            ElementInFocus::Nothing | ElementInFocus::Filter => true,
            ElementInFocus::DataBlock | ElementInFocus::Popup => false,
        }
    }

    /// What an action does where the filter has not dealt with the key.
    /// `selected` says that an item of the tree is selected, and
    /// `filter_disabled` that the settings do not allow a filter.
    pub open spec fn action_step(self, action: Action, selected: bool, filter_disabled: bool) -> (
        Screen,
        KeyEffect,
    ) {
        match action {
            Action::Quit => if self.focus.focus is Popup {
                (self.popup_closed(), KeyEffect::Update)
            } else {
                (self, KeyEffect::Quit)
            },
            Action::Switch => match self.focus.focus {
                ElementInFocus::TreeOverview => if selected {
                    (self.focused(ElementInFocus::DataBlock), KeyEffect::Update)
                } else {
                    (self, KeyEffect::Skip)
                },
                ElementInFocus::DataBlock => (
                    self.focused(ElementInFocus::TreeOverview),
                    KeyEffect::Update,
                ),
                _ => (self, KeyEffect::Skip),
            },
            Action::ChangeLayout => (
                Screen {
                    layout_direction: match self.layout_direction {
                        LayoutDirection::Vertical => LayoutDirection::Horizontal,
                        LayoutDirection::Horizontal => LayoutDirection::Vertical,
                    },
                    ..self
                },
                KeyEffect::Update,
            ),
            Action::TreeScaleUp => if self.layout_tree_size == MAX_LAYOUT_TREE_SIZE {
                (self, KeyEffect::Skip)
            } else {
                (
                    Screen { layout_tree_size: scaled_up(self.layout_tree_size), ..self },
                    KeyEffect::Update,
                )
            },
            Action::TreeScaleDown => if self.layout_tree_size == MIN_LAYOUT_TREE_SIZE {
                (self, KeyEffect::Skip)
            } else {
                (
                    Screen { layout_tree_size: scaled_down(self.layout_tree_size), ..self },
                    KeyEffect::Update,
                )
            },
            Action::Edit => if self.focus.focus is DataBlock || self.focus.focus is TreeOverview {
                (self, KeyEffect::Edit)
            } else {
                (self, KeyEffect::Skip)
            },
            Action::CopyName => (self, KeyEffect::CopyName),
            Action::CopyValue => (self, KeyEffect::CopyValue),
            Action::Filter | Action::FilterKey | Action::FilterValue => if filter_disabled {
                (self, KeyEffect::Skip)
            } else if self.filter_open {
                (
                    self.focused(ElementInFocus::Filter),
                    KeyEffect::RetargetFilter(filter_target(action)),
                )
            } else {
                (
                    Screen { filter_open: true, ..self.focused(ElementInFocus::Filter) },
                    KeyEffect::OpenFilter(filter_target(action)),
                )
            },
            Action::FilterSwitchIgnoreCase => if self.filter_open {
                (self, KeyEffect::SwitchFilterCase)
            } else {
                (self, KeyEffect::Skip)
            },
            _ => match self.focus.focus {
                ElementInFocus::TreeOverview => if self.filter_open && action == Action::Reset {
                    (Screen { filter_open: false, ..self }, KeyEffect::CloseFilter)
                } else if self.filter_open && action == Action::ChangeRoot {
                    (Screen { filter_open: false, ..self }, KeyEffect::Tree { close_filter: true })
                } else {
                    (self, KeyEffect::Tree { close_filter: false })
                },
                ElementInFocus::DataBlock => (self, KeyEffect::DataBlock),
                ElementInFocus::Popup => (self, KeyEffect::Popup),
                ElementInFocus::Nothing | ElementInFocus::Filter => (self, KeyEffect::Skip),
            },
        }
    }

    /// What a key does. `filter_action` is what the filter made of the key,
    /// if the filter has the focus. A filter that was edited or confirmed is
    /// applied, and a confirmed one gives the focus to the tree; one that
    /// was quit is closed. Else the action of the key is carried out, if it
    /// has one.
    pub open spec fn key_step(
        self,
        ka: KeyAction,
        filter_action: Option<FilterAction>,
        selected: bool,
        filter_disabled: bool,
    ) -> (Screen, KeyEffect) {
        if self.focus.focus is Filter && self.filter_open && filter_action == Some(
            FilterAction::Edit,
        ) {
            (self, KeyEffect::ApplyFilter)
        } else if self.focus.focus is Filter && self.filter_open && filter_action == Some(
            FilterAction::Confirm,
        ) {
            (self.focused(ElementInFocus::TreeOverview), KeyEffect::ApplyFilter)
        } else if self.focus.focus is Filter && self.filter_open && filter_action == Some(
            FilterAction::Quit,
        ) {
            (
                Screen { filter_open: false, ..self.focused(ElementInFocus::TreeOverview) },
                KeyEffect::CloseFilter,
            )
        } else {
            match ka.action {
                Some(action) => self.action_step(action, selected, filter_disabled),
                None => (self, KeyEffect::Skip),
            }
        }
    }

    /// What a click does. A click anywhere closes a popup. A click on the
    /// tree goes to the tree, which gets the focus; one on the data block
    /// gives it the focus if it can have it; one on the filter gives the
    /// filter the focus.
    pub open spec fn click_step(self, column: u16, row: u16, selected: bool) -> (
        Screen,
        ClickEffect,
    ) {
        if self.focus.focus is Popup {
            (self, ClickEffect::ClosePopup)
        } else if self.tree_area.holds(column, row) {
            (self.focused(ElementInFocus::TreeOverview), ClickEffect::Tree)
        } else if self.data_area.holds(column, row) {
            if self.can_switch(selected) {
                (self.focused(ElementInFocus::DataBlock), ClickEffect::Update)
            } else {
                (self, ClickEffect::Skip)
            }
        } else if self.filter_open && self.filter_area.holds(column, row) {
            (self.focused(ElementInFocus::Filter), ClickEffect::Update)
        } else {
            (self, ClickEffect::Skip)
        }
    }

    /// The widget that a turn of the mouse wheel at a position is for: the
    /// popup if it has the focus, else the tree or the data block under the
    /// position.
    pub open spec fn scroll_goal(self, column: u16, row: u16) -> ScrollTarget {
        if self.focus.focus is Popup {
            ScrollTarget::Popup
        } else if self.tree_area.holds(column, row) {
            ScrollTarget::Tree
        } else if self.data_area.holds(column, row) {
            ScrollTarget::DataBlock
        } else {
            ScrollTarget::Nothing
        }
    }

    fn set_focus(&mut self, focus: ElementInFocus)
        ensures
            *final(self) == old(self).focused(focus),
    {
        self.focus.focus = focus;
    }

    fn on_action(&mut self, action: Action, selected: bool, filter_disabled: bool) -> (r: KeyEffect)
        ensures
            (*final(self), r) == old(self).action_step(action, selected, filter_disabled),
    {
        match action {
            Action::Quit => {
                match self.focus.focus {
                    ElementInFocus::Popup => {
                        self.focus.disable_popup();
                        KeyEffect::Update
                    },
                    _ => KeyEffect::Quit,
                }
            },
            Action::Switch => match self.focus.focus {
                ElementInFocus::TreeOverview => {
                    if selected {
                        self.set_focus(ElementInFocus::DataBlock);
                        KeyEffect::Update
                    } else {
                        KeyEffect::Skip
                    }
                },
                ElementInFocus::DataBlock => {
                    self.set_focus(ElementInFocus::TreeOverview);
                    KeyEffect::Update
                },
                _ => KeyEffect::Skip,
            },
            Action::ChangeLayout => {
                self.layout_direction = crate::ui::focus::change_layout(self.layout_direction);
                KeyEffect::Update
            },
            Action::TreeScaleUp => match tree_scale_up(self.layout_tree_size) {
                Some(size) => {
                    self.layout_tree_size = size;
                    KeyEffect::Update
                },
                None => KeyEffect::Skip,
            },
            Action::TreeScaleDown => match tree_scale_down(self.layout_tree_size) {
                Some(size) => {
                    self.layout_tree_size = size;
                    KeyEffect::Update
                },
                None => KeyEffect::Skip,
            },
            Action::Edit => match self.focus.focus {
                ElementInFocus::DataBlock | ElementInFocus::TreeOverview => KeyEffect::Edit,
                _ => KeyEffect::Skip,
            },
            Action::CopyName => KeyEffect::CopyName,
            Action::CopyValue => KeyEffect::CopyValue,
            Action::Filter | Action::FilterKey | Action::FilterValue => {
                if filter_disabled {
                    return KeyEffect::Skip;
                }
                let target = match action {
                    Action::FilterKey => FilterTarget::Key,
                    Action::FilterValue => FilterTarget::Value,
                    _ => FilterTarget::All,
                };
                let open = self.filter_open;
                self.filter_open = true;
                self.set_focus(ElementInFocus::Filter);
                if open {
                    KeyEffect::RetargetFilter(target)
                } else {
                    KeyEffect::OpenFilter(target)
                }
            },
            Action::FilterSwitchIgnoreCase => {
                if self.filter_open {
                    KeyEffect::SwitchFilterCase
                } else {
                    KeyEffect::Skip
                }
            },
            _ => match self.focus.focus {
                ElementInFocus::TreeOverview => {
                    if self.filter_open {
                        match action {
                            Action::Reset => {
                                self.filter_open = false;
                                return KeyEffect::CloseFilter;
                            },
                            Action::ChangeRoot => {
                                self.filter_open = false;
                                return KeyEffect::Tree { close_filter: true };
                            },
                            _ => {},
                        }
                    }
                    KeyEffect::Tree { close_filter: false }
                },
                ElementInFocus::DataBlock => KeyEffect::DataBlock,
                ElementInFocus::Popup => KeyEffect::Popup,
                ElementInFocus::Nothing | ElementInFocus::Filter => KeyEffect::Skip,
            },
        }
    }

    /// Applies a key to the screen and says what is left to do with the
    /// widgets.
    pub fn on_key(
        &mut self,
        ka: KeyAction,
        filter_action: Option<FilterAction>,
        selected: bool,
        filter_disabled: bool,
    ) -> (r: KeyEffect)
        ensures
            (*final(self), r) == old(self).key_step(ka, filter_action, selected, filter_disabled),
    {
        let in_filter = match self.focus.focus {
            ElementInFocus::Filter => self.filter_open,
            _ => false,
        };
        if in_filter {
            match filter_action {
                Some(FilterAction::Edit) => {
                    return KeyEffect::ApplyFilter;
                },
                Some(FilterAction::Confirm) => {
                    self.set_focus(ElementInFocus::TreeOverview);
                    return KeyEffect::ApplyFilter;
                },
                Some(FilterAction::Quit) => {
                    self.filter_open = false;
                    self.set_focus(ElementInFocus::TreeOverview);
                    return KeyEffect::CloseFilter;
                },
                _ => {},
            }
        }
        match ka.action {
            Some(action) => self.on_action(action, selected, filter_disabled),
            None => KeyEffect::Skip,
        }
    }

    /// Applies a click to the screen and says what is left to do with the
    /// widgets.
    pub fn on_click(&mut self, column: u16, row: u16, selected: bool) -> (r: ClickEffect)
        ensures
            (*final(self), r) == old(self).click_step(column, row, selected),
    {
        match self.focus.focus {
            ElementInFocus::Popup => {
                return ClickEffect::ClosePopup;
            },
            _ => {},
        }
        if self.tree_area.contains(column, row) {
            self.set_focus(ElementInFocus::TreeOverview);
            return ClickEffect::Tree;
        }
        if self.data_area.contains(column, row) {
            return if self.focus.can_switch_to_data_block(selected) {
                self.set_focus(ElementInFocus::DataBlock);
                ClickEffect::Update
            } else {
                ClickEffect::Skip
            };
        }
        if self.filter_open && self.filter_area.contains(column, row) {
            self.set_focus(ElementInFocus::Filter);
            return ClickEffect::Update;
        }
        ClickEffect::Skip
    }

    /// The widget that a turn of the mouse wheel at a position is for.
    pub fn on_scroll(&self, column: u16, row: u16) -> (r: ScrollTarget)
        ensures
            r == self.scroll_goal(column, row),
    {
        match self.focus.focus {
            ElementInFocus::Popup => {
                return ScrollTarget::Popup;
            },
            _ => {},
        }
        if self.tree_area.contains(column, row) {
            ScrollTarget::Tree
        } else if self.data_area.contains(column, row) {
            ScrollTarget::DataBlock
        } else {
            ScrollTarget::Nothing
        }
    }
}

} // verus!
