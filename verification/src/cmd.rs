//! The arguments of the command line.

use vstd::prelude::*;
use vstd::string::*;

use crate::config::{Config, LayoutDirection};
use crate::parse::ContentType;

verus! {

/// The arguments of the command line.
#[derive(Debug, PartialEq, Eq)]
pub struct CommandArgs {
    pub path: Option<String>,
    pub config: Option<String>,
    pub content_type: Option<ContentType>,
    pub to: Option<ContentType>,
    pub disable_header: bool,
    pub disable_footer: bool,
    pub disable_filter: bool,
    pub tree_disable_selected_highlight: bool,
    pub tree_selected_symbol: Option<String>,
    pub filter_ignore_case: bool,
    pub filter_exclude_mode: bool,
    pub header_format: Option<String>,
    pub vertical: bool,
    pub horizontal: bool,
    pub size: Option<u16>,
    pub disable_highlight: bool,
    pub show_config: bool,
    pub ignore_config: bool,
    pub build_info: bool,
    pub max_data_size: Option<usize>,
    pub live_reload: bool,
    pub debug: Option<String>,
    pub version: bool,
}

/// `set`, or else `value`.
pub open spec fn or_flag(value: bool, set: bool) -> bool {
    value || set
}

impl CommandArgs {
    /// `--vertical` and `--horizontal` are not given together.
    pub fn check_layout(&self) -> (r: bool)
        ensures
            r == !(self.vertical && self.horizontal),
    {
        !(self.vertical && self.horizontal)
    }

    /// The largest input that is read, in bytes: the size of the arguments,
    /// or else that of the settings. Nothing if the number does not fit.
    pub fn max_data_bytes(&self, cfg: &Config) -> (r: Option<usize>)
        ensures
            ({
                let size = match self.max_data_size {
                    Some(n) => n,
                    None => cfg.data.max_data_size,
                };
                if size * 1024 * 1024 <= usize::MAX {
                    r == Some((size * 1024 * 1024) as usize)
                } else {
                    r is None
                }
            }),
    {
        let size = match self.max_data_size {
            Some(n) => n,
            None => cfg.data.max_data_size,
        };
        match size.checked_mul(1024) {
            Some(kib) => kib.checked_mul(1024),
            None => None,
        }
    }

    /// Applies the arguments to the settings. A flag switches a setting on
    /// and never off; a value replaces the setting. `--horizontal` wins over
    /// `--vertical`.
    pub fn update_config(&self, cfg: &mut Config)
        ensures
            final(cfg).layout.direction == (if self.horizontal {
                LayoutDirection::Horizontal
            } else if self.vertical {
                LayoutDirection::Vertical
            } else {
                old(cfg).layout.direction
            }),
            final(cfg).layout.tree_size == (match self.size {
                Some(size) => size,
                None => old(cfg).layout.tree_size,
            }),
            final(cfg).header.disable == or_flag(old(cfg).header.disable, self.disable_header),
            final(cfg).header.format@ == (match self.header_format {
                Some(format) => format@,
                None => old(cfg).header.format@,
            }),
            final(cfg).footer.disable == or_flag(old(cfg).footer.disable, self.disable_footer),
            final(cfg).filter.disable == or_flag(old(cfg).filter.disable, self.disable_filter),
            final(cfg).filter.ignore_case == or_flag(
                old(cfg).filter.ignore_case,
                self.filter_ignore_case,
            ),
            final(cfg).filter.exclude_mode == or_flag(
                old(cfg).filter.exclude_mode,
                self.filter_exclude_mode,
            ),
            final(cfg).tree.disable_selected_highlight == or_flag(
                old(cfg).tree.disable_selected_highlight,
                self.tree_disable_selected_highlight,
            ),
            final(cfg).tree.selected_symbol@ == (match self.tree_selected_symbol {
                Some(symbol) => symbol@,
                None => old(cfg).tree.selected_symbol@,
            }),
            final(cfg).data.disable_highlight == or_flag(
                old(cfg).data.disable_highlight,
                self.disable_highlight,
            ),
            final(cfg).data.wrap == old(cfg).data.wrap,
            final(cfg).data.max_data_size == old(cfg).data.max_data_size,
            final(cfg).editor == old(cfg).editor,
            final(cfg).types == old(cfg).types,
            final(cfg).keys == old(cfg).keys,
    {
        cfg.layout.direction = if self.horizontal {
            LayoutDirection::Horizontal
        } else if self.vertical {
            LayoutDirection::Vertical
        } else {
            cfg.layout.direction
        };
        cfg.header.disable = cfg.header.disable || self.disable_header;
        cfg.footer.disable = cfg.footer.disable || self.disable_footer;
        cfg.filter.disable = cfg.filter.disable || self.disable_filter;
        cfg.filter.ignore_case = cfg.filter.ignore_case || self.filter_ignore_case;
        cfg.filter.exclude_mode = cfg.filter.exclude_mode || self.filter_exclude_mode;
        cfg.tree.disable_selected_highlight = cfg.tree.disable_selected_highlight
            || self.tree_disable_selected_highlight;
        cfg.data.disable_highlight = cfg.data.disable_highlight || self.disable_highlight;
        match &self.tree_selected_symbol {
            Some(symbol) => {
                cfg.tree.selected_symbol = symbol.clone();
            },
            None => {},
        }
        match &self.header_format {
            Some(format) => {
                cfg.header.format = format.clone();
            },
            None => {},
        }
        match self.size {
            Some(size) => {
                cfg.layout.tree_size = size;
            },
            None => {},
        }
    }
}

} // verus!
