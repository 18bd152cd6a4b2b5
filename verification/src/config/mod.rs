//! The settings of the program.

pub mod keys;
pub mod types;

use vstd::prelude::*;
use vstd::string::*;

use crate::config::keys::{bindings_view, parsed_bindings, KeyError, Keys};
use crate::config::types::Types;
use crate::text::texts_of;

verus! {

/// The editor that a node is opened in.
#[derive(Debug, PartialEq, Eq)]
pub struct Editor {
    pub program: String,
    pub args: Vec<String>,
    pub dir: String,
}

/// How the tree and the data block share the screen.
#[derive(Debug, Clone, Copy, PartialEq, Eq, Structural)]
pub struct Layout {
    pub direction: LayoutDirection,
    /// The share of the tree, in percent.
    pub tree_size: u16,
}

/// The direction in which the tree and the data block lie side by side.
#[derive(Debug, Clone, Copy, PartialEq, Eq, Structural)]
pub enum LayoutDirection {
    Vertical,
    Horizontal,
}

/// The line at the top of the screen.
#[derive(Debug, PartialEq, Eq)]
pub struct Header {
    pub disable: bool,
    pub format: String,
}

/// The line at the bottom of the screen.
#[derive(Debug, Clone, Copy, PartialEq, Eq, Structural)]
pub struct Footer {
    pub disable: bool,
}

/// The filter of the tree.
#[derive(Debug, Clone, Copy, PartialEq, Eq, Structural)]
pub struct Filter {
    pub disable: bool,
    pub ignore_case: bool,
    pub exclude_mode: bool,
}

/// How the tree shows the selected item.
#[derive(Debug, PartialEq, Eq)]
pub struct TreeSettings {
    pub disable_selected_highlight: bool,
    pub selected_symbol: String,
}

/// How the data block shows a value, and how much data is read.
#[derive(Debug, Clone, Copy, PartialEq, Eq, Structural)]
pub struct Data {
    pub disable_highlight: bool,
    pub wrap: bool,
    /// The largest input that is read, in mebibytes.
    pub max_data_size: usize,
}

/// The settings.
#[derive(Debug, PartialEq, Eq)]
pub struct Config {
    pub editor: Editor,
    pub data: Data,
    pub layout: Layout,
    pub header: Header,
    pub footer: Footer,
    pub filter: Filter,
    pub tree: TreeSettings,
    pub types: Types,
    pub keys: Keys,
}

/// Why settings were refused.
#[derive(Debug, Clone, Copy, PartialEq, Eq, Structural)]
pub enum ConfigError {
    /// The share of the tree is outside its range.
    TreeSize,
    /// A key of the action of the given number was refused.
    Key(usize, KeyError),
}

/// The smallest share of the tree, in percent.
pub const MIN_LAYOUT_TREE_SIZE: u16 = 10;

/// The largest share of the tree, in percent.
pub const MAX_LAYOUT_TREE_SIZE: u16 = 80;

impl Editor {
    /// The editor `program`, called with the file as its only argument.
    pub fn default(program: String) -> (r: Editor)
        ensures
            r.program == program,
            texts_of(r.args@) == seq!["{file}"@],
            r.dir@ == "/tmp"@,
    {
        Editor { program, args: Editor::default_args(), dir: Editor::default_dir() }
    }

    /// The editor that is used where the environment names none.
    pub fn default_program() -> (r: String)
        ensures
            r@ == "vim"@,
    {
        String::from_str("vim")
    }

    /// The arguments of the editor: the file alone.
    pub fn default_args() -> (r: Vec<String>)
        ensures
            texts_of(r@) == seq!["{file}"@],
    {
        let mut args: Vec<String> = Vec::new();
        args.push(String::from_str("{file}"));
        assert(texts_of(args@) =~= seq!["{file}"@]);
        args
    }

    /// The directory that the file for the editor is written to.
    pub fn default_dir() -> (r: String)
        ensures
            r@ == "/tmp"@,
    {
        String::from_str("/tmp")
    }
}

impl Layout {
    /// The tree to the left of the data block, on two fifths of the screen.
    pub fn default() -> (r: Layout)
        ensures
            r == (Layout { direction: LayoutDirection::Horizontal, tree_size: 40 }),
    {
        Layout { direction: Layout::default_direction(), tree_size: Layout::default_tree_size() }
    }

    /// The tree and the data block lie side by side.
    pub fn default_direction() -> (r: LayoutDirection)
        ensures
            r == LayoutDirection::Horizontal,
    {
        LayoutDirection::Horizontal
    }

    /// The share of the tree, in percent.
    pub fn default_tree_size() -> (r: u16)
        ensures
            r == 40,
    {
        40
    }
}

impl Header {
    /// A header that is shown, in the usual format.
    pub fn default() -> (r: Header)
        ensures
            !r.disable,
            r.format@ == "{version} - {data_source} ({content_type}) - {data_size}"@,
    {
        Header { disable: false, format: Header::default_format() }
    }

    /// The usual format of the header.
    pub fn default_format() -> (r: String)
        ensures
            r@ == "{version} - {data_source} ({content_type}) - {data_size}"@,
    {
        String::from_str("{version} - {data_source} ({content_type}) - {data_size}")
    }
}

impl Footer {
    /// A footer that is shown.
    pub fn default() -> (r: Footer)
        ensures
            !r.disable,
    {
        Footer { disable: false }
    }
}

impl Filter {
    /// A filter that can be used, that tells upper and lower case apart.
    pub fn default() -> (r: Filter)
        ensures
            r == (Filter { disable: false, ignore_case: false, exclude_mode: false }),
    {
        Filter { disable: false, ignore_case: false, exclude_mode: false }
    }
}

impl TreeSettings {
    /// The selected item is highlighted, without a symbol before it.
    pub fn default() -> (r: TreeSettings)
        ensures
            !r.disable_selected_highlight,
            r.selected_symbol@.len() == 0,
    {
        TreeSettings { disable_selected_highlight: false, selected_symbol: String::new() }
    }
}

impl Data {
    /// Values are highlighted and not wrapped; thirty mebibytes are read.
    pub fn default() -> (r: Data)
        ensures
            r == (Data { disable_highlight: false, wrap: false, max_data_size: 30 }),
    {
        Data {
            disable_highlight: false,
            wrap: false,
            max_data_size: Config::default_max_data_size(),
        }
    }
}

impl Config {
    /// The largest input that is read unless the user sets another size, in
    /// mebibytes.
    pub fn default_max_data_size() -> (r: usize)
        ensures
            r == 30,
    {
        30
    }

    /// The settings that hold unless the user sets others, with the given
    /// editor program.
    pub fn default(program: String) -> (r: Config)
        ensures
            r.editor.program == program,
            texts_of(r.editor.args@) == seq!["{file}"@],
            r.editor.dir@ == "/tmp"@,
            r.data == (Data { disable_highlight: false, wrap: false, max_data_size: 30 }),
            r.layout == (Layout { direction: LayoutDirection::Horizontal, tree_size: 40 }),
            !r.header.disable,
            r.header.format@ == "{version} - {data_source} ({content_type}) - {data_size}"@,
            !r.footer.disable,
            r.filter == (Filter { disable: false, ignore_case: false, exclude_mode: false }),
            !r.tree.disable_selected_highlight,
            r.tree.selected_symbol@.len() == 0,
            r.types.is_default(),
            r.keys.is_default(),
    {
        Config {
            editor: Editor::default(program),
            data: Data::default(),
            layout: Layout::default(),
            header: Header::default(),
            footer: Footer::default(),
            filter: Filter::default(),
            tree: TreeSettings::default(),
            types: Types::default(),
            keys: Keys::default(),
        }
    }

    /// The share of the tree is in its range.
    pub open spec fn tree_size_ok(&self) -> bool {
        MIN_LAYOUT_TREE_SIZE <= self.layout.tree_size <= MAX_LAYOUT_TREE_SIZE
    }

    /// Checks the share of the tree.
    pub fn check_tree_size(&self) -> (r: Result<(), ConfigError>)
        ensures
            r == (if self.tree_size_ok() {
                Ok::<(), ConfigError>(())
            } else {
                Err::<(), ConfigError>(ConfigError::TreeSize)
            }),
    {
        if self.layout.tree_size < MIN_LAYOUT_TREE_SIZE || self.layout.tree_size
            > MAX_LAYOUT_TREE_SIZE {
            Err(ConfigError::TreeSize)
        } else {
            Ok(())
        }
    }

    /// Reads the key bindings.
    pub fn parse_keys(&mut self) -> (r: Result<(), ConfigError>)
        ensures
            final(self).layout == old(self).layout,
            final(self).keys.bindings() == old(self).keys.bindings(),
            match parsed_bindings(old(self).keys.bindings(), old(self).keys.bindings().len()) {
                Ok((all, _)) => r is Ok && bindings_view(final(self).keys.actions@) == all,
                Err((i, e)) => r == Err::<(), ConfigError>(ConfigError::Key(i as usize, e))
                    && final(self).keys.actions == old(self).keys.actions,
            },
    {
        match self.keys.parse() {
            Ok(()) => Ok(()),
            Err((i, e)) => Err(ConfigError::Key(i, e)),
        }
    }

    /// Checks the settings and reads the key bindings. The share of the
    /// tree is looked at first.
    pub fn parse(&mut self) -> (r: Result<(), ConfigError>)
        ensures
            final(self).layout == old(self).layout,
            final(self).keys.bindings() == old(self).keys.bindings(),
            !old(self).tree_size_ok() ==> r == Err::<(), ConfigError>(ConfigError::TreeSize)
                && final(self).keys.actions == old(self).keys.actions,
            old(self).tree_size_ok() ==> match parsed_bindings(
                old(self).keys.bindings(),
                old(self).keys.bindings().len(),
            ) {
                Ok((all, _)) => r is Ok && bindings_view(final(self).keys.actions@) == all,
                Err((i, e)) => r == Err::<(), ConfigError>(ConfigError::Key(i as usize, e))
                    && final(self).keys.actions == old(self).keys.actions,
            },
    {
        match self.check_tree_size() {
            Ok(()) => self.parse_keys(),
            Err(e) => Err(e),
        }
    }
}

} // verus!
