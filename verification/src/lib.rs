//! Document model, codecs and text layout for browsing structured data
//! (JSON, YAML, TOML, XML, HCL, JSON Lines) as a tree.

pub mod cmd;
pub mod config;
pub mod doc;
pub mod edit;
pub mod live_reload;
pub mod parse;
pub mod text;
pub mod tree;
pub mod ui;
