//! The state of the parts of the screen that does not depend on a terminal.

pub mod filter;
pub mod focus;
pub mod footer;
pub mod header;
pub mod popup;
pub mod screen;
pub mod scroll;
