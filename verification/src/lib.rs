//! Verified core of aterm, a minimal tabbed terminal: key and mouse
//! encoding for the PTY, keybinding tables, config interpretation, colour
//! resolution, grid-geometry helpers and the tab/mouse state machines that
//! the event loop drives.

pub mod text;
pub mod keys;
pub mod input;
pub mod binding;
pub mod platform;
pub mod config;
pub mod config_doc;
pub mod terminal;
pub mod render;
pub mod box_drawing;
pub mod cwd;
pub mod tabs;
pub mod pointer;
pub mod paths;
