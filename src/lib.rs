//! A menu of named shell commands: the stored list and its settings, the
//! labels the menu shows, the edits the editor makes, and the decisions of
//! the browsing session.

pub mod config;
pub mod import;
pub mod menu_edit;
pub mod menu_main;
pub mod text;
