//! The core of a keyboard-driven terminal file manager: listing order,
//! cursor and selection handling, text input, the built-in viewer and
//! editor, and the text of every line on screen, all as plain state
//! transitions and functions on plain values.

pub mod text;
pub mod viewer;
pub mod glob;
pub mod app;
pub mod content;
pub mod editor;
pub mod event;
pub mod file_entry;
pub mod file_ops;
pub mod format;
pub mod help;
pub mod layout;
pub mod line_edit;
pub mod nav;
pub mod screen;
pub mod selection;
