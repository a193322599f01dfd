//! A terminal file manager's core: the browsing state and its key handling,
//! the directory listing rules, and the text shown in its panels.

pub mod app;
pub mod config;
pub mod fs;
pub mod laws;
pub mod text;
pub mod ui;
