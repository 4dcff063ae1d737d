//! The terminal editor for keys and values.

pub mod app;
pub mod layout;
pub mod ui;
