//! A personal task manager: hierarchical tasks, a command line front end and
//! terminal views.
//!
//! The heart of the crate is [`tree`]: it turns a flat list of task records
//! that point at their parents into a depth-annotated display order, picks the
//! window of that order that fits the drawing area, and paints it onto a
//! character grid. [`app`] and [`tui`] hold the state of the key and value
//! editor and say what its screen shows; [`task`] and [`backend`] hold what the
//! command line and the storage layer decide and write.

pub mod app;
pub mod backend;
pub mod decimal;
pub mod json;
pub mod pairs;
pub mod task;
pub mod tree;
pub mod tui;
