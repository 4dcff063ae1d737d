//! The tree view: flatten, window, paint.

pub mod builder;
pub mod viewport;
pub mod record;
pub mod render;
pub mod surface;
pub mod text;
pub mod view;
