//! User interface state types with no rendering in them.

pub mod animation;
pub mod app;
pub mod search;
pub mod theme;
