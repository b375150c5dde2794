//! Utility helpers: crate availability checks and text formatting.

pub mod crate_check;
pub mod path;
pub mod text;
