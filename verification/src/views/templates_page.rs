//! The templates page.

pub mod api;
pub mod render;
pub mod state;
