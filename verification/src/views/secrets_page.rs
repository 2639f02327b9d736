//! The secrets page.

pub mod render;
pub mod state;
