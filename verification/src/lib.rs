//! Verified view-state and text logic of a settings-management web UI:
//! the editing dialogs for secrets, templates and domain products, the
//! selection of templates for export, and the ordering, filtering and
//! highlighting rules of the secret and template lists.

pub mod models;
pub mod ordering;
pub mod text;
pub mod views;
