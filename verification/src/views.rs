//! State and decision logic behind the pages and dialogs of the UI.

pub mod dialog;
pub mod domains_list;
pub mod secrets_list;
pub mod secrets_page;
pub mod templates_list;
pub mod templates_page;
