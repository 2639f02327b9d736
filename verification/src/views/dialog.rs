//! The modal dialogs.

pub mod delete_secret;
pub mod delete_template;
pub mod edit_domain_product;
pub mod edit_secret;
pub mod edit_template;
pub mod render;
pub mod show_secret_usage_by_secret;
pub mod show_secret_usage_by_template;
