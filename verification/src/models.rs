//! Plain data exchanged with the server.

use vstd::prelude::*;

verus! {

/// One template to include in a downloaded snapshot.
pub struct DownloadFileRequestModel {
    pub env: String,
    pub name: String,
}

/// A secret as listed on the secrets page; times are in microseconds since
/// the Unix epoch.
pub struct SecretHttpModel {
    pub name: String,
    pub level: i32,
    pub created: i64,
    pub updated: i64,
    pub used_by_templates: i32,
    pub used_by_secrets: i32,
}

/// A template as listed on the templates page; times are in microseconds
/// since the Unix epoch, the last request in milliseconds.
pub struct TemplateHttpModel {
    pub env: String,
    pub name: String,
    pub created: i64,
    pub updated: i64,
    pub last_requests: i64,
    pub has_missing_placeholders: bool,
}

/// The names of a list of secrets.
pub open spec fn secret_names(secrets: Seq<SecretHttpModel>) -> Seq<Seq<char>> {
    secrets.map_values(|s: SecretHttpModel| s.name@)
}

/// The update times of a list of secrets.
pub open spec fn secret_update_times(secrets: Seq<SecretHttpModel>) -> Seq<i64> {
    secrets.map_values(|s: SecretHttpModel| s.updated)
}

/// The update times of a list of templates.
pub open spec fn template_update_times(templates: Seq<TemplateHttpModel>) -> Seq<i64> {
    templates.map_values(|t: TemplateHttpModel| t.updated)
}

} // verus!
