//! The dialog that adds or edits a product domain.

pub mod state;

use vstd::prelude::*;

verus! {

/// What the dialog is opened with.
pub struct EditDomainProductProps {
    pub add: bool,
    pub name: String,
    pub is_cloud_flare_proxy_pass: bool,
    pub internal_domain_name: String,
}

} // verus!
