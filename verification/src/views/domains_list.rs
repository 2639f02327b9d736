//! The list of product domains: their names, the description of their
//! routes, and whether Cloudflare points them at the load balancer.

use vstd::prelude::*;

use crate::text::{replace_star, replace_stars};

verus! {

/// One route of the reverse proxy.
pub struct NginxRouteHttpModel {
    pub path: String,
    pub proxy_to: String,
    pub template: Option<String>,
}

/// A DNS record at Cloudflare.
pub struct CfRecordRestApiModel {
    pub id: String,
    pub name: String,
    pub tp: String,
    pub content: String,
    pub proxied: bool,
}

/// Whether a product's Cloudflare record is in order.
pub enum CloudFlareStatus {
    /// An A record pointing at the load balancer.
    InOrder,
    /// Something to fix: what is wrong, and the record to edit, if there is
    /// one.
    Problem { message: String, record_id: Option<String> },
}

/// `status` is a problem with this message and record to edit.
pub open spec fn is_problem(
    status: CloudFlareStatus,
    message: Seq<char>,
    record_id: Option<Seq<char>>,
) -> bool {
    match status {
        CloudFlareStatus::Problem { message: m, record_id: id } => m@ == message && match id {
            Some(i) => record_id == Some(i@),
            None => record_id is None,
        },
        CloudFlareStatus::InOrder => false,
    }
}

/// The domain of product `product_name` under the domain mask: the mask with
/// every `*` replaced by the product name.
pub fn product_domain_name(domain_mask: &str, product_name: &str) -> (r: String)
    ensures
        r@ == replace_stars(domain_mask@, product_name@),
{
    replace_star(domain_mask, product_name)
}

/// The badge about the client certificate authority of a product's proxy.
pub fn ca_badge_text(ca: &Option<String>) -> (r: String)
    ensures
        r@ == match ca {
            Some(c) => "Protected with CA "@ + c@,
            None => "No CA"@,
        },
{
    match ca {
        Some(c) => {
            let mut r = String::from_str("Protected with CA ");
            r.append(c.as_str());
            r
        },
        None => String::from_str("No CA"),
    }
}

/// The badge about the global template of a product's proxy.
pub fn template_badge_text(template: &Option<String>) -> (r: String)
    ensures
        r@ == match template {
            Some(t) => "Template: "@ + t@,
            None => "No global templates"@,
        },
{
    match template {
        Some(t) => {
            let mut r = String::from_str("Template: ");
            r.append(t.as_str());
            r
        },
        None => String::from_str("No global templates"),
    }
}

/// The text of a route label's template part: empty, or `+ Template: ` and
/// the template.
pub open spec fn route_template_text(template: Option<String>) -> Seq<char> {
    match template {
        Some(t) => "+ Template: "@ + t@,
        None => Seq::<char>::empty(),
    }
}

/// The label of a route: path and target in quotes, joined by an arrow,
/// then the template part.
pub fn route_label(route: &NginxRouteHttpModel) -> (r: String)
    ensures
        r@ == "'"@ + route.path@ + "' -> '"@ + route.proxy_to@ + "' "@ + route_template_text(
            route.template,
        ),
{
    let mut r = String::from_str("'");
    r.append(route.path.as_str());
    r.append("' -> '");
    r.append(route.proxy_to.as_str());
    r.append("' ");
    match &route.template {
        Some(t) => {
            r.append("+ Template: ");
            r.append(t.as_str());
        },
        None => {},
    }
    r
}

/// The status shown for a domain whose Cloudflare record is `record` (if
/// any) when the load balancer has address `ip`: a missing record, a record
/// of another type than `A`, and an `A` record with another address are
/// problems; the last two name the record to edit.
pub fn cloud_flare_status(record: Option<&CfRecordRestApiModel>, ip: &str) -> (r: CloudFlareStatus)
    ensures
        match record {
            None => is_problem(r, "No Cloudflare record found"@, None),
            Some(value) => if value.tp@ != "A"@ {
                is_problem(r, "Must be A-record. Found: "@ + value.tp@, Some(value.id@))
            } else if value.content@ != ip@ {
                is_problem(r, "Invalid IP: "@ + value.content@, Some(value.id@))
            } else {
                r is InOrder
            },
        },
{
    match record {
        Some(value) => {
            let a_type = String::from_str("A");
            let address = String::from_str(ip);
            if !(value.tp == a_type) {
                let mut message = String::from_str("Must be A-record. Found: ");
                message.append(value.tp.as_str());
                CloudFlareStatus::Problem { message, record_id: Some(value.id.clone()) }
            } else if !(value.content == address) {
                let mut message = String::from_str("Invalid IP: ");
                message.append(value.content.as_str());
                CloudFlareStatus::Problem { message, record_id: Some(value.id.clone()) }
            } else {
                CloudFlareStatus::InOrder
            }
        },
        None => CloudFlareStatus::Problem {
            message: String::from_str("No Cloudflare record found"),
            record_id: None,
        },
    }
}

} // verus!
