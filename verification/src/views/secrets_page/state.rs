//! The starting state of the secrets list.

use vstd::prelude::*;

pub use super::render::OrderBy;

verus! {

/// The ordering and the product whose secrets are listed.
pub struct SecretsListState {
    pub order_by: OrderBy,
    pub product_id: String,
}

impl SecretsListState {
    /// Ordered by name, for the product used last if one is remembered,
    /// else for the first product, else for no product (empty text).
    pub fn new(last_used_product: Option<String>, products: &Vec<String>) -> (r: Self)
        ensures
            r.order_by is Name,
            r.product_id@ == match last_used_product {
                Some(p) => p@,
                None => if products@.len() > 0 {
                    products@[0]@
                } else {
                    Seq::<char>::empty()
                },
            },
    {
        let product_id = match last_used_product {
            Some(product_id) => product_id,
            None => {
                if products.len() > 0 {
                    products[0].clone()
                } else {
                    String::new()
                }
            },
        };
        Self { order_by: OrderBy::Name, product_id }
    }
}

} // verus!
