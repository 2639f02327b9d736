//! Picking a secret whose value to copy.

use vstd::prelude::*;

use super::choose_secret::{names_offered_for, offered_for};
use crate::text::{byte_len, utf8_len};
use crate::views::secrets_list::{item_names, SecretListItemApiModel};

verus! {

/// The names listed under the search box: none until the search text has
/// more than three bytes, then those offered for it.
pub fn select_secret_candidates(values: &Vec<SecretListItemApiModel>, filter: &str) -> (r: Vec<
    String,
>)
    ensures
        utf8_len(filter@) <= 3 ==> r@.len() == 0,
        utf8_len(filter@) > 3 ==> r@.map_values(|s: String| s@) == item_names(values@).filter(
            |n: Seq<char>| offered_for(n, filter@),
        ),
{
    if byte_len(filter) > 3 {
        names_offered_for(values, filter)
    } else {
        Vec::new()
    }
}

} // verus!
