//! The list of secrets: its ordering, which rows the name filter keeps, how
//! the usage counters are marked, and the secret edited last.

use vstd::prelude::*;

use crate::ordering::{
    char_views, first_greatest_positive, is_first_greatest_positive,
    lemma_first_greatest_positive_unique, last_by_text_key, orders_last_by_key, string_views, text_keys,
};
use crate::text::{chars_of, contains_text, has_substring, lowercase, text_less, to_lowercase};

verus! {

/// The column the secrets are ordered by.
#[derive(Debug, Clone, Copy)]
pub enum OrderBy {
    Name,
    Updated,
}

/// A secret as the list shows it; times are in microseconds since the Unix
/// epoch.
pub struct SecretListItemApiModel {
    pub name: String,
    pub level: i32,
    pub created: i64,
    pub updated: i64,
    pub used_by_templates: i32,
    pub used_by_secrets: i32,
}

/// The names of a list of secrets.
pub open spec fn item_names(secrets: Seq<SecretListItemApiModel>) -> Seq<Seq<char>> {
    secrets.map_values(|s: SecretListItemApiModel| s.name@)
}

/// The update times of a list of secrets.
pub open spec fn item_update_times(secrets: Seq<SecretListItemApiModel>) -> Seq<i64> {
    secrets.map_values(|s: SecretListItemApiModel| s.updated)
}

fn name_keys(secrets: &Vec<SecretListItemApiModel>) -> (r: Vec<Vec<char>>)
    ensures
        char_views(r@) == item_names(secrets@),
{
    let n = secrets.len();
    let mut r: Vec<Vec<char>> = Vec::new();
    let mut i: usize = 0;
    while i < n
        invariant
            n == secrets@.len(),
            i <= n,
            r@.len() == i,
            forall|j: int| 0 <= j < i ==> #[trigger] r@[j]@ == secrets@[j].name@,
        decreases n - i,
    {
        r.push(chars_of(secrets[i].name.as_str()));
        i = i + 1;
    }
    assert(char_views(r@) =~= item_names(secrets@));
    r
}

fn update_keys(secrets: &Vec<SecretListItemApiModel>) -> (r: Vec<i64>)
    ensures
        r@ == item_update_times(secrets@),
{
    let n = secrets.len();
    let mut r: Vec<i64> = Vec::new();
    let mut i: usize = 0;
    while i < n
        invariant
            n == secrets@.len(),
            i <= n,
            r@.len() == i,
            forall|j: int| 0 <= j < i ==> #[trigger] r@[j] == secrets@[j].updated,
        decreases n - i,
    {
        r.push(secrets[i].updated);
        i = i + 1;
    }
    assert(r@ =~= item_update_times(secrets@));
    r
}

/// The positions of the rows to show, in display order. By name: the
/// positions in `secrets`, in the order of the names, and of several secrets
/// with the same name only the last one. By update time: the positions in
/// `updated_texts`, which holds each secret's update time as the list
/// displays it, in the order of those texts, and of several secrets shown
/// with the same text only the last one.
pub fn order_secrets(
    secrets: &Vec<SecretListItemApiModel>,
    updated_texts: &Vec<String>,
    order_by: OrderBy,
) -> (r: Vec<usize>)
    ensures
        order_by is Name ==> orders_last_by_key(
            item_names(secrets@),
            |a: Seq<char>, b: Seq<char>| text_less(a, b),
            r@,
        ),
        order_by is Updated ==> orders_last_by_key(
            string_views(updated_texts@),
            |a: Seq<char>, b: Seq<char>| text_less(a, b),
            r@,
        ),
{
    match order_by {
        OrderBy::Name => {
            let keys = name_keys(secrets);
            last_by_text_key(&keys)
        },
        OrderBy::Updated => {
            let keys = text_keys(updated_texts);
            last_by_text_key(&keys)
        },
    }
}

/// Whether the row of a secret named `name` is shown for the filter text
/// `filter`: always when the filter is empty, else when the lower-case name
/// contains the filter.
pub fn secret_matches_filter(name: &str, filter: &str) -> (r: bool)
    ensures
        r == (filter@.len() == 0 || has_substring(lowercase(name@), filter@)),
{
    if filter.is_empty() {
        return true;
    }
    let lower_name = to_lowercase(name);
    contains_text(lower_name.as_str(), filter)
}

/// The classes of the two usage counters of a secret (used by templates,
/// used by secrets): both marked as unused when neither count is positive,
/// otherwise each marked as linked when its own count is positive.
pub fn usage_badge_classes(used_by_templates: i32, used_by_secrets: i32) -> (r: (
    &'static str,
    &'static str,
))
    ensures
        used_by_templates == 0 && used_by_secrets == 0 ==> r.0@ == "badge badge-danger have-no-links"@
            && r.1@ == "badge badge-danger have-no-links"@,
        !(used_by_templates == 0 && used_by_secrets == 0) ==> (r.0@ == if used_by_templates > 0 {
            "badge badge-success have-links"@
        } else {
            "badge badge-success empty-links"@
        }) && (r.1@ == if used_by_secrets > 0 {
            "badge badge-success have-links"@
        } else {
            "badge badge-success empty-links"@
        }),
{
    let mut class_template = "badge badge-success empty-links";
    let mut class_secret = class_template;
    if used_by_templates == 0 && used_by_secrets == 0 {
        class_template = "badge badge-danger have-no-links";
        class_secret = class_template;
    } else {
        if used_by_templates > 0 {
            class_template = "badge badge-success have-links";
        }
        if used_by_secrets > 0 {
            class_secret = "badge badge-success have-links";
        }
    }
    (class_template, class_secret)
}

/// The name of the secret updated last: the first of those with the greatest
/// positive update time, or empty text when no update time is positive.
pub fn get_last_edited(secrets: &Vec<SecretListItemApiModel>) -> (r: String)
    ensures
        (forall|i: int| 0 <= i < secrets@.len() ==> #[trigger] secrets@[i].updated <= 0) ==> r@
            == Seq::<char>::empty(),
        forall|j: int|
            #[trigger] is_first_greatest_positive(item_update_times(secrets@), j) ==> r@
                == secrets@[j].name@,
{
    let keys = update_keys(secrets);
    match first_greatest_positive(&keys) {
        Some(j) => {
            proof {
                assert(keys@[j as int] == secrets@[j as int].updated);
                assert forall|k: int| #[trigger] is_first_greatest_positive(keys@, k) implies k == j by {
                    lemma_first_greatest_positive_unique(keys@, j as int, k);
                }
            }
            secrets[j].name.clone()
        },
        None => {
            proof {
                assert forall|k: int| #[trigger] is_first_greatest_positive(keys@, k) implies false by {
                    assert(keys@[k] > 0);
                }
            }
            String::new()
        },
    }
}

} // verus!
