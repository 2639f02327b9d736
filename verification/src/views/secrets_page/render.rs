//! Ordering of the secrets page and the secret edited last.

use vstd::prelude::*;

use crate::models::{secret_names, secret_update_times, SecretHttpModel};
use crate::ordering::{
    char_views, first_greatest_positive, is_first_greatest_positive,
    lemma_first_greatest_positive_unique, last_by_text_key, orders_last_by_key, string_views, text_keys,
};
use crate::text::{chars_of, text_less};

verus! {

/// The column the secrets are ordered by.
#[derive(Debug, Clone, Copy)]
pub enum OrderBy {
    Name,
    Updated,
}

/// The ordering chosen on the secrets page.
pub struct SecretsListState {
    pub order_by: OrderBy,
}

impl SecretsListState {
    /// Ordered by name.
    pub fn new() -> (r: Self)
        ensures
            r.order_by is Name,
    {
        Self { order_by: OrderBy::Name }
    }

    /// The positions of the rows to show, in display order. By name: the
    /// positions in `secrets`, in the order of the names, and of several
    /// secrets with the same name only the last one. By update time: the
    /// positions in `updated_texts`, which holds each secret's update time as
    /// the page displays it, in the order of those texts, and of several
    /// secrets shown with the same text only the last one.
    pub fn sort(&self, secrets: &Vec<SecretHttpModel>, updated_texts: &Vec<String>) -> (r: Vec<
        usize,
    >)
        ensures
            self.order_by is Name ==> orders_last_by_key(
                secret_names(secrets@),
                |a: Seq<char>, b: Seq<char>| text_less(a, b),
                r@,
            ),
            self.order_by is Updated ==> orders_last_by_key(
                string_views(updated_texts@),
                |a: Seq<char>, b: Seq<char>| text_less(a, b),
                r@,
            ),
    {
        match self.order_by {
            OrderBy::Name => {
                let keys = name_keys(secrets);
                last_by_text_key(&keys)
            },
            OrderBy::Updated => {
                let keys = text_keys(updated_texts);
                last_by_text_key(&keys)
            },
        }
    }
}

/// The arrows beside the Name and Updated column titles: an up arrow beside
/// the column the list is ordered by, nothing beside the other.
pub fn order_arrows(order_by: OrderBy) -> (r: (&'static str, &'static str))
    ensures
        order_by is Name ==> r.0@ == "\u{25B2}"@ && r.1@ == ""@,
        order_by is Updated ==> r.0@ == ""@ && r.1@ == "\u{25B2}"@,
{
    match order_by {
        OrderBy::Name => ("\u{25B2}", ""),
        OrderBy::Updated => ("", "\u{25B2}"),
    }
}

fn name_keys(secrets: &Vec<SecretHttpModel>) -> (r: Vec<Vec<char>>)
    ensures
        char_views(r@) == secret_names(secrets@),
{
    let n = secrets.len();
    let mut r: Vec<Vec<char>> = Vec::new();
    let mut i: usize = 0;
    while i < n
        invariant
            n == secrets@.len(),
            i <= n,
            r@.len() == i,
            forall|j: int| 0 <= j < i ==> #[trigger] r@[j]@ == secrets@[j].name@,
        decreases n - i,
    {
        r.push(chars_of(secrets[i].name.as_str()));
        i = i + 1;
    }
    assert(char_views(r@) =~= secret_names(secrets@));
    r
}

fn update_keys(secrets: &Vec<SecretHttpModel>) -> (r: Vec<i64>)
    ensures
        r@ == secret_update_times(secrets@),
{
    let n = secrets.len();
    let mut r: Vec<i64> = Vec::new();
    let mut i: usize = 0;
    while i < n
        invariant
            n == secrets@.len(),
            i <= n,
            r@.len() == i,
            forall|j: int| 0 <= j < i ==> #[trigger] r@[j] == secrets@[j].updated,
        decreases n - i,
    {
        r.push(secrets[i].updated);
        i = i + 1;
    }
    assert(r@ =~= secret_update_times(secrets@));
    r
}

/// The name of the secret updated last: the first of those with the greatest
/// positive update time, or empty text when no update time is positive.
pub fn get_last_edited(secrets: &Vec<SecretHttpModel>) -> (r: String)
    ensures
        (forall|i: int| 0 <= i < secrets@.len() ==> #[trigger] secrets@[i].updated <= 0) ==> r@
            == Seq::<char>::empty(),
        forall|j: int|
            #[trigger] is_first_greatest_positive(secret_update_times(secrets@), j) ==> r@
                == secrets@[j].name@,
{
    let keys = update_keys(secrets);
    match first_greatest_positive(&keys) {
        Some(j) => {
            proof {
                assert(keys@[j as int] == secrets@[j as int].updated);
                assert(secrets@[j as int].updated > 0);
                assert forall|k: int| #[trigger] is_first_greatest_positive(keys@, k) implies k == j by {
                    lemma_first_greatest_positive_unique(keys@, j as int, k);
                }
            }
            secrets[j].name.clone()
        },
        None => {
            proof {
                assert forall|k: int| #[trigger] is_first_greatest_positive(keys@, k) implies false by {
                    assert(keys@[k] > 0);
                }
            }
            String::new()
        },
    }
}

} // verus!
