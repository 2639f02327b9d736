//! Picking a secret to insert into a template, or adding a new one.

use vstd::prelude::*;

use crate::text::{
    byte_len, contains_text, has_substring, i32_text_value, lowercase, parse_i32, to_lowercase,
    utf8_len,
};
use crate::views::secrets_list::{item_names, SecretListItemApiModel};

verus! {

/// Whether the picker searches existing secrets or adds a new one.
pub enum ChooseSecretMode {
    Select,
    Add,
}

/// A secret name is offered for the search text `filter` when its lower-case
/// form contains the filter.
pub open spec fn offered_for(name: Seq<char>, filter: Seq<char>) -> bool {
    has_substring(lowercase(name), filter)
}

/// The names of `values` that are offered for `filter`, in order.
pub fn names_offered_for(values: &Vec<SecretListItemApiModel>, filter: &str) -> (r: Vec<String>)
    ensures
        r@.map_values(|s: String| s@) == item_names(values@).filter(
            |n: Seq<char>| offered_for(n, filter@),
        ),
{
    let ghost pred = |n: Seq<char>| offered_for(n, filter@);
    let n = values.len();
    let mut r: Vec<String> = Vec::new();
    let mut i: usize = 0;
    assert(item_names(values@).take(0) =~= Seq::<Seq<char>>::empty());
    proof {
        reveal(Seq::filter);
    }
    while i < n
        invariant
            n == values@.len(),
            i <= n,
            pred == (|n: Seq<char>| offered_for(n, filter@)),
            r@.map_values(|s: String| s@) == item_names(values@).take(i as int).filter(pred),
        decreases n - i,
    {
        let ghost names = item_names(values@);
        proof {
            assert(names.take(i + 1) =~= names.take(i as int).push(names[i as int]));
            names.take(i as int).lemma_filter_push(names[i as int], pred);
        }
        let lower = to_lowercase(values[i].name.as_str());
        if contains_text(lower.as_str(), filter) {
            r.push(values[i].name.clone());
            assert(r@.map_values(|s: String| s@) =~= item_names(values@).take(i as int).filter(
                pred,
            ).push(values@[i as int].name@));
        }
        i = i + 1;
    }
    assert(item_names(values@).take(n as int) =~= item_names(values@));
    r
}

/// The names listed under the search box: none until the search text has
/// at least three bytes, then those offered for it.
pub fn choose_secret_candidates(values: &Vec<SecretListItemApiModel>, filter: &str) -> (r: Vec<
    String,
>)
    ensures
        utf8_len(filter@) < 3 ==> r@.len() == 0,
        utf8_len(filter@) >= 3 ==> r@.map_values(|s: String| s@) == item_names(values@).filter(
            |n: Seq<char>| offered_for(n, filter@),
        ),
{
    if byte_len(filter) < 3 {
        Vec::new()
    } else {
        names_offered_for(values, filter)
    }
}

/// The search text kept from the search input: what was typed, in lower
/// case.
pub fn search_filter(input: &str) -> (r: String)
    ensures
        r@ == lowercase(input@),
{
    to_lowercase(input)
}

/// The level of a secret added from the picker: the level input read as an
/// `i32`. The picker only adds a secret whose level input reads as one.
pub fn add_secret_level(input: &str) -> (r: i32)
    requires
        i32_text_value(input@) is Some,
    ensures
        i32_text_value(input@) == Some(r),
{
    match parse_i32(input) {
        Some(v) => v,
        None => 0,
    }
}

/// Whether `secrets` (when loaded) has a secret named `secret_to_find`.
pub fn has_secret(secrets: &Option<Vec<SecretListItemApiModel>>, secret_to_find: &str) -> (r: bool)
    ensures
        r == match secrets {
            Some(values) => item_names(values@).contains(secret_to_find@),
            None => false,
        },
{
    match secrets {
        Some(values) => {
            let wanted = String::from_str(secret_to_find);
            let n = values.len();
            let mut i: usize = 0;
            while i < n
                invariant
                    *secrets == Some(*values),
                    n == values@.len(),
                    i <= n,
                    wanted@ == secret_to_find@,
                    forall|j: int| 0 <= j < i ==> #[trigger] values@[j].name@ != secret_to_find@,
                decreases n - i,
            {
                if values[i].name == wanted {
                    assert(item_names(values@)[i as int] == secret_to_find@);
                    assert(item_names(values@).contains(secret_to_find@));
                    return true;
                }
                i = i + 1;
            }
            assert forall|j: int| 0 <= j < item_names(values@).len() implies #[trigger] item_names(
                values@,
            )[j] != secret_to_find@ by {
                assert(item_names(values@)[j] == values@[j].name@);
            }
            false
        },
        None => false,
    }
}

} // verus!
