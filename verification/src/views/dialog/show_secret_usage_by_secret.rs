//! Where a secret is used inside the values of other secrets.

use vstd::prelude::*;

use crate::text::{chars_of, find_chars, has_substring, is_first_occurrence, occurs_at, piece};

verus! {

/// Splits `value` around the first occurrence of `secret`: the text before
/// and the text after it, or `None` when the value does not contain it.
pub fn split_at_secret(value: &str, secret: &str) -> (r: Option<(String, String)>)
    ensures
        match r {
            Some((left, right)) => is_first_occurrence(value@, secret@, left@.len() as int)
                && left@ + secret@ + right@ == value@,
            None => !has_substring(value@, secret@),
        },
{
    let v = chars_of(value);
    let s = chars_of(secret);
    match find_chars(&v, &s) {
        Some(index) => {
            assert(occurs_at(v@, s@, index as int));
            assert(index + s@.len() <= v@.len());
            let left = piece(value, 0, index);
            let vn = v.len();
            let sn = s.len();
            let right = piece(value, index + sn, vn);
            assert(left@ + secret@ + right@ =~= value@);
            Some((left, right))
        },
        None => None,
    }
}

/// The split found is the only one: the text before the secret is determined
/// by the value and the secret.
pub proof fn law_split_is_unique(value: Seq<char>, secret: Seq<char>, i: int, j: int)
    requires
        is_first_occurrence(value, secret, i),
        is_first_occurrence(value, secret, j),
    ensures
        i == j,
{
}

} // verus!
