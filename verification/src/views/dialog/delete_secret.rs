//! The dialog that confirms deleting a secret.

use vstd::prelude::*;

verus! {

/// The question the dialog asks.
pub fn delete_secret_message(secret: &str) -> (r: String)
    ensures
        r@ == "You are about to delete a secret '"@ + secret@ + "'"@,
{
    let mut r = String::from_str("You are about to delete a secret '");
    r.append(secret);
    r.append("'");
    r
}

} // verus!
