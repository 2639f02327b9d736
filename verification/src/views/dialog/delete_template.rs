//! The dialog that confirms deleting a template.

use vstd::prelude::*;

verus! {

/// The question the dialog asks.
pub fn delete_template_message(env: &str, name: &str) -> (r: String)
    ensures
        r@ == "You are about to delete a template "@ + env@ + "/"@ + name@,
{
    let mut r = String::from_str("You are about to delete a template ");
    r.append(env);
    r.append("/");
    r.append(name);
    r
}

} // verus!
