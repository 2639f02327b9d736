//! Where a secret is used inside templates.

use vstd::prelude::*;

use crate::text::{contains_text, has_substring, lines_of, split_lines};

verus! {

/// The lines of `yaml`, each with whether it mentions `secret` (such lines
/// are highlighted).
pub fn mark_secret_lines(yaml: &str, secret: &str) -> (r: Vec<(String, bool)>)
    ensures
        r@.len() == lines_of(yaml@).len(),
        forall|j: int|
            0 <= j < r@.len() ==> #[trigger] r@[j].0@ == lines_of(yaml@)[j] && r@[j].1
                == has_substring(lines_of(yaml@)[j], secret@),
{
    let lines = split_lines(yaml);
    let ghost views = lines@.map_values(|l: String| l@);
    let n = lines.len();
    let mut r: Vec<(String, bool)> = Vec::new();
    let mut i: usize = 0;
    while i < n
        invariant
            n == lines@.len(),
            views == lines@.map_values(|l: String| l@),
            views == lines_of(yaml@),
            i <= n,
            r@.len() == i,
            forall|j: int|
                0 <= j < i ==> #[trigger] r@[j].0@ == views[j] && r@[j].1 == has_substring(
                    views[j],
                    secret@,
                ),
        decreases n - i,
    {
        assert(views[i as int] == lines@[i as int]@);
        let mentions = contains_text(lines[i].as_str(), secret);
        let line = lines[i].clone();
        r.push((line, mentions));
        assert(r@[i as int].0@ == views[i as int]);
        i = i + 1;
    }
    r
}

} // verus!
