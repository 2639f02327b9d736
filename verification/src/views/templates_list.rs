//! The list of templates: which rows the name filter keeps, and the
//! template edited last.

use vstd::prelude::*;

use crate::ordering::{
    char_views, first_greatest_text, is_first_greatest_text, lemma_first_greatest_text_unique,
};
use crate::text::{chars_of, contains_text, has_substring, lowercase, to_lowercase};

verus! {

/// A template as the list shows it; the times are texts.
pub struct TemplateApiModel {
    pub env: String,
    pub name: String,
    pub created: String,
    pub updated: String,
    pub last_requests: i64,
    pub has_missing_placeholders: bool,
}

/// The update texts of a list of templates.
pub open spec fn update_texts(templates: Seq<TemplateApiModel>) -> Seq<Seq<char>> {
    templates.map_values(|t: TemplateApiModel| t.updated@)
}

/// Whether the row of a template named `name` is shown for the typed
/// `filter`: always when the filter is empty, else when the lower-case name
/// contains the lower-case filter.
pub fn template_matches_filter(name: &str, filter: &str) -> (r: bool)
    ensures
        r == (lowercase(filter@).len() == 0 || has_substring(lowercase(name@), lowercase(filter@))),
{
    let value_to_filter = to_lowercase(filter);
    if value_to_filter.as_str().is_empty() {
        return true;
    }
    let lower_name = to_lowercase(name);
    contains_text(lower_name.as_str(), value_to_filter.as_str())
}

/// The environment and name of the template updated last: the first of
/// those with the greatest non-empty update text (texts compare
/// lexicographically), or two empty texts when no update text is non-empty.
pub fn get_last_edited(templates: &Vec<TemplateApiModel>) -> (r: (String, String))
    ensures
        (forall|i: int| 0 <= i < templates@.len() ==> #[trigger] templates@[i].updated@.len() == 0)
            ==> (r.0@ == Seq::<char>::empty() && r.1@ == Seq::<char>::empty()),
        forall|j: int|
            #[trigger] is_first_greatest_text(update_texts(templates@), j) ==> r.0@
                == templates@[j].env@ && r.1@ == templates@[j].name@,
{
    let n = templates.len();
    let mut keys: Vec<Vec<char>> = Vec::new();
    let mut i: usize = 0;
    while i < n
        invariant
            n == templates@.len(),
            i <= n,
            keys@.len() == i,
            forall|j: int| 0 <= j < i ==> #[trigger] keys@[j]@ == templates@[j].updated@,
        decreases n - i,
    {
        keys.push(chars_of(templates[i].updated.as_str()));
        i = i + 1;
    }
    assert(char_views(keys@) =~= update_texts(templates@));
    match first_greatest_text(&keys) {
        Some(j) => {
            proof {
                assert(char_views(keys@)[j as int] == templates@[j as int].updated@);
                assert forall|k: int| #[trigger] is_first_greatest_text(char_views(keys@), k) implies k
                    == j by {
                    lemma_first_greatest_text_unique(char_views(keys@), j as int, k);
                }
            }
            (templates[j].env.clone(), templates[j].name.clone())
        },
        None => {
            proof {
                assert forall|k: int| #[trigger] is_first_greatest_text(char_views(keys@), k) implies false by {
                    assert(char_views(keys@)[k].len() > 0);
                }
            }
            (String::new(), String::new())
        },
    }
}

} // verus!
