//! The template edited last on the templates page.

use vstd::prelude::*;

use crate::models::{template_update_times, TemplateHttpModel};
use crate::ordering::{
    first_greatest_positive, is_first_greatest_positive, lemma_first_greatest_positive_unique,
};

verus! {

fn template_update_keys(templates: &Vec<TemplateHttpModel>) -> (r: Vec<i64>)
    ensures
        r@ == template_update_times(templates@),
{
    let n = templates.len();
    let mut r: Vec<i64> = Vec::new();
    let mut i: usize = 0;
    while i < n
        invariant
            n == templates@.len(),
            i <= n,
            r@.len() == i,
            forall|j: int| 0 <= j < i ==> #[trigger] r@[j] == templates@[j].updated,
        decreases n - i,
    {
        r.push(templates[i].updated);
        i = i + 1;
    }
    assert(r@ =~= template_update_times(templates@));
    r
}

/// The environment and name of the template updated last: the first of
/// those with the greatest positive update time, or two empty texts when no
/// update time is positive.
pub fn get_last_edited(templates: &Vec<TemplateHttpModel>) -> (r: (String, String))
    ensures
        (forall|i: int| 0 <= i < templates@.len() ==> #[trigger] templates@[i].updated <= 0) ==> (
        r.0@ == Seq::<char>::empty() && r.1@ == Seq::<char>::empty()),
        forall|j: int|
            #[trigger] is_first_greatest_positive(template_update_times(templates@), j) ==> r.0@
                == templates@[j].env@ && r.1@ == templates@[j].name@,
{
    let keys = template_update_keys(templates);
    match first_greatest_positive(&keys) {
        Some(j) => {
            proof {
                assert(keys@[j as int] == templates@[j as int].updated);
                assert forall|k: int| #[trigger] is_first_greatest_positive(keys@, k) implies k == j by {
                    lemma_first_greatest_positive_unique(keys@, j as int, k);
                }
            }
            (templates[j].env.clone(), templates[j].name.clone())
        },
        None => {
            proof {
                assert forall|k: int| #[trigger] is_first_greatest_positive(keys@, k) implies false by {
                    assert(keys@[k] > 0);
                }
            }
            (String::new(), String::new())
        },
    }
}

} // verus!
