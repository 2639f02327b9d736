//! The order in which the server's templates are listed.

use vstd::prelude::*;

use crate::models::TemplateHttpModel;
use crate::ordering::{char_views, last_by_text_key, orders_last_by_key};
use crate::text::{chars_of, text_less};

verus! {

/// The listing key of a template: its name, a `/`, and its environment.
pub open spec fn listing_key(t: TemplateHttpModel) -> Seq<char> {
    t.name@ + seq!['/'] + t.env@
}

/// The listing keys of a list of templates.
pub open spec fn listing_keys(templates: Seq<TemplateHttpModel>) -> Seq<Seq<char>> {
    templates.map_values(|t: TemplateHttpModel| listing_key(t))
}

/// Of two texts `a + "/" + e` and `b + "/" + f`, the first is less only
/// when the names decide it (`a` before `b`), or the names are equal and the
/// first environment is less, or `b` is a proper prefix of `a` followed in
/// `a` by a character not after `/`.
proof fn lemma_listing_key_order(a: Seq<char>, b: Seq<char>, e: Seq<char>, f: Seq<char>)
    requires
        text_less(a + seq!['/'] + e, b + seq!['/'] + f),
    ensures
        (a == b && text_less(e, f)) || text_less(a, b) || (b.len() < a.len() && a.subrange(
            0,
            b.len() as int,
        ) == b && (a[b.len() as int] as u32) <= ('/' as u32)),
    decreases a.len(),
{
    let ka = a + seq!['/'] + e;
    let kb = b + seq!['/'] + f;
    if a.len() == 0 {
        if b.len() == 0 {
            assert(ka[0] == '/' && kb[0] == '/');
            assert(ka.drop_first() =~= e);
            assert(kb.drop_first() =~= f);
            assert(a =~= b);
        }
    } else if b.len() == 0 {
        assert(ka[0] == a[0] && kb[0] == '/');
        assert(a.subrange(0, 0) =~= b);
    } else {
        assert(ka[0] == a[0] && kb[0] == b[0]);
        if a[0] == b[0] {
            let a1 = a.drop_first();
            let b1 = b.drop_first();
            assert(ka.drop_first() =~= a1 + seq!['/'] + e);
            assert(kb.drop_first() =~= b1 + seq!['/'] + f);
            lemma_listing_key_order(a1, b1, e, f);
            if a1 == b1 && text_less(e, f) {
                assert(a =~= b) by {
                    assert forall|i: int| 0 <= i < a.len() implies a[i] == b[i] by {
                        if i > 0 {
                            assert(a[i] == a1[i - 1] && b[i] == b1[i - 1]);
                        }
                    }
                }
            } else if text_less(a1, b1) {
            } else {
                assert(a[b.len() as int] == a1[b1.len() as int]);
                assert(a.subrange(0, b.len() as int) =~= b) by {
                    assert forall|i: int| 0 <= i < b.len() implies a[i] == b[i] by {
                        if i > 0 {
                            assert(a[i] == a1[i - 1] && b[i] == b1[i - 1]);
                            assert(a1.subrange(0, b1.len() as int)[i - 1] == a1[i - 1]);
                        }
                    }
                }
            }
        }
    }
}

/// The positions in `templates` of the templates to list, in listing order:
/// ordered by listing key, and of several templates with the same key only
/// the last one. So a template is listed before another by name first: for
/// any two listed templates, the earlier has the lesser name, or the same
/// name and the lesser environment, or its name extends the later one's name
/// by a character that sorts before `/` (or is `/`).
pub fn order_templates(templates: &Vec<TemplateHttpModel>) -> (r: Vec<usize>)
    ensures
        orders_last_by_key(
            listing_keys(templates@),
            |a: Seq<char>, b: Seq<char>| text_less(a, b),
            r@,
        ),
        forall|j: int, l: int|
            0 <= j < l < r@.len() ==> {
                let x = #[trigger] templates@[r@[j] as int];
                let y = #[trigger] templates@[r@[l] as int];
                ||| (x.name@ == y.name@ && text_less(x.env@, y.env@))
                ||| text_less(x.name@, y.name@)
                ||| (y.name@.len() < x.name@.len() && x.name@.subrange(0, y.name@.len() as int)
                    == y.name@ && (x.name@[y.name@.len() as int] as u32) <= ('/' as u32))
            },
{
    let n = templates.len();
    let mut keys: Vec<Vec<char>> = Vec::new();
    let mut i: usize = 0;
    proof {
        reveal_strlit("/");
    }
    while i < n
        invariant
            n == templates@.len(),
            i <= n,
            keys@.len() == i,
            forall|j: int| 0 <= j < i ==> #[trigger] keys@[j]@ == listing_key(templates@[j]),
            "/"@ == seq!['/'],
        decreases n - i,
    {
        let mut key = templates[i].name.clone();
        key.append("/");
        key.append(templates[i].env.as_str());
        keys.push(chars_of(key.as_str()));
        i = i + 1;
    }
    assert(char_views(keys@) =~= listing_keys(templates@));
    let r = last_by_text_key(&keys);
    proof {
        let ks = listing_keys(templates@);
        assert forall|j: int, l: int| 0 <= j < l < r@.len() implies {
            let x = #[trigger] templates@[r@[j] as int];
            let y = #[trigger] templates@[r@[l] as int];
            ||| (x.name@ == y.name@ && text_less(x.env@, y.env@))
            ||| text_less(x.name@, y.name@)
            ||| (y.name@.len() < x.name@.len() && x.name@.subrange(0, y.name@.len() as int)
                == y.name@ && (x.name@[y.name@.len() as int] as u32) <= ('/' as u32))
        } by {
            let x = templates@[r@[j] as int];
            let y = templates@[r@[l] as int];
            assert(text_less(ks[r@[j] as int], ks[r@[l] as int]));
            lemma_listing_key_order(x.name@, y.name@, x.env@, y.env@);
        }
    }
    r
}

} // verus!
