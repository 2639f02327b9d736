//! Ordering records by a key where a later record replaces an earlier one
//! with the same key: what inserting the records one by one into an ordered
//! map from key to record, and reading its values back, gives.

use vstd::prelude::*;

use crate::text::{
    chars_of, compare_chars, lemma_text_less_irreflexive, lemma_text_less_total, lemma_text_less_transitive,
    text_less, Comparison,
};

verus! {

/// `r` lists, in increasing key order, one position of `keys` per distinct
/// key: the last position that holds it.
pub open spec fn orders_last_by_key<K>(
    keys: Seq<K>,
    less: spec_fn(K, K) -> bool,
    r: Seq<usize>,
) -> bool {
    orders_last_by_key_upto(keys, less, r, keys.len() as int)
}

/// `r` lists, in increasing key order, one position among the first `n` of
/// `keys` per distinct key among them: the last position that holds it.
pub open spec fn orders_last_by_key_upto<K>(
    keys: Seq<K>,
    less: spec_fn(K, K) -> bool,
    r: Seq<usize>,
    n: int,
) -> bool {
    &&& forall|j: int| 0 <= j < r.len() ==> #[trigger] r[j] < n
    &&& forall|j: int, l: int|
        0 <= j < l < r.len() ==> less(keys[#[trigger] r[j] as int], keys[#[trigger] r[l] as int])
    &&& forall|t: int|
        0 <= t < n ==> exists|j: int|
            0 <= j < r.len() && keys[#[trigger] r[j] as int] == #[trigger] keys[t]
    &&& forall|j: int, t: int|
        0 <= j < r.len() && 0 <= t < n && #[trigger] keys[t] == keys[#[trigger] r[j] as int]
            ==> t <= r[j]
}

/// `less` is a strict total order.
#[verifier::opaque]
pub open spec fn is_strict_order<K>(less: spec_fn(K, K) -> bool) -> bool {
    &&& forall|a: K| !#[trigger] less(a, a)
    &&& forall|a: K, b: K, c: K| #[trigger] less(a, b) && #[trigger] less(b, c) ==> less(a, c)
    &&& forall|a: K, b: K| a != b ==> #[trigger] less(a, b) || #[trigger] less(b, a)
}

proof fn order_irreflexive<K>(less: spec_fn(K, K) -> bool, a: K)
    requires
        is_strict_order(less),
    ensures
        !less(a, a),
{
    reveal(is_strict_order);
}

proof fn order_transitive<K>(less: spec_fn(K, K) -> bool, a: K, b: K, c: K)
    requires
        is_strict_order(less),
        less(a, b),
        less(b, c),
    ensures
        less(a, c),
{
    reveal(is_strict_order);
}

proof fn order_total<K>(less: spec_fn(K, K) -> bool, a: K, b: K)
    requires
        is_strict_order(less),
        a != b,
    ensures
        less(a, b) || less(b, a),
{
    reveal(is_strict_order);
}

/// The order of texts is a strict total order.
pub proof fn lemma_text_order_is_strict()
    ensures
        is_strict_order(|a: Seq<char>, b: Seq<char>| text_less(a, b)),
{
    reveal(is_strict_order);
    assert forall|a: Seq<char>| !text_less(a, a) by {
        lemma_text_less_irreflexive(a);
    }
    assert forall|a: Seq<char>, b: Seq<char>, c: Seq<char>|
        #[trigger] text_less(a, b) && #[trigger] text_less(b, c) implies text_less(a, c) by {
        lemma_text_less_transitive(a, b, c);
    }
    assert forall|a: Seq<char>, b: Seq<char>| a != b implies #[trigger] text_less(a, b)
        || #[trigger] text_less(b, a) by {
        lemma_text_less_total(a, b);
    }
}

#[verifier::spinoff_prover]
#[verifier::rlimit(40)]
proof fn lemma_replace<K>(ks: Seq<K>, less: spec_fn(K, K) -> bool, r: Seq<usize>, i: usize, p: int)
    requires
        is_strict_order(less),
        i < ks.len(),
        orders_last_by_key_upto(ks, less, r, i as int),
        0 <= p < r.len(),
        ks[r[p] as int] == ks[i as int],
    ensures
        orders_last_by_key_upto(ks, less, r.update(p, i), i + 1),
{
    let key = ks[i as int];
    let nr = r.update(p, i);
    assert forall|j: int, l: int| 0 <= j < l < nr.len() implies less(
        ks[#[trigger] nr[j] as int],
        ks[#[trigger] nr[l] as int],
    ) by {
        assert(less(ks[r[j] as int], ks[r[l] as int]));
    }
    assert forall|t: int| 0 <= t < i + 1 implies exists|j: int|
        0 <= j < nr.len() && ks[#[trigger] nr[j] as int] == #[trigger] ks[t] by {
        if t == i {
            assert(ks[nr[p] as int] == ks[t]);
        } else {
            let j = choose|j: int| 0 <= j < r.len() && ks[r[j] as int] == ks[t];
            assert(ks[nr[j] as int] == ks[t]);
        }
    }
    assert forall|j: int, t: int|
        0 <= j < nr.len() && 0 <= t < i + 1 && #[trigger] ks[t] == ks[#[trigger] nr[j] as int]
        implies t <= nr[j] by {
        if j != p && t == i {
            order_irreflexive(less, key);
            if j < p {
                assert(less(ks[r[j] as int], ks[r[p] as int]));
            } else {
                assert(less(ks[r[p] as int], ks[r[j] as int]));
            }
        }
    }
}

/// `i` goes in at position `p`: every key before is less, the key at `p`
/// (if any) is greater.
spec fn insertion_point<K>(ks: Seq<K>, less: spec_fn(K, K) -> bool, r: Seq<usize>, i: usize, p: int) -> bool {
    &&& is_strict_order(less)
    &&& i < ks.len()
    &&& orders_last_by_key_upto(ks, less, r, i as int)
    &&& 0 <= p <= r.len()
    &&& forall|j: int| 0 <= j < p ==> less(ks[#[trigger] r[j] as int], ks[i as int])
    &&& p < r.len() ==> less(ks[i as int], ks[r[p] as int])
}

#[verifier::spinoff_prover]
#[verifier::rlimit(40)]
proof fn lemma_insert_shape<K>(ks: Seq<K>, less: spec_fn(K, K) -> bool, r: Seq<usize>, i: usize, p: int)
    requires
        insertion_point(ks, less, r, i, p),
    ensures
        ({
            let nr = r.insert(p, i);
            &&& nr.len() == r.len() + 1
            &&& nr[p] == i
            &&& forall|j: int| 0 <= j < p ==> #[trigger] nr[j] == r[j]
            &&& forall|j: int| p < j < nr.len() ==> #[trigger] nr[j] == r[j - 1]
            &&& forall|j: int| 0 <= j < p ==> less(ks[#[trigger] nr[j] as int], ks[i as int])
            &&& forall|j: int| p < j < nr.len() ==> less(ks[i as int], ks[#[trigger] nr[j] as int])
            &&& forall|j: int| 0 <= j < nr.len() && j != p ==> ks[#[trigger] nr[j] as int] != ks[i as int]
            &&& forall|j: int| 0 <= j < nr.len() ==> #[trigger] nr[j] < i + 1
        }),
{
    let key = ks[i as int];
    let nr = r.insert(p, i);
    order_irreflexive(less, key);
    assert forall|j: int| p < j < nr.len() implies less(key, ks[#[trigger] nr[j] as int]) by {
        assert(nr[j] == r[j - 1]);
        if j - 1 > p {
            assert(less(ks[r[p] as int], ks[r[j - 1] as int]));
            order_transitive(less, key, ks[r[p] as int], ks[r[j - 1] as int]);
        }
    }
    assert forall|j: int| 0 <= j < nr.len() && j != p implies ks[#[trigger] nr[j] as int] != key by {
        if j < p {
            assert(less(ks[nr[j] as int], key));
        } else {
            assert(less(key, ks[nr[j] as int]));
        }
    }
    assert forall|j: int| 0 <= j < nr.len() implies #[trigger] nr[j] < i + 1 by {
        if j < p {
            assert(nr[j] == r[j]);
        } else if j > p {
            assert(nr[j] == r[j - 1]);
        }
    }
}

#[verifier::spinoff_prover]
#[verifier::rlimit(40)]
proof fn lemma_insert_sorted<K>(ks: Seq<K>, less: spec_fn(K, K) -> bool, r: Seq<usize>, i: usize, p: int)
    requires
        insertion_point(ks, less, r, i, p),
    ensures
        ({
            let nr = r.insert(p, i);
            forall|j: int, l: int|
                0 <= j < l < nr.len() ==> less(ks[#[trigger] nr[j] as int], ks[#[trigger] nr[l] as int])
        }),
{
    let key = ks[i as int];
    let nr = r.insert(p, i);
    lemma_insert_shape(ks, less, r, i, p);
    assert forall|j: int, l: int| 0 <= j < l < nr.len() implies less(
        ks[#[trigger] nr[j] as int],
        ks[#[trigger] nr[l] as int],
    ) by {
        if l < p {
            assert(nr[j] == r[j] && nr[l] == r[l]);
        } else if l == p {
        } else if j == p {
        } else if j < p {
            assert(less(ks[nr[j] as int], key));
            assert(less(key, ks[nr[l] as int]));
            order_transitive(less, ks[nr[j] as int], key, ks[nr[l] as int]);
        } else {
            assert(nr[j] == r[j - 1] && nr[l] == r[l - 1]);
        }
    }
}

#[verifier::spinoff_prover]
#[verifier::rlimit(40)]
proof fn lemma_insert_covers<K>(ks: Seq<K>, less: spec_fn(K, K) -> bool, r: Seq<usize>, i: usize, p: int)
    requires
        insertion_point(ks, less, r, i, p),
    ensures
        ({
            let nr = r.insert(p, i);
            forall|t: int|
                0 <= t < i + 1 ==> exists|j: int|
                    0 <= j < nr.len() && ks[#[trigger] nr[j] as int] == #[trigger] ks[t]
        }),
{
    let nr = r.insert(p, i);
    assert(nr[p] == i);
    assert forall|t: int| 0 <= t < i + 1 implies exists|j: int|
        0 <= j < nr.len() && ks[#[trigger] nr[j] as int] == #[trigger] ks[t] by {
        if t == i {
            assert(ks[nr[p] as int] == ks[t]);
        } else {
            let j = choose|j: int| 0 <= j < r.len() && ks[r[j] as int] == ks[t];
            if j < p {
                assert(ks[nr[j] as int] == ks[t]);
            } else {
                assert(ks[nr[j + 1] as int] == ks[t]);
            }
        }
    }
}

#[verifier::spinoff_prover]
#[verifier::rlimit(40)]
proof fn lemma_key_is_new<K>(ks: Seq<K>, less: spec_fn(K, K) -> bool, r: Seq<usize>, i: usize, p: int)
    requires
        insertion_point(ks, less, r, i, p),
    ensures
        forall|j: int| 0 <= j < r.len() ==> ks[#[trigger] r[j] as int] != ks[i as int],
{
    let key = ks[i as int];
    order_irreflexive(less, key);
    assert forall|j: int| 0 <= j < r.len() implies ks[#[trigger] r[j] as int] != key by {
        if j < p {
            assert(less(ks[r[j] as int], key));
        } else if j > p {
            assert(less(ks[r[p] as int], ks[r[j] as int]));
            if ks[r[j] as int] == key {
                order_transitive(less, key, ks[r[p] as int], key);
            }
        }
    }
}

#[verifier::spinoff_prover]
#[verifier::rlimit(40)]
proof fn lemma_insert_keeps_last<K>(ks: Seq<K>, less: spec_fn(K, K) -> bool, r: Seq<usize>, i: usize, p: int)
    requires
        insertion_point(ks, less, r, i, p),
        forall|j: int| 0 <= j < r.len() ==> ks[#[trigger] r[j] as int] != ks[i as int],
    ensures
        ({
            let nr = r.insert(p, i);
            forall|j: int, t: int|
                0 <= j < nr.len() && 0 <= t < i + 1 && #[trigger] ks[t] == ks[#[trigger] nr[j] as int]
                    ==> t <= nr[j]
        }),
{
    let nr = r.insert(p, i);
    assert(nr[p] == i);
    assert forall|j: int, t: int|
        0 <= j < nr.len() && 0 <= t < i + 1 && #[trigger] ks[t] == ks[#[trigger] nr[j] as int]
        implies t <= nr[j] by {
        if j == p {
            if t < i {
                let w = choose|w: int| 0 <= w < r.len() && ks[r[w] as int] == ks[t];
                assert(ks[r[w] as int] != ks[i as int]);
            }
        } else if j < p {
            assert(nr[j] == r[j]);
        } else {
            assert(nr[j] == r[j - 1]);
        }
    }
}

proof fn lemma_insert<K>(ks: Seq<K>, less: spec_fn(K, K) -> bool, r: Seq<usize>, i: usize, p: int)
    requires
        insertion_point(ks, less, r, i, p),
    ensures
        orders_last_by_key_upto(ks, less, r.insert(p, i), i + 1),
{
    lemma_insert_shape(ks, less, r, i, p);
    lemma_insert_sorted(ks, less, r, i, p);
    lemma_insert_covers(ks, less, r, i, p);
    lemma_key_is_new(ks, less, r, i, p);
    lemma_insert_keeps_last(ks, less, r, i, p);
}

proof fn lemma_same_key_same_position<K>(
    ks: Seq<K>,
    less: spec_fn(K, K) -> bool,
    r1: Seq<usize>,
    r2: Seq<usize>,
    j: int,
    l: int,
)
    requires
        orders_last_by_key(ks, less, r1),
        orders_last_by_key(ks, less, r2),
        0 <= j < r1.len(),
        0 <= l < r2.len(),
        ks[r1[j] as int] == ks[r2[l] as int],
    ensures
        r1[j] == r2[l],
{
    assert(r1[j] < ks.len());
    assert(r2[l] < ks.len());
    assert(ks[r1[j] as int] == ks[r2[l] as int]);
    assert((r1[j] as int) <= r2[l]);
    assert((r2[l] as int) <= r1[j]);
}

proof fn lemma_found_in<K>(ks: Seq<K>, less: spec_fn(K, K) -> bool, r1: Seq<usize>, r2: Seq<usize>, j: int) -> (l: int)
    requires
        orders_last_by_key(ks, less, r1),
        orders_last_by_key(ks, less, r2),
        0 <= j < r1.len(),
    ensures
        0 <= l < r2.len(),
        r2[l] == r1[j],
{
    let i = r1[j] as int;
    assert(0 <= i < ks.len());
    assert(ks[i] == ks[i]);
    let l = choose|l: int| 0 <= l < r2.len() && ks[r2[l] as int] == ks[i];
    lemma_same_key_same_position(ks, less, r1, r2, j, l);
    l
}

#[verifier::spinoff_prover]
#[verifier::rlimit(40)]
proof fn lemma_equal_prefix<K>(ks: Seq<K>, less: spec_fn(K, K) -> bool, r1: Seq<usize>, r2: Seq<usize>, k: int)
    requires
        is_strict_order(less),
        orders_last_by_key(ks, less, r1),
        orders_last_by_key(ks, less, r2),
        0 <= k <= r1.len(),
        k <= r2.len(),
    ensures
        forall|j: int| 0 <= j < k ==> r1[j] == r2[j],
    decreases k,
{
    if k > 0 {
        let j = k - 1;
        lemma_equal_prefix(ks, less, r1, r2, j);
        let l = lemma_found_in(ks, less, r1, r2, j);
        let m = lemma_found_in(ks, less, r2, r1, j);
        if l < j {
            assert(r2[l] == r1[l]);
            assert(less(ks[r1[l] as int], ks[r1[j] as int]));
            order_irreflexive(less, ks[r1[j] as int]);
        }
        if m < j {
            assert(r1[m] == r2[m]);
            assert(less(ks[r2[m] as int], ks[r2[j] as int]));
            order_irreflexive(less, ks[r2[j] as int]);
        }
        if l > j && m > j {
            assert(less(ks[r2[j] as int], ks[r2[l] as int]));
            assert(less(ks[r1[j] as int], ks[r1[m] as int]));
            order_transitive(less, ks[r2[j] as int], ks[r1[j] as int], ks[r2[j] as int]);
            order_irreflexive(less, ks[r2[j] as int]);
        }
    }
}

/// The order of records by key, a later record replacing an earlier one
/// with the same key, is determined by the keys: two results that meet
/// `orders_last_by_key` are the same.
pub proof fn law_order_is_determined<K>(
    keys: Seq<K>,
    less: spec_fn(K, K) -> bool,
    r1: Seq<usize>,
    r2: Seq<usize>,
)
    requires
        is_strict_order(less),
        orders_last_by_key(keys, less, r1),
        orders_last_by_key(keys, less, r2),
    ensures
        r1 == r2,
{
    if r1.len() > r2.len() {
        lemma_equal_prefix(keys, less, r1, r2, r2.len() as int);
        let j = r2.len() as int;
        let l = lemma_found_in(keys, less, r1, r2, j);
        assert(r1[l] == r2[l]);
        assert(less(keys[r1[l] as int], keys[r1[j] as int]));
        order_irreflexive(less, keys[r1[j] as int]);
    } else if r2.len() > r1.len() {
        lemma_equal_prefix(keys, less, r1, r2, r1.len() as int);
        let j = r1.len() as int;
        let l = lemma_found_in(keys, less, r2, r1, j);
        assert(r2[l] == r1[l]);
        assert(less(keys[r2[l] as int], keys[r2[j] as int]));
        order_irreflexive(less, keys[r2[j] as int]);
    } else {
        lemma_equal_prefix(keys, less, r1, r2, r1.len() as int);
        assert(r1 =~= r2);
    }
}

/// The views of a list of character vectors.
pub open spec fn char_views(keys: Seq<Vec<char>>) -> Seq<Seq<char>> {
    keys.map_values(|k: Vec<char>| k@)
}

/// The views of a list of strings.
pub open spec fn string_views(texts: Seq<String>) -> Seq<Seq<char>> {
    texts.map_values(|t: String| t@)
}

/// The characters of each of `texts`, as keys for [`last_by_text_key`].
pub fn text_keys(texts: &Vec<String>) -> (r: Vec<Vec<char>>)
    ensures
        char_views(r@) == string_views(texts@),
{
    let n = texts.len();
    let mut r: Vec<Vec<char>> = Vec::new();
    let mut i: usize = 0;
    while i < n
        invariant
            n == texts@.len(),
            i <= n,
            r@.len() == i,
            forall|j: int| 0 <= j < i ==> #[trigger] r@[j]@ == texts@[j]@,
        decreases n - i,
    {
        r.push(chars_of(texts[i].as_str()));
        i = i + 1;
    }
    assert(char_views(r@) =~= string_views(texts@));
    r
}

/// The positions of `keys` to keep, in increasing text order, keeping for
/// each distinct key its last position.
pub fn last_by_text_key(keys: &Vec<Vec<char>>) -> (r: Vec<usize>)
    ensures
        orders_last_by_key(char_views(keys@), |a: Seq<char>, b: Seq<char>| text_less(a, b), r@),
{
    let ghost ks = char_views(keys@);
    let ghost less = |a: Seq<char>, b: Seq<char>| text_less(a, b);
    proof {
        lemma_text_order_is_strict();
    }
    let n = keys.len();
    let mut r: Vec<usize> = Vec::new();
    let mut i: usize = 0;
    while i < n
        invariant
            n == keys@.len(),
            ks == char_views(keys@),
            ks.len() == n,
            i <= n,
            is_strict_order(less),
            less == (|a: Seq<char>, b: Seq<char>| text_less(a, b)),
            orders_last_by_key_upto(ks, less, r@, i as int),
        decreases n - i,
    {
        let len = r.len();
        let mut p: usize = 0;
        let mut same = false;
        assert(ks[i as int] == keys@[i as int]@);
        while p < len
            invariant_except_break
                !same,
                forall|j: int| 0 <= j < p ==> less(ks[#[trigger] r@[j] as int], ks[i as int]),
            invariant
                len == r@.len(),
                n == keys@.len(),
                ks == char_views(keys@),
                ks.len() == n,
                i < n,
                is_strict_order(less),
                less == (|a: Seq<char>, b: Seq<char>| text_less(a, b)),
                orders_last_by_key_upto(ks, less, r@, i as int),
                p <= len,
            ensures
                p <= len,
                forall|j: int| 0 <= j < p ==> less(ks[#[trigger] r@[j] as int], ks[i as int]),
                same ==> p < len && ks[r@[p as int] as int] == ks[i as int],
                !same ==> p < len ==> less(ks[i as int], ks[r@[p as int] as int]),
            decreases len - p,
        {
            let at = r[p];
            assert(at < i);
            assert(ks[at as int] == keys@[at as int]@);
            let c = compare_chars(&keys[at], &keys[i]);
            match c {
                Comparison::Less => {
                    p = p + 1;
                },
                Comparison::Same => {
                    same = true;
                    break ;
                },
                Comparison::Greater => {
                    break ;
                },
            }
        }
        if same {
            proof {
                lemma_replace(ks, less, r@, i, p as int);
            }
            r.set(p, i);
        } else {
            proof {
                lemma_insert(ks, less, r@, i, p as int);
            }
            r.insert(p, i);
        }
        i = i + 1;
    }
    r
}

// ---------------------------------------------------------------------------
// The first greatest key
// ---------------------------------------------------------------------------

/// Position `j` holds a key that counts, no counting key is greater, and
/// every counting key before it is less: the first greatest counting key.
pub open spec fn is_first_greatest<K>(
    keys: Seq<K>,
    less: spec_fn(K, K) -> bool,
    counts: spec_fn(K) -> bool,
    j: int,
) -> bool {
    &&& 0 <= j < keys.len()
    &&& counts(keys[j])
    &&& forall|i: int| 0 <= i < keys.len() && counts(#[trigger] keys[i]) ==> !less(keys[j], keys[i])
    &&& forall|i: int| 0 <= i < j && counts(#[trigger] keys[i]) ==> less(keys[i], keys[j])
}

/// `r` is the position of the first greatest counting key, or `None` when
/// no key counts.
pub open spec fn finds_first_greatest<K>(
    keys: Seq<K>,
    less: spec_fn(K, K) -> bool,
    counts: spec_fn(K) -> bool,
    r: Option<usize>,
) -> bool {
    match r {
        Some(j) => is_first_greatest(keys, less, counts, j as int),
        None => forall|i: int| 0 <= i < keys.len() ==> !counts(#[trigger] keys[i]),
    }
}

/// Position `j` holds the first greatest positive number of `keys`.
pub open spec fn is_first_greatest_positive(keys: Seq<i64>, j: int) -> bool {
    is_first_greatest(keys, |a: i64, b: i64| a < b, |a: i64| a > 0, j)
}

/// Position `j` holds the first greatest non-empty text of `keys`.
pub open spec fn is_first_greatest_text(keys: Seq<Seq<char>>, j: int) -> bool {
    is_first_greatest(keys, |a: Seq<char>, b: Seq<char>| text_less(a, b), |a: Seq<char>| a.len() > 0, j)
}

/// At most one position holds the first greatest positive number.
pub proof fn lemma_first_greatest_positive_unique(keys: Seq<i64>, j: int, k: int)
    requires
        is_first_greatest_positive(keys, j),
        is_first_greatest_positive(keys, k),
    ensures
        j == k,
{
    if k < j {
        assert(keys[k] < keys[j]);
    } else if k > j {
        assert(keys[j] < keys[k]);
    }
}

/// At most one position holds the first greatest non-empty text.
pub proof fn lemma_first_greatest_text_unique(keys: Seq<Seq<char>>, j: int, k: int)
    requires
        is_first_greatest_text(keys, j),
        is_first_greatest_text(keys, k),
    ensures
        j == k,
{
    lemma_text_order_is_strict();
    let less = |a: Seq<char>, b: Seq<char>| text_less(a, b);
    if k < j {
        assert(less(keys[k], keys[j]));
        assert(!less(keys[k], keys[j]));
    } else if k > j {
        assert(less(keys[j], keys[k]));
        assert(!less(keys[j], keys[k]));
    }
}

/// The position of the first greatest positive number.
pub fn first_greatest_positive(keys: &Vec<i64>) -> (r: Option<usize>)
    ensures
        finds_first_greatest(keys@, |a: i64, b: i64| a < b, |a: i64| a > 0, r),
{
    let n = keys.len();
    let mut best: Option<usize> = None;
    let mut max: i64 = 0;
    let mut i: usize = 0;
    while i < n
        invariant
            n == keys@.len(),
            i <= n,
            match best {
                Some(b) => {
                    &&& b < i
                    &&& max == keys@[b as int]
                    &&& max > 0
                    &&& forall|t: int| 0 <= t < i ==> #[trigger] keys@[t] <= max
                    &&& forall|t: int| 0 <= t < b ==> #[trigger] keys@[t] < max
                },
                None => max == 0 && forall|t: int| 0 <= t < i ==> #[trigger] keys@[t] <= 0,
            },
        decreases n - i,
    {
        if keys[i] > 0 {
            if keys[i] > max {
                max = keys[i];
                best = Some(i);
            }
        }
        i = i + 1;
    }
    best
}

/// The position of the first greatest non-empty text.
pub fn first_greatest_text(keys: &Vec<Vec<char>>) -> (r: Option<usize>)
    ensures
        finds_first_greatest(
            char_views(keys@),
            |a: Seq<char>, b: Seq<char>| text_less(a, b),
            |a: Seq<char>| a.len() > 0,
            r,
        ),
{
    let ghost ks = char_views(keys@);
    let ghost less = |a: Seq<char>, b: Seq<char>| text_less(a, b);
    proof {
        lemma_text_order_is_strict();
    }
    let n = keys.len();
    let mut best: Option<usize> = None;
    let mut i: usize = 0;
    while i < n
        invariant
            n == keys@.len(),
            ks == char_views(keys@),
            ks.len() == n,
            i <= n,
            is_strict_order(less),
            less == (|a: Seq<char>, b: Seq<char>| text_less(a, b)),
            match best {
                Some(b) => {
                    &&& b < i
                    &&& ks[b as int].len() > 0
                    &&& forall|t: int|
                        0 <= t < i && #[trigger] ks[t].len() > 0 ==> !less(ks[b as int], ks[t])
                    &&& forall|t: int|
                        0 <= t < b && #[trigger] ks[t].len() > 0 ==> less(ks[t], ks[b as int])
                },
                None => forall|t: int| 0 <= t < i ==> #[trigger] ks[t].len() == 0,
            },
        decreases n - i,
    {
        assert(ks[i as int] == keys@[i as int]@);
        if keys[i].len() > 0 {
            match best {
                None => {
                    proof {
                        order_irreflexive(less, ks[i as int]);
                    }
                    best = Some(i);
                },
                Some(b) => {
                    assert(ks[b as int] == keys@[b as int]@);
                    let c = compare_chars(&keys[b], &keys[i]);
                    match c {
                        Comparison::Less => {
                            proof {
                                assert forall|t: int|
                                    0 <= t < i + 1 && #[trigger] ks[t].len() > 0 implies !less(
                                    ks[i as int],
                                    ks[t],
                                ) by {
                                    if t < i {
                                        if less(ks[i as int], ks[t]) {
                                            order_transitive(less, ks[b as int], ks[i as int], ks[t]);
                                        }
                                    } else {
                                        order_irreflexive(less, ks[i as int]);
                                    }
                                }
                                assert forall|t: int|
                                    0 <= t < i && #[trigger] ks[t].len() > 0 implies less(
                                    ks[t],
                                    ks[i as int],
                                ) by {
                                    if ks[t] != ks[b as int] {
                                        order_total(less, ks[t], ks[b as int]);
                                        if less(ks[t], ks[b as int]) {
                                            order_transitive(less, ks[t], ks[b as int], ks[i as int]);
                                        }
                                    }
                                }
                            }
                            best = Some(i);
                        },
                        _ => {
                            proof {
                                assert forall|t: int|
                                    0 <= t < i + 1 && #[trigger] ks[t].len() > 0 implies !less(
                                    ks[b as int],
                                    ks[t],
                                ) by {
                                    if t == i {
                                        if less(ks[b as int], ks[i as int]) {
                                            order_irreflexive(less, ks[b as int]);
                                        }
                                    }
                                }
                            }
                        },
                    }
                },
            }
        }
        i = i + 1;
    }
    best
}

} // verus!
