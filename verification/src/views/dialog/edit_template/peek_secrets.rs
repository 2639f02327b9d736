//! Looking at the secrets that a template text uses.

use vstd::prelude::*;

use crate::text::{byte_len, utf8_len};
use crate::views::secrets_list::{item_names, SecretListItemApiModel};

verus! {

/// A secret's value and level as loaded on request.
pub struct SecretApiModel {
    pub name: String,
    pub value: String,
    pub level: i32,
}

/// What is shown for one secret that the text uses.
pub enum PeekStatus {
    /// No secret of that name exists.
    NotFound,
    /// The secret's value and level, loaded earlier.
    Loaded { value: String, level: i32 },
    /// The secret exists; its value can be loaded.
    NotLoaded,
}

/// One row of the table: a secret the text uses, and what is shown for it.
pub struct PeekRow {
    pub secret_name: String,
    pub status: PeekStatus,
}

/// The position of the last loaded secret named `name`, if any: a later
/// load replaces an earlier one.
pub open spec fn last_loaded(loaded: Seq<SecretApiModel>, name: Seq<char>) -> Option<int>
    decreases loaded.len(),
{
    if loaded.len() == 0 {
        None
    } else if loaded.last().name@ == name {
        Some(loaded.len() - 1)
    } else {
        last_loaded(loaded.drop_last(), name)
    }
}

proof fn lemma_last_loaded_in_range(loaded: Seq<SecretApiModel>, name: Seq<char>)
    ensures
        last_loaded(loaded, name) matches Some(k) ==> 0 <= k < loaded.len() && loaded[k].name@ == name,
    decreases loaded.len(),
{
    if loaded.len() > 0 && loaded.last().name@ != name {
        lemma_last_loaded_in_range(loaded.drop_last(), name);
    }
}

/// `status` is what is shown for the secret `name`, given the names of the
/// existing secrets and the loaded secrets.
pub open spec fn shows_status(
    status: PeekStatus,
    name: Seq<char>,
    available: Seq<Seq<char>>,
    loaded: Seq<SecretApiModel>,
) -> bool {
    if !available.contains(name) {
        status is NotFound
    } else {
        match last_loaded(loaded, name) {
            Some(k) => status matches PeekStatus::Loaded { value, level } && value@ == loaded[k].value@
                && level == loaded[k].level,
            None => status is NotLoaded,
        }
    }
}

/// The table is shown once the text is longer than ten bytes and the list
/// of existing secrets has arrived.
pub open spec fn table_shown(yaml: Seq<char>, available: Option<Vec<SecretListItemApiModel>>) -> bool {
    utf8_len(yaml) > 10 && available is Some
}

fn lookup_loaded(loaded: &Vec<SecretApiModel>, name: &String) -> (r: Option<usize>)
    ensures
        match r {
            Some(k) => last_loaded(loaded@, name@) == Some(k as int) && k < loaded@.len(),
            None => last_loaded(loaded@, name@) is None,
        },
{
    let n = loaded.len();
    let mut found: Option<usize> = None;
    let mut i: usize = 0;
    assert(loaded@.take(0) =~= Seq::<SecretApiModel>::empty());
    while i < n
        invariant
            n == loaded@.len(),
            i <= n,
            match found {
                Some(k) => last_loaded(loaded@.take(i as int), name@) == Some(k as int),
                None => last_loaded(loaded@.take(i as int), name@) is None,
            },
        decreases n - i,
    {
        assert(loaded@.take(i + 1).drop_last() =~= loaded@.take(i as int));
        if loaded[i].name == *name {
            found = Some(i);
        }
        i = i + 1;
    }
    assert(loaded@.take(n as int) =~= loaded@);
    proof {
        lemma_last_loaded_in_range(loaded@, name@);
    }
    found
}

fn is_available(available: &Vec<SecretListItemApiModel>, name: &String) -> (r: bool)
    ensures
        r == item_names(available@).contains(name@),
{
    let n = available.len();
    let mut i: usize = 0;
    while i < n
        invariant
            n == available@.len(),
            i <= n,
            forall|j: int| 0 <= j < i ==> #[trigger] available@[j].name@ != name@,
        decreases n - i,
    {
        if available[i].name == *name {
            assert(item_names(available@)[i as int] == name@);
            return true;
        }
        i = i + 1;
    }
    assert forall|j: int| 0 <= j < item_names(available@).len() implies #[trigger] item_names(
        available@,
    )[j] != name@ by {
        assert(item_names(available@)[j] == available@[j].name@);
    }
    false
}

/// The rows of the table for a text `yaml` that uses the secrets
/// `secret_names`: one per name, in order, when the table is shown, none
/// otherwise.
pub fn peek_rows(
    yaml: &str,
    secret_names: &Vec<String>,
    available: &Option<Vec<SecretListItemApiModel>>,
    loaded: &Vec<SecretApiModel>,
) -> (r: Vec<PeekRow>)
    ensures
        !table_shown(yaml@, *available) ==> r@.len() == 0,
        table_shown(yaml@, *available) ==> {
            &&& r@.len() == secret_names@.len()
            &&& forall|j: int|
                0 <= j < r@.len() ==> #[trigger] r@[j].secret_name@ == secret_names@[j]@
                    && shows_status(
                    r@[j].status,
                    secret_names@[j]@,
                    item_names(available->0@),
                    loaded@,
                )
        },
{
    let mut rows: Vec<PeekRow> = Vec::new();
    if byte_len(yaml) <= 10 {
        return rows;
    }
    match available {
        None => {
            assert(!table_shown(yaml@, *available));
            rows
        },
        Some(values) => {
            let n = secret_names.len();
            let mut i: usize = 0;
            while i < n
                invariant
                    *available == Some(*values),
                    n == secret_names@.len(),
                    i <= n,
                    rows@.len() == i,
                    forall|j: int|
                        0 <= j < i ==> #[trigger] rows@[j].secret_name@ == secret_names@[j]@
                            && shows_status(
                            rows@[j].status,
                            secret_names@[j]@,
                            item_names(values@),
                            loaded@,
                        ),
                decreases n - i,
            {
                let name = &secret_names[i];
                let status = if !is_available(values, name) {
                    PeekStatus::NotFound
                } else {
                    match lookup_loaded(loaded, name) {
                        Some(k) => PeekStatus::Loaded {
                            value: loaded[k].value.clone(),
                            level: loaded[k].level,
                        },
                        None => PeekStatus::NotLoaded,
                    }
                };
                assert(shows_status(status, secret_names@[i as int]@, item_names(values@), loaded@));
                rows.push(PeekRow { secret_name: name.clone(), status });
                assert(rows@[i as int].secret_name@ == secret_names@[i as int]@);
                i = i + 1;
            }
            rows
        },
    }
}

/// Remembers a loaded secret, unless it came back without a name.
pub fn remember_loaded(loaded: &mut Vec<SecretApiModel>, model: SecretApiModel)
    ensures
        model.name@.len() > 0 ==> final(loaded)@ == old(loaded)@.push(model),
        model.name@.len() == 0 ==> final(loaded)@ == old(loaded)@,
{
    if !model.name.as_str().is_empty() {
        loaded.push(model);
    }
}

/// After a secret is remembered, it is the one shown for its name.
pub proof fn law_remembered_secret_is_shown(loaded: Seq<SecretApiModel>, model: SecretApiModel)
    ensures
        last_loaded(loaded.push(model), model.name@) == Some(loaded.len() as int),
{
    assert(loaded.push(model).last() == model);
}

} // verus!
