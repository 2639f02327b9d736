//! Which templates of which environments are selected on the templates page.

use vstd::prelude::*;

use crate::models::DownloadFileRequestModel;

verus! {

/// The key under which template `template_id` of environment `env` is
/// selected: the environment, a `|`, and the template id.
pub open spec fn selection_key(env: Seq<char>, template_id: Seq<char>) -> Seq<char> {
    env + seq!['|'] + template_id
}

struct SelectedTemplate {
    id: String,
    env: String,
    name: String,
}

/// The set of selected templates, as a map from selection key to the
/// environment and template id that were selected under it.
pub struct TemplatesState {
    selected: Vec<SelectedTemplate>,
}

impl View for TemplatesState {
    type V = Map<Seq<char>, (Seq<char>, Seq<char>)>;

    closed spec fn view(&self) -> Map<Seq<char>, (Seq<char>, Seq<char>)> {
        Map::new(
            |k: Seq<char>| exists|i: int| 0 <= i < self.selected@.len() && self.selected@[i].id@ == k,
            |k: Seq<char>|
                {
                    let i = choose|i: int|
                        0 <= i < self.selected@.len() && self.selected@[i].id@ == k;
                    (self.selected@[i].env@, self.selected@[i].name@)
                },
        )
    }
}

impl TemplatesState {
    #[verifier::type_invariant]
    spec fn well_formed(self) -> bool {
        &&& forall|i: int, j: int|
            0 <= i < j < self.selected@.len() ==> self.selected@[i].id@ != self.selected@[j].id@
        &&& forall|i: int|
            0 <= i < self.selected@.len() ==> self.selected@[i].id@ == selection_key(
                self.selected@[i].env@,
                self.selected@[i].name@,
            )
    }

    proof fn lemma_view_at(self, i: int)
        requires
            self.well_formed(),
            0 <= i < self.selected@.len(),
        ensures
            self@.contains_key(self.selected@[i].id@),
            self@[self.selected@[i].id@] == (self.selected@[i].env@, self.selected@[i].name@),
    {
        let k = self.selected@[i].id@;
        assert(self@.dom().contains(k));
        let c = choose|c: int| 0 <= c < self.selected@.len() && self.selected@[c].id@ == k;
        assert(c == i) by {
            if c < i {
                assert(self.selected@[c].id@ != self.selected@[i].id@);
            } else if c > i {
                assert(self.selected@[i].id@ != self.selected@[c].id@);
            }
        }
    }

    fn position(&self, id: &String) -> (r: Option<usize>)
        ensures
            match r {
                Some(i) => i < self.selected@.len() && self.selected@[i as int].id@ == id@,
                None => forall|i: int| 0 <= i < self.selected@.len() ==> self.selected@[i].id@ != id@,
            },
    {
        let n = self.selected.len();
        let mut i: usize = 0;
        while i < n
            invariant
                n == self.selected@.len(),
                i <= n,
                forall|j: int| 0 <= j < i ==> self.selected@[j].id@ != id@,
            decreases n - i,
        {
            if self.selected[i].id == *id {
                return Some(i);
            }
            i = i + 1;
        }
        None
    }

    /// Whether template `template_id` of environment `env` is selected.
    pub fn is_selected(&self, env: &str, template_id: &str) -> (r: bool)
        ensures
            r == self@.contains_key(selection_key(env@, template_id@)),
    {
        proof {
            use_type_invariant(self);
        }
        let id = generate_id(env, template_id);
        match self.position(&id) {
            Some(i) => {
                proof {
                    self.lemma_view_at(i as int);
                }
                true
            },
            None => false,
        }
    }

    /// Selects (`value`) or deselects (`!value`) template `template_id` of
    /// environment `env`.
    pub fn set_selected(&mut self, env: &str, template_id: &str, value: bool)
        ensures
            final(self)@ == selection_after(old(self)@, env@, template_id@, value),
    {
        proof {
            use_type_invariant(&*self);
        }
        let ghost before = *self;
        let id = generate_id(env, template_id);
        let ghost key = id@;
        let pos = self.position(&id);
        let mut entries: Vec<SelectedTemplate> = Vec::new();
        std::mem::swap(&mut entries, &mut self.selected);
        assert(entries@ == before.selected@);
        if value {
            let entry = SelectedTemplate {
                id,
                env: String::from_str(env),
                name: String::from_str(template_id),
            };
            match pos {
                Some(i) => {
                    entries.set(i, entry);
                },
                None => {
                    entries.push(entry);
                },
            }
        } else {
            match pos {
                Some(i) => {
                    entries.remove(i);
                },
                None => {},
            }
        }
        self.selected = entries;
        proof {
            let after = *self;
            if value {
                let target = before@.insert(key, (env@, template_id@));
                assert forall|k: Seq<char>| #[trigger] after@.contains_key(k) <==> target.contains_key(k) by {
                    if after@.contains_key(k) {
                        let c = choose|c: int| 0 <= c < after.selected@.len() && after.selected@[c].id@ == k;
                        if k != key {
                            assert(before.selected@[c].id@ == k);
                        }
                    }
                    if before@.contains_key(k) && k != key {
                        let c = choose|c: int| 0 <= c < before.selected@.len() && before.selected@[c].id@ == k;
                        assert(after.selected@[c].id@ == k);
                    }
                    if k == key {
                        match pos {
                            Some(i) => assert(after.selected@[i as int].id@ == k),
                            None => assert(after.selected@[before.selected@.len() as int].id@ == k),
                        }
                    }
                }
                assert forall|k: Seq<char>| after@.contains_key(k) implies #[trigger] after@[k] == target[k] by {
                    let c = choose|c: int| 0 <= c < after.selected@.len() && after.selected@[c].id@ == k;
                    after.lemma_view_at(c);
                    if k != key {
                        assert(before.selected@[c] == after.selected@[c]);
                        before.lemma_view_at(c);
                    }
                }
                assert(after@ =~= target);
            } else {
                let target = before@.remove(key);
                assert forall|k: Seq<char>| #[trigger] after@.contains_key(k) <==> target.contains_key(k) by {
                    if after@.contains_key(k) {
                        let c = choose|c: int| 0 <= c < after.selected@.len() && after.selected@[c].id@ == k;
                        match pos {
                            Some(i) => {
                                if c < i {
                                    assert(before.selected@[c].id@ == k);
                                } else {
                                    assert(before.selected@[c + 1].id@ == k);
                                }
                            },
                            None => assert(before.selected@[c].id@ == k),
                        }
                    }
                    if before@.contains_key(k) && k != key {
                        let c = choose|c: int| 0 <= c < before.selected@.len() && before.selected@[c].id@ == k;
                        match pos {
                            Some(i) => {
                                if c < i {
                                    assert(after.selected@[c].id@ == k);
                                } else {
                                    assert(after.selected@[c - 1].id@ == k);
                                }
                            },
                            None => assert(after.selected@[c].id@ == k),
                        }
                    }
                }
                assert forall|k: Seq<char>| after@.contains_key(k) implies #[trigger] after@[k] == target[k] by {
                    let c = choose|c: int| 0 <= c < after.selected@.len() && after.selected@[c].id@ == k;
                    after.lemma_view_at(c);
                    match pos {
                        Some(i) => {
                            if c < i {
                                before.lemma_view_at(c);
                            } else {
                                before.lemma_view_at(c + 1);
                            }
                        },
                        None => before.lemma_view_at(c),
                    }
                }
                assert(after@ =~= target);
            }
        }
    }

    /// Whether any template is selected.
    pub fn has_selected(&self) -> (r: bool)
        ensures
            r == (self@ != Map::<Seq<char>, (Seq<char>, Seq<char>)>::empty()),
    {
        proof {
            use_type_invariant(self);
        }
        if self.selected.len() > 0 {
            proof {
                self.lemma_view_at(0);
                assert(!Map::<Seq<char>, (Seq<char>, Seq<char>)>::empty().contains_key(
                    self.selected@[0].id@,
                ));
            }
            true
        } else {
            assert(self@ =~= Map::<Seq<char>, (Seq<char>, Seq<char>)>::empty());
            false
        }
    }

    /// One download request per selected template: every selected
    /// environment and template id occurs exactly once.
    pub fn get_request_data(&self) -> (r: Vec<DownloadFileRequestModel>)
        ensures
            self@.dom().finite(),
            r@.len() == self@.len(),
            forall|k: Seq<char>|
                #[trigger] self@.contains_key(k) ==> exists|j: int|
                    0 <= j < r@.len() && (r@[j].env@, r@[j].name@) == self@[k],
            forall|j: int|
                0 <= j < r@.len() ==> self@.contains_key(selection_key(r@[j].env@, r@[j].name@))
                    && self@[selection_key(r@[j].env@, r@[j].name@)] == (r@[j].env@, r@[j].name@),
            forall|i: int, j: int|
                0 <= i < j < r@.len() ==> (r@[i].env@, r@[i].name@) != (r@[j].env@, r@[j].name@),
    {
        proof {
            use_type_invariant(self);
        }
        let mut result: Vec<DownloadFileRequestModel> = Vec::new();
        let n = self.selected.len();
        let mut i: usize = 0;
        while i < n
            invariant
                n == self.selected@.len(),
                i <= n,
                result@.len() == i,
                self.well_formed(),
                forall|j: int|
                    0 <= j < i ==> result@[j].env@ == self.selected@[j].env@ && result@[j].name@
                        == self.selected@[j].name@,
            decreases n - i,
        {
            let e = &self.selected[i];
            result.push(DownloadFileRequestModel { env: e.env.clone(), name: e.name.clone() });
            i = i + 1;
        }
        proof {
            self.lemma_dom_len();
            assert forall|k: Seq<char>| #[trigger] self@.contains_key(k) implies exists|j: int|
                0 <= j < result@.len() && (result@[j].env@, result@[j].name@) == self@[k] by {
                let c = choose|c: int| 0 <= c < self.selected@.len() && self.selected@[c].id@ == k;
                self.lemma_view_at(c);
                assert((result@[c].env@, result@[c].name@) == self@[k]);
            }
            assert forall|j: int| 0 <= j < result@.len() implies self@.contains_key(
                selection_key(result@[j].env@, result@[j].name@),
            ) && self@[selection_key(result@[j].env@, result@[j].name@)] == (
                result@[j].env@,
                result@[j].name@,
            ) by {
                self.lemma_view_at(j);
            }
            assert forall|a: int, b: int| 0 <= a < b < result@.len() implies (
                result@[a].env@,
                result@[a].name@,
            ) != (result@[b].env@, result@[b].name@) by {
                assert(self.selected@[a].id@ != self.selected@[b].id@);
            }
        }
        result
    }

    proof fn lemma_dom_len(self)
        requires
            self.well_formed(),
        ensures
            self@.dom().finite(),
            self@.len() == self.selected@.len(),
    {
        let ids = self.selected@.map_values(|e: SelectedTemplate| e.id@);
        assert(ids.no_duplicates()) by {
            assert forall|i: int, j: int| 0 <= i < ids.len() && 0 <= j < ids.len() && i != j implies ids[i] != ids[j] by {
                if i < j {
                } else {
                }
            }
        }
        assert(self@.dom() =~= ids.to_set()) by {
            assert forall|k: Seq<char>| self@.dom().contains(k) implies ids.to_set().contains(k) by {
                let c = choose|c: int| 0 <= c < self.selected@.len() && self.selected@[c].id@ == k;
                assert(ids[c] == k);
            }
            assert forall|k: Seq<char>| ids.to_set().contains(k) implies self@.dom().contains(k) by {
                let c = choose|c: int| 0 <= c < ids.len() && ids[c] == k;
                assert(self.selected@[c].id@ == k);
            }
        }
        ids.unique_seq_to_set();
    }
}

impl Default for TemplatesState {
    /// Nothing selected.
    fn default() -> (r: Self)
        ensures
            r@ == Map::<Seq<char>, (Seq<char>, Seq<char>)>::empty(),
    {
        let r = TemplatesState { selected: Vec::new() };
        assert(r@ =~= Map::<Seq<char>, (Seq<char>, Seq<char>)>::empty());
        r
    }
}

/// The selection key of template `template_id` of environment `env`.
fn generate_id(env: &str, template_id: &str) -> (r: String)
    ensures
        r@ == selection_key(env@, template_id@),
{
    let mut result = String::from_str(env);
    proof {
        reveal_strlit("|");
    }
    result.append("|");
    result.append(template_id);
    result
}

/// The selection after `set_selected(env, template_id, value)` on a state
/// whose selection was `before`.
pub open spec fn selection_after(
    before: Map<Seq<char>, (Seq<char>, Seq<char>)>,
    env: Seq<char>,
    template_id: Seq<char>,
    value: bool,
) -> Map<Seq<char>, (Seq<char>, Seq<char>)> {
    if value {
        before.insert(selection_key(env, template_id), (env, template_id))
    } else {
        before.remove(selection_key(env, template_id))
    }
}

/// After selecting (deselecting) a template, `is_selected` answers true
/// (false) for it, and every other key keeps its selection.
pub proof fn law_selection_read_after_write(
    before: Map<Seq<char>, (Seq<char>, Seq<char>)>,
    env: Seq<char>,
    template_id: Seq<char>,
    value: bool,
    other: Seq<char>,
)
    requires
        other != selection_key(env, template_id),
    ensures
        selection_after(before, env, template_id, value).contains_key(selection_key(env, template_id))
            == value,
        selection_after(before, env, template_id, value).contains_key(other) == before.contains_key(
            other,
        ),
        before.contains_key(other) ==> selection_after(before, env, template_id, value)[other]
            == before[other],
{
}

/// Setting the same selection twice is the same as setting it once.
pub proof fn law_selection_idempotent(
    before: Map<Seq<char>, (Seq<char>, Seq<char>)>,
    env: Seq<char>,
    template_id: Seq<char>,
    value: bool,
)
    ensures
        selection_after(selection_after(before, env, template_id, value), env, template_id, value)
            == selection_after(before, env, template_id, value),
{
    assert(selection_after(selection_after(before, env, template_id, value), env, template_id, value)
        =~= selection_after(before, env, template_id, value));
}

/// Deselecting a template that was just selected gives back the selection
/// from before, when it was not selected before.
pub proof fn law_deselect_undoes_select(
    before: Map<Seq<char>, (Seq<char>, Seq<char>)>,
    env: Seq<char>,
    template_id: Seq<char>,
)
    requires
        !before.contains_key(selection_key(env, template_id)),
    ensures
        selection_after(selection_after(before, env, template_id, true), env, template_id, false)
            == before,
{
    assert(selection_after(selection_after(before, env, template_id, true), env, template_id, false)
        =~= before);
}

/// Selecting any template leaves something selected.
pub proof fn law_selected_after_select(
    before: Map<Seq<char>, (Seq<char>, Seq<char>)>,
    env: Seq<char>,
    template_id: Seq<char>,
)
    ensures
        selection_after(before, env, template_id, true) != Map::<
            Seq<char>,
            (Seq<char>, Seq<char>),
        >::empty(),
{
    assert(!Map::<Seq<char>, (Seq<char>, Seq<char>)>::empty().contains_key(
        selection_key(env, template_id),
    ));
}

} // verus!
