//! The dialog that adds, copies or edits a template, beside a secret picker.

use vstd::prelude::*;

verus! {

/// The template being edited, the template it is copied from (if any),
/// and the text loaded from the server, if it has been.
pub struct EditTemplateState {
    env: String,
    name: String,
    edit_mode: bool,
    copy_from: Option<(String, String)>,
    yaml: String,
    loaded: Option<String>,
}

/// The model of [`EditTemplateState`].
pub struct EditTemplateView {
    pub env: Seq<char>,
    pub name: Seq<char>,
    pub edit_mode: bool,
    pub copy_from: Option<(Seq<char>, Seq<char>)>,
    pub yaml: Seq<char>,
    pub loaded: Option<Seq<char>>,
}

impl View for EditTemplateState {
    type V = EditTemplateView;

    closed spec fn view(&self) -> EditTemplateView {
        EditTemplateView {
            env: self.env@,
            name: self.name@,
            edit_mode: self.edit_mode,
            copy_from: match self.copy_from {
                Some(c) => Some((c.0@, c.1@)),
                None => None,
            },
            yaml: self.yaml@,
            loaded: match self.loaded {
                Some(l) => Some(l@),
                None => None,
            },
        }
    }
}

/// The placeholder that a template text uses for the secret `secret_name`:
/// a dollar sign and the name in braces.
pub open spec fn secret_placeholder(secret_name: Seq<char>) -> Seq<char> {
    seq!['$', '{'] + secret_name + seq!['}']
}

impl EditTemplateView {
    /// Saving is possible: when editing, once the text is loaded and has
    /// been changed; otherwise once environment, name and text are all
    /// filled in.
    pub open spec fn savable(self) -> bool {
        if self.edit_mode {
            match self.loaded {
                Some(l) => self.yaml != l,
                None => false,
            }
        } else {
            self.name.len() > 0 && self.yaml.len() > 0 && self.env.len() > 0
        }
    }

    /// The state the dialog opens with. Copying starts a new template in the
    /// same environment with an empty name, remembering the source; otherwise
    /// an existing template is edited exactly when the environment is given.
    pub open spec fn opened_with(env: Seq<char>, name: Seq<char>, copy_from: bool) -> EditTemplateView {
        if copy_from {
            EditTemplateView {
                env: env,
                name: Seq::<char>::empty(),
                edit_mode: false,
                copy_from: Some((env, name)),
                yaml: Seq::<char>::empty(),
                loaded: None,
            }
        } else {
            EditTemplateView {
                env: env,
                name: name,
                edit_mode: env.len() > 0,
                copy_from: None,
                yaml: Seq::<char>::empty(),
                loaded: None,
            }
        }
    }
}

impl EditTemplateState {
    /// Opens the dialog as `EditTemplateView::opened_with` says.
    pub fn new(env: String, name: String, copy_from: bool) -> (r: Self)
        ensures
            r@ == EditTemplateView::opened_with(env@, name@, copy_from),
    {
        let edit_mode = if copy_from {
            false
        } else {
            !env.as_str().is_empty()
        };
        if copy_from {
            Self {
                edit_mode,
                env: env.clone(),
                name: String::new(),
                yaml: String::new(),
                loaded: None,
                copy_from: Some((env, name)),
            }
        } else {
            Self { edit_mode, env, name, yaml: String::new(), loaded: None, copy_from: None }
        }
    }

    /// Whether the Save button is enabled.
    pub fn save_button_enabled(&self) -> (r: bool)
        ensures
            r == self@.savable(),
    {
        if self.is_edit_mode() {
            match &self.loaded {
                Some(loaded_yaml) => return !(self.yaml == *loaded_yaml),
                None => return false,
            }
        }
        !self.name.as_str().is_empty() && !self.yaml.as_str().is_empty()
            && !self.env.as_str().is_empty()
    }

    /// Whether an existing template is edited.
    pub fn is_edit_mode(&self) -> (r: bool)
        ensures
            r == self@.edit_mode,
    {
        self.edit_mode
    }

    /// The environment and name of the template copied from, if any.
    pub fn is_copy_from_model(&self) -> (r: &Option<(String, String)>)
        ensures
            r.deep_view() == self@.copy_from,
    {
        &self.copy_from
    }

    /// Whether the stored text has been loaded.
    pub fn is_loaded(&self) -> (r: bool)
        ensures
            r == self@.loaded is Some,
    {
        self.loaded.is_some()
    }

    /// The environment.
    pub fn get_env(&self) -> (r: &str)
        ensures
            r@ == self@.env,
    {
        self.env.as_str()
    }

    /// The edited text.
    pub fn get_yaml(&self) -> (r: &str)
        ensures
            r@ == self@.yaml,
    {
        self.yaml.as_str()
    }

    /// The template name.
    pub fn get_name(&self) -> (r: &str)
        ensures
            r@ == self@.name,
    {
        self.name.as_str()
    }

    fn copy_loaded(&self) -> (r: Option<String>)
        ensures
            r == self.loaded,
    {
        match &self.loaded {
            Some(l) => Some(l.clone()),
            None => None,
        }
    }

    fn copy_source(&self) -> (r: Option<(String, String)>)
        ensures
            r == self.copy_from,
    {
        match &self.copy_from {
            Some(c) => Some((c.0.clone(), c.1.clone())),
            None => None,
        }
    }

    /// The state with another environment; nothing else changes.
    pub fn set_env(&self, env: String) -> (r: Self)
        ensures
            r@ == (EditTemplateView { env: env@, ..self@ }),
    {
        Self {
            env,
            name: self.name.clone(),
            edit_mode: self.edit_mode,
            yaml: self.yaml.clone(),
            loaded: self.copy_loaded(),
            copy_from: self.copy_source(),
        }
    }

    /// The state with another name; nothing else changes.
    pub fn set_name(&self, name: String) -> (r: Self)
        ensures
            r@ == (EditTemplateView { name: name@, ..self@ }),
    {
        Self {
            env: self.env.clone(),
            name,
            edit_mode: self.edit_mode,
            yaml: self.yaml.clone(),
            loaded: self.copy_loaded(),
            copy_from: self.copy_source(),
        }
    }

    /// The state with another text; nothing else changes.
    pub fn set_yaml(&self, yaml: String) -> (r: Self)
        ensures
            r@ == (EditTemplateView { yaml: yaml@, ..self@ }),
    {
        Self {
            env: self.env.clone(),
            name: self.name.clone(),
            edit_mode: self.edit_mode,
            yaml,
            loaded: self.copy_loaded(),
            copy_from: self.copy_source(),
        }
    }

    /// The state after the stored text arrived: it becomes both the edited
    /// and the loaded text.
    pub fn loaded_yaml(&self, yaml: String) -> (r: Self)
        ensures
            r@ == (EditTemplateView { yaml: yaml@, loaded: Some(yaml@), ..self@ }),
    {
        Self {
            env: self.env.clone(),
            name: self.name.clone(),
            edit_mode: self.edit_mode,
            yaml: yaml.clone(),
            loaded: Some(yaml),
            copy_from: self.copy_source(),
        }
    }

    /// The state with the placeholder of secret `secret_name` appended to
    /// the text; nothing else changes.
    pub fn add_secret_to_yaml(&self, secret_name: String) -> (r: Self)
        ensures
            r@ == (EditTemplateView { yaml: self@.yaml + secret_placeholder(secret_name@), ..self@ }),
    {
        let mut yaml = self.yaml.clone();
        proof {
            reveal_strlit("${");
            reveal_strlit("}");
        }
        yaml.append("${");
        yaml.append(secret_name.as_str());
        yaml.append("}");
        assert(yaml@ =~= self@.yaml + secret_placeholder(secret_name@));
        Self {
            env: self.env.clone(),
            name: self.name.clone(),
            edit_mode: self.edit_mode,
            yaml,
            loaded: self.copy_loaded(),
            copy_from: self.copy_source(),
        }
    }
}

/// The templates whose text to load, in order, for a dialog opened with
/// `env` and `name`: that template when editing and nothing is loaded yet,
/// then the template copied from when there is one and nothing is loaded
/// yet.
pub fn templates_to_load(st: &EditTemplateState, env: &str, name: &str) -> (r: Vec<(String, String)>)
    ensures
        r@.map_values(|p: (String, String)| (p.0@, p.1@)) == (if st@.edit_mode && st@.loaded is None {
            seq![(env@, name@)]
        } else {
            Seq::empty()
        }) + (match st@.copy_from {
            Some(c) => if st@.loaded is None {
                seq![c]
            } else {
                Seq::empty()
            },
            None => Seq::empty(),
        }),
{
    let mut r: Vec<(String, String)> = Vec::new();
    let edit_mode = st.is_edit_mode();
    let loaded = st.is_loaded();
    if edit_mode && !loaded {
        r.push((String::from_str(env), String::from_str(name)));
    }
    match st.is_copy_from_model() {
        Some(c) => {
            if !loaded {
                r.push((c.0.clone(), c.1.clone()));
            }
        },
        None => {},
    }
    assert(r@.map_values(|p: (String, String)| (p.0@, p.1@)) =~= (if st@.edit_mode && st@.loaded is None {
        seq![(env@, name@)]
    } else {
        Seq::empty()
    }) + (match st@.copy_from {
        Some(c) => if st@.loaded is None {
            seq![c]
        } else {
            Seq::empty()
        },
        None => Seq::empty(),
    }));
    r
}

/// The two tabs beside the text: picking a secret, or looking at the values
/// of the secrets the text uses.
pub enum EditTemplateTab {
    ChooseSecret,
    PeekSecret,
}

/// A copy never edits the template it copies, and it cannot be saved until
/// it is given a name.
pub proof fn law_copy_needs_a_name(env: Seq<char>, name: Seq<char>)
    ensures
        !EditTemplateView::opened_with(env, name, true).edit_mode,
        !EditTemplateView::opened_with(env, name, true).savable(),
{
}

/// When adding or copying (not editing), a template is savable exactly when
/// its environment, its name and its text are all filled in: a missing name,
/// environment or text keeps Save disabled.
pub proof fn law_new_template_needs_env_name_and_text(s: EditTemplateView)
    requires
        !s.edit_mode,
    ensures
        s.name.len() == 0 ==> !s.savable(),
        s.env.len() == 0 ==> !s.savable(),
        s.yaml.len() == 0 ==> !s.savable(),
        s.name.len() > 0 && s.env.len() > 0 && s.yaml.len() > 0 ==> s.savable(),
{
}

/// When editing, nothing can be saved before the text is loaded.
pub proof fn law_edit_needs_loaded_text(s: EditTemplateView)
    requires
        s.edit_mode,
        s.loaded is None,
    ensures
        !s.savable(),
{
}

/// A copy whose text has been loaded still cannot be saved before it is
/// given a name.
pub proof fn law_loaded_copy_needs_a_name(env: Seq<char>, name: Seq<char>, yaml: Seq<char>)
    ensures
        !(EditTemplateView {
            yaml: yaml,
            loaded: Some(yaml),
            ..EditTemplateView::opened_with(env, name, true)
        }).savable(),
{
}

/// When editing, the template cannot be saved right after its text is
/// loaded, and can be saved as soon as the text differs from the loaded one.
pub proof fn law_edit_saves_only_changes(s: EditTemplateView, loaded: Seq<char>, edited: Seq<char>)
    requires
        s.edit_mode,
    ensures
        !(EditTemplateView { yaml: loaded, loaded: Some(loaded), ..s }).savable(),
        (EditTemplateView { yaml: edited, loaded: Some(loaded), ..s }).savable() == (edited != loaded),
{
}

/// Appending the placeholder of a secret keeps the text before it: the
/// old text is a prefix of the new one.
pub proof fn law_placeholder_appends(yaml: Seq<char>, secret_name: Seq<char>)
    ensures
        (yaml + secret_placeholder(secret_name)).subrange(0, yaml.len() as int) == yaml,
        (yaml + secret_placeholder(secret_name)).len() == yaml.len() + secret_name.len() + 3,
{
    assert((yaml + secret_placeholder(secret_name)).subrange(0, yaml.len() as int) =~= yaml);
}

} // verus!
