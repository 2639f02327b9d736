//! The dialog that adds or edits a template, without a secret picker.

pub mod choose_secret;
pub mod edit_template;
pub mod peek_secrets;
pub mod select_secret;

use vstd::prelude::*;

verus! {

/// The template being edited and the text loaded from the server, if it
/// has been.
pub struct EditTemplateState {
    env: String,
    name: String,
    edit_mode: bool,
    yaml: String,
    loaded: Option<String>,
}

/// The model of [`EditTemplateState`].
pub struct EditTemplateView {
    pub env: Seq<char>,
    pub name: Seq<char>,
    pub edit_mode: bool,
    pub yaml: Seq<char>,
    pub loaded: Option<Seq<char>>,
}

impl View for EditTemplateState {
    type V = EditTemplateView;

    closed spec fn view(&self) -> EditTemplateView {
        EditTemplateView {
            env: self.env@,
            name: self.name@,
            edit_mode: self.edit_mode,
            yaml: self.yaml@,
            loaded: match self.loaded {
                Some(l) => Some(l@),
                None => None,
            },
        }
    }
}

impl EditTemplateView {
    /// Saving is possible: when editing, once the text is loaded and has
    /// been changed; when adding, once environment, name and text are all
    /// filled in.
    pub open spec fn savable(self) -> bool {
        if self.edit_mode {
            match self.loaded {
                Some(l) => self.yaml != l,
                None => false,
            }
        } else {
            self.name.len() > 0 && self.yaml.len() > 0 && self.env.len() > 0
        }
    }
}

impl EditTemplateState {
    /// Opens the dialog for template `name` of environment `env`; it edits
    /// an existing template exactly when the environment is given.
    pub fn new(env: String, name: String) -> (r: Self)
        ensures
            r@ == (EditTemplateView {
                env: env@,
                name: name@,
                edit_mode: env@.len() > 0,
                yaml: Seq::<char>::empty(),
                loaded: None,
            }),
    {
        Self {
            edit_mode: !env.as_str().is_empty(),
            env,
            name,
            yaml: String::new(),
            loaded: None,
        }
    }

    /// Whether the Save button is enabled.
    pub fn save_button_enabled(&self) -> (r: bool)
        ensures
            r == self@.savable(),
    {
        if self.is_edit_mode() {
            match &self.loaded {
                Some(loaded_yaml) => return !(self.yaml == *loaded_yaml),
                None => return false,
            }
        }
        !self.name.as_str().is_empty() && !self.yaml.as_str().is_empty()
            && !self.env.as_str().is_empty()
    }

    /// Whether an existing template is edited.
    pub fn is_edit_mode(&self) -> (r: bool)
        ensures
            r == self@.edit_mode,
    {
        self.edit_mode
    }

    /// Whether the stored text has been loaded.
    pub fn is_loaded(&self) -> (r: bool)
        ensures
            r == self@.loaded is Some,
    {
        self.loaded.is_some()
    }

    /// The environment.
    pub fn get_env(&self) -> (r: &str)
        ensures
            r@ == self@.env,
    {
        self.env.as_str()
    }

    /// The edited text.
    pub fn get_yaml(&self) -> (r: &str)
        ensures
            r@ == self@.yaml,
    {
        self.yaml.as_str()
    }

    /// The template name.
    pub fn get_name(&self) -> (r: &str)
        ensures
            r@ == self@.name,
    {
        self.name.as_str()
    }

    /// The template whose text to load: this one, when editing and nothing
    /// is loaded yet.
    pub fn template_to_load(&self) -> (r: Option<(String, String)>)
        ensures
            match r {
                Some(p) => self@.edit_mode && self@.loaded is None && p.0@ == self@.env && p.1@
                    == self@.name,
                None => !(self@.edit_mode && self@.loaded is None),
            },
    {
        if self.edit_mode && self.loaded.is_none() {
            Some((self.env.clone(), self.name.clone()))
        } else {
            None
        }
    }

    fn copy_loaded(&self) -> (r: Option<String>)
        ensures
            r == self.loaded,
    {
        match &self.loaded {
            Some(l) => Some(l.clone()),
            None => None,
        }
    }

    /// The state with another environment; nothing else changes.
    pub fn set_env(&self, env: String) -> (r: Self)
        ensures
            r@ == (EditTemplateView { env: env@, ..self@ }),
    {
        Self {
            env,
            name: self.name.clone(),
            edit_mode: self.edit_mode,
            yaml: self.yaml.clone(),
            loaded: self.copy_loaded(),
        }
    }

    /// The state with another name; nothing else changes.
    pub fn set_name(&self, name: String) -> (r: Self)
        ensures
            r@ == (EditTemplateView { name: name@, ..self@ }),
    {
        Self {
            env: self.env.clone(),
            name,
            edit_mode: self.edit_mode,
            yaml: self.yaml.clone(),
            loaded: self.copy_loaded(),
        }
    }

    /// The state with another text; nothing else changes.
    pub fn set_yaml(&self, yaml: String) -> (r: Self)
        ensures
            r@ == (EditTemplateView { yaml: yaml@, ..self@ }),
    {
        Self {
            env: self.env.clone(),
            name: self.name.clone(),
            edit_mode: self.edit_mode,
            yaml,
            loaded: self.copy_loaded(),
        }
    }

    /// The state after the stored text arrived: it becomes both the edited
    /// and the loaded text.
    pub fn loaded_yaml(&self, yaml: String) -> (r: Self)
        ensures
            r@ == (EditTemplateView { yaml: yaml@, loaded: Some(yaml@), ..self@ }),
    {
        Self {
            env: self.env.clone(),
            name: self.name.clone(),
            edit_mode: self.edit_mode,
            yaml: yaml.clone(),
            loaded: Some(yaml),
        }
    }
}

/// When adding or copying (not editing), a template is savable exactly when
/// its environment, its name and its text are all filled in: a missing name,
/// environment or text keeps Save disabled.
pub proof fn law_new_template_needs_env_name_and_text(s: EditTemplateView)
    requires
        !s.edit_mode,
    ensures
        s.name.len() == 0 ==> !s.savable(),
        s.env.len() == 0 ==> !s.savable(),
        s.yaml.len() == 0 ==> !s.savable(),
        s.name.len() > 0 && s.env.len() > 0 && s.yaml.len() > 0 ==> s.savable(),
{
}

/// When editing, nothing can be saved before the text is loaded.
pub proof fn law_edit_needs_loaded_text(s: EditTemplateView)
    requires
        s.edit_mode,
        s.loaded is None,
    ensures
        !s.savable(),
{
}

/// When editing, the template cannot be saved right after its text is
/// loaded, and can be saved as soon as the text differs from the loaded one.
pub proof fn law_edit_saves_only_changes(s: EditTemplateView, loaded: Seq<char>, edited: Seq<char>)
    requires
        s.edit_mode,
    ensures
        !(EditTemplateView { yaml: loaded, loaded: Some(loaded), ..s }).savable(),
        (EditTemplateView { yaml: edited, loaded: Some(loaded), ..s }).savable() == (edited != loaded),
{
}

} // verus!
