//! The dialog that adds or edits a secret.

use vstd::prelude::*;

use crate::text::{decimal_text, i32_text_value, i32_to_text, parse_i32, trim_text, trimmed};

verus! {

/// The value and level of a secret as loaded from the server.
pub struct LoadedValue {
    pub value: String,
    pub level: i32,
}

/// The values being edited, the name the dialog was opened for, and the
/// values loaded from the server, if they have been.
pub struct EditSecretState {
    pub init_name: String,
    pub name: String,
    pub value: String,
    pub level: Option<i32>,
    pub loaded_value: Option<LoadedValue>,
}

/// The level a missing level counts as.
pub open spec fn level_or_zero(level: Option<i32>) -> i32 {
    match level {
        Some(l) => l,
        None => 0,
    }
}

impl EditSecretState {
    /// The edited value and level equal the loaded ones.
    pub open spec fn unchanged_since_load(&self) -> bool {
        match self.loaded_value {
            Some(lv) => lv.value@ == self.value@ && lv.level == level_or_zero(self.level),
            None => false,
        }
    }

    /// The state may be saved: it differs from what was loaded (if anything
    /// was), and name, value and level are all filled in.
    pub open spec fn savable(&self) -> bool {
        &&& !self.unchanged_since_load()
        &&& self.name@.len() > 0
        &&& self.value@.len() > 0
        &&& self.level is Some
    }

    /// Opens the dialog for the secret named `secret` (empty to add one):
    /// the name is that name, value and level are empty, nothing is loaded.
    pub fn new(secret: String) -> (r: Self)
        ensures
            r.init_name@ == secret@,
            r.name@ == secret@,
            r.value@ == Seq::<char>::empty(),
            r.level is None,
            r.loaded_value is None,
    {
        Self {
            init_name: secret.clone(),
            name: secret,
            value: String::new(),
            level: None,
            loaded_value: None,
        }
    }

    /// The edited name.
    pub fn get_secret_name(&self) -> (r: &str)
        ensures
            r@ == self.name@,
    {
        self.name.as_str()
    }

    /// The edited value.
    pub fn get_secret_value(&self) -> (r: &str)
        ensures
            r@ == self.value@,
    {
        self.value.as_str()
    }

    /// The level as the input shows it: its decimal text, or empty text
    /// when there is no level.
    pub fn get_secret_level(&self) -> (r: String)
        ensures
            r@ == match self.level {
                Some(level) => decimal_text(level as int),
                None => Seq::<char>::empty(),
            },
    {
        match self.level {
            Some(level) => i32_to_text(level),
            None => String::new(),
        }
    }

    /// The level to save: the edited one, or zero when there is none.
    pub fn get_secret_level_value(&self) -> (r: i32)
        ensures
            r == level_or_zero(self.level),
    {
        match self.level {
            Some(level) => level,
            None => 0,
        }
    }

    /// Whether an existing secret is edited (rather than a new one added).
    pub fn edit_mode(&self) -> (r: bool)
        ensures
            r == (self.init_name@.len() > 0),
    {
        !self.init_name.as_str().is_empty()
    }

    /// Whether the stored value and level have been loaded.
    pub fn value_is_loaded(&self) -> (r: bool)
        ensures
            r == self.loaded_value is Some,
    {
        self.loaded_value.is_some()
    }

    /// Whether the Save button is enabled.
    pub fn can_be_saved(&self) -> (r: bool)
        ensures
            r == self.savable(),
    {
        if let Some(loaded_value) = self.loaded_value.as_ref() {
            if loaded_value.value == self.value && loaded_value.level == self.level.unwrap_or(0) {
                return false;
            }
        }
        !self.name.as_str().is_empty() && !self.value.as_str().is_empty() && self.level.is_some()
    }

    fn copy_loaded(&self) -> (r: Option<LoadedValue>)
        ensures
            r == self.loaded_value,
    {
        match &self.loaded_value {
            Some(lv) => Some(LoadedValue { value: lv.value.clone(), level: lv.level }),
            None => None,
        }
    }

    /// The state after the stored value and level arrived: they become both
    /// the edited and the loaded values; the names stay.
    pub fn set_loaded_values(&self, value: String, level: i32) -> (r: Self)
        ensures
            r.init_name@ == self.init_name@,
            r.name@ == self.name@,
            r.value@ == value@,
            r.level == Some(level),
            r.loaded_value matches Some(lv) && lv.value@ == value@ && lv.level == level,
    {
        Self {
            value: value.clone(),
            init_name: self.init_name.clone(),
            name: self.name.clone(),
            level: Some(level),
            loaded_value: Some(LoadedValue { value, level }),
        }
    }

    /// The state with another name; nothing else changes.
    pub fn set_name(&self, name: String) -> (r: Self)
        ensures
            r == (EditSecretState { name, ..*self }),
    {
        Self {
            value: self.value.clone(),
            init_name: self.init_name.clone(),
            name,
            level: self.level,
            loaded_value: self.copy_loaded(),
        }
    }

    /// The state with another value; nothing else changes.
    pub fn set_value(&self, value: String) -> (r: Self)
        ensures
            r == (EditSecretState { value, ..*self }),
    {
        Self {
            value,
            init_name: self.init_name.clone(),
            name: self.name.clone(),
            level: self.level,
            loaded_value: self.copy_loaded(),
        }
    }

    /// The state with another level; nothing else changes.
    pub fn set_level(&self, level: Option<i32>) -> (r: Self)
        ensures
            r == (EditSecretState { level, ..*self }),
    {
        Self {
            value: self.value.clone(),
            init_name: self.init_name.clone(),
            name: self.name.clone(),
            level,
            loaded_value: self.copy_loaded(),
        }
    }
}

/// The text kept from the name or value input: what was typed, without
/// surrounding white space.
pub fn input_text(input: &str) -> (r: String)
    ensures
        r@ == trimmed(input@),
{
    trim_text(input)
}

/// The level typed into the level input: the text without surrounding
/// white space, read as an `i32`; nothing when it does not read as one.
pub fn level_from_input(input: &str) -> (r: Option<i32>)
    ensures
        r == i32_text_value(trimmed(input@)),
{
    let text = trim_text(input);
    parse_i32(text.as_str())
}

/// A secret without a name, without a value or without a level is never
/// savable.
pub proof fn law_secret_needs_name_value_and_level(s: EditSecretState)
    requires
        s.name@.len() == 0 || s.value@.len() == 0 || s.level is None,
    ensures
        !s.savable(),
{
}

/// Before anything is loaded, a secret with a name, a value and a level is
/// savable.
pub proof fn law_filled_new_secret_is_savable(s: EditSecretState)
    requires
        s.loaded_value is None,
        s.name@.len() > 0,
        s.value@.len() > 0,
        s.level is Some,
    ensures
        s.savable(),
{
}

/// After loading, a filled-in secret whose level differs from the loaded
/// level is savable, whatever its value.
pub proof fn law_changed_level_is_savable(s: EditSecretState)
    requires
        s.loaded_value is Some,
        s.name@.len() > 0,
        s.value@.len() > 0,
        s.level matches Some(l) && l != s.loaded_value->0.level,
    ensures
        s.savable(),
{
}

/// Right after the stored value and level are loaded, the secret cannot be
/// saved: nothing differs from what is stored.
pub proof fn law_loaded_secret_not_savable(s: EditSecretState)
    requires
        s.loaded_value matches Some(lv) && lv.value@ == s.value@ && s.level == Some(lv.level),
    ensures
        !s.savable(),
{
}

/// After loading, editing the value to another non-empty value makes the
/// secret savable (its name and level being filled in).
pub proof fn law_changed_value_is_savable(s: EditSecretState, value: String)
    requires
        s.loaded_value is Some,
        s.name@.len() > 0,
        s.level is Some,
        value@.len() > 0,
        value@ != s.loaded_value->0.value@,
    ensures
        (EditSecretState { value, ..s }).savable(),
{
}

/// A dialog that has just been opened cannot be saved: no value and no
/// level have been entered or loaded yet.
pub proof fn law_fresh_secret_not_savable(s: EditSecretState)
    requires
        s.value@ == Seq::<char>::empty(),
        s.level is None,
        s.loaded_value is None,
    ensures
        !s.savable(),
{
}

} // verus!
