//! Which dialog the modal pad shows, with what width and what properties.

use vstd::prelude::*;

verus! {

/// The dialog asked for, with what it is about.
pub enum DialogType {
    AddSecret,
    EditSecret(String),
    DeleteSecret(String),
    AddTemplate,
    AddTemplateFromOtherTemplate { env: String, name: String },
    EditTemplate { env: String, name: String },
    DeleteTemplate { env: String, name: String },
    ShowPopulatedYaml { env: String, name: String },
    ShowSecret(String),
    SecretUsage(String),
    SecretUsageBySecret(String),
}

/// Whether a dialog is shown, and if so its title and kind.
pub enum DialogState {
    Hidden,
    Shown { header: String, dialog_type: DialogType },
}

/// The dialog component to put in the pad, with its properties.
pub enum DialogBody {
    EditSecret { secret: String },
    DeleteSecret { secret: String },
    EditTemplate { env: String, name: String, copy_from_template: bool },
    DeleteTemplate { env: String, name: String },
    ShowPopulatedYaml { env: String, name: String },
    ShowSecret { secret: String },
    SecretUsageByTemplate { secret: String },
    SecretUsageBySecret { secret: String },
}

/// A shown dialog: the class of its frame, its title and its content.
pub struct ShownDialog {
    pub dialog_class: &'static str,
    pub header: String,
    pub body: DialogBody,
}

/// The class of the frame for `t`: narrow for the secret dialogs and for
/// deleting a template, the ordinary width otherwise.
pub open spec fn frame_class(t: DialogType) -> Seq<char> {
    match t {
        DialogType::AddSecret | DialogType::EditSecret(_) | DialogType::DeleteSecret(_)
        | DialogType::DeleteTemplate { .. } => "modal-dialog-narrow"@,
        _ => "modal-dialog"@,
    }
}

/// The content for `t` and the component properties it is given.
pub open spec fn body_for(t: DialogType, b: DialogBody) -> bool {
    match t {
        DialogType::AddSecret => b matches DialogBody::EditSecret { secret } && secret@.len() == 0,
        DialogType::EditSecret(s) => b matches DialogBody::EditSecret { secret } && secret@ == s@,
        DialogType::DeleteSecret(s) => b matches DialogBody::DeleteSecret { secret } && secret@
            == s@,
        DialogType::AddTemplate => b matches DialogBody::EditTemplate {
            env,
            name,
            copy_from_template,
        } && env@.len() == 0 && name@.len() == 0 && !copy_from_template,
        DialogType::AddTemplateFromOtherTemplate { env: e, name: n } => b matches DialogBody::EditTemplate {
            env,
            name,
            copy_from_template,
        } && env@ == e@ && name@ == n@ && copy_from_template,
        DialogType::EditTemplate { env: e, name: n } => b matches DialogBody::EditTemplate {
            env,
            name,
            copy_from_template,
        } && env@ == e@ && name@ == n@ && !copy_from_template,
        DialogType::DeleteTemplate { env: e, name: n } => b matches DialogBody::DeleteTemplate {
            env,
            name,
        } && env@ == e@ && name@ == n@,
        DialogType::ShowPopulatedYaml { env: e, name: n } => b matches DialogBody::ShowPopulatedYaml {
            env,
            name,
        } && env@ == e@ && name@ == n@,
        DialogType::ShowSecret(s) => b matches DialogBody::ShowSecret { secret } && secret@ == s@,
        DialogType::SecretUsage(s) => b matches DialogBody::SecretUsageByTemplate { secret }
            && secret@ == s@,
        DialogType::SecretUsageBySecret(s) => b matches DialogBody::SecretUsageBySecret { secret }
            && secret@ == s@,
    }
}

fn layout(t: &DialogType) -> (r: (&'static str, DialogBody))
    ensures
        r.0@ == frame_class(*t),
        body_for(*t, r.1),
{
    proof {
        reveal_strlit("modal-dialog-narrow");
        reveal_strlit("modal-dialog");
    }
    match t {
        DialogType::AddSecret => (
            "modal-dialog-narrow",
            DialogBody::EditSecret { secret: String::new() },
        ),
        DialogType::EditSecret(secret) => (
            "modal-dialog-narrow",
            DialogBody::EditSecret { secret: secret.clone() },
        ),
        DialogType::DeleteSecret(secret) => (
            "modal-dialog-narrow",
            DialogBody::DeleteSecret { secret: secret.clone() },
        ),
        DialogType::AddTemplate => (
            "modal-dialog",
            DialogBody::EditTemplate {
                env: String::new(),
                name: String::new(),
                copy_from_template: false,
            },
        ),
        DialogType::AddTemplateFromOtherTemplate { env, name } => (
            "modal-dialog",
            DialogBody::EditTemplate { env: env.clone(), name: name.clone(), copy_from_template: true },
        ),
        DialogType::EditTemplate { env, name } => (
            "modal-dialog",
            DialogBody::EditTemplate {
                env: env.clone(),
                name: name.clone(),
                copy_from_template: false,
            },
        ),
        DialogType::DeleteTemplate { env, name } => (
            "modal-dialog-narrow",
            DialogBody::DeleteTemplate { env: env.clone(), name: name.clone() },
        ),
        DialogType::ShowPopulatedYaml { env, name } => (
            "modal-dialog",
            DialogBody::ShowPopulatedYaml { env: env.clone(), name: name.clone() },
        ),
        DialogType::ShowSecret(secret) => (
            "modal-dialog",
            DialogBody::ShowSecret { secret: secret.clone() },
        ),
        DialogType::SecretUsage(secret) => (
            "modal-dialog",
            DialogBody::SecretUsageByTemplate { secret: secret.clone() },
        ),
        DialogType::SecretUsageBySecret(secret) => (
            "modal-dialog",
            DialogBody::SecretUsageBySecret { secret: secret.clone() },
        ),
    }
}

/// The content shown for a request carries what the request is about: a
/// template request opens its component with exactly the request's
/// environment and name (copying only for a copy request, and the add
/// request with both empty), and a secret request opens its component with
/// exactly the request's secret (the add request with an empty one).
pub proof fn law_body_carries_request(t: DialogType, b: DialogBody)
    requires
        body_for(t, b),
    ensures
        t is AddSecret ==> (b matches DialogBody::EditSecret { secret } && secret@ =~= Seq::<char>::empty()),
        t matches DialogType::EditSecret(s) ==> b matches DialogBody::EditSecret { secret }
            && s@ == secret@,
        t matches DialogType::DeleteSecret(s) ==> b matches DialogBody::DeleteSecret { secret }
            && s@ == secret@,
        t matches DialogType::ShowSecret(s) ==> b matches DialogBody::ShowSecret { secret }
            && s@ == secret@,
        t matches DialogType::SecretUsage(s) ==> b matches DialogBody::SecretUsageByTemplate {
            secret,
        } && s@ == secret@,
        t matches DialogType::SecretUsageBySecret(s) ==> b matches DialogBody::SecretUsageBySecret {
            secret,
        } && s@ == secret@,
        t is AddTemplate ==> (b matches DialogBody::EditTemplate { env, name, copy_from_template }
            && env@ =~= Seq::<char>::empty() && name@ =~= Seq::<char>::empty() && !copy_from_template),
        t matches DialogType::AddTemplateFromOtherTemplate { env: e, name: n } ==> b matches DialogBody::EditTemplate {
            env,
            name,
            copy_from_template,
        } && e@ == env@ && n@ == name@ && copy_from_template,
        t matches DialogType::EditTemplate { env: e, name: n } ==> b matches DialogBody::EditTemplate {
            env,
            name,
            copy_from_template,
        } && e@ == env@ && n@ == name@ && !copy_from_template,
        t matches DialogType::DeleteTemplate { env: e, name: n } ==> b matches DialogBody::DeleteTemplate {
            env,
            name,
        } && e@ == env@ && n@ == name@,
        t matches DialogType::ShowPopulatedYaml { env: e, name: n } ==> b matches DialogBody::ShowPopulatedYaml {
            env,
            name,
        } && e@ == env@ && n@ == name@,
{
}

/// The frame is narrow exactly for the secret editing dialogs (add, edit,
/// delete) and for deleting a template; every other dialog has the
/// ordinary frame.
pub proof fn law_frame_width(t: DialogType)
    ensures
        (t is AddSecret || t is EditSecret || t is DeleteSecret || t is DeleteTemplate)
            ==> frame_class(t) == "modal-dialog-narrow"@,
        !(t is AddSecret || t is EditSecret || t is DeleteSecret || t is DeleteTemplate)
            ==> frame_class(t) == "modal-dialog"@,
{
}

/// What the modal pad shows for `dialog`: nothing when it is hidden, else
/// the frame class, the title and the content for its kind.
pub fn render_dialog(dialog: &DialogState) -> (r: Option<ShownDialog>)
    ensures
        match *dialog {
            DialogState::Hidden => r is None,
            DialogState::Shown { header, dialog_type } => r matches Some(shown) && shown.dialog_class@
                == frame_class(dialog_type) && shown.header@ == header@ && body_for(
                dialog_type,
                shown.body,
            ),
        },
{
    match dialog {
        DialogState::Hidden => None,
        DialogState::Shown { header, dialog_type } => {
            let (dialog_class, body) = layout(dialog_type);
            Some(ShownDialog { dialog_class, header: header.clone(), body })
        },
    }
}

} // verus!
