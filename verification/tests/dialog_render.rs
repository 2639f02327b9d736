use settings_ui::views::dialog::render::{render_dialog, DialogBody, DialogState, DialogType};

fn shown(header: &str, dialog_type: DialogType) -> DialogState {
    DialogState::Shown { header: header.to_string(), dialog_type }
}

#[test]
fn hidden_dialog_shows_nothing() {
    assert!(render_dialog(&DialogState::Hidden).is_none());
}

#[test]
fn secret_dialogs_are_narrow() {
    let r = render_dialog(&shown("Add secret", DialogType::AddSecret)).unwrap();
    assert_eq!(r.dialog_class, "modal-dialog-narrow");
    assert_eq!(r.header, "Add secret");
    assert!(matches!(r.body, DialogBody::EditSecret { ref secret } if secret.is_empty()));

    let r = render_dialog(&shown("Edit", DialogType::EditSecret("db".to_string()))).unwrap();
    assert_eq!(r.dialog_class, "modal-dialog-narrow");
    assert!(matches!(r.body, DialogBody::EditSecret { ref secret } if secret == "db"));

    let r = render_dialog(&shown("Delete", DialogType::DeleteSecret("db".to_string()))).unwrap();
    assert_eq!(r.dialog_class, "modal-dialog-narrow");
    assert!(matches!(r.body, DialogBody::DeleteSecret { ref secret } if secret == "db"));

    let del = DialogType::DeleteTemplate { env: "prod".to_string(), name: "api".to_string() };
    let r = render_dialog(&shown("Delete template", del)).unwrap();
    assert_eq!(r.dialog_class, "modal-dialog-narrow");
    assert!(matches!(r.body, DialogBody::DeleteTemplate { ref env, ref name } if env == "prod" && name == "api"));
}

#[test]
fn template_dialogs_use_the_ordinary_width() {
    let r = render_dialog(&shown("Add template", DialogType::AddTemplate)).unwrap();
    assert_eq!(r.dialog_class, "modal-dialog");
    assert!(matches!(
        r.body,
        DialogBody::EditTemplate { ref env, ref name, copy_from_template: false } if env.is_empty() && name.is_empty()
    ));

    let copy = DialogType::AddTemplateFromOtherTemplate { env: "dev".to_string(), name: "web".to_string() };
    let r = render_dialog(&shown("Copy", copy)).unwrap();
    assert_eq!(r.dialog_class, "modal-dialog");
    assert!(matches!(
        r.body,
        DialogBody::EditTemplate { ref env, ref name, copy_from_template: true } if env == "dev" && name == "web"
    ));

    let edit = DialogType::EditTemplate { env: "dev".to_string(), name: "web".to_string() };
    let r = render_dialog(&shown("Edit", edit)).unwrap();
    assert!(matches!(r.body, DialogBody::EditTemplate { copy_from_template: false, .. }));

    let yaml = DialogType::ShowPopulatedYaml { env: "dev".to_string(), name: "web".to_string() };
    let r = render_dialog(&shown("Yaml", yaml)).unwrap();
    assert_eq!(r.dialog_class, "modal-dialog");
    assert!(matches!(r.body, DialogBody::ShowPopulatedYaml { ref env, .. } if env == "dev"));
}

#[test]
fn secret_views_pick_their_component() {
    let r = render_dialog(&shown("Secret", DialogType::ShowSecret("k".to_string()))).unwrap();
    assert_eq!(r.dialog_class, "modal-dialog");
    assert!(matches!(r.body, DialogBody::ShowSecret { ref secret } if secret == "k"));
    let r = render_dialog(&shown("Usage", DialogType::SecretUsage("k".to_string()))).unwrap();
    assert!(matches!(r.body, DialogBody::SecretUsageByTemplate { ref secret } if secret == "k"));
    let r = render_dialog(&shown("Usage", DialogType::SecretUsageBySecret("k".to_string()))).unwrap();
    assert!(matches!(r.body, DialogBody::SecretUsageBySecret { ref secret } if secret == "k"));
}
