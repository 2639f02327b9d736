use settings_ui::views::dialog::edit_template::edit_template::templates_to_load;
use settings_ui::views::dialog::edit_template::edit_template::EditTemplateState as CopyingState;
use settings_ui::views::dialog::edit_template::EditTemplateState;

#[test]
fn adding_needs_everything_filled_in() {
    let s = EditTemplateState::new(String::new(), String::new());
    assert!(!s.is_edit_mode());
    assert!(!s.save_button_enabled());
    let s = s.set_env("dev".to_string()).set_name("app".to_string());
    assert!(!s.save_button_enabled());
    let s = s.set_yaml("a: 1".to_string());
    assert!(s.save_button_enabled());
    assert_eq!(s.get_env(), "dev");
    assert_eq!(s.get_name(), "app");
    assert_eq!(s.get_yaml(), "a: 1");
}

#[test]
fn editing_saves_only_changes() {
    let s = EditTemplateState::new("dev".to_string(), "app".to_string());
    assert!(s.is_edit_mode());
    assert!(!s.is_loaded());
    assert!(!s.save_button_enabled());
    let s = s.loaded_yaml("a: 1".to_string());
    assert!(s.is_loaded());
    assert_eq!(s.get_yaml(), "a: 1");
    assert!(!s.save_button_enabled());
    let s = s.set_yaml("a: 2".to_string());
    assert!(s.save_button_enabled());
    let s = s.set_yaml("a: 1".to_string());
    assert!(!s.save_button_enabled());
}

#[test]
fn copying_starts_a_new_template() {
    let s = CopyingState::new("dev".to_string(), "app".to_string(), true);
    assert!(!s.is_edit_mode());
    assert_eq!(s.get_env(), "dev");
    assert_eq!(s.get_name(), "");
    assert_eq!(s.is_copy_from_model(), &Some(("dev".to_string(), "app".to_string())));
    assert!(!s.save_button_enabled());
    let s = s.loaded_yaml("a: 1".to_string()).set_name("copy".to_string());
    assert!(s.save_button_enabled());
}

#[test]
fn editing_with_the_secret_picker() {
    let s = CopyingState::new("dev".to_string(), "app".to_string(), false);
    assert!(s.is_edit_mode());
    assert_eq!(s.is_copy_from_model(), &None);
    let s = s.loaded_yaml("x: ".to_string());
    assert!(!s.save_button_enabled());
    let s = s.add_secret_to_yaml("db-password".to_string());
    assert_eq!(s.get_yaml(), "x: ${db-password}");
    assert!(s.save_button_enabled());
}

#[test]
fn new_without_env_adds() {
    let s = CopyingState::new(String::new(), "app".to_string(), false);
    assert!(!s.is_edit_mode());
    assert_eq!(s.get_name(), "app");
}

#[test]
fn which_templates_to_load() {
    let editing = CopyingState::new("dev".to_string(), "app".to_string(), false);
    assert_eq!(templates_to_load(&editing, "dev", "app"), vec![("dev".to_string(), "app".to_string())]);
    let loaded = editing.loaded_yaml("a".to_string());
    assert!(templates_to_load(&loaded, "dev", "app").is_empty());
    let copying = CopyingState::new("dev".to_string(), "app".to_string(), true);
    assert_eq!(templates_to_load(&copying, "dev", "app"), vec![("dev".to_string(), "app".to_string())]);
    let adding = CopyingState::new(String::new(), String::new(), false);
    assert!(templates_to_load(&adding, "", "").is_empty());

    let simple = EditTemplateState::new("dev".to_string(), "app".to_string());
    assert_eq!(simple.template_to_load(), Some(("dev".to_string(), "app".to_string())));
    assert_eq!(simple.loaded_yaml("x".to_string()).template_to_load(), None);
    assert_eq!(EditTemplateState::new(String::new(), "a".to_string()).template_to_load(), None);
}
