use settings_ui::views::dialog::edit_secret::{input_text, level_from_input};
use settings_ui::views::dialog::edit_secret::EditSecretState;

#[test]
fn new_dialog_for_adding() {
    let s = EditSecretState::new(String::new());
    assert!(!s.edit_mode());
    assert!(!s.value_is_loaded());
    assert_eq!(s.get_secret_name(), "");
    assert_eq!(s.get_secret_value(), "");
    assert_eq!(s.get_secret_level(), "");
    assert_eq!(s.get_secret_level_value(), 0);
    assert!(!s.can_be_saved());
}

#[test]
fn adding_needs_name_value_and_level() {
    let s = EditSecretState::new(String::new());
    let s = s.set_name("token".to_string());
    assert!(!s.can_be_saved());
    let s = s.set_value("abc".to_string());
    assert!(!s.can_be_saved());
    let s = s.set_level(Some(3));
    assert!(s.can_be_saved());
    assert_eq!(s.get_secret_level(), "3");
    let s = s.set_level(None);
    assert!(!s.can_be_saved());
}

#[test]
fn loaded_values_cannot_be_saved_until_changed() {
    let s = EditSecretState::new("token".to_string());
    assert!(s.edit_mode());
    let s = s.set_loaded_values("abc".to_string(), 5);
    assert!(s.value_is_loaded());
    assert_eq!(s.get_secret_value(), "abc");
    assert_eq!(s.get_secret_level_value(), 5);
    assert!(!s.can_be_saved());
    let s2 = s.set_value("abd".to_string());
    assert!(s2.can_be_saved());
    let s3 = s.set_level(Some(6));
    assert!(s3.can_be_saved());
    let s4 = s3.set_level(Some(5));
    assert!(!s4.can_be_saved());
}

#[test]
fn level_text_of_negative_and_extreme_levels() {
    let s = EditSecretState::new("k".to_string());
    assert_eq!(s.set_level(Some(-42)).get_secret_level(), "-42");
    assert_eq!(s.set_level(Some(0)).get_secret_level(), "0");
    assert_eq!(s.set_level(Some(i32::MIN)).get_secret_level(), "-2147483648");
    assert_eq!(s.set_level(Some(i32::MAX)).get_secret_level(), "2147483647");
}

#[test]
fn setters_change_one_field() {
    let s = EditSecretState::new("k".to_string()).set_loaded_values("v".to_string(), 1);
    let t = s.set_name("other".to_string());
    assert_eq!(t.get_secret_name(), "other");
    assert_eq!(t.init_name, "k");
    assert_eq!(t.get_secret_value(), "v");
    assert_eq!(t.level, Some(1));
    assert!(t.value_is_loaded());
}

#[test]
fn level_input_is_read_as_i32() {
    assert_eq!(level_from_input("5"), Some(5));
    assert_eq!(level_from_input("  -12 "), Some(-12));
    assert_eq!(level_from_input("+7"), Some(7));
    assert_eq!(level_from_input("007"), Some(7));
    assert_eq!(level_from_input("-2147483648"), Some(i32::MIN));
    assert_eq!(level_from_input("2147483647"), Some(i32::MAX));
    assert_eq!(level_from_input("2147483648"), None);
    assert_eq!(level_from_input("99999999999999999999"), None);
    assert_eq!(level_from_input(""), None);
    assert_eq!(level_from_input("-"), None);
    assert_eq!(level_from_input("+"), None);
    assert_eq!(level_from_input("1a"), None);
    assert_eq!(level_from_input("--1"), None);
    for t in ["0", "42", "-1", " 3\t", "x", "+-1"] {
        assert_eq!(level_from_input(t), t.trim().parse::<i32>().ok());
    }
}

#[test]
fn name_and_value_inputs_are_trimmed() {
    assert_eq!(input_text("  db-password \t"), "db-password");
    assert_eq!(input_text("\u{3000}value"), "value");
    assert_eq!(input_text("   "), "");
    assert_eq!(input_text("in side"), "in side");
}

#[test]
fn level_input_with_unicode_space() {
    assert_eq!(level_from_input("\u{3000}42\u{a0}"), Some(42));
    assert_eq!(level_from_input("4 2"), None);
}
