use settings_ui::views::templates_page::state::TemplatesState;

fn pairs(state: &TemplatesState) -> Vec<(String, String)> {
    let mut r: Vec<(String, String)> =
        state.get_request_data().into_iter().map(|m| (m.env, m.name)).collect();
    r.sort();
    r
}

#[test]
fn nothing_selected_at_first() {
    let s = TemplatesState::default();
    assert!(!s.has_selected());
    assert!(!s.is_selected("dev", "app"));
    assert!(s.get_request_data().is_empty());
}

#[test]
fn select_then_read_back() {
    let mut s = TemplatesState::default();
    s.set_selected("dev", "app", true);
    assert!(s.is_selected("dev", "app"));
    assert!(!s.is_selected("prod", "app"));
    assert!(!s.is_selected("dev", "other"));
    assert!(s.has_selected());
    assert_eq!(pairs(&s), vec![("dev".to_string(), "app".to_string())]);
}

#[test]
fn deselect_undoes_select() {
    let mut s = TemplatesState::default();
    s.set_selected("dev", "app", true);
    s.set_selected("dev", "app", false);
    assert!(!s.is_selected("dev", "app"));
    assert!(!s.has_selected());
    s.set_selected("dev", "missing", false);
    assert!(!s.has_selected());
}

#[test]
fn selecting_twice_keeps_one_request() {
    let mut s = TemplatesState::default();
    s.set_selected("dev", "app", true);
    s.set_selected("dev", "app", true);
    s.set_selected("prod", "app", true);
    assert_eq!(
        pairs(&s),
        vec![("dev".to_string(), "app".to_string()), ("prod".to_string(), "app".to_string())]
    );
}

#[test]
fn keys_that_collide_share_one_selection() {
    // "a|b" + "|" + "c" and "a" + "|" + "b|c" give the same key.
    let mut s = TemplatesState::default();
    s.set_selected("a|b", "c", true);
    assert!(s.is_selected("a", "b|c"));
    s.set_selected("a", "b|c", true);
    assert_eq!(pairs(&s), vec![("a".to_string(), "b|c".to_string())]);
    s.set_selected("a|b", "c", false);
    assert!(!s.has_selected());
}
