use settings_ui::models::{SecretHttpModel, TemplateHttpModel};
use settings_ui::views::secrets_list::{
    get_last_edited as list_last_edited, order_secrets, OrderBy as ListOrderBy,
    SecretListItemApiModel,
};
use settings_ui::views::secrets_page::render::{get_last_edited, OrderBy, SecretsListState};
use settings_ui::views::secrets_page::state::SecretsListState as StartState;
use settings_ui::views::templates_list::{get_last_edited as list_template_last_edited, TemplateApiModel};
use settings_ui::views::templates_page::api::order_templates;
use settings_ui::views::templates_page::render::get_last_edited as template_last_edited;

fn secret(name: &str, updated: i64) -> SecretHttpModel {
    SecretHttpModel {
        name: name.to_string(),
        level: 0,
        created: 0,
        updated,
        used_by_templates: 0,
        used_by_secrets: 0,
    }
}

fn item(name: &str, updated: i64) -> SecretListItemApiModel {
    SecretListItemApiModel {
        name: name.to_string(),
        level: 0,
        created: 0,
        updated,
        used_by_templates: 0,
        used_by_secrets: 0,
    }
}

fn texts(values: &[&str]) -> Vec<String> {
    values.iter().map(|v| v.to_string()).collect()
}

fn template(env: &str, name: &str, updated: i64) -> TemplateHttpModel {
    TemplateHttpModel {
        env: env.to_string(),
        name: name.to_string(),
        created: 0,
        updated,
        last_requests: 0,
        has_missing_placeholders: false,
    }
}

#[test]
fn sort_by_name_keeps_last_duplicate() {
    let secrets = vec![secret("b", 1), secret("a", 2), secret("b", 3), secret("c", 0)];
    let state = SecretsListState::new();
    assert!(matches!(state.order_by, OrderBy::Name));
    assert_eq!(state.sort(&secrets, &Vec::new()), vec![1, 2, 3]);
}

#[test]
fn sort_by_update_time() {
    let secrets = vec![secret("b", 30), secret("a", 10), secret("c", 20), secret("d", 10)];
    let shown = texts(&["2024-05-01 00:00:30", "2024-05-01 00:00:10", "2024-05-01 00:00:20", "2024-05-01 00:00:10"]);
    let state = SecretsListState { order_by: OrderBy::Updated };
    assert_eq!(state.sort(&secrets, &shown), vec![3, 2, 0]);
    assert_eq!(state.sort(&Vec::new(), &Vec::new()), Vec::<usize>::new());
}

#[test]
fn secrets_shown_with_the_same_time_keep_the_last() {
    let secrets = vec![secret("x", 1_000_001), secret("y", 1_000_002), secret("z", 900_000)];
    let shown = texts(&["1970-01-01 00:00:01", "1970-01-01 00:00:01", "1970-01-01 00:00:00"]);
    let state = SecretsListState { order_by: OrderBy::Updated };
    assert_eq!(state.sort(&secrets, &shown), vec![2, 1]);
}

#[test]
fn older_list_orders_the_same_way() {
    let items = vec![item("b", 1), item("a", 2), item("b", 3)];
    let shown = texts(&["2024-01-01 00:00:01", "2024-01-01 00:00:02", "2024-01-01 00:00:03"]);
    assert_eq!(order_secrets(&items, &shown, ListOrderBy::Name), vec![1, 2]);
    assert_eq!(order_secrets(&items, &shown, ListOrderBy::Updated), vec![0, 1, 2]);
    let same_time = texts(&["2024-01-01 00:00:01", "2024-01-01 00:00:01", "2023-12-31 23:59:59"]);
    assert_eq!(order_secrets(&items, &same_time, ListOrderBy::Updated), vec![2, 1]);
}

#[test]
fn last_edited_secret() {
    assert_eq!(get_last_edited(&vec![secret("a", 5), secret("b", 9), secret("c", 9)]), "b");
    assert_eq!(get_last_edited(&vec![secret("a", 0), secret("b", -3)]), "");
    assert_eq!(get_last_edited(&Vec::new()), "");
    assert_eq!(list_last_edited(&vec![item("x", 1), item("y", 2)]), "y");
}

#[test]
fn last_edited_template() {
    let ts = vec![template("dev", "a", 3), template("prod", "b", 7), template("qa", "c", 7)];
    assert_eq!(template_last_edited(&ts), ("prod".to_string(), "b".to_string()));
    assert_eq!(template_last_edited(&vec![template("dev", "a", 0)]), (String::new(), String::new()));
}

#[test]
fn last_edited_template_by_text() {
    let t = |env: &str, name: &str, updated: &str| TemplateApiModel {
        env: env.to_string(),
        name: name.to_string(),
        created: String::new(),
        updated: updated.to_string(),
        last_requests: 0,
        has_missing_placeholders: false,
    };
    let ts = vec![t("dev", "a", "2024-01-02"), t("dev", "b", "2024-03-01"), t("qa", "c", "2024-03-01")];
    assert_eq!(list_template_last_edited(&ts), ("dev".to_string(), "b".to_string()));
    assert_eq!(list_template_last_edited(&vec![t("dev", "a", "")]), (String::new(), String::new()));
}

#[test]
fn templates_listed_by_name_then_env() {
    let ts = vec![template("prod", "b", 0), template("dev", "b", 0), template("dev", "a", 0), template("prod", "b", 1)];
    assert_eq!(order_templates(&ts), vec![2, 1, 3]);
}

#[test]
fn start_state_product() {
    let products = vec!["p1".to_string(), "p2".to_string()];
    assert_eq!(StartState::new(Some("p2".to_string()), &products).product_id, "p2");
    assert_eq!(StartState::new(None, &products).product_id, "p1");
    assert_eq!(StartState::new(None, &Vec::new()).product_id, "");
}
