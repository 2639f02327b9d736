use settings_ui::views::domains_list::{ca_badge_text, template_badge_text};
use settings_ui::views::secrets_page::render::{order_arrows, OrderBy};
use settings_ui::views::dialog::delete_secret::delete_secret_message;
use settings_ui::views::dialog::delete_template::delete_template_message;
use settings_ui::views::dialog::edit_template::choose_secret::{
    add_secret_level, choose_secret_candidates, has_secret, search_filter,
};
use settings_ui::views::dialog::edit_template::peek_secrets::{
    peek_rows, remember_loaded, PeekStatus, SecretApiModel,
};
use settings_ui::views::dialog::edit_template::select_secret::select_secret_candidates;
use settings_ui::views::dialog::show_secret_usage_by_secret::split_at_secret;
use settings_ui::views::dialog::show_secret_usage_by_template::mark_secret_lines;
use settings_ui::views::domains_list::{
    cloud_flare_status, product_domain_name, route_label, CfRecordRestApiModel, CloudFlareStatus,
    NginxRouteHttpModel,
};
use settings_ui::views::secrets_list::{
    secret_matches_filter, usage_badge_classes, SecretListItemApiModel,
};
use settings_ui::views::templates_list::template_matches_filter;

fn item(name: &str) -> SecretListItemApiModel {
    SecretListItemApiModel {
        name: name.to_string(),
        level: 0,
        created: 0,
        updated: 0,
        used_by_templates: 0,
        used_by_secrets: 0,
    }
}

#[test]
fn choose_needs_three_bytes() {
    let values = vec![item("DbPassword"), item("api-key"), item("db-user")];
    assert!(choose_secret_candidates(&values, "db").is_empty());
    assert_eq!(choose_secret_candidates(&values, "dbp"), vec!["DbPassword".to_string()]);
    assert_eq!(choose_secret_candidates(&values, "-ke"), vec!["api-key".to_string()]);
}

#[test]
fn select_needs_more_than_three_bytes() {
    let values = vec![item("DbPassword"), item("db-user")];
    assert!(select_secret_candidates(&values, "db-").is_empty());
    assert_eq!(select_secret_candidates(&values, "db-u"), vec!["db-user".to_string()]);
}

#[test]
fn secret_lookup() {
    let values = Some(vec![item("a"), item("b")]);
    assert!(has_secret(&values, "b"));
    assert!(!has_secret(&values, "c"));
    assert!(!has_secret(&None, "a"));
}

#[test]
fn peek_table() {
    let names = vec!["a".to_string(), "b".to_string(), "zz".to_string()];
    let available = Some(vec![item("a"), item("b")]);
    let mut loaded = Vec::new();
    remember_loaded(&mut loaded, SecretApiModel { name: "a".to_string(), value: "1".to_string(), level: 2 });
    remember_loaded(&mut loaded, SecretApiModel { name: String::new(), value: "x".to_string(), level: 0 });
    remember_loaded(&mut loaded, SecretApiModel { name: "a".to_string(), value: "3".to_string(), level: 4 });
    assert_eq!(loaded.len(), 2);
    let yaml = "key: ${a}, ${b}";
    let rows = peek_rows(yaml, &names, &available, &loaded);
    assert_eq!(rows.len(), 3);
    assert_eq!(rows[0].secret_name, "a");
    assert!(matches!(&rows[0].status, PeekStatus::Loaded { value, level } if value == "3" && *level == 4));
    assert!(matches!(rows[1].status, PeekStatus::NotLoaded));
    assert!(matches!(rows[2].status, PeekStatus::NotFound));
    assert!(peek_rows("short", &names, &available, &loaded).is_empty());
    assert!(peek_rows(yaml, &names, &None, &loaded).is_empty());
}

#[test]
fn usage_in_secret_values() {
    assert_eq!(
        split_at_secret("user=${db}; pass=${db}", "${db}"),
        Some(("user=".to_string(), "; pass=${db}".to_string()))
    );
    assert_eq!(split_at_secret("nothing here", "${db}"), None);
}

#[test]
fn usage_in_templates() {
    let lines = mark_secret_lines("a: ${db}\nb: 1", "${db}");
    assert_eq!(lines, vec![("a: ${db}".to_string(), true), ("b: 1".to_string(), false)]);
}

#[test]
fn confirmation_messages() {
    assert_eq!(delete_secret_message("db"), "You are about to delete a secret 'db'");
    assert_eq!(delete_template_message("dev", "app"), "You are about to delete a template dev/app");
}

#[test]
fn list_filters() {
    assert!(secret_matches_filter("Anything", ""));
    assert!(secret_matches_filter("DbPassword", "pass"));
    assert!(!secret_matches_filter("DbPassword", "PASS"));
    assert!(template_matches_filter("MyTemplate", "TEMP"));
    assert!(template_matches_filter("x", ""));
    assert!(!template_matches_filter("x", "y"));
}

#[test]
fn badges() {
    assert_eq!(
        usage_badge_classes(0, 0),
        ("badge badge-danger have-no-links", "badge badge-danger have-no-links")
    );
    assert_eq!(
        usage_badge_classes(2, 0),
        ("badge badge-success have-links", "badge badge-success empty-links")
    );
    assert_eq!(
        usage_badge_classes(0, 1),
        ("badge badge-success empty-links", "badge badge-success have-links")
    );
}

#[test]
fn domains() {
    assert_eq!(product_domain_name("*.shop.com", "eu"), "eu.shop.com");
    assert_eq!(product_domain_name("", "eu"), "");
    let route = NginxRouteHttpModel {
        path: "/api".to_string(),
        proxy_to: "http://svc".to_string(),
        template: Some("cors".to_string()),
    };
    assert_eq!(route_label(&route), "'/api' -> 'http://svc' + Template: cors");
    let plain = NginxRouteHttpModel { template: None, ..route };
    assert_eq!(route_label(&plain), "'/api' -> 'http://svc' ");
}

#[test]
fn cloud_flare() {
    let record = |tp: &str, content: &str| CfRecordRestApiModel {
        id: "r1".to_string(),
        name: "eu.shop.com".to_string(),
        tp: tp.to_string(),
        content: content.to_string(),
        proxied: false,
    };
    assert!(matches!(cloud_flare_status(Some(&record("A", "1.2.3.4")), "1.2.3.4"), CloudFlareStatus::InOrder));
    match cloud_flare_status(Some(&record("CNAME", "x")), "1.2.3.4") {
        CloudFlareStatus::Problem { message, record_id } => {
            assert_eq!(message, "Must be A-record. Found: CNAME");
            assert_eq!(record_id, Some("r1".to_string()));
        }
        _ => panic!("expected a problem"),
    }
    match cloud_flare_status(Some(&record("A", "5.6.7.8")), "1.2.3.4") {
        CloudFlareStatus::Problem { message, record_id } => {
            assert_eq!(message, "Invalid IP: 5.6.7.8");
            assert_eq!(record_id, Some("r1".to_string()));
        }
        _ => panic!("expected a problem"),
    }
    match cloud_flare_status(None, "1.2.3.4") {
        CloudFlareStatus::Problem { message, record_id } => {
            assert_eq!(message, "No Cloudflare record found");
            assert_eq!(record_id, None);
        }
        _ => panic!("expected a problem"),
    }
}

#[test]
fn proxy_badges() {
    assert_eq!(ca_badge_text(&Some("root".to_string())), "Protected with CA root");
    assert_eq!(ca_badge_text(&None), "No CA");
    assert_eq!(template_badge_text(&Some("t1".to_string())), "Template: t1");
    assert_eq!(template_badge_text(&None), "No global templates");
}

#[test]
fn column_arrows() {
    assert_eq!(order_arrows(OrderBy::Name), ("▲", ""));
    assert_eq!(order_arrows(OrderBy::Updated), ("", "▲"));
}

#[test]
fn picker_search_text_is_lower_cased() {
    assert_eq!(search_filter("DbPass"), "dbpass");
    assert_eq!(search_filter("ÄPI-Key"), "äpi-key");
    assert_eq!(search_filter(""), "");
    assert_eq!(
        choose_secret_candidates(&vec![item("DbPassword")], search_filter("DBP").as_str()),
        vec!["DbPassword".to_string()]
    );
}

#[test]
fn added_secret_level() {
    assert_eq!(add_secret_level("3"), 3);
    assert_eq!(add_secret_level("-1"), -1);
    assert_eq!(add_secret_level("+0"), 0);
}
