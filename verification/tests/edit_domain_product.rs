use settings_ui::views::dialog::edit_domain_product::state::{proxy_from_select, EditDomainProductState};
use settings_ui::views::dialog::edit_domain_product::EditDomainProductProps;

fn props(add: bool) -> EditDomainProductProps {
    EditDomainProductProps {
        add,
        name: "shop".to_string(),
        is_cloud_flare_proxy_pass: false,
        internal_domain_name: "shop.internal".to_string(),
    }
}

#[test]
fn fresh_dialog_cannot_be_saved() {
    let s = EditDomainProductState::new(&props(true));
    assert_eq!(s.get_product_name(), "shop");
    assert_eq!(s.get_internal_domain_name(), "shop.internal");
    assert!(!s.can_be_saved());
    let s = EditDomainProductState::new(&props(false));
    assert!(!s.can_be_saved());
}

#[test]
fn renaming_makes_it_savable() {
    let mut s = EditDomainProductState::new(&props(true));
    s.set_product_name("store");
    assert_eq!(s.product_name, "store");
    assert!(s.can_be_saved());
    s.set_product_name("shop");
    assert!(!s.can_be_saved());
    s.set_internal_domain_name("store.internal");
    assert!(s.can_be_saved());
}

#[test]
fn empty_names_cannot_be_saved() {
    let mut s = EditDomainProductState::new(&props(false));
    s.set_product_name("");
    assert!(!s.can_be_saved());
    s.set_product_name("store");
    s.set_internal_domain_name("");
    assert!(!s.can_be_saved());
}

#[test]
fn proxy_change_counts_only_when_editing() {
    let mut editing = EditDomainProductState::new(&props(false));
    editing.is_cloud_flare_proxy = true;
    assert!(editing.can_be_saved());
    let mut adding = EditDomainProductState::new(&props(true));
    adding.is_cloud_flare_proxy = true;
    assert!(!adding.can_be_saved());
}

#[test]
fn proxy_setter_counts_only_when_editing() {
    let mut editing = EditDomainProductState::new(&props(false));
    editing.set_cloud_flare_proxy(true);
    assert!(editing.is_cloud_flare_proxy);
    assert!(editing.can_be_saved());
    editing.set_cloud_flare_proxy(false);
    assert!(!editing.can_be_saved());
    let mut adding = EditDomainProductState::new(&props(true));
    adding.set_cloud_flare_proxy(true);
    assert!(!adding.can_be_saved());
}

#[test]
fn proxy_select_value() {
    assert!(proxy_from_select("true"));
    assert!(!proxy_from_select("false"));
    assert!(!proxy_from_select("True"));
    assert!(!proxy_from_select("true "));
    assert!(!proxy_from_select(""));
}

#[test]
fn fields_read_back_as_written() {
    let mut s = EditDomainProductState::new(&props(false));
    s.product_name = "renamed".to_string();
    assert_eq!(s.get_product_name(), "renamed");
    s.set_cloud_flare_proxy(proxy_from_select("true"));
    assert!(s.is_cloud_flare_proxy);
    assert!(!s.add);
}
