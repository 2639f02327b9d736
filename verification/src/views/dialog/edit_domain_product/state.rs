//! The edited values of a product domain, beside the values it was opened
//! with.

use vstd::prelude::*;

use super::EditDomainProductProps;

verus! {

/// The values being edited, and the values the dialog started from.
pub struct EditDomainProductState {
    pub add: bool,
    pub product_name_init: String,
    pub product_name: String,
    pub is_cloud_flare_proxy_init: bool,
    pub is_cloud_flare_proxy: bool,
    pub internal_domain_name_init: String,
    pub internal_domain_name: String,
}

/// The model of [`EditDomainProductState`]: every field as a plain value.
pub struct EditDomainProductView {
    pub add: bool,
    pub product_name_init: Seq<char>,
    pub product_name: Seq<char>,
    pub is_cloud_flare_proxy_init: bool,
    pub is_cloud_flare_proxy: bool,
    pub internal_domain_name_init: Seq<char>,
    pub internal_domain_name: Seq<char>,
}

impl View for EditDomainProductState {
    type V = EditDomainProductView;

    open spec fn view(&self) -> EditDomainProductView {
        EditDomainProductView {
            add: self.add,
            product_name_init: self.product_name_init@,
            product_name: self.product_name@,
            is_cloud_flare_proxy_init: self.is_cloud_flare_proxy_init,
            is_cloud_flare_proxy: self.is_cloud_flare_proxy,
            internal_domain_name_init: self.internal_domain_name_init@,
            internal_domain_name: self.internal_domain_name@,
        }
    }
}

impl EditDomainProductView {
    /// The state may be saved: both names are filled in, and something
    /// differs from the starting values. When adding, only the two names
    /// count as a change; when editing, the proxy setting counts too.
    pub open spec fn savable(self) -> bool {
        &&& self.product_name.len() > 0
        &&& self.internal_domain_name.len() > 0
        &&& if self.add {
            self.product_name_init != self.product_name || self.internal_domain_name_init
                != self.internal_domain_name
        } else {
            self.product_name_init != self.product_name || self.internal_domain_name_init
                != self.internal_domain_name || self.is_cloud_flare_proxy_init
                != self.is_cloud_flare_proxy
        }
    }

    /// The state the dialog opens with for `src`: every edited value equals
    /// its starting value.
    pub open spec fn opened_with(src: EditDomainProductProps) -> EditDomainProductView {
        EditDomainProductView {
            add: src.add,
            product_name_init: src.name@,
            product_name: src.name@,
            is_cloud_flare_proxy_init: src.is_cloud_flare_proxy_pass,
            is_cloud_flare_proxy: src.is_cloud_flare_proxy_pass,
            internal_domain_name_init: src.internal_domain_name@,
            internal_domain_name: src.internal_domain_name@,
        }
    }
}

impl EditDomainProductState {
    /// Starts from the values of `src`.
    pub fn new(src: &EditDomainProductProps) -> (r: Self)
        ensures
            r@ == EditDomainProductView::opened_with(*src),
    {
        Self {
            add: src.add,
            product_name_init: src.name.clone(),
            product_name: src.name.clone(),
            is_cloud_flare_proxy: src.is_cloud_flare_proxy_pass,
            is_cloud_flare_proxy_init: src.is_cloud_flare_proxy_pass,
            internal_domain_name_init: src.internal_domain_name.clone(),
            internal_domain_name: src.internal_domain_name.clone(),
        }
    }

    /// The edited product name.
    pub fn get_product_name(&self) -> (r: &str)
        ensures
            r@ == self@.product_name,
    {
        self.product_name.as_str()
    }

    /// The edited internal domain name.
    pub fn get_internal_domain_name(&self) -> (r: &str)
        ensures
            r@ == self@.internal_domain_name,
    {
        self.internal_domain_name.as_str()
    }

    /// Replaces the edited product name; nothing else changes.
    pub fn set_product_name(&mut self, product_name: &str)
        ensures
            final(self)@ == (EditDomainProductView { product_name: product_name@, ..old(self)@ }),
    {
        self.product_name = String::from_str(product_name);
    }

    /// Replaces the edited internal domain name; nothing else changes.
    pub fn set_internal_domain_name(&mut self, value: &str)
        ensures
            final(self)@ == (EditDomainProductView { internal_domain_name: value@, ..old(self)@ }),
    {
        self.internal_domain_name = String::from_str(value);
    }

    /// Chooses whether Cloudflare proxies the domain; nothing else changes.
    pub fn set_cloud_flare_proxy(&mut self, value: bool)
        ensures
            final(self)@ == (EditDomainProductView { is_cloud_flare_proxy: value, ..old(self)@ }),
    {
        self.is_cloud_flare_proxy = value;
    }

    /// Whether the Save button is enabled.
    pub fn can_be_saved(&self) -> (r: bool)
        ensures
            r == self@.savable(),
    {
        if self.product_name.as_str().is_empty() {
            return false;
        }
        if self.internal_domain_name.as_str().is_empty() {
            return false;
        }
        if self.add {
            self.product_name_init != self.product_name || self.internal_domain_name_init
                != self.internal_domain_name
        } else {
            self.product_name_init != self.product_name || self.internal_domain_name_init
                != self.internal_domain_name || self.is_cloud_flare_proxy_init
                != self.is_cloud_flare_proxy
        }
    }
}

/// Whether the proxy select box value `value` means proxied: exactly when it
/// is `"true"`.
pub fn proxy_from_select(value: &str) -> (r: bool)
    ensures
        r == (value@ == "true"@),
{
    let t = "true";
    proof {
        reveal_strlit("true");
    }
    let cs = crate::text::chars_of(value);
    if cs.len() != 4 {
        assert(value@.len() != "true"@.len());
        return false;
    }
    let r = cs[0] == 't' && cs[1] == 'r' && cs[2] == 'u' && cs[3] == 'e';
    if !r {
        assert(value@ != t@) by {
            if value@ == t@ {
                assert(value@[0] == 't' && value@[1] == 'r' && value@[2] == 'u' && value@[3] == 'e');
            }
        }
    } else {
        assert(value@ =~= t@);
    }
    r
}

/// Without a product name or without an internal domain name the state is
/// never savable.
pub proof fn law_names_required(s: EditDomainProductView)
    requires
        s.product_name.len() == 0 || s.internal_domain_name.len() == 0,
    ensures
        !s.savable(),
{
}

/// With both names filled in, a product name or an internal domain name that
/// differs from its starting value makes the state savable, whether adding
/// or editing.
pub proof fn law_changed_name_is_savable(s: EditDomainProductView)
    requires
        s.product_name.len() > 0,
        s.internal_domain_name.len() > 0,
        s.product_name != s.product_name_init || s.internal_domain_name
            != s.internal_domain_name_init,
    ensures
        s.savable(),
{
}

/// With both names filled in and both equal to their starting values, the
/// state is savable exactly when editing and the proxy setting differs from
/// its starting value.
pub proof fn law_unchanged_names_need_proxy_change(s: EditDomainProductView)
    requires
        s.product_name.len() > 0,
        s.internal_domain_name.len() > 0,
        s.product_name == s.product_name_init,
        s.internal_domain_name == s.internal_domain_name_init,
    ensures
        s.savable() == (!s.add && s.is_cloud_flare_proxy != s.is_cloud_flare_proxy_init),
{
}

/// Editing an opened dialog's internal domain name to another non-empty
/// value makes it savable, whether adding or editing.
pub proof fn law_new_internal_domain_is_savable(src: EditDomainProductProps, value: Seq<char>)
    requires
        src.name@.len() > 0,
        value.len() > 0,
        value != src.internal_domain_name@,
    ensures
        (EditDomainProductView {
            internal_domain_name: value,
            ..EditDomainProductView::opened_with(src)
        }).savable(),
{
}

/// A dialog that has just been opened cannot be saved: nothing has been
/// changed yet.
pub proof fn law_fresh_state_not_savable(src: EditDomainProductProps)
    ensures
        !EditDomainProductView::opened_with(src).savable(),
{
}

/// Once both names are filled in, changing the product name away from its
/// starting value makes the state savable, whether adding or editing.
pub proof fn law_renamed_product_is_savable(s: EditDomainProductView, product_name: Seq<char>)
    requires
        product_name.len() > 0,
        s.internal_domain_name.len() > 0,
        product_name != s.product_name_init,
    ensures
        (EditDomainProductView { product_name: product_name, ..s }).savable(),
{
}

/// When editing, changing only the proxy setting makes the state savable;
/// when adding, it does not.
pub proof fn law_proxy_change_counts_only_when_editing(src: EditDomainProductProps)
    requires
        src.name@.len() > 0,
        src.internal_domain_name@.len() > 0,
    ensures
        (EditDomainProductView {
            is_cloud_flare_proxy: !src.is_cloud_flare_proxy_pass,
            ..EditDomainProductView::opened_with(src)
        }).savable() == !src.add,
{
}

} // verus!
