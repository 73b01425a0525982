//! The public modules link from outside the crate.

#[test]
fn public_modules_are_linkable() {
    let _ = knocks::md::render_markdown("x");
    let _ = knocks::console::split_error_codes("x");
    let _ = knocks::api::error_message_from_body(500, "");
}

#[test]
fn list_component_compiles_on_host() {
    // The list's filtering lives in `progress`; its labels are here.
    assert_eq!(knocks::session::STATUS_FILTERS.len(), 4);
}

#[test]
fn app_crate_compiles_on_host() {
    assert_eq!(knocks::mobile::MobilePane::ALL.len(), 3);
}
