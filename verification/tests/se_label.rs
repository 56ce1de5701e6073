use acb::se::{keychain_label, DEFAULT_LABEL};

#[test]
fn keychain_label_is_namespaced() {
    assert_eq!(
        keychain_label("acb-policy"),
        "access-control-browser policy signing key: acb-policy"
    );
}

#[test]
fn keychain_label_of_default_and_empty_names() {
    assert_eq!(
        keychain_label(DEFAULT_LABEL),
        "access-control-browser policy signing key: acb-policy"
    );
    assert_eq!(keychain_label(""), "access-control-browser policy signing key: ");
}
