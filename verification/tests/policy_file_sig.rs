use acb::policy_file::{revision_accepted, rollback_floor, sig_path};

#[test]
fn policy_file_sig_path_appends_suffix() {
    assert_eq!(sig_path("/etc/acb/config.yaml"), "/etc/acb/config.yaml.sig");
    assert_eq!(sig_path("config.yaml"), "config.yaml.sig");
}

#[test]
fn rollback_guard_applies_only_to_verified_policies_with_a_revision_in_effect() {
    assert_eq!(rollback_floor(true, Some(7)), Some(7));
    assert_eq!(rollback_floor(true, None), None);
    assert_eq!(rollback_floor(false, Some(7)), None);
    assert_eq!(rollback_floor(false, None), None);
}

#[test]
fn rollback_guard_refuses_a_lower_revision() {
    assert!(!revision_accepted(Some(7), 6));
    assert!(revision_accepted(Some(7), 7));
    assert!(revision_accepted(Some(7), 8));
    assert!(revision_accepted(None, 0));
    assert!(!revision_accepted(rollback_floor(true, Some(3)), 2));
    assert!(revision_accepted(rollback_floor(false, Some(3)), 2));
}
