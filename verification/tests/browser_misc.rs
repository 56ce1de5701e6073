use acb::browser::injected::{helper_sha256, hex_lower, ACB_WORLD};
use acb::browser::interceptor::{
    classify, intercept_settings, kind_name, on_paused, popup_verdict, DownloadBehavior,
    InterceptStage, PausedAction, PopupVerdict, RequestDecision, RequestKind,
};
use acb::browser::launch::hardening_flags;

#[test]
fn helper_fingerprint_is_sha256_hex() {
    assert_eq!(
        helper_sha256(""),
        "e3b0c44298fc1c149afbf4c8996fb92427ae41e4649b934ca495991b7852b855"
    );
    assert_eq!(
        helper_sha256("abc"),
        "ba7816bf8f01cfea414140de5dae2223b00361a396177a9cb410ff61f20015ad"
    );
    assert_eq!(helper_sha256("window.__acb = {};").len(), 64);
    assert_eq!(ACB_WORLD, "acb_world");
}

#[test]
fn hex_is_lowercase_two_digits_per_byte() {
    assert_eq!(hex_lower(&vec![0x00, 0x0f, 0xa0, 0xff]), "000fa0ff");
    assert_eq!(hex_lower(&vec![]), "");
}

#[test]
fn documents_are_top_level() {
    assert_eq!(classify(true), RequestKind::TopLevelDocument);
    assert_eq!(classify(false), RequestKind::Subresource);
    assert_eq!(kind_name(RequestKind::Subresource), "Subresource");
}

#[test]
fn paused_requests() {
    let rule = Some("github".to_string());
    match on_paused(RequestKind::TopLevelDocument, &RequestDecision::Allow, &rule) {
        PausedAction::Continue { announce } => assert_eq!(announce.as_deref(), Some("github")),
        _ => panic!("allowed"),
    }
    // Allowed by the request policy but not by the allowlist: not announced.
    assert!(matches!(
        on_paused(RequestKind::TopLevelDocument, &RequestDecision::Allow, &None),
        PausedAction::Continue { announce: None }
    ));
    assert!(matches!(
        on_paused(RequestKind::Subresource, &RequestDecision::Allow, &rule),
        PausedAction::Continue { announce: None }
    ));
    match on_paused(RequestKind::Subresource, &RequestDecision::Block("scheme".into()), &None) {
        PausedAction::Fail { reason, kind } => {
            assert_eq!(reason, "scheme");
            assert_eq!(kind, "Subresource");
        }
        _ => panic!("blocked"),
    }
}

#[test]
fn interceptor_session_settings() {
    let s = intercept_settings();
    assert!(s.bypass_service_workers);
    assert_eq!(s.downloads, DownloadBehavior::Deny);
    assert_eq!(s.url_pattern, "*");
    assert_eq!(s.stage, InterceptStage::Request);
    assert!(!s.handle_auth_requests);
}

#[test]
fn popups() {
    assert_eq!(popup_verdict("page", true, false), PopupVerdict::Close);
    assert_eq!(popup_verdict("page", true, true), PopupVerdict::Keep);
    assert_eq!(popup_verdict("page", false, false), PopupVerdict::Ignore);
    assert_eq!(popup_verdict("service_worker", true, false), PopupVerdict::Ignore);
}

#[test]
fn launch_flags() {
    let f = hardening_flags();
    assert_eq!(f.len(), 8);
    assert!(f.contains(&"no-sandbox"));
    assert!(f[0].contains("BackForwardCache"));
    assert!(f.iter().all(|a| !a.starts_with("--")));
}
