use acb::api::viewport::{inbox_step, keep_forwarding, ClientMessage, FrameFeed, InboxStep};
use acb::commands::{request_for, session_resource, snapshot_line, BodyValue, SessionCommand};
use acb::events::{now_unix, secs_or_zero};
use acb::events::ActivityEvent;
use acb::reload::{reload_event, touches_policy, ReloadOutcome};
use acb::ui_static::{asset_candidates, ui_response, UiResponse, CSP, PERMISSIONS_POLICY};

#[test]
fn ui_asset_candidates() {
    assert_eq!(asset_candidates("/"), vec!["index.html", "index.html/index.html", "index.html"]);
    assert_eq!(asset_candidates(""), vec!["index.html", "index.html/index.html", "index.html"]);
    assert_eq!(
        asset_candidates("/sessions/"),
        vec!["sessions/", "sessions/index.html", "index.html"]
    );
    assert_eq!(
        asset_candidates("//_next/app.js"),
        vec!["_next/app.js", "_next/app.js/index.html", "index.html"]
    );
    assert!(CSP.contains("frame-ancestors 'none'"));
    assert!(CSP.contains("blob:; connect-src"));
}

#[test]
fn reload_matches_policy_and_signature_names() {
    let names = vec![None, Some("other.yaml".to_string())];
    assert!(!touches_policy(&names, "config.yaml"));
    let names = vec![Some("other".to_string()), Some("config.yaml.sig".to_string())];
    assert!(touches_policy(&names, "config.yaml"));
    assert!(touches_policy(&vec![Some("config.yaml".to_string())], "config.yaml"));
    assert!(!touches_policy(&vec![], "config.yaml"));
}

#[test]
fn viewport_loops() {
    assert_eq!(inbox_step(ClientMessage::Text), InboxStep::Handle);
    assert_eq!(inbox_step(ClientMessage::Ping), InboxStep::Skip);
    assert_eq!(inbox_step(ClientMessage::Binary), InboxStep::Skip);
    assert_eq!(inbox_step(ClientMessage::Close), InboxStep::Stop);
    assert_eq!(inbox_step(ClientMessage::Error), InboxStep::Stop);
    assert!(keep_forwarding(FrameFeed::Lagged));
    assert!(keep_forwarding(FrameFeed::Frame { sent: true }));
    assert!(!keep_forwarding(FrameFeed::Frame { sent: false }));
    assert!(!keep_forwarding(FrameFeed::Closed));
}

#[test]
fn cli_requests() {
    let r = request_for(&SessionCommand::Back, "s_1");
    assert_eq!(r.path, "/sessions/s_1/back");
    assert!(r.body.is_none());
    let r = request_for(&SessionCommand::ReloadPage, "s_1");
    assert_eq!(r.path, "/sessions/s_1/reload");
    let r = request_for(
        &SessionCommand::Fill { reference: "@e3".into(), text: "hello".into() },
        "s_2",
    );
    assert_eq!(r.path, "/sessions/s_2/fill");
    let body = r.body.unwrap();
    assert_eq!(body.len(), 2);
    assert_eq!(body[0].0, "ref");
    assert!(matches!(&body[0].1, BodyValue::Text(t) if t == "@e3"));
    assert_eq!(body[1].0, "text");
    let r = request_for(&SessionCommand::Check { reference: "@e1".into(), checked: true }, "s");
    let body = r.body.unwrap();
    assert!(matches!(body[1].1, BodyValue::Flag(true)));
    let r = request_for(&SessionCommand::Find { kind: "role".into(), query: "button".into() }, "s");
    assert_eq!(r.path, "/sessions/s/find");
    assert_eq!(r.body.unwrap()[0].0, "kind");
    let r = request_for(&SessionCommand::Open { url: "https://github.com/".into() }, "s_9");
    assert_eq!(r.path, "/sessions/s_9/open");
    assert_eq!(session_resource("s_9"), "/sessions/s_9");
}

#[test]
fn clock_is_past_2020() {
    assert!(now_unix() > 1_577_836_800);
}

#[test]
fn ui_serves_first_existing_candidate() {
    let assets = vec!["index.html".to_string(), "sessions/index.html".to_string(), "app.js".to_string()];
    match ui_response("/app.js", &assets) {
        UiResponse::Asset { name, content_type } => {
            assert_eq!(name, "app.js");
            assert!(content_type.contains("javascript"), "{content_type}");
        }
        other => panic!("{other:?}"),
    }
    match ui_response("/sessions/", &assets) {
        UiResponse::Asset { name, content_type } => {
            assert_eq!(name, "sessions/index.html");
            assert_eq!(content_type, "text/html");
        }
        other => panic!("{other:?}"),
    }
    // Client-side routes fall back to the top-level page.
    match ui_response("/some/route", &assets) {
        UiResponse::Asset { name, .. } => assert_eq!(name, "index.html"),
        other => panic!("{other:?}"),
    }
    assert!(matches!(ui_response("/x", &vec![]), UiResponse::NotFound));
    match ui_response("/blob.unknownext", &vec!["blob.unknownext".to_string()]) {
        UiResponse::Asset { content_type, .. } => assert_eq!(content_type, "application/octet-stream"),
        other => panic!("{other:?}"),
    }
    assert!(PERMISSIONS_POLICY.starts_with("geolocation=()"));
}

#[test]
fn reload_reports_outcome() {
    let e = reload_event(
        ReloadOutcome::Loaded { etag: "abc".into(), revision: 4, signer: None },
        10,
    );
    match e {
        ActivityEvent::PolicyReloaded { ts, etag, revision, signer } => {
            assert_eq!((ts, etag.as_str(), revision, signer), (10, "abc", 4, None));
        }
        other => panic!("{other:?}"),
    }
    match reload_event(ReloadOutcome::Failed { error: "bad signature".into() }, 11) {
        ActivityEvent::PolicyReloadFailed { ts, error } => {
            assert_eq!(ts, 11);
            assert_eq!(error, "bad signature");
        }
        other => panic!("{other:?}"),
    }
}

#[test]
fn snapshot_lines_prefer_role() {
    assert_eq!(snapshot_line("@e1", &Some("button".into()), "button", "Sign in"), "@e1 button Sign in");
    assert_eq!(snapshot_line("@e2", &None, "a", "Docs"), "@e2 a Docs");
    assert_eq!(snapshot_line("@e3", &None, "", ""), "@e3  ");
}

#[test]
fn clock_reading_to_timestamp() {
    assert_eq!(secs_or_zero(Some(1_700_000_123)), 1_700_000_123);
    assert_eq!(secs_or_zero(Some(0)), 0);
    assert_eq!(secs_or_zero(None), 0);
}
