use acb::api::actions::plan_collect;
use acb::api::actions::{
    plan_action, plan_find, text_fits, CheckBody, ElementAction, FillBody, FindBody, HelperArg,
    PressBody, RefBody, SelectBody, MAX_TEXT_LEN,
};
use acb::api::admin::{reload_failed, reload_target};
use acb::api::config_route::{rule_kind_name, summarize, PolicyOverview, PolicyRule, RuleKind};
use acb::api::nav::{history_refused, history_target, open_blocked};
use acb::api::sessions::{new_session_id, session_id_for};
use acb::api::ApiError;
use acb::snapshot::ref_table::RefTable;

fn table_with(ids: &[u64]) -> RefTable {
    let mut t = RefTable::new();
    t.next_generation();
    for id in ids {
        t.allocate(*id);
    }
    t
}

fn r(s: &str) -> RefBody {
    RefBody { reference: s.to_string() }
}

#[test]
fn click_resolves_the_ref() {
    let t = table_with(&[41, 42]);
    let call = plan_action(&t, &ElementAction::Click(r("@e2"))).unwrap();
    assert_eq!(call.method, "clickEl");
    assert!(matches!(call.args[..], [HelperArg::Id(42)]));
}

#[test]
fn each_action_calls_its_helper() {
    let t = table_with(&[7]);
    let cases: Vec<(ElementAction, &str)> = vec![
        (ElementAction::Hover(r("@e1")), "hoverEl"),
        (ElementAction::Fill(FillBody { reference: "@e1".into(), text: "hi".into() }), "fillValue"),
        (ElementAction::Type(FillBody { reference: "@e1".into(), text: "hi".into() }), "typeText"),
        (ElementAction::Press(PressBody { reference: "@e1".into(), key: "Enter".into() }), "pressKey"),
        (ElementAction::Select(SelectBody { reference: "@e1".into(), value: "v".into() }), "selectOption"),
        (ElementAction::Check(CheckBody { reference: "@e1".into(), checked: true }), "checkBox"),
    ];
    for (a, m) in cases {
        let call = plan_action(&t, &a).unwrap();
        assert_eq!(call.method, m);
        assert!(matches!(call.args[0], HelperArg::Id(7)));
    }
    let call = plan_action(
        &t,
        &ElementAction::Check(CheckBody { reference: "@e1".into(), checked: false }),
    )
    .unwrap();
    assert!(matches!(call.args[1], HelperArg::Flag(false)));
    let call = plan_action(
        &t,
        &ElementAction::Press(PressBody { reference: "@e1".into(), key: "Enter".into() }),
    )
    .unwrap();
    match &call.args[1] {
        HelperArg::Text(k) => assert_eq!(k, "Enter"),
        _ => panic!("key"),
    }
}

#[test]
fn stale_or_unknown_ref_is_gone() {
    let mut t = table_with(&[1]);
    match plan_action(&t, &ElementAction::Click(r("@e5"))) {
        Err(e) => {
            assert_eq!(e.status(), 410);
            assert_eq!(e.message(), "stale or unknown ref");
        }
        Ok(_) => panic!("unknown ref"),
    }
    t.next_generation();
    assert!(matches!(plan_action(&t, &ElementAction::Click(r("@e1"))), Err(ApiError::Gone(_))));
    assert!(matches!(plan_action(&t, &ElementAction::Click(r("e1"))), Err(ApiError::Gone(_))));
}

#[test]
fn text_over_the_limit_is_refused_first() {
    let t = table_with(&[1]);
    let big = "x".repeat(MAX_TEXT_LEN + 1);
    // Checked before the ref: even a stale ref gets 413.
    match plan_action(&t, &ElementAction::Fill(FillBody { reference: "@e9".into(), text: big.clone() })) {
        Err(e) => {
            assert_eq!(e.status(), 413);
            assert_eq!(e.message(), "text too large");
        }
        Ok(_) => panic!("too large"),
    }
    let exact = "x".repeat(MAX_TEXT_LEN);
    assert!(plan_action(&t, &ElementAction::Type(FillBody { reference: "@e1".into(), text: exact })).is_ok());
    // The limit counts UTF-8 bytes: 2731 three-byte characters are 8193 bytes.
    let wide = "あ".repeat(2731);
    assert!(!text_fits(&wide));
    assert!(text_fits(&"あ".repeat(2730)));
    assert_eq!(MAX_TEXT_LEN, 8192);
}

#[test]
fn find_passes_query_and_classes() {
    let classes = vec!["main".to_string(), "nav".to_string()];
    let call = plan_find(&FindBody::Role { query: "button".into() }, &classes);
    assert_eq!(call.method, "findRole");
    match (&call.args[0], &call.args[1]) {
        (HelperArg::Text(q), HelperArg::Classes(c)) => {
            assert_eq!(q, "button");
            assert_eq!(c, &classes);
        }
        _ => panic!("args"),
    }
    let call = plan_find(&FindBody::Text { query: "Sign in".into() }, &vec![]);
    assert_eq!(call.method, "findText");
}

#[test]
fn error_status_codes() {
    assert_eq!(ApiError::BadRequest(String::new()).status(), 400);
    assert_eq!(ApiError::Forbidden(String::new()).status(), 403);
    assert_eq!(ApiError::NotFound(String::new()).status(), 404);
    assert_eq!(ApiError::Gone(String::new()).status(), 410);
    assert_eq!(ApiError::PayloadTooLarge(String::new()).status(), 413);
    assert_eq!(ApiError::Internal(String::new()).status(), 500);
    assert_eq!(ApiError::BadGateway("x".into()).status(), 502);
    assert_eq!(ApiError::BadGateway("x".into()).message(), "x");
}

#[test]
fn history_steps_stay_in_range() {
    assert_eq!(history_target(2, -1, 5), Some(1));
    assert_eq!(history_target(2, 1, 5), Some(3));
    assert_eq!(history_target(0, -1, 5), None);
    assert_eq!(history_target(4, 1, 5), None);
    assert_eq!(history_target(0, 1, 0), None);
}

#[test]
fn nav_refusals() {
    let e = open_blocked("host not allowed");
    assert_eq!(e.status(), 403);
    assert_eq!(e.message(), "blocked: host not allowed");
    let e = history_refused("https://evil.example/");
    assert_eq!(e.message(), "history entry no longer allowed: https://evil.example/");
}

#[test]
fn admin_reload() {
    assert_eq!(reload_target(&Some("/etc/acb/config.yaml".into())).unwrap(), "/etc/acb/config.yaml");
    let e = reload_target(&None).unwrap_err();
    assert_eq!(e.status(), 500);
    assert_eq!(e.message(), "daemon has no on-disk policy");
    let e = reload_failed("bad yaml");
    assert_eq!(e.status(), 400);
    assert_eq!(e.message(), "reload: bad yaml");
}

#[test]
fn session_ids() {
    assert_eq!(session_id_for(0), "s_00000000000000000000000000000000");
    assert_eq!(session_id_for(0xab), "s_000000000000000000000000000000ab");
    assert_eq!(session_id_for(u128::MAX), "s_ffffffffffffffffffffffffffffffff");
    let id = new_session_id();
    assert_eq!(id.len(), 34);
    assert!(id.starts_with("s_"));
    assert!(id[2..].chars().all(|c| c.is_ascii_hexdigit() && !c.is_ascii_uppercase()));
}

#[test]
fn config_summary_is_redacted() {
    let p = PolicyOverview {
        etag: "e1".into(),
        rules: vec![
            PolicyRule { name: "gh".into(), kind: RuleKind::Fqdn, allowed_classes: vec!["main".into()] },
            PolicyRule { name: "lan".into(), kind: RuleKind::IpCidr, allowed_classes: vec![] },
        ],
        always_block_schemes: vec!["javascript".into()],
        subresources_inherit_page: true,
    };
    let c = summarize(&p, "abcd");
    assert_eq!(c.etag, "e1");
    assert_eq!(c.rules.len(), 2);
    assert_eq!(c.rules[0].name, "gh");
    assert_eq!(c.rules[0].kind, "fqdn");
    assert_eq!(c.rules[0].allowed_classes, vec!["main"]);
    assert_eq!(c.rules[1].kind, "ip_cidr");
    assert_eq!(c.always_block_schemes, vec!["javascript"]);
    assert!(c.subresources_inherit_page);
    assert_eq!(c.helper_sha256, "abcd");
    assert_eq!(rule_kind_name(RuleKind::Regex), "regex");
}

#[test]
fn collect_passes_allowed_classes() {
    let call = plan_collect(&vec!["article".to_string()]);
    assert_eq!(call.method, "collect");
    match &call.args[..] {
        [HelperArg::Classes(c)] => assert_eq!(c, &vec!["article".to_string()]),
        _ => panic!("args"),
    }
}
