use acb::state::{
    close_target, is_pinned, resolve_answer, resolve_start, session_candidates, CliState, Resolve,
};

fn st(last: Option<&str>, pinned: Option<&str>) -> CliState {
    CliState {
        session_id: last.map(String::from),
        pinned_session_id: pinned.map(String::from),
    }
}

/// Run the resolution against a fixed set of live sessions.
fn resolve(flag: Option<&str>, s: &CliState, live: &[&str]) -> Result<String, &'static str> {
    let flag = flag.map(String::from);
    let cands = session_candidates(&flag, s);
    let mut step = resolve_start(cands.len(), flag.is_some());
    loop {
        match step {
            Resolve::Probe(i) => {
                let alive = live.contains(&cands[i].as_str());
                step = resolve_answer(cands.len(), flag.is_some(), i, alive);
            }
            Resolve::Use(i) => return Ok(cands[i].clone()),
            Resolve::FlagNotLive => return Err("not live"),
            Resolve::CreateNew => return Err("create"),
        }
    }
}

#[test]
fn default_state_is_empty() {
    let s = CliState::default();
    assert!(s.session_id.is_none());
    assert!(s.pinned_session_id.is_none());
}

#[test]
fn candidates_order() {
    let s = st(Some("s_last"), Some("s_pin"));
    assert_eq!(session_candidates(&None, &s), vec!["s_pin", "s_last"]);
    assert_eq!(session_candidates(&Some("s_flag".to_string()), &s), vec!["s_flag"]);
    assert!(session_candidates(&None, &CliState::default()).is_empty());
}

#[test]
fn pin_wins_over_last_used() {
    let s = st(Some("s_last"), Some("s_pin"));
    assert_eq!(resolve(None, &s, &["s_pin", "s_last"]), Ok("s_pin".to_string()));
    // A dead pin falls back to the last-used session.
    assert_eq!(resolve(None, &s, &["s_last"]), Ok("s_last".to_string()));
    // Nothing live: a new session is created.
    assert_eq!(resolve(None, &s, &[]), Err("create"));
}

#[test]
fn session_flag_overrides_pin_without_fallback() {
    let s = st(Some("s_last"), Some("s_pin"));
    assert_eq!(resolve(Some("s_flag"), &s, &["s_flag", "s_pin"]), Ok("s_flag".to_string()));
    assert_eq!(resolve(Some("s_does_not_exist"), &s, &["s_pin", "s_last"]), Err("not live"));
}

#[test]
fn resolution_steps() {
    assert_eq!(resolve_start(0, false), Resolve::CreateNew);
    assert_eq!(resolve_start(0, true), Resolve::FlagNotLive);
    assert_eq!(resolve_start(2, false), Resolve::Probe(0));
    assert_eq!(resolve_answer(2, false, 0, false), Resolve::Probe(1));
    assert_eq!(resolve_answer(2, false, 1, true), Resolve::Use(1));
    assert_eq!(resolve_answer(2, false, 1, false), Resolve::CreateNew);
}

#[test]
fn close_prefers_flag_then_pin_then_last() {
    let s = st(Some("s_last"), Some("s_pin"));
    assert_eq!(close_target(&Some("s_x".to_string()), &s), Some("s_x".to_string()));
    assert_eq!(close_target(&None, &s), Some("s_pin".to_string()));
    assert_eq!(close_target(&None, &st(Some("s_last"), None)), Some("s_last".to_string()));
    assert_eq!(close_target(&None, &CliState::default()), None);
}

#[test]
fn forgetting_a_closed_session() {
    let mut s = st(Some("s_a"), Some("s_a"));
    s.forget("s_a");
    assert!(s.session_id.is_none());
    assert!(s.pinned_session_id.is_none());
    let mut s = st(Some("s_a"), Some("s_b"));
    s.forget("s_b");
    assert_eq!(s.session_id.as_deref(), Some("s_a"));
    assert!(s.pinned_session_id.is_none());
    // The closed session is no longer the close target.
    let mut s = st(Some("s_a"), Some("s_b"));
    let target = close_target(&None, &s).unwrap();
    s.forget(&target);
    assert_ne!(close_target(&None, &s), Some(target));
}

#[test]
fn pin_unpin_remember() {
    let mut s = CliState::default();
    s.remember("s_new");
    assert_eq!(s.session_id.as_deref(), Some("s_new"));
    s.pin("s_p");
    assert_eq!(s.pinned_session_id.as_deref(), Some("s_p"));
    assert!(is_pinned("s_p", &s.pinned_session_id));
    assert!(!is_pinned("s_new", &s.pinned_session_id));
    s.unpin();
    assert!(s.pinned_session_id.is_none());
    assert_eq!(s.session_id.as_deref(), Some("s_new"));
    assert!(!is_pinned("s_p", &None));
}
