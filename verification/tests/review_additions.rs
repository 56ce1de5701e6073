use acb::api::nav::{plan_history_entry, plan_open, OpenReq, UrlVerdict};
use acb::api::ApiError;
use acb::browser::screencast::{after_publish, pump_action, pump_event, take_frame, FramePump, PumpAction};
use acb::protect::{current_user, run_after, run_start, RunStep};
use acb::reload::{poll_tick, watch_mode, Stamps, WatchMode, FALLBACK_POLL_MS};
use acb::sign::{bump_revision, current_revision};

#[test]
fn bump_reads_back_without_a_readable_revision() {
    // "7 8" is no number: the bump inserts revision 1, which reads back.
    let (out, n) = bump_revision("revision: 7 8\nrules: []\n");
    assert_eq!(n, 1);
    assert_eq!(current_revision(&out), Some(1));
}

#[test]
fn bump_reads_back_or_not_after_an_unclean_first_line() {
    // The first revision line carries no clean number slot: its number is
    // replaced in place but the line stays unreadable.
    let (out, n) = bump_revision("revision: x\nrevision: 4\n");
    assert_eq!(n, 5);
    assert_eq!(out, "revision: 5x\nrevision: 4\n");
    assert_eq!(current_revision(&out), Some(4));
    // The blanks after the key run into the terminator: the new number
    // joins the next line; a later line may still declare it.
    let (out, n) = bump_revision("revision:\nrevision: 3\nrevision: 4\n");
    assert_eq!(n, 4);
    assert_eq!(out, "revision:\n4revision: 3\nrevision: 4\n");
    assert_eq!(current_revision(&out), Some(4));
}

#[test]
fn watch_modes_and_fallbacks() {
    assert_eq!(watch_mode(250, true, true, true, true), WatchMode::Poll { interval_ms: 250 });
    assert_eq!(watch_mode(0, false, true, true, true), WatchMode::Poll { interval_ms: FALLBACK_POLL_MS });
    assert_eq!(watch_mode(0, true, false, true, true), WatchMode::Poll { interval_ms: 1000 });
    assert_eq!(watch_mode(0, true, true, false, true), WatchMode::Off);
    assert_eq!(watch_mode(0, true, true, true, false), WatchMode::Poll { interval_ms: 1000 });
    assert_eq!(watch_mode(0, true, true, true, true), WatchMode::Directory);
}

#[test]
fn polling_reloads_when_either_time_changes() {
    let mut last = Stamps { policy: Some(1), signature: None };
    assert!(!poll_tick(&mut last, Stamps { policy: Some(1), signature: None }));
    assert!(poll_tick(&mut last, Stamps { policy: Some(1), signature: Some(9) }));
    assert_eq!(last.signature, Some(9));
    assert!(poll_tick(&mut last, Stamps { policy: Some(2), signature: Some(9) }));
    assert!(!poll_tick(&mut last, Stamps { policy: Some(2), signature: Some(9) }));
    assert!(poll_tick(&mut last, Stamps { policy: None, signature: Some(9) }));
}

#[test]
fn commands_stop_at_the_first_failure() {
    assert_eq!(run_start(0), RunStep::Succeeded);
    assert_eq!(run_start(3), RunStep::Launch(0));
    assert_eq!(run_after(3, 0, true), RunStep::Launch(1));
    assert_eq!(run_after(3, 1, false), RunStep::Failed(1));
    assert_eq!(run_after(3, 2, true), RunStep::Succeeded);
}

#[test]
fn owner_falls_back_to_username_then_root() {
    assert_eq!(current_user(&Some("alice".into()), &Some("bob".into())), "alice");
    assert_eq!(current_user(&None, &Some("bob".into())), "bob");
    assert_eq!(current_user(&None, &None), "root");
}

#[test]
fn open_and_history_follow_the_allowlist() {
    let req = OpenReq { url: "https://github.com/".into() };
    let resp = plan_open(&req, &UrlVerdict::Allowed { rule: "github".into() }).unwrap();
    assert_eq!(resp.url, "https://github.com/");
    assert_eq!(resp.rule, "github");
    match plan_open(&req, &UrlVerdict::Blocked { reason: "no rule".into() }) {
        Err(ApiError::Forbidden(m)) => assert_eq!(m, "blocked: no rule"),
        other => panic!("{other:?}"),
    }
    assert_eq!(plan_history_entry(17, "https://github.com/", true).unwrap(), 17);
    let e = plan_history_entry(17, "https://evil.example/", false).unwrap_err();
    assert_eq!(e.status(), 403);
    assert_eq!(e.message(), "history entry no longer allowed: https://evil.example/");
}

#[test]
fn forwarding_loop_newest_frame_wins_and_is_published_when_slot_opens() {
    assert_eq!(pump_action(false, 0, 100), PumpAction::AwaitFrame);
    assert_eq!(pump_action(true, 30, 100), PumpAction::AwaitSlotOrFrame { wait_ms: 70 });
    assert_eq!(pump_action(true, 100, 100), PumpAction::Publish);
    let mut pending = Some(vec![1u8]);
    take_frame(&mut pending, Some(vec![2u8]));
    assert_eq!(pending, Some(vec![2u8]));
    take_frame(&mut pending, None);
    assert_eq!(pending, Some(vec![2u8]));
    let mut last = 5u64;
    after_publish(&mut last, false, 50);
    assert_eq!(last, 5);
    after_publish(&mut last, true, 50);
    assert_eq!(last, 50);
}

fn frame(byte: u8) -> Vec<u8> {
    vec![byte; 5000]
}

#[test]
fn frame_pump_starts_with_the_slot_open() {
    let p = FramePump::new(1000, 100);
    assert_eq!(p.last_sent_ms, 900);
    assert!(p.pending.is_none());
    assert!(p.last_hash.is_none());
    let p = FramePump::new(40, 100);
    assert_eq!(p.last_sent_ms, 40);
}

#[test]
fn frame_pump_forwards_the_newest_frame_once_per_interval() {
    let mut p = FramePump::new(1000, 100);
    // The first frame goes out at once.
    let (out, next) = pump_event(&mut p, 1000, Some(frame(1)));
    assert_eq!(out, Some(frame(1)));
    assert_eq!(next, PumpAction::AwaitFrame);
    assert_eq!(p.last_sent_ms, 1000);
    // A frame within the interval waits for the slot.
    let (out, next) = pump_event(&mut p, 1050, Some(frame(2)));
    assert_eq!(out, None);
    assert_eq!(next, PumpAction::AwaitSlotOrFrame { wait_ms: 50 });
    // A newer one replaces it; the deadline stays.
    let (out, next) = pump_event(&mut p, 1070, Some(frame(3)));
    assert_eq!(out, None);
    assert_eq!(next, PumpAction::AwaitSlotOrFrame { wait_ms: 30 });
    // A frame that did not decode leaves the pending one in place.
    let (out, next) = pump_event(&mut p, 1080, None);
    assert_eq!(out, None);
    assert_eq!(next, PumpAction::AwaitSlotOrFrame { wait_ms: 20 });
    // The slot opens: the newest frame goes out.
    let (out, next) = pump_event(&mut p, 1100, None);
    assert_eq!(out, Some(frame(3)));
    assert_eq!(next, PumpAction::AwaitFrame);
    assert_eq!(p.last_sent_ms, 1100);
    assert!(p.pending.is_none());
    // The same picture again is filtered out and costs no slot.
    let (out, next) = pump_event(&mut p, 1150, Some(frame(3)));
    assert_eq!(out, None);
    assert_eq!(next, PumpAction::AwaitSlotOrFrame { wait_ms: 50 });
    let (out, next) = pump_event(&mut p, 1200, None);
    assert_eq!(out, None);
    assert_eq!(next, PumpAction::AwaitFrame);
    assert_eq!(p.last_sent_ms, 1100);
    // Nothing pending: a wake-up only waits for the next frame.
    let (out, next) = pump_event(&mut p, 1300, None);
    assert_eq!(out, None);
    assert_eq!(next, PumpAction::AwaitFrame);
}
