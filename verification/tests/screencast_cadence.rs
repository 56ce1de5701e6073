use std::time::Duration;

use acb::browser::screencast::{
    claim_start, decode_frame, forward_wait, frame_delay, min_forward_interval, poll_next,
    screencast_format, should_capture, should_publish, CaptureFormat, CaptureMode, PolicyScreencast,
    PollOutcome, ScreencastConfig, StreamFormat, IDLE_AFTER_UNCHANGED, MIN_FRAME_BYTES,
};

fn cfg() -> ScreencastConfig {
    ScreencastConfig {
        active_fps: 10,
        idle_fps: 2,
        ..Default::default()
    }
}

fn delay(c: &ScreencastConfig, streak: u32) -> Duration {
    Duration::from_millis(frame_delay(c, streak))
}

#[test]
fn active_cadence_while_changing() {
    assert_eq!(delay(&cfg(), 0), Duration::from_millis(100));
    assert_eq!(delay(&cfg(), IDLE_AFTER_UNCHANGED - 1), Duration::from_millis(100));
}

#[test]
fn idle_cadence_once_static() {
    assert_eq!(delay(&cfg(), IDLE_AFTER_UNCHANGED), Duration::from_millis(500));
    assert_eq!(delay(&cfg(), 999), Duration::from_millis(500));
}

#[test]
fn from_policy_maps_format_and_derives_idle_fps() {
    let pol = PolicyScreencast {
        format: CaptureFormat::Webp,
        quality: 70,
        max_fps: 8,
    };
    let c = ScreencastConfig::from_policy(&pol);
    assert!(matches!(c.format, CaptureFormat::Webp));
    assert_eq!(c.quality, 70);
    assert_eq!(c.active_fps, 8);
    assert_eq!(c.idle_fps, 2);
}

#[test]
fn from_policy_idle_never_exceeds_active() {
    let pol = PolicyScreencast {
        format: CaptureFormat::Jpeg,
        quality: 60,
        max_fps: 1,
    };
    let c = ScreencastConfig::from_policy(&pol);
    assert_eq!(c.active_fps, 1);
    assert_eq!(c.idle_fps, 1);
}

#[test]
fn capture_mode_parsing() {
    assert_eq!(CaptureMode::parse(None), CaptureMode::Screencast);
    assert_eq!(CaptureMode::parse(Some("")), CaptureMode::Screencast);
    assert_eq!(CaptureMode::parse(Some("screencast")), CaptureMode::Screencast);
    assert_eq!(CaptureMode::parse(Some("poll")), CaptureMode::Poll);
    // Unknown values fall back to the default rather than erroring.
    assert_eq!(CaptureMode::parse(Some("bogus")), CaptureMode::Screencast);
}

#[test]
fn default_config_values() {
    let c = ScreencastConfig::default();
    assert_eq!(c.format, CaptureFormat::Jpeg);
    assert_eq!(c.quality, 60);
    assert_eq!(c.active_fps, 8);
    assert_eq!(c.idle_fps, 2);
    assert_eq!(c.max_width, None);
    assert_eq!(c.max_height, None);
}

#[test]
fn from_policy_zero_fps_is_raised_to_one() {
    let c = ScreencastConfig::from_policy(&PolicyScreencast {
        format: CaptureFormat::Png,
        quality: 0,
        max_fps: 0,
    });
    assert_eq!(c.active_fps, 1);
    assert_eq!(c.idle_fps, 1);
    assert!(c.idle_fps <= c.active_fps);
    // The idle delay is never shorter than the active one.
    assert!(frame_delay(&c, IDLE_AFTER_UNCHANGED) >= frame_delay(&c, 0));
}

#[test]
fn stream_format_and_forward_interval() {
    assert_eq!(screencast_format(CaptureFormat::Png), StreamFormat::Png);
    assert_eq!(screencast_format(CaptureFormat::Jpeg), StreamFormat::Jpeg);
    // Screencast has no WebP; it falls back to JPEG.
    assert_eq!(screencast_format(CaptureFormat::Webp), StreamFormat::Jpeg);
    assert_eq!(min_forward_interval(&cfg()), 100);
    assert_eq!(forward_wait(30, 100), Some(70));
    assert_eq!(forward_wait(100, 100), None);
    assert_eq!(forward_wait(250, 100), None);
}

#[test]
fn screencast_starts_once() {
    let mut started = false;
    assert!(claim_start(&mut started));
    assert!(started);
    assert!(!claim_start(&mut started));
}

#[test]
fn first_frame_always_published_then_deduplicated() {
    let mut last = None;
    let tiny = vec![1u8; 10];
    // The very first frame goes out even when tiny.
    assert!(should_publish(&tiny, &mut last));
    assert!(last.is_some());
    // A later tiny frame is a transient blank and dropped.
    let other_tiny = vec![2u8; 10];
    assert!(!should_publish(&other_tiny, &mut last));
    let big = vec![7u8; MIN_FRAME_BYTES];
    assert!(should_publish(&big, &mut last));
    let h = last;
    // The same frame again is not published.
    assert!(!should_publish(&big, &mut last));
    assert_eq!(last, h);
    let big2 = vec![8u8; MIN_FRAME_BYTES + 1];
    assert!(should_publish(&big2, &mut last));
    assert_ne!(last, h);
}

#[test]
fn poll_cadence_steps() {
    assert_eq!(poll_next(0, PollOutcome::Captured { published: true }), (0, 0));
    assert_eq!(poll_next(4, PollOutcome::Captured { published: true }), (0, 0));
    assert_eq!(poll_next(4, PollOutcome::Captured { published: false }), (5, 0));
    assert_eq!(poll_next(2, PollOutcome::Skipped), (3, 0));
    assert_eq!(poll_next(u32::MAX, PollOutcome::Skipped), (u32::MAX, 0));
    assert_eq!(poll_next(2, PollOutcome::CaptureFailed), (2, 500));
    assert_eq!(poll_next(2, PollOutcome::DecodeFailed), (2, 0));
    assert!(should_capture(true, true));
    assert!(should_capture(false, false));
    assert!(!should_capture(false, true));
}

#[test]
fn frames_are_base64_decoded() {
    assert_eq!(decode_frame("aGVsbG8="), Some(b"hello".to_vec()));
    assert_eq!(decode_frame(""), Some(Vec::new()));
    assert_eq!(decode_frame("not base64!"), None);
}
