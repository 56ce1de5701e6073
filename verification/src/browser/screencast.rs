//! Live viewport frame producer: the decisions of the two capture backends.
//!
//! * "screencast" (default): Chromium pushes a frame on every composite;
//!   frames are forwarded at most at `active_fps` (newest wins).
//! * "poll": periodic screenshots, deduplicated by hash, with a cadence that
//!   slows from `active_fps` to `idle_fps` once the page is static.
//!
//! Both feed the same filter: transient blanks are dropped (but never the
//! very first frame) and a frame identical to the last published one is not
//! published again.

use vstd::prelude::*;

use crate::text::str_eq;

verus! {

/// After this many consecutive byte-identical frames the poll backend treats
/// the page as static and slows the capture cadence to `idle_fps`.
pub const IDLE_AFTER_UNCHANGED: u32 = 3;

/// Frames smaller than this are treated as compositor-transient blanks and
/// dropped (except the very first frame).
pub const MIN_FRAME_BYTES: usize = 4000;

#[derive(Debug, Clone, Copy, PartialEq, Eq)]
pub enum CaptureMode {
    Screencast,
    Poll,
}

impl CaptureMode {
    /// Parse a capture-mode string (`ACB_CAPTURE_MODE`). An unrecognized
    /// value falls back to the default rather than refusing to serve the
    /// viewport.
    pub fn parse(v: Option<&str>) -> (m: CaptureMode)
        ensures
            m == (if v is Some && v->0@ == "poll"@ {
                CaptureMode::Poll
            } else {
                CaptureMode::Screencast
            }),
    {
        match v {
            Some(s) => if str_eq(s, "poll") {
                CaptureMode::Poll
            } else {
                CaptureMode::Screencast
            },
            None => CaptureMode::Screencast,
        }
    }
}

/// Image format of captured frames.
#[derive(Debug, Clone, Copy, PartialEq, Eq)]
pub enum CaptureFormat {
    Jpeg,
    Png,
    Webp,
}

/// The `chromium.screencast` block of the operator's policy.
#[derive(Debug, Clone, Copy)]
pub struct PolicyScreencast {
    pub format: CaptureFormat,
    pub quality: u8,
    pub max_fps: u8,
}

#[derive(Debug, Clone)]
pub struct ScreencastConfig {
    pub format: CaptureFormat,
    pub quality: i64,
    /// Poll: capture rate while the page is repainting. Screencast: an upper
    /// bound on how often frames are forwarded.
    pub active_fps: u8,
    /// Poll only: capture rate once the page has gone visually static.
    pub idle_fps: u8,
    pub max_width: Option<i64>,
    pub max_height: Option<i64>,
}

impl Default for ScreencastConfig {
    fn default() -> (c: Self)
        ensures
            c.format == CaptureFormat::Jpeg,
            c.quality == 60,
            c.active_fps == 8,
            c.idle_fps == 2,
            c.max_width is None,
            c.max_height is None,
    {
        ScreencastConfig {
            format: CaptureFormat::Jpeg,
            quality: 60,
            active_fps: 8,
            idle_fps: 2,
            max_width: None,
            max_height: None,
        }
    }
}

impl ScreencastConfig {
    /// Build from the operator's `chromium.screencast` block so the live
    /// viewport honours the configured format / quality / fps. The active
    /// rate is at least 1 fps; the idle rate never exceeds it and is capped
    /// at 2 fps.
    pub fn from_policy(c: &PolicyScreencast) -> (r: Self)
        ensures
            r.format == c.format,
            r.quality == c.quality as i64,
            r.active_fps == (if c.max_fps >= 1 {
                c.max_fps
            } else {
                1
            }),
            r.idle_fps == (if r.active_fps <= 2 {
                r.active_fps
            } else {
                2
            }),
            r.max_width is None,
            r.max_height is None,
    {
        let active_fps = if c.max_fps >= 1 {
            c.max_fps
        } else {
            1
        };
        ScreencastConfig {
            format: c.format,
            quality: c.quality as i64,
            active_fps,
            idle_fps: if active_fps <= 2 {
                active_fps
            } else {
                2
            },
            max_width: None,
            max_height: None,
        }
    }
}

/// A configuration derived from the policy never idles faster than it
/// ticks when active, and never stops ticking.
pub proof fn law_from_policy_idle_not_faster(c: PolicyScreencast, r: ScreencastConfig)
    requires
        r.format == c.format,
        r.active_fps == (if c.max_fps >= 1 {
            c.max_fps
        } else {
            1
        }),
        r.idle_fps == (if r.active_fps <= 2 {
            r.active_fps
        } else {
            2
        }),
    ensures
        1 <= r.idle_fps <= r.active_fps,
        r.idle_fps <= 2,
{
}

/// Milliseconds between frames at `fps` (a rate of 0 counts as 1).
pub open spec fn delay_ms(fps: u8) -> u64 {
    (1000u64 / (if fps >= 1 {
        fps
    } else {
        1
    }) as u64) as u64
}

/// Poll cadence, in milliseconds, given how many identical frames were seen
/// in a row: the active rate while changing, the idle rate once static.
pub fn frame_delay(cfg: &ScreencastConfig, unchanged_streak: u32) -> (ms: u64)
    ensures
        ms == delay_ms(
            if unchanged_streak >= IDLE_AFTER_UNCHANGED {
                cfg.idle_fps
            } else {
                cfg.active_fps
            },
        ),
{
    let fps = if unchanged_streak >= IDLE_AFTER_UNCHANGED {
        cfg.idle_fps
    } else {
        cfg.active_fps
    };
    let f = if fps >= 1 {
        fps
    } else {
        1
    };
    1000u64 / (f as u64)
}

/// A static page is polled no more often than a changing one, when the idle
/// rate does not exceed the active rate.
pub proof fn law_idle_delay_not_shorter(cfg: ScreencastConfig)
    requires
        1 <= cfg.idle_fps <= cfg.active_fps,
    ensures
        delay_ms(cfg.idle_fps) >= delay_ms(cfg.active_fps),
{
    let a = cfg.active_fps as u64;
    let b = cfg.idle_fps as u64;
    assert(1000u64 / b >= 1000u64 / a) by (nonlinear_arith)
        requires
            1 <= b <= a,
    ;
}

/// Formats the event-driven backend can encode.
#[derive(Debug, Clone, Copy, PartialEq, Eq)]
pub enum StreamFormat {
    Jpeg,
    Png,
}

/// The screencast backend cannot encode WebP; it falls back to JPEG.
pub fn screencast_format(f: CaptureFormat) -> (r: StreamFormat)
    ensures
        r == (if f == CaptureFormat::Png {
            StreamFormat::Png
        } else {
            StreamFormat::Jpeg
        }),
{
    match f {
        CaptureFormat::Png => StreamFormat::Png,
        _ => StreamFormat::Jpeg,
    }
}

/// The event-driven backend forwards at most one frame per this many
/// milliseconds.
pub fn min_forward_interval(cfg: &ScreencastConfig) -> (ms: u64)
    ensures
        ms == delay_ms(cfg.active_fps),
{
    let f = if cfg.active_fps >= 1 {
        cfg.active_fps
    } else {
        1
    };
    1000u64 / (f as u64)
}

/// Trailing-edge rate limiter: with a frame pending, `since_ms` after the
/// last forward, either wait this long (keeping newer frames) or forward now.
pub fn forward_wait(since_ms: u64, min_interval_ms: u64) -> (w: Option<u64>)
    ensures
        since_ms < min_interval_ms ==> w == Some((min_interval_ms - since_ms) as u64),
        since_ms >= min_interval_ms ==> w is None,
{
    if since_ms < min_interval_ms {
        Some(min_interval_ms - since_ms)
    } else {
        None
    }
}

/// Start the pump only once per session: returns whether this call claimed
/// the start.
pub fn claim_start(started: &mut bool) -> (first: bool)
    ensures
        first == !*old(started),
        *final(started),
{
    if *started {
        false
    } else {
        *started = true;
        true
    }
}

/// The 64-bit XXH3 hash of `data` (as computed by `xxhash_rust`).
pub uninterp spec fn xxh3_64_of(data: Seq<u8>) -> u64;

/// `xxhash_rust::xxh3::xxh3_64`: the 64-bit XXH3 hash of `data`. A pure
/// function of the bytes; which value it takes is not stated.
#[verifier::external_body]
fn xxh3_64(data: &[u8]) -> (h: u64)
    ensures
        h == xxh3_64_of(data@),
{
    xxhash_rust::xxh3::xxh3_64(data)
}

/// The frame filter: whether a frame is published, and the hash of the
/// last published frame afterwards.
pub open spec fn frame_step(data: Seq<u8>, last: Option<u64>) -> (bool, Option<u64>) {
    if data.len() < MIN_FRAME_BYTES && last is Some {
        (false, last)
    } else if last == Some(xxh3_64_of(data)) {
        (false, last)
    } else {
        (true, Some(xxh3_64_of(data)))
    }
}

/// Apply the blank filter and the hash dedupe to a frame. Returns whether
/// the frame should be published (cached and broadcast); `last_hash` then
/// holds its hash.
pub fn should_publish(data: &[u8], last_hash: &mut Option<u64>) -> (publish: bool)
    ensures
        (publish, *final(last_hash)) == frame_step(data@, *old(last_hash)),
{
    if data.len() < MIN_FRAME_BYTES && last_hash.is_some() {
        return false;
    }
    let hash = xxh3_64(data);
    match *last_hash {
        Some(h) => if h == hash {
            return false;
        },
        None => {},
    }
    *last_hash = Some(hash);
    true
}

/// The first frame is always published (a legitimately tiny static page
/// would otherwise stay blank), and a frame is never published twice in a
/// row.
pub proof fn law_frame_filter(data: Seq<u8>, last: Option<u64>)
    ensures
        frame_step(data, None).0,
        frame_step(data, None).1 == Some(xxh3_64_of(data)),
        frame_step(data, last).0 ==> !frame_step(data, frame_step(data, last).1).0,
{
}

/// What a poll tick turned out to be.
pub enum PollOutcome {
    /// Nobody watches and a frame is cached: capture skipped.
    Skipped,
    /// The screenshot call failed.
    CaptureFailed,
    /// The screenshot could not be decoded.
    DecodeFailed,
    /// A frame was captured; `published` says whether the filter let it through.
    Captured { published: bool },
}

/// Whether a poll tick captures at all: only when someone watches or no
/// frame is cached yet.
pub fn should_capture(any_subscribers: bool, has_cached_frame: bool) -> (b: bool)
    ensures
        b == (any_subscribers || !has_cached_frame),
{
    any_subscribers || !has_cached_frame
}

/// The poll backend's next unchanged-streak, and how long to back off
/// before the next tick, after a tick with `outcome`. Unchanged or skipped
/// frames stretch the cadence toward idle; a published frame resets it; a
/// failed capture backs off for half a second.
pub fn poll_next(streak: u32, outcome: PollOutcome) -> (r: (u32, u64))
    ensures
        r == (match outcome {
            PollOutcome::Skipped => (if streak < u32::MAX {
                (streak + 1) as u32
            } else {
                streak
            }, 0u64),
            PollOutcome::CaptureFailed => (streak, 500u64),
            PollOutcome::DecodeFailed => (streak, 0u64),
            PollOutcome::Captured { published } => (if published {
                0u32
            } else if streak < u32::MAX {
                (streak + 1) as u32
            } else {
                streak
            }, 0u64),
        }),
{
    match outcome {
        PollOutcome::Skipped => (streak.saturating_add(1), 0),
        PollOutcome::CaptureFailed => (streak, 500),
        PollOutcome::DecodeFailed => (streak, 0),
        PollOutcome::Captured { published } => if published {
            (0, 0)
        } else {
            (streak.saturating_add(1), 0)
        },
    }
}

/// The bytes that standard base64 (`base64::engine::general_purpose::STANDARD`)
/// decodes `text` to, or `None` when it is not valid standard base64.
pub uninterp spec fn base64_standard_decoded(text: Seq<char>) -> Option<Seq<u8>>;

/// `base64::Engine::decode` with the standard engine. A pure function of
/// the text; what it decodes to is named, not stated.
#[verifier::external_body]
fn base64_decode(text: &str) -> (r: Option<Vec<u8>>)
    ensures
        match r {
            Some(v) => base64_standard_decoded(text@) == Some(v@),
            None => base64_standard_decoded(text@) is None,
        },
{
    base64::Engine::decode(&base64::engine::general_purpose::STANDARD, text).ok()
}

/// Decode a frame's base64 payload; `None` when it is not valid base64 (the
/// frame is then dropped).
pub fn decode_frame(data: &str) -> (r: Option<Vec<u8>>)
    ensures
        match r {
            Some(v) => base64_standard_decoded(data@) == Some(v@),
            None => base64_standard_decoded(data@) is None,
        },
{
    base64_decode(data)
}

} // verus!

verus! {

/// What the event-driven forwarding loop does next.
#[derive(Debug, Clone, Copy, PartialEq, Eq)]
pub enum PumpAction {
    /// Nothing is pending: wait for the next frame.
    AwaitFrame,
    /// A frame is pending but the forwarding slot is not open yet: wait
    /// this long, or until a newer frame arrives, whichever comes first.
    AwaitSlotOrFrame { wait_ms: u64 },
    /// The slot is open: publish the pending frame now.
    Publish,
}

/// The loop's next action, `since_ms` after the last published frame.
pub open spec fn pump_step(has_pending: bool, since_ms: u64, min_interval_ms: u64) -> PumpAction {
    if !has_pending {
        PumpAction::AwaitFrame
    } else if since_ms < min_interval_ms {
        PumpAction::AwaitSlotOrFrame { wait_ms: (min_interval_ms - since_ms) as u64 }
    } else {
        PumpAction::Publish
    }
}

/// The forwarding loop's next action (see [`pump_step`]): frames are
/// published at most once per `min_interval_ms`.
pub fn pump_action(has_pending: bool, since_ms: u64, min_interval_ms: u64) -> (a: PumpAction)
    ensures
        a == pump_step(has_pending, since_ms, min_interval_ms),
{
    if !has_pending {
        return PumpAction::AwaitFrame;
    }
    match forward_wait(since_ms, min_interval_ms) {
        Some(w) => PumpAction::AwaitSlotOrFrame { wait_ms: w },
        None => PumpAction::Publish,
    }
}

pub open spec fn opt_bytes(o: Option<Vec<u8>>) -> Option<Seq<u8>> {
    match o {
        Some(v) => Some(v@),
        None => None,
    }
}

/// A frame arrived while `pending` waits: the newest decoded frame wins; a
/// frame that could not be decoded leaves the pending one in place.
pub fn take_frame(pending: &mut Option<Vec<u8>>, decoded: Option<Vec<u8>>)
    ensures
        opt_bytes(*final(pending)) == (match decoded {
            Some(v) => Some(v@),
            None => opt_bytes(*old(pending)),
        }),
{
    match decoded {
        Some(v) => {
            *pending = Some(v);
        },
        None => {},
    }
}

/// After a publish attempt at `now_ms`: the forwarding slot restarts only
/// when the frame was actually published (a filtered frame costs no slot).
pub fn after_publish(last_sent_ms: &mut u64, published: bool, now_ms: u64)
    ensures
        *final(last_sent_ms) == (if published {
            now_ms
        } else {
            *old(last_sent_ms)
        }),
{
    if published {
        *last_sent_ms = now_ms;
    }
}

/// The forwarding loop never drops the last frame of a burst and never
/// publishes faster than the interval: with a frame pending, it waits
/// exactly until the slot opens and then publishes; it publishes only once
/// the interval has passed.
pub proof fn law_pending_frame_is_published_when_slot_opens(since_ms: u64, min_interval_ms: u64)
    ensures
        since_ms < min_interval_ms ==> (pump_step(true, since_ms, min_interval_ms)
            == PumpAction::AwaitSlotOrFrame { wait_ms: (min_interval_ms - since_ms) as u64 }
            && pump_step(true, (since_ms + (min_interval_ms - since_ms)) as u64, min_interval_ms)
            == PumpAction::Publish),
        pump_step(true, since_ms, min_interval_ms) == PumpAction::Publish ==> since_ms
            >= min_interval_ms,
{
}

} // verus!

verus! {

/// What the event-driven forwarding loop remembers between events: the
/// newest decoded frame not yet handed to the filter, when a frame was last
/// published, the hash of the last published frame, and the interval.
pub struct PumpModel {
    pub pending: Option<Seq<u8>>,
    pub last_sent_ms: u64,
    pub last_hash: Option<u64>,
    pub min_interval_ms: u64,
}

/// The state of the event-driven forwarding loop (see [`PumpModel`]).
pub struct FramePump {
    pub pending: Option<Vec<u8>>,
    pub last_sent_ms: u64,
    pub last_hash: Option<u64>,
    pub min_interval_ms: u64,
}

impl View for FramePump {
    type V = PumpModel;

    open spec fn view(&self) -> PumpModel {
        PumpModel {
            pending: opt_bytes(self.pending),
            last_sent_ms: self.last_sent_ms,
            last_hash: self.last_hash,
            min_interval_ms: self.min_interval_ms,
        }
    }
}

/// What the loop does with one event: the state afterwards, the frame it
/// hands to the filter (once the slot is open), whether the filter
/// publishes it, and what it waits for next.
pub struct PumpOutcome {
    pub state: PumpModel,
    pub offered: Option<Seq<u8>>,
    pub published: bool,
    pub next: PumpAction,
}

/// The loop's reaction to an event at `now` that carries `decoded` (the
/// decoded frame; `None` for a wake-up or a frame that did not decode): the
/// newest decoded frame becomes the pending one; with the slot open it goes
/// to the filter, and the slot restarts only if the filter publishes it;
/// with the slot closed the loop waits until it opens, or for a newer frame.
pub open spec fn pump_next(s: PumpModel, now: u64, decoded: Option<Seq<u8>>) -> PumpOutcome {
    let pending = match decoded {
        Some(d) => Some(d),
        None => s.pending,
    };
    match pending {
        None => PumpOutcome {
            state: PumpModel {
                pending: None,
                last_sent_ms: s.last_sent_ms,
                last_hash: s.last_hash,
                min_interval_ms: s.min_interval_ms,
            },
            offered: None,
            published: false,
            next: PumpAction::AwaitFrame,
        },
        Some(f) => if now - s.last_sent_ms < s.min_interval_ms {
            PumpOutcome {
                state: PumpModel {
                    pending: Some(f),
                    last_sent_ms: s.last_sent_ms,
                    last_hash: s.last_hash,
                    min_interval_ms: s.min_interval_ms,
                },
                offered: None,
                published: false,
                next: PumpAction::AwaitSlotOrFrame {
                    wait_ms: (s.min_interval_ms - (now - s.last_sent_ms)) as u64,
                },
            }
        } else {
            PumpOutcome {
                state: PumpModel {
                    pending: None,
                    last_sent_ms: if frame_step(f, s.last_hash).0 {
                        now
                    } else {
                        s.last_sent_ms
                    },
                    last_hash: frame_step(f, s.last_hash).1,
                    min_interval_ms: s.min_interval_ms,
                },
                offered: Some(f),
                published: frame_step(f, s.last_hash).0,
                next: PumpAction::AwaitFrame,
            }
        },
    }
}

impl FramePump {
    /// The loop as it starts at `now_ms`: nothing pending, nothing published
    /// yet, and the slot already open (the last publish is placed one
    /// interval back, or at `now_ms` when that would go below zero).
    pub fn new(now_ms: u64, min_interval_ms: u64) -> (p: FramePump)
        ensures
            p@ == (PumpModel {
                pending: None,
                last_sent_ms: if now_ms >= min_interval_ms {
                    (now_ms - min_interval_ms) as u64
                } else {
                    now_ms
                },
                last_hash: None,
                min_interval_ms,
            }),
    {
        let last = match now_ms.checked_sub(min_interval_ms) {
            Some(t) => t,
            None => now_ms,
        };
        FramePump { pending: None, last_sent_ms: last, last_hash: None, min_interval_ms }
    }
}

/// The loop's reaction to an event at `now_ms` (see [`pump_next`]). The
/// frame handed back is to be cached and broadcast: it is the offered frame
/// when the filter publishes it. Every frame is acknowledged before it is
/// decoded and handed here.
pub fn pump_event(pump: &mut FramePump, now_ms: u64, decoded: Option<Vec<u8>>) -> (r: (
    Option<Vec<u8>>,
    PumpAction,
))
    requires
        old(pump).last_sent_ms <= now_ms,
    ensures
        final(pump)@ == pump_next(old(pump)@, now_ms, opt_bytes(decoded)).state,
        opt_bytes(r.0) == (if pump_next(old(pump)@, now_ms, opt_bytes(decoded)).published {
            pump_next(old(pump)@, now_ms, opt_bytes(decoded)).offered
        } else {
            None
        }),
        r.1 == pump_next(old(pump)@, now_ms, opt_bytes(decoded)).next,
{
    take_frame(&mut pump.pending, decoded);
    let since = now_ms - pump.last_sent_ms;
    let has = pump.pending.is_some();
    match pump_action(has, since, pump.min_interval_ms) {
        PumpAction::AwaitFrame => (None, PumpAction::AwaitFrame),
        PumpAction::AwaitSlotOrFrame { wait_ms } => (None, PumpAction::AwaitSlotOrFrame { wait_ms }),
        PumpAction::Publish => {
            match pump.pending.take() {
                Some(bytes) => {
                    let published = should_publish(bytes.as_slice(), &mut pump.last_hash);
                    after_publish(&mut pump.last_sent_ms, published, now_ms);
                    if published {
                        (Some(bytes), PumpAction::AwaitFrame)
                    } else {
                        (None, PumpAction::AwaitFrame)
                    }
                },
                None => (None, PumpAction::AwaitFrame),
            }
        },
    }
}

} // verus!

verus! {

/// An event of the forwarding loop: when it happened, and the decoded frame
/// it brought (`None` for a wake-up or a frame that did not decode).
pub struct PumpEvent {
    pub now_ms: u64,
    pub decoded: Option<Seq<u8>>,
}

/// The loop's state after the first `k` events of `evs`, from `s0`.
pub open spec fn state_after(s0: PumpModel, evs: Seq<PumpEvent>, k: nat) -> PumpModel
    decreases k,
{
    if k == 0 {
        s0
    } else {
        pump_next(
            state_after(s0, evs, (k - 1) as nat),
            evs[k - 1].now_ms,
            evs[k - 1].decoded,
        ).state
    }
}

/// What the loop does with the `k`-th event of `evs`.
pub open spec fn outcome_at(s0: PumpModel, evs: Seq<PumpEvent>, k: int) -> PumpOutcome {
    pump_next(state_after(s0, evs, k as nat), evs[k].now_ms, evs[k].decoded)
}

/// The events come in time order, none before the last publish of `s0`.
pub open spec fn in_time_order(s0: PumpModel, evs: Seq<PumpEvent>) -> bool {
    &&& forall|i: int, j: int|
        0 <= i <= j < evs.len() ==> (#[trigger] evs[i]).now_ms <= (#[trigger] evs[j]).now_ms
    &&& evs.len() > 0 ==> s0.last_sent_ms <= evs[0].now_ms
}

/// The loop is woken no later than it asked to be: after waiting for its
/// slot, the next event comes before the wait is over.
pub open spec fn wakes_on_time(s0: PumpModel, evs: Seq<PumpEvent>) -> bool {
    forall|k: int|
        0 <= k < evs.len() - 1 ==> match #[trigger] outcome_at(s0, evs, k).next {
            PumpAction::AwaitSlotOrFrame { wait_ms } => evs[k + 1].now_ms <= evs[k].now_ms
                + wait_ms,
            _ => true,
        }
}

proof fn lemma_run_times(s0: PumpModel, evs: Seq<PumpEvent>, k: nat)
    requires
        in_time_order(s0, evs),
        k <= evs.len(),
    ensures
        state_after(s0, evs, k).min_interval_ms == s0.min_interval_ms,
        s0.last_sent_ms <= state_after(s0, evs, k).last_sent_ms,
        k < evs.len() ==> state_after(s0, evs, k).last_sent_ms <= evs[k as int].now_ms,
        k > 0 ==> state_after(s0, evs, k).last_sent_ms <= evs[k - 1].now_ms,
    decreases k,
{
    if k > 0 {
        lemma_run_times(s0, evs, (k - 1) as nat);
        if k < evs.len() {
            assert(evs[k - 1].now_ms <= evs[k as int].now_ms);
        }
    }
}

proof fn lemma_last_sent_grows(s0: PumpModel, evs: Seq<PumpEvent>, a: nat, b: nat)
    requires
        in_time_order(s0, evs),
        a <= b <= evs.len(),
    ensures
        state_after(s0, evs, a).last_sent_ms <= state_after(s0, evs, b).last_sent_ms,
    decreases b - a,
{
    if a < b {
        lemma_last_sent_grows(s0, evs, a, (b - 1) as nat);
        lemma_run_times(s0, evs, (b - 1) as nat);
    }
}

/// Over any run of the loop, two published frames are at least the
/// forwarding interval apart.
pub proof fn law_published_frames_are_spaced(s0: PumpModel, evs: Seq<PumpEvent>, i: int, j: int)
    requires
        in_time_order(s0, evs),
        0 <= i < j < evs.len(),
        outcome_at(s0, evs, i).published,
        outcome_at(s0, evs, j).published,
    ensures
        evs[j].now_ms - evs[i].now_ms >= s0.min_interval_ms,
{
    lemma_run_times(s0, evs, i as nat);
    lemma_run_times(s0, evs, j as nat);
    lemma_last_sent_grows(s0, evs, (i + 1) as nat, j as nat);
    assert(state_after(s0, evs, (i + 1) as nat) == outcome_at(s0, evs, i).state);
}

/// When a frame brought by the `i`-th event is handed to the filter at the
/// latest: one interval after the last publish before it, or on arrival.
pub open spec fn offer_deadline(s0: PumpModel, evs: Seq<PumpEvent>, i: int) -> int {
    let d = state_after(s0, evs, i as nat).last_sent_ms + s0.min_interval_ms;
    if evs[i].now_ms >= d {
        evs[i].now_ms as int
    } else {
        d
    }
}

/// Up to event `j`, while no newer frame arrives: the frame of event `i`
/// was handed to the filter by its deadline, or it is still pending, the
/// last publish unchanged, and the loop waits exactly until the deadline.
pub open spec fn newest_frame_kept(s0: PumpModel, evs: Seq<PumpEvent>, i: int, j: int) -> bool {
    ||| exists|k: int|
        i <= k <= j && #[trigger] outcome_at(s0, evs, k).offered == evs[i].decoded
            && evs[k].now_ms <= offer_deadline(s0, evs, i)
    ||| {
        &&& state_after(s0, evs, (j + 1) as nat).pending == evs[i].decoded
        &&& state_after(s0, evs, (j + 1) as nat).last_sent_ms == state_after(
            s0,
            evs,
            i as nat,
        ).last_sent_ms
        &&& match outcome_at(s0, evs, j).next {
            PumpAction::AwaitSlotOrFrame { wait_ms } => evs[j].now_ms + wait_ms == offer_deadline(
                s0,
                evs,
                i,
            ),
            _ => false,
        }
    }
}

/// The loop never drops the last frame of a burst: over any run in which it
/// is woken when it asked to be, a frame that no newer frame replaces is
/// handed to the filter no later than one interval after the last publish
/// (or on arrival, if the slot is open); until then it stays pending and
/// the loop waits exactly until that moment.
pub proof fn law_newest_frame_is_not_dropped(s0: PumpModel, evs: Seq<PumpEvent>, i: int, j: int)
    requires
        in_time_order(s0, evs),
        wakes_on_time(s0, evs),
        0 <= i <= j < evs.len(),
        evs[i].decoded is Some,
        forall|k: int| i < k <= j ==> (#[trigger] evs[k]).decoded is None,
    ensures
        newest_frame_kept(s0, evs, i, j),
    decreases j - i,
{
    lemma_run_times(s0, evs, i as nat);
    lemma_run_times(s0, evs, j as nat);
    if j == i {
        let o = outcome_at(s0, evs, i);
        if o.offered == evs[i].decoded {
            assert(outcome_at(s0, evs, i).offered == evs[i].decoded);
        } else {
            assert(state_after(s0, evs, (i + 1) as nat) == o.state);
        }
    } else {
        law_newest_frame_is_not_dropped(s0, evs, i, j - 1);
        if exists|k: int|
            i <= k <= j - 1 && #[trigger] outcome_at(s0, evs, k).offered == evs[i].decoded
                && evs[k].now_ms <= offer_deadline(s0, evs, i) {
            let k = choose|k: int|
                i <= k <= j - 1 && #[trigger] outcome_at(s0, evs, k).offered == evs[i].decoded
                    && evs[k].now_ms <= offer_deadline(s0, evs, i);
            assert(outcome_at(s0, evs, k).offered == evs[i].decoded);
        } else {
            assert(evs[j].decoded is None);
            let prev = outcome_at(s0, evs, j - 1);
            assert(state_after(s0, evs, j as nat) == prev.state);
            assert(j - 1 < evs.len() - 1);
            assert(match outcome_at(s0, evs, j - 1).next {
                PumpAction::AwaitSlotOrFrame { wait_ms } => evs[j].now_ms <= evs[j - 1].now_ms
                    + wait_ms,
                _ => true,
            });
            let o = outcome_at(s0, evs, j);
            if o.offered == evs[i].decoded {
                assert(outcome_at(s0, evs, j).offered == evs[i].decoded);
            } else {
                assert(state_after(s0, evs, (j + 1) as nat) == o.state);
            }
        }
    }
}

} // verus!
