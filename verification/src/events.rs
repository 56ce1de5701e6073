//! Activity feed events, broadcast to feed subscribers and the daemon log.

use std::time::{Duration, SystemTime};

use vstd::prelude::*;

verus! {

/// One entry of the activity feed.
#[derive(Debug, Clone)]
pub enum ActivityEvent {
    Navigated { ts: u64, session: String, url: String, rule: String },
    Blocked { ts: u64, session: String, url: String, reason: String, kind: String },
    PolicyReloaded {
        ts: u64,
        etag: String,
        /// Revision field of the loaded policy (0 when unset).
        revision: u64,
        /// SHA-256 fingerprint of the trusted key that signed the policy;
        /// `None` when the daemon runs without verify keys.
        signer: Option<String>,
    },
    PolicyReloadFailed { ts: u64, error: String },
    SessionOpened { ts: u64, session: String },
    SessionClosed { ts: u64, session: String },
    /// Live URL/title change for a session.
    SessionUrl { ts: u64, session: String, url: String, title: Option<String> },
}

#[verifier::external_type_specification]
#[verifier::external_body]
pub struct ExSystemTime(SystemTime);

/// `SystemTime::now`: the current wall-clock time. Nothing is stated of it.
#[verifier::external_body]
fn system_now() -> SystemTime {
    SystemTime::now()
}

/// `SystemTime::duration_since(UNIX_EPOCH)`: the time elapsed since the
/// epoch; `None` when `t` lies before it. Nothing is stated of the value.
#[verifier::external_body]
fn since_epoch(t: SystemTime) -> Option<Duration> {
    t.duration_since(SystemTime::UNIX_EPOCH).ok()
}

/// `Duration::as_secs`: the whole seconds of `d`. Nothing is stated of the
/// value.
#[verifier::external_body]
fn whole_secs(d: Duration) -> u64 {
    d.as_secs()
}

/// The timestamp of a clock reading: its whole seconds since the Unix
/// epoch, or 0 for a reading before the epoch (`None`).
pub fn secs_or_zero(reading: Option<u64>) -> (r: u64)
    ensures
        r == match reading {
            Some(s) => s,
            None => 0,
        },
{
    match reading {
        Some(s) => s,
        None => 0,
    }
}

/// Seconds since the Unix epoch; 0 when the clock is set before it. The
/// clock is read once: its whole seconds since the epoch, or `None` before
/// it, go to [`secs_or_zero`]. Which time the clock shows is not stated.
pub fn now_unix() -> u64 {
    let reading = match since_epoch(system_now()) {
        Some(d) => Some(whole_secs(d)),
        None => None,
    };
    secs_or_zero(reading)
}

} // verus!
