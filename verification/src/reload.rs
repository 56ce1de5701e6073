//! Hot reload of the policy file. The watcher observes the policy's
//! directory and matches events by file name: editors save by writing a
//! temporary file and renaming it over the policy, which a watch on the
//! file itself would lose. A signed edit lands as two writes (policy and
//! signature), so an event on either triggers a reload.

use vstd::prelude::*;

use crate::events::ActivityEvent;
use crate::sign::SIG_SUFFIX;
use crate::text::{concat, opt_text, str_eq};

verus! {

/// An event on a file named `name` concerns the policy `file`: it is the
/// policy itself or its detached signature.
pub open spec fn names_policy(name: Option<Seq<char>>, file: Seq<char>) -> bool {
    name == Some(file) || name == Some(file + SIG_SUFFIX@)
}

/// Whether a batch of watcher events, given by the file names of their
/// paths (`None`: a path without a file name), calls for a reload of the
/// policy whose file name is `file`.
pub fn touches_policy(names: &Vec<Option<String>>, file: &str) -> (b: bool)
    ensures
        b == exists|i: int| 0 <= i < names.len() && names_policy(opt_text(#[trigger] names@[i]), file@),
{
    let sig = concat(file, SIG_SUFFIX);
    let mut i: usize = 0;
    while i < names.len()
        invariant
            i <= names.len(),
            sig@ == file@ + SIG_SUFFIX@,
            forall|j: int| 0 <= j < i ==> !names_policy(opt_text(#[trigger] names@[j]), file@),
        decreases names.len() - i,
    {
        let hit = match &names[i] {
            Some(n) => str_eq(n.as_str(), file) || str_eq(n.as_str(), sig.as_str()),
            None => false,
        };
        if hit {
            assert(names_policy(opt_text(names@[i as int]), file@));
            return true;
        }
        i = i + 1;
    }
    false
}

} // verus!

verus! {

/// How a reload attempt ended.
#[derive(Debug)]
pub enum ReloadOutcome {
    /// The new policy is in effect: its etag and revision, and the
    /// fingerprint of the key that signed it (`None` without verify keys).
    Loaded { etag: String, revision: u64, signer: Option<String> },
    /// Reading, verifying or compiling failed; the previous policy stays in
    /// effect.
    Failed { error: String },
}

/// The activity-feed event that reports a reload at time `ts`.
pub fn reload_event(outcome: ReloadOutcome, ts: u64) -> (e: ActivityEvent)
    ensures
        match outcome {
            ReloadOutcome::Loaded { etag, revision, signer } => e == (ActivityEvent::PolicyReloaded {
                ts,
                etag,
                revision,
                signer,
            }),
            ReloadOutcome::Failed { error } => e == (ActivityEvent::PolicyReloadFailed { ts, error }),
        },
{
    match outcome {
        ReloadOutcome::Loaded { etag, revision, signer } => ActivityEvent::PolicyReloaded {
            ts,
            etag,
            revision,
            signer,
        },
        ReloadOutcome::Failed { error } => ActivityEvent::PolicyReloadFailed { ts, error },
    }
}

} // verus!

verus! {

/// The polling interval used when watching the directory is not possible.
pub const FALLBACK_POLL_MS: u64 = 1000;

/// How the watcher follows the policy file.
#[derive(Debug, Clone, Copy, PartialEq, Eq)]
pub enum WatchMode {
    /// Compare the modification times of the policy and its signature every
    /// `interval_ms` milliseconds.
    Poll { interval_ms: u64 },
    /// Watch the policy's directory and match events by file name.
    Directory,
    /// No watching: the event machinery could not be started.
    Off,
}

/// How to follow the policy file. `poll_ms` is the configured polling
/// interval (0: use file-system events). The set-up steps are tried in
/// order, each only when the ones before succeeded: `resolved`, the policy
/// path was made absolute; `named`, that path has a directory and a file
/// name; `events_started`, the event debouncer started; `watching`, the
/// directory watch was set up. A path that cannot be resolved, split or
/// watched falls back to polling every [`FALLBACK_POLL_MS`].
pub fn watch_mode(poll_ms: u64, resolved: bool, named: bool, events_started: bool, watching: bool) -> (m:
    WatchMode)
    ensures
        m == (if poll_ms != 0 {
            WatchMode::Poll { interval_ms: poll_ms }
        } else if !resolved || !named {
            WatchMode::Poll { interval_ms: FALLBACK_POLL_MS }
        } else if !events_started {
            WatchMode::Off
        } else if !watching {
            WatchMode::Poll { interval_ms: FALLBACK_POLL_MS }
        } else {
            WatchMode::Directory
        }),
{
    if poll_ms != 0 {
        WatchMode::Poll { interval_ms: poll_ms }
    } else if !resolved || !named {
        WatchMode::Poll { interval_ms: FALLBACK_POLL_MS }
    } else if !events_started {
        WatchMode::Off
    } else if !watching {
        WatchMode::Poll { interval_ms: FALLBACK_POLL_MS }
    } else {
        WatchMode::Directory
    }
}

/// The modification times of the policy file and of its signature, as
/// read at one poll (`None`: the file or its time could not be read).
#[derive(Debug, Clone, Copy)]
pub struct Stamps {
    pub policy: Option<u128>,
    pub signature: Option<u128>,
}

fn same_stamp(a: Option<u128>, b: Option<u128>) -> (r: bool)
    ensures
        r == (a == b),
{
    match (a, b) {
        (Some(x), Some(y)) => x == y,
        (None, None) => true,
        _ => false,
    }
}

/// One poll: reload when the pair of modification times differs from the
/// one seen last; `last` then holds the new pair.
pub fn poll_tick(last: &mut Stamps, current: Stamps) -> (reload: bool)
    ensures
        reload == (current != *old(last)),
        *final(last) == current,
{
    let same = same_stamp(last.policy, current.policy) && same_stamp(
        last.signature,
        current.signature,
    );
    *last = current;
    !same
}

} // verus!
