//! Navigation endpoints: open a URL in a session, step through its
//! history, reload it. Every destination is checked against the URL
//! allowlist before the browser goes there, history entries included: the
//! browser can restore a history entry from its cache without the network
//! request the request interceptor guards.

use vstd::prelude::*;

use crate::api::ApiError;
use crate::text::concat;

verus! {

/// `POST /sessions/:id/open` request.
#[derive(Debug)]
pub struct OpenReq {
    pub url: String,
}

/// The answer to an allowed open: the URL and the rule that allowed it.
#[derive(Debug)]
pub struct OpenResp {
    pub url: String,
    pub rule: String,
}

/// The history entry a step of `delta` from entry `current_index` lands
/// on, among `len` entries; `None` past either end (the step does nothing).
pub fn history_target(current_index: i64, delta: i64, len: usize) -> (r: Option<usize>)
    requires
        i64::MIN <= current_index + delta <= i64::MAX,
    ensures
        match r {
            Some(t) => t == current_index + delta && t < len,
            None => current_index + delta < 0 || current_index + delta >= len,
        },
{
    let target = current_index + delta;
    if target < 0 || target as u64 >= len as u64 {
        None
    } else {
        Some(target as usize)
    }
}

/// An open the allowlist refuses: 403 with the reason.
pub fn open_blocked(reason: &str) -> (e: ApiError)
    ensures
        e matches ApiError::Forbidden(m) && m@ == "blocked: "@ + reason@,
{
    ApiError::Forbidden(concat("blocked: ", reason))
}

/// A history entry whose URL the allowlist no longer accepts: 403.
pub fn history_refused(url: &str) -> (e: ApiError)
    ensures
        e matches ApiError::Forbidden(m) && m@ == "history entry no longer allowed: "@ + url@,
{
    ApiError::Forbidden(concat("history entry no longer allowed: ", url))
}

} // verus!

verus! {

/// The allowlist's verdict on a URL.
#[derive(Debug)]
pub enum UrlVerdict {
    /// Allowed, by the rule with this name.
    Allowed { rule: String },
    /// Refused, for this reason.
    Blocked { reason: String },
}

/// `POST /sessions/:id/open`: the page is navigated to the requested URL
/// only when the allowlist allows it, and the answer names the allowing
/// rule; a refused URL is answered 403 and the page is not navigated.
/// (`Ok` holds the URL to navigate to, in the answer.)
pub fn plan_open(req: &OpenReq, verdict: &UrlVerdict) -> (r: Result<OpenResp, ApiError>)
    ensures
        match *verdict {
            UrlVerdict::Allowed { rule } => r matches Ok(resp) && resp.url@ == req.url@
                && resp.rule@ == rule@,
            UrlVerdict::Blocked { reason } => r matches Err(ApiError::Forbidden(m)) && m@
                == "blocked: "@ + reason@,
        },
{
    match verdict {
        UrlVerdict::Allowed { rule } => Ok(
            OpenResp { url: crate::text::owned(req.url.as_str()), rule: crate::text::owned(rule.as_str()) },
        ),
        UrlVerdict::Blocked { reason } => Err(open_blocked(reason.as_str())),
    }
}

/// A back/forward step that landed on history entry `entry_id` with URL
/// `url`: the entry to navigate to when the allowlist (`allowed`) still
/// accepts its URL; otherwise 403, and no navigation. The history can be
/// restored from the browser's cache without the network request the
/// interceptor guards, so this check is the one that binds.
pub fn plan_history_entry(entry_id: i64, url: &str, allowed: bool) -> (r: Result<i64, ApiError>)
    ensures
        allowed ==> r == Ok::<i64, ApiError>(entry_id),
        !allowed ==> (r matches Err(ApiError::Forbidden(m)) && m@
            == "history entry no longer allowed: "@ + url@),
{
    if allowed {
        Ok(entry_id)
    } else {
        Err(history_refused(url))
    }
}

} // verus!
