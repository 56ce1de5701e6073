//! The per-session request interceptor's decisions. Every network request
//! of a session's page is paused before it is sent and let through or
//! failed by the request policy; popups opened by the page are closed when
//! their URL is not allowed.

use vstd::prelude::*;

use crate::text::{copy_opt, opt_text, owned, str_eq};

verus! {

/// How the request policy treats a request.
#[derive(Debug, Clone, Copy, PartialEq, Eq, Structural)]
pub enum RequestKind {
    TopLevelDocument,
    Subresource,
}

/// The request policy's verdict on a request.
#[derive(Debug)]
pub enum RequestDecision {
    Allow,
    /// Blocked, with the reason.
    Block(String),
}

/// The kind of a paused request. Every document load is treated as a
/// top-level navigation (a subframe document too: the stricter rule, each
/// new document is a fresh navigation that must pass the allowlist);
/// anything else is a subresource.
pub fn classify(is_document: bool) -> (k: RequestKind)
    ensures
        k == (if is_document {
            RequestKind::TopLevelDocument
        } else {
            RequestKind::Subresource
        }),
{
    if is_document {
        RequestKind::TopLevelDocument
    } else {
        RequestKind::Subresource
    }
}

/// The name a request kind is reported under.
pub open spec fn kind_text(k: RequestKind) -> Seq<char> {
    match k {
        RequestKind::TopLevelDocument => "TopLevelDocument"@,
        RequestKind::Subresource => "Subresource"@,
    }
}

pub fn kind_name(k: RequestKind) -> (s: &'static str)
    ensures
        s@ == kind_text(k),
{
    match k {
        RequestKind::TopLevelDocument => "TopLevelDocument",
        RequestKind::Subresource => "Subresource",
    }
}

/// What to do with a paused request.
#[derive(Debug)]
pub enum PausedAction {
    /// Let it continue; when `announce` holds a rule name, report the
    /// navigation in the activity feed as allowed by that rule.
    Continue { announce: Option<String> },
    /// Fail it as blocked by the client, and report it as blocked with the
    /// reason and the request kind.
    Fail { reason: String, kind: String },
}

/// The action for a paused request of kind `kind` given the policy's
/// decision. `allowing_rule` is the allowlist's verdict on the request's
/// URL: the name of the rule that allows it, or `None` when the allowlist
/// refuses it. An allowed top-level document is announced (with that rule)
/// only when the allowlist allows its URL; subresources are never announced.
pub fn on_paused(kind: RequestKind, decision: &RequestDecision, allowing_rule: &Option<String>) -> (a:
    PausedAction)
    ensures
        match *decision {
            RequestDecision::Allow => a matches PausedAction::Continue { announce } && opt_text(
                announce,
            ) == (if kind == RequestKind::TopLevelDocument {
                opt_text(*allowing_rule)
            } else {
                None
            }),
            RequestDecision::Block(reason) => a matches PausedAction::Fail { reason: r, kind: k }
                && r@ == reason@ && k@ == kind_text(kind),
        },
{
    match decision {
        RequestDecision::Allow => {
            let announce = if kind == RequestKind::TopLevelDocument {
                copy_opt(allowing_rule)
            } else {
                None
            };
            PausedAction::Continue { announce }
        },
        RequestDecision::Block(reason) => PausedAction::Fail {
            reason: owned(reason.as_str()),
            kind: owned(kind_name(kind)),
        },
    }
}

/// What the browser may do with a download.
#[derive(Debug, Clone, Copy, PartialEq, Eq, Structural)]
pub enum DownloadBehavior {
    Deny,
    Allow,
}

/// The stage at which the request interceptor pauses requests.
#[derive(Debug, Clone, Copy, PartialEq, Eq, Structural)]
pub enum InterceptStage {
    /// Before the request is sent.
    Request,
    /// Once the response headers arrived.
    Response,
}

/// The settings the interceptor applies to a session's page when it is
/// installed.
#[derive(Debug)]
pub struct InterceptSettings {
    /// Service workers are bypassed, so the interceptor sees the network
    /// requests rather than a worker's cached answers.
    pub bypass_service_workers: bool,
    /// Downloads are denied: a page cannot exfiltrate by saving a file.
    pub downloads: DownloadBehavior,
    /// The URL pattern whose requests are paused: every request.
    pub url_pattern: &'static str,
    /// Requests are paused before they are sent.
    pub stage: InterceptStage,
    /// Authentication challenges are not intercepted.
    pub handle_auth_requests: bool,
}

/// The interceptor's session settings (see [`InterceptSettings`]).
pub fn intercept_settings() -> (s: InterceptSettings)
    ensures
        s.bypass_service_workers,
        s.downloads == DownloadBehavior::Deny,
        s.url_pattern@ == "*"@,
        s.stage == InterceptStage::Request,
        !s.handle_auth_requests,
{
    InterceptSettings {
        bypass_service_workers: true,
        downloads: DownloadBehavior::Deny,
        url_pattern: "*",
        stage: InterceptStage::Request,
        handle_auth_requests: false,
    }
}

/// The reason and kind a closed popup is reported with.
pub const POPUP_BLOCKED_REASON: &'static str = "popup blocked by allowlist";

pub const POPUP_KIND: &'static str = "popup";

/// What to do about a newly created browser target.
#[derive(Debug, Clone, Copy, PartialEq, Eq, Structural)]
pub enum PopupVerdict {
    /// Not a page opened by this session: none of its business.
    Ignore,
    /// An allowed popup.
    Keep,
    /// A popup whose URL is not allowed: close it and report it.
    Close,
}

/// The verdict on a target of type `target_type`; `opened_by_session`: the
/// session's page is its opener; `url_allowed`: the allowlist accepts its
/// URL.
pub fn popup_verdict(target_type: &str, opened_by_session: bool, url_allowed: bool) -> (v:
    PopupVerdict)
    ensures
        v == (if target_type@ != "page"@ || !opened_by_session {
            PopupVerdict::Ignore
        } else if url_allowed {
            PopupVerdict::Keep
        } else {
            PopupVerdict::Close
        }),
{
    if !str_eq(target_type, "page") || !opened_by_session {
        PopupVerdict::Ignore
    } else if url_allowed {
        PopupVerdict::Keep
    } else {
        PopupVerdict::Close
    }
}

} // verus!
