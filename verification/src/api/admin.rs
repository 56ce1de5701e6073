//! `POST /admin/reload`: a manual reload of the policy file the daemon was
//! launched with, for scripts that prefer an explicit nudge over the file
//! watcher.

use vstd::prelude::*;

use crate::api::ApiError;
use crate::text::{concat, owned};

verus! {

/// The answer to a successful reload.
#[derive(Debug)]
pub struct ReloadResp {
    /// The etag of the policy now in effect.
    pub etag: String,
}

/// The policy file to reload; a daemon started without one answers 500.
pub fn reload_target(policy_path: &Option<String>) -> (r: Result<String, ApiError>)
    ensures
        match *policy_path {
            Some(p) => r matches Ok(q) && q@ == p@,
            None => r matches Err(ApiError::Internal(m)) && m@ == "daemon has no on-disk policy"@,
        },
{
    match policy_path {
        Some(p) => Ok(owned(p.as_str())),
        None => Err(ApiError::Internal(owned("daemon has no on-disk policy"))),
    }
}

/// A reload that failed (the previous policy stays in effect) is answered
/// 400 with the reason.
pub fn reload_failed(reason: &str) -> (e: ApiError)
    ensures
        e matches ApiError::BadRequest(m) && m@ == "reload: "@ + reason@,
{
    ApiError::BadRequest(concat("reload: ", reason))
}

} // verus!
