//! The daemon's HTTP API: request and response bodies, and the decisions
//! each endpoint makes before it touches the browser. Routing, JSON and the
//! browser calls themselves are done by the server around this library.

pub mod actions;
pub mod admin;
pub mod config_route;
pub mod nav;
pub mod sessions;
pub mod viewport;

use vstd::prelude::*;

verus! {

/// A refused request: the HTTP status it is answered with, and the message.
#[derive(Debug)]
pub enum ApiError {
    /// 400
    BadRequest(String),
    /// 403
    Forbidden(String),
    /// 404
    NotFound(String),
    /// 410: the ref is stale (an older snapshot's) or unknown.
    Gone(String),
    /// 413
    PayloadTooLarge(String),
    /// 500
    Internal(String),
    /// 502
    BadGateway(String),
}

impl ApiError {
    /// The HTTP status code of the answer.
    pub fn status(&self) -> (code: u16)
        ensures
            code == match *self {
                ApiError::BadRequest(_) => 400u16,
                ApiError::Forbidden(_) => 403u16,
                ApiError::NotFound(_) => 404u16,
                ApiError::Gone(_) => 410u16,
                ApiError::PayloadTooLarge(_) => 413u16,
                ApiError::Internal(_) => 500u16,
                ApiError::BadGateway(_) => 502u16,
            },
    {
        match self {
            ApiError::BadRequest(_) => 400,
            ApiError::Forbidden(_) => 403,
            ApiError::NotFound(_) => 404,
            ApiError::Gone(_) => 410,
            ApiError::PayloadTooLarge(_) => 413,
            ApiError::Internal(_) => 500,
            ApiError::BadGateway(_) => 502,
        }
    }

    /// The message sent with the status.
    pub fn message(&self) -> (m: &str)
        ensures
            m@ == match *self {
                ApiError::BadRequest(s) => s@,
                ApiError::Forbidden(s) => s@,
                ApiError::NotFound(s) => s@,
                ApiError::Gone(s) => s@,
                ApiError::PayloadTooLarge(s) => s@,
                ApiError::Internal(s) => s@,
                ApiError::BadGateway(s) => s@,
            },
    {
        match self {
            ApiError::BadRequest(s) => s.as_str(),
            ApiError::Forbidden(s) => s.as_str(),
            ApiError::NotFound(s) => s.as_str(),
            ApiError::Gone(s) => s.as_str(),
            ApiError::PayloadTooLarge(s) => s.as_str(),
            ApiError::Internal(s) => s.as_str(),
            ApiError::BadGateway(s) => s.as_str(),
        }
    }
}

/// The header, and its value, by which the unauthenticated health probe
/// tells this daemon apart from another service bound to the same port.
pub const HEALTH_MARKER: &'static str = "x-acb";

pub const HEALTH_MARKER_VALUE: &'static str = "1";

/// The message of a request naming a session that does not exist.
pub const NO_SUCH_SESSION: &'static str = "no such session";

} // verus!
