//! What the daemon decides about the browser it drives: the helper it
//! injects, the input it forwards, the screencast it streams, and the
//! requests and popups it lets through.

pub mod injected;
pub mod input;
pub mod screencast;
pub mod interceptor;
pub mod launch;
