//! `GET /sessions/:id/viewport`: a WebSocket that streams screencast frames
//! to the client and takes its input events back. The socket loops live in
//! the server; what each message or frame leads to is decided here.

use vstd::prelude::*;

verus! {

/// A message read from the client side of the socket.
#[derive(Debug, Clone, Copy, PartialEq, Eq)]
pub enum ClientMessage {
    Text,
    Binary,
    Ping,
    Pong,
    Close,
    /// The socket failed.
    Error,
}

/// What the input loop does with a client message.
#[derive(Debug, Clone, Copy, PartialEq, Eq)]
pub enum InboxStep {
    /// Parse it as an input event and dispatch it.
    Handle,
    /// Ignore it and read on.
    Skip,
    /// The client is gone: end the loop.
    Stop,
}

/// Text messages carry input events; binary and keep-alive messages are
/// ignored; a close or a socket error ends the loop.
pub fn inbox_step(m: ClientMessage) -> (s: InboxStep)
    ensures
        s == match m {
            ClientMessage::Text => InboxStep::Handle,
            ClientMessage::Binary | ClientMessage::Ping | ClientMessage::Pong => InboxStep::Skip,
            ClientMessage::Close | ClientMessage::Error => InboxStep::Stop,
        },
{
    match m {
        ClientMessage::Text => InboxStep::Handle,
        ClientMessage::Binary | ClientMessage::Ping | ClientMessage::Pong => InboxStep::Skip,
        ClientMessage::Close | ClientMessage::Error => InboxStep::Stop,
    }
}

/// What the frame feed gave the forwarding loop.
#[derive(Debug, Clone, Copy, PartialEq, Eq)]
pub enum FrameFeed {
    /// A frame; `sent`: it reached the client.
    Frame { sent: bool },
    /// The subscriber fell behind and frames were skipped.
    Lagged,
    /// The feed closed.
    Closed,
}

/// Whether the forwarding loop goes on: a slow subscriber only loses
/// frames; a closed feed or a client that can no longer be written to ends
/// it.
pub fn keep_forwarding(f: FrameFeed) -> (b: bool)
    ensures
        b == match f {
            FrameFeed::Frame { sent } => sent,
            FrameFeed::Lagged => true,
            FrameFeed::Closed => false,
        },
{
    match f {
        FrameFeed::Frame { sent } => sent,
        FrameFeed::Lagged => true,
        FrameFeed::Closed => false,
    }
}

} // verus!
