//! The supervisor's error taxonomy.
//!
//! Spawn-time failures (`ExecutableNotFound`, `SpawnError`) and
//! call-time failures (`SessionNotFound`, `ConnectionError`,
//! `SendError`, `ProtocolError`, `ConnectionClosed`) are surfaced to
//! the caller as typed errors; termination failures are deliberately
//! not represented, because removing a session from the table already
//! satisfies the caller-visible contract.

use vstd::prelude::*;

verus! {

/// A failure of a spawn attempt or of one RPC call.
#[derive(Clone, Copy, Debug, PartialEq, Eq, Structural)]
pub enum SidecarError {
    /// No candidate interpreter binary answered the version probe.
    ExecutableNotFound,
    /// The operating system refused to create the worker process.
    SpawnError,
    /// A call named a window label with no live session record.
    SessionNotFound,
    /// The connection to the worker's port could not be opened.
    ConnectionError,
    /// The request frame could not be written to the stream.
    SendError,
    /// A reply frame was not well-formed JSON.
    ProtocolError,
    /// The stream ended before a reply with the matching id arrived.
    ConnectionClosed,
}

/// The fixed description of each error variant.
pub open spec fn error_message_spec(e: SidecarError) -> Seq<char> {
    match e {
        SidecarError::ExecutableNotFound => "python interpreter not found in PATH"@,
        SidecarError::SpawnError => "failed to spawn sidecar process"@,
        SidecarError::SessionNotFound => "no sidecar is tracked for this window"@,
        SidecarError::ConnectionError => "failed to connect to sidecar websocket"@,
        SidecarError::SendError => "failed to send websocket message"@,
        SidecarError::ProtocolError => "failed to parse sidecar response"@,
        SidecarError::ConnectionClosed => "connection closed without valid response"@,
    }
}

impl SidecarError {
    /// A short human-readable description, for the host's log sink.
    pub fn message(&self) -> (r: &'static str)
        ensures
            r@ == error_message_spec(*self),
    {
        match self {
            SidecarError::ExecutableNotFound => "python interpreter not found in PATH",
            SidecarError::SpawnError => "failed to spawn sidecar process",
            SidecarError::SessionNotFound => "no sidecar is tracked for this window",
            SidecarError::ConnectionError => "failed to connect to sidecar websocket",
            SidecarError::SendError => "failed to send websocket message",
            SidecarError::ProtocolError => "failed to parse sidecar response",
            SidecarError::ConnectionClosed => "connection closed without valid response",
        }
    }
}

} // verus!
