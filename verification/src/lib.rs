//! Host-side supervisor for sidecar worker processes.
//!
//! The library holds the verified core of the supervisor: the port
//! allocator's scanning discipline, the session table that tracks one
//! worker per window label, the JSON-RPC request framing, and the
//! reply-correlation rules of the transport.  Process creation, socket
//! probing and the WebSocket connection itself are operating-system
//! work that a thin unverified shell performs, feeding plain values in
//! and out of the functions here.

pub mod deps;
pub mod errors;
pub mod manager;
pub mod ports;
pub mod rpc;
pub mod wire;
