//! Verified core of an RPC-over-QUIC framework: the wire format of requests
//! and replies, the routing of requests to registered handlers, the client's
//! per-call state machines and the server and client settings.
pub mod client;
pub mod errors;
pub mod handlers;
pub mod io;
pub mod net;
pub mod protocol;
pub mod server;
