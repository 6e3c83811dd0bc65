//! Resilient subscription client for a push-notification relay.
//!
//! The library holds the verified core of the client: decoding of inbound
//! notification envelopes, the session state machine with its idle-timeout
//! watchdog, the supervisor's retry policy, and resolution of the process
//! configuration. The surrounding I/O (the WebSocket transport, timers, and
//! the clipboard sink) lives outside the library and drives it with plain
//! values.

pub mod config;
pub mod connect;
pub mod envelope;
pub mod json;
pub mod session;
pub mod sink;
pub mod supervisor;
