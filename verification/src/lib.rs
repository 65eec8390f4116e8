//! Connection- and substream-lifecycle core of a peer-to-peer networking
//! stack, written as explicit state machines.
//!
//! The library owns the decision logic: per-connection lifecycle
//! (dial/accept/negotiate/cancel), per-substream protocol selection,
//! application-level handshakes driven by non-blocking I/O readiness, and
//! routing of finished substreams to protocol handlers. All I/O is performed
//! by the surrounding runtime, which feeds its outcomes back in as plain
//! events; every transition here is verified.

pub mod connection;
pub mod negotiation;
pub mod negotiator;
pub mod protocol;
pub mod tracker;
pub mod transport;
pub mod types;
