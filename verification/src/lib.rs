//! Verified core of a manager for concurrent interactive remote-shell
//! sessions: session identity, partial-data framing across non-blocking
//! reads, a bounded-retry liveness protocol, and registry lifecycle.

pub mod errors;
pub mod framing;
pub mod session;
pub mod registry;
pub mod connect;
