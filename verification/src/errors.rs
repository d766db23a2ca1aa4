//! Typed errors for session establishment and per-session operations.

use vstd::prelude::*;

verus! {

/// Every way an operation on the session layer can fail.
///
/// The connection establisher reports one distinct variant per failed
/// step; per-session operations report `SessionNotFound` for an unknown
/// identifier, `ConnectionLost` for a hard transport failure (the
/// session is removed at the same time), and `ResizeFailed` for a
/// non-fatal terminal-resize failure.
#[derive(Clone, Copy, Debug, PartialEq, Eq, Structural)]
pub enum SshError {
    /// Neither a password nor private-key material was supplied.
    NoAuthMethod,
    /// The TCP connection could not be opened.
    ConnectFailed,
    /// The transport handshake failed.
    HandshakeFailed,
    /// Authentication with the supplied method was rejected.
    AuthFailed,
    /// A shell-capable channel could not be opened.
    ChannelFailed,
    /// The pseudo-terminal request was rejected.
    PtyFailed,
    /// The remote shell could not be started.
    ShellStartFailed,
    /// No session with the given identifier exists.
    SessionNotFound,
    /// The session's transport failed hard; the session was removed.
    ConnectionLost,
    /// The terminal-size change failed; the session remains usable.
    ResizeFailed,
}

impl SshError {
    /// A human-readable description of the error.
    pub fn message(&self) -> (r: &'static str)
        ensures
            r@.len() > 0,
    {
        let s: &'static str = match self {
            SshError::NoAuthMethod => "No authentication method provided",
            SshError::ConnectFailed => "Connection failed",
            SshError::HandshakeFailed => "Handshake failed",
            SshError::AuthFailed => "Authentication failed",
            SshError::ChannelFailed => "Channel creation failed",
            SshError::PtyFailed => "PTY request failed",
            SshError::ShellStartFailed => "Shell start failed",
            SshError::SessionNotFound => "Session not found",
            SshError::ConnectionLost => "Connection lost",
            SshError::ResizeFailed => "Resize failed",
        };
        proof {
            reveal_strlit("No authentication method provided");
            reveal_strlit("Connection failed");
            reveal_strlit("Handshake failed");
            reveal_strlit("Authentication failed");
            reveal_strlit("Channel creation failed");
            reveal_strlit("PTY request failed");
            reveal_strlit("Shell start failed");
            reveal_strlit("Session not found");
            reveal_strlit("Connection lost");
            reveal_strlit("Resize failed");
        }
        s
    }
}

} // verus!
