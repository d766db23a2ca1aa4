//! Connection establishment: the authentication decision, the ordered
//! failure steps with their distinct errors, and admission of a ready
//! session into the registry under a fresh identifier.
//!
//! The transport work itself — opening the TCP stream, the handshake,
//! authentication, channel, pseudo-terminal and shell — is done by the
//! unverified host layer against its secure-transport library; this
//! module decides what to attempt and what each failure means, and it
//! owns the step that matters to the registry: nothing is inserted
//! until every step has succeeded, so no failure path leaks an entry.

use vstd::prelude::*;
use crate::errors::SshError;
use crate::registry::SessionRegistry;
use crate::session::{SessionData, SessionModel};

verus! {

/// Interval between liveness probes, in seconds.
pub const KEEP_ALIVE_INTERVAL_SECS: u64 = 5;

/// Overall transport timeout during establishment, in milliseconds.
pub const CONNECTION_TIMEOUT_MS: u32 = 30000;

/// Grace delay after shell start, before the channel goes non-blocking,
/// so the remote side can flush its startup banner, in milliseconds.
pub const POST_SHELL_GRACE_MS: u64 = 100;

/// Grace period after sending end-of-stream during close, in
/// milliseconds.
pub const CLOSE_EOF_GRACE_MS: u64 = 100;

/// Total bounded wait for the remote end-of-file during close, in
/// milliseconds.
pub const CLOSE_POLL_TOTAL_MS: u64 = 500;

/// Sleep between end-of-file polls during close, in milliseconds.
pub const CLOSE_POLL_STEP_MS: u64 = 50;

/// Size of the scratch buffer for one non-blocking read, in bytes.
pub const READ_BUFFER_SIZE: usize = 8192;

/// Connection parameters supplied by the caller.  At least one of
/// `password` and `private_key` must be set for a connection to be
/// attempted.
#[derive(Debug)]
pub struct SshConfig {
    /// Target host.
    pub host: String,
    /// Target port.
    pub port: u16,
    /// User to authenticate as.
    pub username: String,
    /// Password credential, if any.
    pub password: Option<String>,
    /// Private-key material, if any.
    pub private_key: Option<String>,
}

impl SshConfig {
    /// Bundles connection parameters.
    pub fn new(
        host: String,
        port: u16,
        username: String,
        password: Option<String>,
        private_key: Option<String>,
    ) -> (c: SshConfig)
        ensures
            c.host == host,
            c.port == port,
            c.username == username,
            c.password == password,
            c.private_key == private_key,
    {
        SshConfig { host, port, username, password, private_key }
    }
}

/// Which authentication method the establisher must use.  Private-key
/// material takes precedence when both are supplied.
#[derive(Clone, Copy, Debug, PartialEq, Eq, Structural)]
pub enum AuthChoice {
    /// Authenticate with the supplied private-key material.
    PrivateKey,
    /// Authenticate with the supplied password.
    Password,
}

/// Decides the authentication method before anything touches the
/// network: a configuration with neither credential is rejected with
/// `NoAuthMethod`, so no connection is ever opened for it.
pub fn plan_connect(config: &SshConfig) -> (r: Result<AuthChoice, SshError>)
    ensures
        config.private_key is Some ==> r == Ok::<AuthChoice, SshError>(AuthChoice::PrivateKey),
        config.private_key is None && config.password is Some ==> r == Ok::<
            AuthChoice,
            SshError,
        >(AuthChoice::Password),
        config.private_key is None && config.password is None ==> r == Err::<
            AuthChoice,
            SshError,
        >(SshError::NoAuthMethod),
{
    match &config.private_key {
        Option::Some(_) => Ok(AuthChoice::PrivateKey),
        Option::None => match &config.password {
            Option::Some(_) => Ok(AuthChoice::Password),
            Option::None => Err(SshError::NoAuthMethod),
        },
    }
}

/// The ordered steps of connection establishment, each a possible
/// failure point with its own error.
#[derive(Clone, Copy, Debug, PartialEq, Eq, Structural)]
pub enum ConnectStep {
    /// Opening the TCP connection.
    OpenTcp,
    /// The transport handshake.
    Handshake,
    /// Authenticating with the chosen method.
    Authenticate,
    /// Opening a shell-capable channel.
    OpenChannel,
    /// Requesting the pseudo-terminal.
    RequestPty,
    /// Starting the remote shell.
    StartShell,
}

/// The distinct error reported when establishment fails at a given
/// step.
pub fn step_error(step: ConnectStep) -> (e: SshError)
    ensures
        step == ConnectStep::OpenTcp ==> e == SshError::ConnectFailed,
        step == ConnectStep::Handshake ==> e == SshError::HandshakeFailed,
        step == ConnectStep::Authenticate ==> e == SshError::AuthFailed,
        step == ConnectStep::OpenChannel ==> e == SshError::ChannelFailed,
        step == ConnectStep::RequestPty ==> e == SshError::PtyFailed,
        step == ConnectStep::StartShell ==> e == SshError::ShellStartFailed,
{
    match step {
        ConnectStep::OpenTcp => SshError::ConnectFailed,
        ConnectStep::Handshake => SshError::HandshakeFailed,
        ConnectStep::Authenticate => SshError::AuthFailed,
        ConnectStep::OpenChannel => SshError::ChannelFailed,
        ConnectStep::RequestPty => SshError::PtyFailed,
        ConnectStep::StartShell => SshError::ShellStartFailed,
    }
}

/// The fixed capability string naming a standard 256-color terminal,
/// requested for every session's pseudo-terminal.
pub fn terminal_type() -> (r: &'static str)
    ensures
        r@ == "xterm-256color"@,
{
    "xterm-256color"
}

/// Relies on `uuid::Uuid::new_v4` and its `Display` form: a freshly
/// drawn random identifier, rendered in the 36-character hyphenated
/// format.  Nothing more is assumed of a random value.
#[verifier::external_body]
fn fresh_session_id() -> (r: String)
    ensures
        r@.len() == 36,
{
    uuid::Uuid::new_v4().to_string()
}

/// Admits a fully established session: allocates a fresh identifier,
/// constructs the session state, and inserts it into the registry.
/// Called only after every establishment step has succeeded; on any
/// earlier failure the registry is never touched.
pub fn finish_connect(reg: &mut SessionRegistry, now: u64) -> (id: String)
    requires
        old(reg).wf(),
    ensures
        final(reg).wf(),
        id@.len() == 36,
        final(reg)@ == old(reg)@.insert(id@, SessionModel::fresh(now)),
        final(reg)@.contains_key(id@),
{
    let id = fresh_session_id();
    let sess = SessionData::new(now);
    let handle = id.clone();
    reg.insert_session(id, sess);
    handle
}

} // verus!
