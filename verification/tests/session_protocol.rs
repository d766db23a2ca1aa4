use shell_sessions::connect::{
    finish_connect, plan_connect, step_error, terminal_type, AuthChoice, ConnectStep, SshConfig,
};
use shell_sessions::errors::SshError;
use shell_sessions::registry::{
    MonitorDecision, ReadEvent, ResizeOutcome, SessionRegistry, WriteOutcome,
};
use shell_sessions::session::SessionData;

#[test]
fn connect_without_credentials_is_refused() {
    let config = SshConfig::new("host".to_string(), 22, "user".to_string(), None, None);
    assert_eq!(plan_connect(&config), Err(SshError::NoAuthMethod));
}

#[test]
fn private_key_takes_precedence() {
    let both = SshConfig::new(
        "host".to_string(),
        22,
        "user".to_string(),
        Some("pw".to_string()),
        Some("key".to_string()),
    );
    assert_eq!(plan_connect(&both), Ok(AuthChoice::PrivateKey));
    let pw_only = SshConfig::new(
        "host".to_string(),
        22,
        "user".to_string(),
        Some("pw".to_string()),
        None,
    );
    assert_eq!(plan_connect(&pw_only), Ok(AuthChoice::Password));
}

#[test]
fn each_connect_step_has_its_own_error() {
    assert_eq!(step_error(ConnectStep::OpenTcp), SshError::ConnectFailed);
    assert_eq!(step_error(ConnectStep::Handshake), SshError::HandshakeFailed);
    assert_eq!(step_error(ConnectStep::Authenticate), SshError::AuthFailed);
    assert_eq!(step_error(ConnectStep::OpenChannel), SshError::ChannelFailed);
    assert_eq!(step_error(ConnectStep::RequestPty), SshError::PtyFailed);
    assert_eq!(step_error(ConnectStep::StartShell), SshError::ShellStartFailed);
}

#[test]
fn fresh_identifiers_are_hyphenated_and_distinct() {
    let mut reg = SessionRegistry::new();
    let a = finish_connect(&mut reg, 0);
    let b = finish_connect(&mut reg, 0);
    assert_eq!(a.chars().count(), 36);
    assert_eq!(b.chars().count(), 36);
    assert_ne!(a, b);
    assert_eq!(reg.len(), 2);
}

#[test]
fn close_then_any_operation_is_not_found() {
    let mut reg = SessionRegistry::new();
    let id = finish_connect(&mut reg, 0);
    assert!(reg.close(&id));
    assert_eq!(reg.read(&id, ReadEvent::Empty, 1), Err(SshError::SessionNotFound));
    assert_eq!(
        reg.write(&id, WriteOutcome::Completed, 1),
        Err(SshError::SessionNotFound)
    );
    assert_eq!(
        reg.resize(&id, ResizeOutcome::Accepted),
        Err(SshError::SessionNotFound)
    );
}

#[test]
fn close_is_idempotent() {
    let mut reg = SessionRegistry::new();
    let id = finish_connect(&mut reg, 0);
    assert!(reg.close(&id));
    assert!(!reg.close(&id));
    assert!(!reg.close(&id));
    assert_eq!(reg.len(), 0);
    // closing an identifier that never existed is a no-op too
    assert!(!reg.close(&"no-such-session".to_string()));
}

#[test]
fn successful_write_resets_failure_counter() {
    let mut reg = SessionRegistry::new();
    let id = finish_connect(&mut reg, 0);
    // two failed probes leave the session one failure short of eviction
    assert_eq!(reg.probe_tick(&id, false, 1), MonitorDecision::Continue);
    assert_eq!(reg.probe_tick(&id, false, 2), MonitorDecision::Continue);
    assert_eq!(reg.failure_count_of(&id), Some(2));
    // a successful write resets the counter ...
    assert_eq!(reg.write(&id, WriteOutcome::Completed, 3), Ok(()));
    assert_eq!(reg.failure_count_of(&id), Some(0));
    // ... and a following read still observes it at zero
    assert_eq!(reg.read(&id, ReadEvent::Empty, 4), Ok(String::new()));
    assert_eq!(reg.failure_count_of(&id), Some(0));
    assert_eq!(reg.last_activity_of(&id), Some(4));
}

#[test]
fn three_consecutive_probe_failures_evict() {
    let mut reg = SessionRegistry::new();
    let id = finish_connect(&mut reg, 0);
    assert_eq!(reg.probe_tick(&id, false, 1), MonitorDecision::Continue);
    assert_eq!(reg.probe_tick(&id, false, 2), MonitorDecision::Continue);
    assert_eq!(reg.probe_tick(&id, false, 3), MonitorDecision::Evict);
    // removed before a fourth tick: the next caller sees not-found
    assert_eq!(reg.read(&id, ReadEvent::Empty, 4), Err(SshError::SessionNotFound));
    assert_eq!(reg.probe_tick(&id, false, 5), MonitorDecision::Exit);
}

#[test]
fn successful_probe_restarts_the_retry_budget() {
    let mut reg = SessionRegistry::new();
    let id = finish_connect(&mut reg, 0);
    assert_eq!(reg.probe_tick(&id, false, 1), MonitorDecision::Continue);
    assert_eq!(reg.probe_tick(&id, false, 2), MonitorDecision::Continue);
    assert_eq!(reg.probe_tick(&id, true, 3), MonitorDecision::Continue);
    assert_eq!(reg.failure_count_of(&id), Some(0));
    assert_eq!(reg.probe_tick(&id, false, 4), MonitorDecision::Continue);
    assert_eq!(reg.probe_tick(&id, false, 5), MonitorDecision::Continue);
    assert_eq!(reg.probe_tick(&id, false, 6), MonitorDecision::Evict);
}

#[test]
fn hard_read_error_loses_the_connection_once() {
    let mut reg = SessionRegistry::new();
    let id = finish_connect(&mut reg, 0);
    assert_eq!(
        reg.read(&id, ReadEvent::HardError, 1),
        Err(SshError::ConnectionLost)
    );
    // surfaced once; afterwards the identifier is simply unknown
    assert_eq!(reg.read(&id, ReadEvent::Empty, 2), Err(SshError::SessionNotFound));
}

#[test]
fn authentication_loss_is_fatal() {
    let mut reg = SessionRegistry::new();
    let id = finish_connect(&mut reg, 0);
    assert_eq!(
        reg.read(&id, ReadEvent::AuthLost, 1),
        Err(SshError::ConnectionLost)
    );
    assert!(reg.failure_count_of(&id).is_none());
}

#[test]
fn hard_write_error_loses_the_connection() {
    let mut reg = SessionRegistry::new();
    let id = finish_connect(&mut reg, 0);
    assert_eq!(
        reg.write(&id, WriteOutcome::HardError, 1),
        Err(SshError::ConnectionLost)
    );
    assert_eq!(
        reg.write(&id, WriteOutcome::Completed, 2),
        Err(SshError::SessionNotFound)
    );
}

#[test]
fn failed_resize_keeps_the_session() {
    let mut reg = SessionRegistry::new();
    let id = finish_connect(&mut reg, 0);
    assert_eq!(
        reg.resize(&id, ResizeOutcome::Refused),
        Err(SshError::ResizeFailed)
    );
    // the session is still usable
    assert_eq!(reg.resize(&id, ResizeOutcome::Accepted), Ok(()));
    assert_eq!(reg.read(&id, ReadEvent::Empty, 1), Ok(String::new()));
}

#[test]
fn would_block_is_no_error_and_changes_nothing() {
    let mut reg = SessionRegistry::new();
    let id = finish_connect(&mut reg, 0);
    assert_eq!(reg.probe_tick(&id, false, 1), MonitorDecision::Continue);
    assert_eq!(reg.read(&id, ReadEvent::WouldBlock, 2), Ok(String::new()));
    // transient: even the failure counter is untouched
    assert_eq!(reg.failure_count_of(&id), Some(1));
    assert_eq!(reg.last_activity_of(&id), Some(0));
}

#[test]
fn read_reassembles_split_characters_across_calls() {
    let mut reg = SessionRegistry::new();
    let id = finish_connect(&mut reg, 0);
    let first = reg.read(&id, ReadEvent::Data(vec![0x68, 0xc3]), 1).unwrap();
    assert_eq!(first, "h");
    let second = reg
        .read(&id, ReadEvent::Data(vec![0xa9, 0x6c, 0x6c, 0x6f]), 2)
        .unwrap();
    assert_eq!(second, "\u{e9}llo");
    assert_eq!(format!("{}{}", first, second), "h\u{e9}llo");
}

#[test]
fn inserting_under_an_existing_identifier_replaces_it() {
    let mut reg = SessionRegistry::new();
    let id = finish_connect(&mut reg, 0);
    // make some history on the session
    assert_eq!(reg.probe_tick(&id, false, 1), MonitorDecision::Continue);
    reg.insert_session(id.clone(), SessionData::new(9));
    assert_eq!(reg.len(), 1);
    assert_eq!(reg.failure_count_of(&id), Some(0));
    assert_eq!(reg.last_activity_of(&id), Some(9));
}

#[test]
fn terminal_capability_string_is_fixed() {
    assert_eq!(terminal_type(), "xterm-256color");
}

#[test]
fn error_messages_are_stable() {
    assert_eq!(SshError::SessionNotFound.message(), "Session not found");
    assert_eq!(SshError::ConnectionLost.message(), "Connection lost");
    assert_eq!(
        SshError::NoAuthMethod.message(),
        "No authentication method provided"
    );
}

#[test]
fn full_session_lifecycle_scenario() {
    // the shape of one interactive session, with the channel's
    // observations played in by hand: connect, poll the banner, run a
    // command, resize, close.
    let mut reg = SessionRegistry::new();
    let id = finish_connect(&mut reg, 0);
    // immediately after connect the banner may not be flushed yet
    assert_eq!(reg.read(&id, ReadEvent::WouldBlock, 1), Ok(String::new()));
    // a later poll delivers it
    let banner = reg
        .read(&id, ReadEvent::Data(b"welcome $ ".to_vec()), 2)
        .unwrap();
    assert_eq!(banner, "welcome $ ");
    // write succeeds as a whole
    assert_eq!(reg.write(&id, WriteOutcome::Completed, 3), Ok(()));
    // a subsequent read contains the command's echo
    let echoed = reg
        .read(&id, ReadEvent::Data(b"echo hi\r\nhi\r\n$ ".to_vec()), 4)
        .unwrap();
    assert!(echoed.contains("hi"));
    // resize succeeds
    assert_eq!(reg.resize(&id, ResizeOutcome::Accepted), Ok(()));
    // close, then the identifier is gone
    assert!(reg.close(&id));
    assert_eq!(reg.read(&id, ReadEvent::Empty, 5), Err(SshError::SessionNotFound));
}

#[test]
fn session_pending_buffer_tracks_partial_chars() {
    let mut s = SessionData::new(0);
    let out = s.ingest_read(&vec![0x68, 0xc3], 1);
    assert_eq!(out, "h");
    assert_eq!(s.pending_len(), 1);
    let out2 = s.ingest_read(&vec![0xa9], 2);
    assert_eq!(out2, "\u{e9}");
    assert_eq!(s.pending_len(), 0);
    assert_eq!(s.failure_count(), 0);
    assert_eq!(s.last_activity(), 2);
}

#[test]
fn update_activity_resets_counter_and_timestamp() {
    let mut s = SessionData::new(0);
    assert!(!s.record_probe_failure());
    assert_eq!(s.failure_count(), 1);
    s.update_activity(5);
    assert_eq!(s.failure_count(), 0);
    assert_eq!(s.last_activity(), 5);
}
