use std::sync::mpsc::channel;
use wmcssh::contracts::errors::AppErrorCode;
use wmcssh::contracts::ssh::{SshDisconnectInput, SshResizeInput, SshWriteInput};
use wmcssh::ssh::session_manager::{session_command_name, SessionHandle, SessionRegistry};
use wmcssh::ssh::types::SessionCommand;

fn handle(session_id: &str, host_id: &str) -> (SessionHandle, std::sync::mpsc::Receiver<SessionCommand>) {
    let (tx, rx) = channel();
    (
        SessionHandle { session_id: session_id.into(), host_id: host_id.into(), command_tx: tx },
        rx,
    )
}

#[test]
fn registered_sessions_are_found() {
    let mut registry = SessionRegistry::new();
    let (h, _rx) = handle("s1", "h1");
    registry.insert(h);
    assert!(registry.contains("s1"));
    assert!(!registry.contains("s2"));
    assert_eq!(registry.host_of("s1"), Some("h1".to_string()));
    assert_eq!(registry.host_of("s2"), None);
}

#[test]
fn a_new_handle_replaces_one_with_the_same_id() {
    let mut registry = SessionRegistry::new();
    let (a, _ra) = handle("s1", "h1");
    let (b, rb) = handle("s1", "h2");
    registry.insert(a);
    registry.insert(b);
    assert_eq!(registry.host_of("s1"), Some("h2".to_string()));
    registry
        .resize(&SshResizeInput { session_id: "s1".into(), cols: 80, rows: 24 })
        .unwrap();
    match rb.try_recv().unwrap() {
        SessionCommand::Resize { cols, rows } => assert_eq!((cols, rows), (80, 24)),
        other => panic!("unexpected command {other:?}"),
    }
}

#[test]
fn commands_reach_the_worker() {
    let mut registry = SessionRegistry::new();
    let (h, rx) = handle("s1", "h1");
    registry.insert(h);
    registry
        .write(&SshWriteInput { session_id: "s1".into(), data_base64: "bHM=".into() })
        .unwrap();
    match rx.try_recv().unwrap() {
        SessionCommand::Write(bytes) => assert_eq!(bytes, b"ls".to_vec()),
        other => panic!("unexpected command {other:?}"),
    }
}

#[test]
fn unknown_sessions_are_refused() {
    let mut registry = SessionRegistry::new();
    let e = registry.send_command("nope", SessionCommand::Disconnect).unwrap_err();
    assert_eq!(e.code, AppErrorCode::SessionNotFound);
    assert_eq!(e.message, "Session not found");
}

#[test]
fn invalid_input_is_refused_before_lookup() {
    let mut registry = SessionRegistry::new();
    let e = registry
        .write(&SshWriteInput { session_id: "nope".into(), data_base64: "***".into() })
        .unwrap_err();
    assert_eq!(e.code, AppErrorCode::IoError);
    assert_eq!(e.message, "Invalid base64 input");
}

#[test]
fn a_session_whose_worker_is_gone_is_dropped() {
    let mut registry = SessionRegistry::new();
    let (h, rx) = handle("s1", "h1");
    registry.insert(h);
    drop(rx);
    let e = registry.send_command("s1", SessionCommand::Disconnect).unwrap_err();
    assert_eq!(e.code, AppErrorCode::SessionClosed);
    assert_eq!(e.message, "Session command channel is closed");
    assert!(!e.retryable);
    assert!(!registry.contains("s1"));
}

#[test]
fn a_disconnected_session_refuses_later_commands() {
    let mut registry = SessionRegistry::new();
    let (h, rx) = handle("s1", "h1");
    registry.insert(h);
    registry.disconnect(&SshDisconnectInput { session_id: "s1".into() }).unwrap();
    assert!(matches!(rx.try_recv().unwrap(), SessionCommand::Disconnect));
    assert!(rx.try_recv().is_err());
    assert!(!registry.contains("s1"));
    let e = registry
        .resize(&SshResizeInput { session_id: "s1".into(), cols: 1, rows: 1 })
        .unwrap_err();
    assert_eq!(e.code, AppErrorCode::SessionNotFound);
    assert_eq!(e.message, "Session not found");
    assert!(e.details.is_none());
    assert!(!e.retryable);
    let e = registry.disconnect(&SshDisconnectInput { session_id: "s1".into() }).unwrap_err();
    assert_eq!(e.code, AppErrorCode::SessionNotFound);
    assert_eq!(e.message, "Session not found");
    assert!(e.details.is_none());
    assert!(!e.retryable);
}

#[test]
fn removing_keeps_the_other_sessions() {
    let mut registry = SessionRegistry::new();
    let (a, _ra) = handle("a", "h1");
    let (b, _rb) = handle("b", "h2");
    let (c, _rc) = handle("c", "h3");
    registry.insert(a);
    registry.insert(b);
    registry.insert(c);
    registry.remove("b");
    assert!(registry.contains("a"));
    assert!(!registry.contains("b"));
    assert_eq!(registry.host_of("c"), Some("h3".to_string()));
}

#[test]
fn command_names() {
    assert_eq!(session_command_name(&SessionCommand::Write(vec![1])), "write");
    assert_eq!(session_command_name(&SessionCommand::Resize { cols: 1, rows: 2 }), "resize");
    assert_eq!(session_command_name(&SessionCommand::Disconnect), "disconnect");
}

#[test]
fn settling_a_send_by_whether_the_worker_took_it() {
    let mut registry = SessionRegistry::new();
    let (h, _rx) = handle("s1", "h1");
    assert!(registry.settle_send(h, true).is_ok());
    assert!(registry.contains("s1"));
    let taken = registry.remove("s1").unwrap();
    assert_eq!(taken.host_id, "h1");
    let e = registry.settle_send(taken, false).unwrap_err();
    assert_eq!(e.code, AppErrorCode::SessionClosed);
    assert!(!registry.contains("s1"));
    assert!(registry.remove("s1").is_none());
}

#[test]
fn each_command_reaches_its_own_session_in_order() {
    let mut registry = SessionRegistry::new();
    let (a, ra) = handle("a", "h1");
    let (b, rb) = handle("b", "h2");
    registry.insert(a);
    registry.insert(b);
    registry.resize(&SshResizeInput { session_id: "a".into(), cols: 10, rows: 5 }).unwrap();
    registry.write(&SshWriteInput { session_id: "b".into(), data_base64: "eA==".into() }).unwrap();
    registry.write(&SshWriteInput { session_id: "a".into(), data_base64: "eQ==".into() }).unwrap();
    assert!(matches!(ra.try_recv().unwrap(), SessionCommand::Resize { cols: 10, rows: 5 }));
    assert!(matches!(ra.try_recv().unwrap(), SessionCommand::Write(ref d) if d == b"y"));
    assert!(ra.try_recv().is_err());
    assert!(matches!(rb.try_recv().unwrap(), SessionCommand::Write(ref d) if d == b"x"));
    assert!(rb.try_recv().is_err());
}
