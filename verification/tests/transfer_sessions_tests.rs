use wmcssh::contracts::errors::AppErrorCode;
use wmcssh::services::transfer_sessions::{TransferSession, TransferSessions};

fn session(id: &str, host: &str, connection: u32) -> TransferSession<u32> {
    TransferSession { transfer_session_id: id.into(), host_id: host.into(), connection }
}

#[test]
fn transfer_sessions_are_found_by_id() {
    let mut sessions = TransferSessions::new();
    sessions.insert(session("t1", "h1", 1));
    sessions.insert(session("t2", "h2", 2));
    assert!(sessions.contains("t1"));
    let found = sessions.get("t2").unwrap();
    assert_eq!(found.host_id, "h2");
    assert_eq!(found.connection, 2);
    let e = sessions.get("t9").err().unwrap();
    assert_eq!(e.code, AppErrorCode::SessionNotFound);
    assert_eq!(e.message, "Session not found");
    assert!(!e.retryable);
}

#[test]
fn reopening_an_id_replaces_the_session() {
    let mut sessions = TransferSessions::new();
    sessions.insert(session("t1", "h1", 1));
    sessions.insert(session("t1", "h3", 3));
    let found = sessions.get("t1").unwrap();
    assert_eq!(found.host_id, "h3");
    assert_eq!(found.connection, 3);
}

#[test]
fn a_closed_transfer_session_is_no_longer_found() {
    let mut sessions = TransferSessions::new();
    sessions.insert(session("t1", "h1", 1));
    sessions.insert(session("t2", "h2", 2));
    let closed = sessions.remove("t1").unwrap();
    assert_eq!(closed.connection, 1);
    assert_eq!(sessions.get("t1").err().unwrap().code, AppErrorCode::SessionNotFound);
    assert_eq!(sessions.get("t2").unwrap().connection, 2);
    assert!(sessions.remove("t1").is_none());
}
