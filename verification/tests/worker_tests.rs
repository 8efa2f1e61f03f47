use wmcssh::contracts::errors::{AppErrorCode, AppErrorDto};
use wmcssh::contracts::ssh::{SessionStatus, SshClosedReason};
use wmcssh::ssh::types::SessionCommand;
use wmcssh::ssh::worker::{
    drain_outcome, is_retryable_io_error, is_retryable_ssh_error, is_transport_read_error,
    recent_status_for_error, remote_closed_end, resize_decision, setup_error, user_disconnect_end,
    worker_error_end, CommandAction, IdleAction, IoFailure, IoFailureKind, PendingInput,
    ReadAction, ReadOutcome, ResizeDecision, ResizeOutcome, SessionLoop, SetupStep, WaitAction,
    WaitOutcome, WriteOutcome, MAX_PENDING_INPUT_BYTES, MAX_RESIZE_RETRY_ATTEMPTS,
    MAX_TRANSIENT_READ_ERRORS,
};

fn failure(kind: IoFailureKind, message: &str) -> IoFailure {
    IoFailure { kind, message: message.into() }
}

#[test]
fn retryable_io_errors_by_kind_or_text() {
    assert!(is_retryable_io_error(&failure(IoFailureKind::WouldBlock, "")));
    assert!(is_retryable_io_error(&failure(IoFailureKind::Interrupted, "")));
    assert!(is_retryable_io_error(&failure(IoFailureKind::Other, "Resource temporarily unavailable")));
    assert!(is_retryable_io_error(&failure(IoFailureKind::Other, "EAGAIN")));
    assert!(is_retryable_io_error(&failure(IoFailureKind::Other, "Draining incoming flow")));
    assert!(!is_retryable_io_error(&failure(IoFailureKind::Other, "broken pipe")));
    assert!(is_transport_read_error(&failure(IoFailureKind::Other, "Transport read failed")));
    assert!(!is_transport_read_error(&failure(IoFailureKind::Other, "transport write")));
    assert!(is_retryable_ssh_error(Some(-37)));
    assert!(is_retryable_ssh_error(Some(-9)));
    assert!(!is_retryable_ssh_error(Some(-1)));
    assert!(!is_retryable_ssh_error(None));
}

#[test]
fn pending_input_is_written_in_order_in_chunks() {
    let mut p = PendingInput::new();
    assert!(p.is_empty());
    p.enqueue(vec![1u8; 300]).unwrap();
    p.enqueue(vec![2, 3]).unwrap();
    assert_eq!(p.bytes(), 302);
    assert_eq!(p.next_write().len(), 256);
    assert_eq!(p.process_step(Some(WriteOutcome::Wrote(256))).unwrap(), true);
    assert_eq!(p.bytes(), 46);
    assert_eq!(p.next_write(), &[1u8; 44][..]);
    assert_eq!(p.process_step(Some(WriteOutcome::Wrote(44))).unwrap(), false);
    assert_eq!(p.next_write(), &[2, 3][..]);
    let retry = WriteOutcome::Error(failure(IoFailureKind::WouldBlock, "would block"));
    assert_eq!(p.process_step(Some(retry)).unwrap(), true);
    assert_eq!(p.bytes(), 2);
    assert_eq!(p.process_step(Some(WriteOutcome::Wrote(2))).unwrap(), false);
    assert!(p.is_empty());
    assert_eq!(p.bytes(), 0);
}

#[test]
fn pending_input_refuses_overflow() {
    let mut p = PendingInput::new();
    p.enqueue(vec![0u8; MAX_PENDING_INPUT_BYTES]).unwrap();
    let e = p.enqueue(vec![0u8; 1]).unwrap_err();
    assert_eq!(e.code, AppErrorCode::InputBufferFull);
    assert_eq!(e.message, "SSH write backpressure exceeded");
    assert_eq!(e.details.as_deref(), Some("pending_input_bytes=4194305"));
    assert!(e.retryable);
    assert_eq!(p.bytes(), MAX_PENDING_INPUT_BYTES);
}

#[test]
fn failed_writes() {
    let mut p = PendingInput::new();
    p.enqueue(vec![9]).unwrap();
    let e = p.process_step(Some(WriteOutcome::Wrote(0))).unwrap_err();
    assert_eq!(e.message, "SSH channel write returned zero bytes");
    let mut p = PendingInput::new();
    p.enqueue(vec![9]).unwrap();
    let e = p
        .process_step(Some(WriteOutcome::Error(failure(IoFailureKind::Other, "broken pipe"))))
        .unwrap_err();
    assert_eq!(e.message, "Failed to write SSH input");
    assert_eq!(e.details.as_deref(), Some("broken pipe"));
    let mut p = PendingInput::new();
    p.enqueue(vec![]).unwrap();
    assert_eq!(p.process_step(None).unwrap(), false);
    assert!(p.is_empty());
}

#[test]
fn reads_and_transport_errors() {
    let mut l = SessionLoop::new();
    assert!(matches!(l.on_read(ReadOutcome::Data(5), false), ReadAction::Forward(5)));
    assert!(matches!(l.on_read(ReadOutcome::Closed, false), ReadAction::RemoteClosed));
    let transport = || ReadOutcome::Error(failure(IoFailureKind::Other, "transport read"));
    match l.on_read(transport(), false) {
        ReadAction::Transient { log, keepalive, idle } => {
            assert!(log);
            assert!(!keepalive);
            assert!(matches!(idle, IdleAction::WaitForCommand));
        }
        other => panic!("unexpected {other:?}"),
    }
    for _ in 1..199 {
        l.on_read(transport(), true);
    }
    match l.on_read(transport(), true) {
        ReadAction::Transient { log, keepalive, idle } => {
            assert!(log && keepalive);
            assert!(matches!(idle, IdleAction::Sleep));
        }
        other => panic!("unexpected {other:?}"),
    }
    assert_eq!(l.transient_read_errors(), 200);
    for _ in 200..(MAX_TRANSIENT_READ_ERRORS - 1) {
        l.on_read(transport(), true);
    }
    match l.on_read(transport(), true) {
        ReadAction::Fatal { error, message } => {
            assert_eq!(error.message, "Failed to read SSH output");
            assert_eq!(message, "transport read");
        }
        other => panic!("unexpected {other:?}"),
    }
}

#[test]
fn data_ends_a_run_of_transport_errors() {
    let mut l = SessionLoop::new();
    l.on_read(ReadOutcome::Error(failure(IoFailureKind::Other, "transport read")), true);
    assert_eq!(l.transient_read_errors(), 1);
    l.on_read(ReadOutcome::Data(1), true);
    assert_eq!(l.transient_read_errors(), 0);
    match l.on_read(ReadOutcome::Error(failure(IoFailureKind::TimedOut, "")), true) {
        ReadAction::Retry { idle } => assert!(matches!(idle, IdleAction::Continue)),
        other => panic!("unexpected {other:?}"),
    }
    assert!(matches!(
        l.on_read(ReadOutcome::Error(failure(IoFailureKind::Other, "reset")), true),
        ReadAction::Fatal { .. }
    ));
}

#[test]
fn commands_and_waiting() {
    let mut l = SessionLoop::new();
    assert_eq!(l.accept_command(SessionCommand::Write(vec![1, 2])).unwrap(), CommandAction::Continue);
    assert!(l.has_pending_input());
    assert_eq!(l.pending_bytes(), 2);
    assert_eq!(
        l.accept_command(SessionCommand::Resize { cols: 100, rows: 30 }).unwrap(),
        CommandAction::Resize { cols: 100, rows: 30 }
    );
    assert_eq!(l.accept_command(SessionCommand::Disconnect).unwrap(), CommandAction::Disconnect);
    assert!(matches!(l.on_wait(WaitOutcome::Timeout), WaitAction::Nothing));
    assert!(matches!(l.on_wait(WaitOutcome::Command(SessionCommand::Disconnect)), WaitAction::Handle(_)));
    assert!(!l.command_queue_closed());
    assert!(matches!(l.on_wait(WaitOutcome::Disconnected), WaitAction::QueueClosed));
    assert!(l.command_queue_closed());
}

#[test]
fn draining_output() {
    assert_eq!(drain_outcome(ReadOutcome::Data(3)).unwrap(), true);
    assert_eq!(drain_outcome(ReadOutcome::Closed).unwrap(), false);
    assert_eq!(drain_outcome(ReadOutcome::Error(failure(IoFailureKind::WouldBlock, ""))).unwrap(), false);
    let e = drain_outcome(ReadOutcome::Error(failure(IoFailureKind::Other, "boom"))).unwrap_err();
    assert_eq!(e.message, "Failed while draining SSH output");
}

#[test]
fn resize_retries_then_gives_up() {
    let mut attempts = 0usize;
    assert!(matches!(resize_decision(&mut attempts, ResizeOutcome::Done), ResizeDecision::Finished));
    let busy = || ResizeOutcome::Failed { session_code: Some(-37), message: "would block".into() };
    for _ in 1..MAX_RESIZE_RETRY_ATTEMPTS {
        assert!(matches!(resize_decision(&mut attempts, busy()), ResizeDecision::RetryAfterDelay));
    }
    assert!(matches!(resize_decision(&mut attempts, busy()), ResizeDecision::GiveUp));
    let mut attempts = 0usize;
    match resize_decision(&mut attempts, ResizeOutcome::Failed { session_code: Some(-7), message: "bad".into() }) {
        ResizeDecision::Fail(e) => assert_eq!(e.message, "Failed to resize PTY"),
        other => panic!("unexpected {other:?}"),
    }
}

#[test]
fn how_sessions_end() {
    let e = user_disconnect_end();
    assert_eq!(e.recent_status, "disconnected");
    assert_eq!(e.closed_reason, SshClosedReason::UserDisconnect);
    assert!(matches!(e.status, Some((SessionStatus::Disconnected, ref m)) if m == "Disconnected"));
    let e = remote_closed_end();
    assert_eq!(e.recent_message, "Remote closed");
    assert_eq!(e.closed_reason, SshClosedReason::RemoteClosed);
    let error = AppErrorDto::new(AppErrorCode::AuthFailed, "denied", false);
    let e = worker_error_end(&error);
    assert_eq!(e.recent_status, "auth_failed");
    assert_eq!(e.recent_code, Some(AppErrorCode::AuthFailed));
    assert!(e.report_error);
    assert!(e.status.is_none());
    for (code, status) in [
        (AppErrorCode::Timeout, "timeout"),
        (AppErrorCode::NetworkUnreachable, "network_error"),
        (AppErrorCode::IoError, "failed"),
    ] {
        assert_eq!(recent_status_for_error(&AppErrorDto::new(code, "x", true)), status);
    }
}

#[test]
fn setup_failures() {
    let e = setup_error(SetupStep::RequestPty, "denied");
    assert_eq!(e.code, AppErrorCode::IoError);
    assert_eq!(e.message, "Failed to request PTY");
    assert!(e.retryable);
    assert_eq!(setup_error(SetupStep::WriteStartupNewline, "").message, "Failed to write startup command newline");
}

#[test]
fn an_empty_queue_writes_nothing() {
    let mut p = PendingInput::new();
    assert_eq!(p.process_step(None).unwrap(), false);
    assert!(p.is_empty());
    assert_eq!(p.bytes(), 0);
    let mut l = SessionLoop::new();
    assert_eq!(l.process_pending_step(None).unwrap(), false);
    assert!(!l.has_pending_input());
}
