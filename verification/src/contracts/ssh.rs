//! Interactive session inputs, results and events.
use vstd::prelude::*;
use crate::contracts::errors::AppErrorDto;

verus! {

#[derive(Clone, Copy, Debug, PartialEq, Eq, Structural)]
pub enum SessionStatus {
    Connecting,
    Connected,
    Reconnecting,
    Disconnected,
    Closing,
    Error,
}

#[derive(Clone, Debug)]
pub struct SshConnectInput {
    pub host_id: String,
    pub initial_cols: u16,
    pub initial_rows: u16,
}

#[derive(Clone, Debug)]
pub struct SshConnectResult {
    pub session_id: String,
}

#[derive(Clone, Debug)]
pub struct SshWriteInput {
    pub session_id: String,
    pub data_base64: String,
}

#[derive(Clone, Debug)]
pub struct SshResizeInput {
    pub session_id: String,
    pub cols: u16,
    pub rows: u16,
}

#[derive(Clone, Debug)]
pub struct SshDisconnectInput {
    pub session_id: String,
}

/// Terminal output of a session, Base64 encoded.
#[derive(Clone, Debug)]
pub enum SshDataEvent {
    Data { session_id: String, data_base64: String },
}

#[derive(Clone, Debug)]
pub struct SshStatusPayload {
    pub session_id: String,
    pub host_id: String,
    pub status: SessionStatus,
    pub message: Option<String>,
    pub at: i64,
}

#[derive(Clone, Copy, Debug, PartialEq, Eq, Structural)]
pub enum SshClosedReason {
    UserDisconnect,
    RemoteClosed,
    NetworkError,
    WorkerError,
    Unknown,
}

#[derive(Clone, Debug)]
pub struct SshClosedPayload {
    pub session_id: String,
    pub host_id: String,
    pub reason: SshClosedReason,
    pub message: Option<String>,
    pub at: i64,
}

#[derive(Clone, Debug)]
pub struct SshErrorPayload {
    pub session_id: String,
    pub host_id: Option<String>,
    pub error: AppErrorDto,
    pub at: i64,
}

} // verus!
