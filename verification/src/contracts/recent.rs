//! The history of sessions.
use vstd::prelude::*;
use crate::contracts::errors::AppErrorCode;
use crate::contracts::host::ConnectionStatus;

verus! {

#[derive(Clone, Debug)]
pub struct RecentSessionDto {
    pub id: String,
    pub host_id: String,
    pub session_id: Option<String>,
    pub started_at: i64,
    pub ended_at: Option<i64>,
    pub status: ConnectionStatus,
    pub error_code: Option<AppErrorCode>,
    pub error_message: Option<String>,
    pub duration_seconds: Option<i64>,
}

#[derive(Clone, Debug)]
pub struct ListRecentSessionsInput {
    pub limit: Option<u32>,
    pub host_id: Option<String>,
}

#[derive(Clone, Debug)]
pub struct ListRecentSessionsResult {
    pub sessions: Vec<RecentSessionDto>,
}

} // verus!
