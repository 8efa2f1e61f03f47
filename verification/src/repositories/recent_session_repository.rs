//! The history of sessions: how its rows are written, read and listed.
use vstd::prelude::*;
use vstd::string::StringExecFns;
use crate::contracts::errors::AppErrorCode;
use crate::contracts::host::ConnectionStatus;
use crate::contracts::recent::{ListRecentSessionsInput, RecentSessionDto};
use crate::json::{is_plain_json_literal, is_plain_json_text, json_string_value, parse_json_string};
use crate::repositories::host_repository::{connection_status_from_text};
use crate::text::{contains_seq, ends_with_seq, lemma_contains_middle, lemma_starts_ends, starts_with_seq, str_eq};

verus! {

/// A row of `recent_sessions`.
#[derive(Clone, Debug)]
pub struct RecentSessionRow {
    pub id: String,
    pub host_id: String,
    pub session_id: Option<String>,
    pub started_at: i64,
    pub ended_at: Option<i64>,
    pub status: String,
    pub error_code: Option<String>,
    pub error_message: Option<String>,
    pub duration_seconds: Option<i64>,
}

/// Sessions listed when no limit is given.
pub const DEFAULT_RECENT_LIMIT: u32 = 50;
/// Sessions listed at most.
pub const MAX_RECENT_LIMIT: u32 = 200;

/// Stored name of an error code.
pub open spec fn error_code_name(code: AppErrorCode) -> Seq<char> {
    match code {
        AppErrorCode::HostNotFound => "host_not_found"@,
        AppErrorCode::HostInvalid => "host_invalid"@,
        AppErrorCode::SecretNotFound => "secret_not_found"@,
        AppErrorCode::SecretStoreError => "secret_store_error"@,
        AppErrorCode::AuthFailed => "auth_failed"@,
        AppErrorCode::NetworkUnreachable => "network_unreachable"@,
        AppErrorCode::Timeout => "timeout"@,
        AppErrorCode::SessionNotFound => "session_not_found"@,
        AppErrorCode::SessionClosed => "session_closed"@,
        AppErrorCode::InputBufferFull => "input_buffer_full"@,
        AppErrorCode::IoError => "io_error"@,
        AppErrorCode::DatabaseError => "database_error"@,
        AppErrorCode::Unsupported => "unsupported"@,
        AppErrorCode::Unknown => "unknown"@,
    }
}

/// The error code with this stored name.
pub open spec fn error_code_from_name(s: Seq<char>) -> Option<AppErrorCode> {
    if s == "host_not_found"@ {
        Some(AppErrorCode::HostNotFound)
    } else if s == "host_invalid"@ {
        Some(AppErrorCode::HostInvalid)
    } else if s == "secret_not_found"@ {
        Some(AppErrorCode::SecretNotFound)
    } else if s == "secret_store_error"@ {
        Some(AppErrorCode::SecretStoreError)
    } else if s == "auth_failed"@ {
        Some(AppErrorCode::AuthFailed)
    } else if s == "network_unreachable"@ {
        Some(AppErrorCode::NetworkUnreachable)
    } else if s == "timeout"@ {
        Some(AppErrorCode::Timeout)
    } else if s == "session_not_found"@ {
        Some(AppErrorCode::SessionNotFound)
    } else if s == "session_closed"@ {
        Some(AppErrorCode::SessionClosed)
    } else if s == "input_buffer_full"@ {
        Some(AppErrorCode::InputBufferFull)
    } else if s == "io_error"@ {
        Some(AppErrorCode::IoError)
    } else if s == "database_error"@ {
        Some(AppErrorCode::DatabaseError)
    } else if s == "unsupported"@ {
        Some(AppErrorCode::Unsupported)
    } else if s == "unknown"@ {
        Some(AppErrorCode::Unknown)
    } else {
        None
    }
}

/// Stored name of an error code.
pub fn app_error_code_to_db(code: AppErrorCode) -> (r: String)
    ensures
        r@ == error_code_name(code),
{
    let name = match code {
        AppErrorCode::HostNotFound => "host_not_found",
        AppErrorCode::HostInvalid => "host_invalid",
        AppErrorCode::SecretNotFound => "secret_not_found",
        AppErrorCode::SecretStoreError => "secret_store_error",
        AppErrorCode::AuthFailed => "auth_failed",
        AppErrorCode::NetworkUnreachable => "network_unreachable",
        AppErrorCode::Timeout => "timeout",
        AppErrorCode::SessionNotFound => "session_not_found",
        AppErrorCode::SessionClosed => "session_closed",
        AppErrorCode::InputBufferFull => "input_buffer_full",
        AppErrorCode::IoError => "io_error",
        AppErrorCode::DatabaseError => "database_error",
        AppErrorCode::Unsupported => "unsupported",
        AppErrorCode::Unknown => "unknown",
    };
    String::from_str(name)
}

fn error_code_from_str(s: &str) -> (r: Option<AppErrorCode>)
    ensures
        r == error_code_from_name(s@),
{
    if str_eq(s, "host_not_found") {
        Some(AppErrorCode::HostNotFound)
    } else if str_eq(s, "host_invalid") {
        Some(AppErrorCode::HostInvalid)
    } else if str_eq(s, "secret_not_found") {
        Some(AppErrorCode::SecretNotFound)
    } else if str_eq(s, "secret_store_error") {
        Some(AppErrorCode::SecretStoreError)
    } else if str_eq(s, "auth_failed") {
        Some(AppErrorCode::AuthFailed)
    } else if str_eq(s, "network_unreachable") {
        Some(AppErrorCode::NetworkUnreachable)
    } else if str_eq(s, "timeout") {
        Some(AppErrorCode::Timeout)
    } else if str_eq(s, "session_not_found") {
        Some(AppErrorCode::SessionNotFound)
    } else if str_eq(s, "session_closed") {
        Some(AppErrorCode::SessionClosed)
    } else if str_eq(s, "input_buffer_full") {
        Some(AppErrorCode::InputBufferFull)
    } else if str_eq(s, "io_error") {
        Some(AppErrorCode::IoError)
    } else if str_eq(s, "database_error") {
        Some(AppErrorCode::DatabaseError)
    } else if str_eq(s, "unsupported") {
        Some(AppErrorCode::Unsupported)
    } else if str_eq(s, "unknown") {
        Some(AppErrorCode::Unknown)
    } else {
        None
    }
}

pub open spec fn quoted(v: Seq<char>) -> Seq<char> {
    seq!['"'] + v + seq!['"']
}

/// A stored error code read the way the interface's error type reads a
/// JSON string: the value in quotes, decoded as JSON, names a code.
pub open spec fn parse_error_code_spec(value: Seq<char>) -> Option<AppErrorCode> {
    match json_string_value(quoted(value)) {
        Some(s) => error_code_from_name(s),
        None => None,
    }
}

/// Reads a stored error code; a name that is not a code gives `None`.
pub fn parse_error_code(value: &str) -> (r: Option<AppErrorCode>)
    ensures
        r == parse_error_code_spec(value@),
        is_plain_json_text(value@) ==> r == error_code_from_name(value@),
{
    proof {
        reveal_strlit("\"");
        assert("\""@ =~= seq!['"']);
    }
    let text = String::from_str("\"").concat(value).concat("\"");
    proof {
        assert(text@ =~= quoted(value@));
        if is_plain_json_text(value@) {
            assert(text@.subrange(1, text@.len() - 1) =~= value@);
            assert(is_plain_json_literal(text@));
        }
    }
    match parse_json_string(text.as_str()) {
        Ok(s) => error_code_from_str(s.as_str()),
        Err(_) => None,
    }
}

/// Reads a stored status; any other text reads as disconnected.
pub fn parse_connection_status_or_disconnected(value: &str) -> (r: ConnectionStatus)
    ensures
        r == (match connection_status_from_text(value@) {
            Some(s) => s,
            None => ConnectionStatus::Disconnected,
        }),
{
    if str_eq(value, "connected") {
        ConnectionStatus::Connected
    } else if str_eq(value, "disconnected") {
        ConnectionStatus::Disconnected
    } else if str_eq(value, "failed") {
        ConnectionStatus::Failed
    } else if str_eq(value, "auth_failed") {
        ConnectionStatus::AuthFailed
    } else if str_eq(value, "timeout") {
        ConnectionStatus::Timeout
    } else if str_eq(value, "network_error") {
        ConnectionStatus::NetworkError
    } else {
        ConnectionStatus::Disconnected
    }
}

/// What the interface sees of a history row.
pub fn recent_session_dto(row: RecentSessionRow) -> (r: RecentSessionDto)
    ensures
        r.id == row.id,
        r.host_id == row.host_id,
        r.session_id == row.session_id,
        r.started_at == row.started_at,
        r.ended_at == row.ended_at,
        r.status == (match connection_status_from_text(row.status@) {
            Some(s) => s,
            None => ConnectionStatus::Disconnected,
        }),
        r.error_code == (match row.error_code {
            Some(c) => parse_error_code_spec(c@),
            None => None,
        }),
        r.error_message == row.error_message,
        r.duration_seconds == row.duration_seconds,
{
    let status = parse_connection_status_or_disconnected(row.status.as_str());
    let error_code = match &row.error_code {
        Some(c) => parse_error_code(c.as_str()),
        None => None,
    };
    RecentSessionDto {
        id: row.id,
        host_id: row.host_id,
        session_id: row.session_id,
        started_at: row.started_at,
        ended_at: row.ended_at,
        status,
        error_code,
        error_message: row.error_message,
        duration_seconds: row.duration_seconds,
    }
}

/// How many sessions to list: the limit asked for (50 when none is given)
/// brought into 1 to 200.
pub open spec fn recent_limit_spec(input: Option<ListRecentSessionsInput>) -> u32 {
    let asked = match input {
        Some(i) => match i.limit {
            Some(l) => l,
            None => DEFAULT_RECENT_LIMIT,
        },
        None => DEFAULT_RECENT_LIMIT,
    };
    if asked < 1 {
        1
    } else if asked > MAX_RECENT_LIMIT {
        MAX_RECENT_LIMIT
    } else {
        asked
    }
}

/// The statement that lists the history, newest first, and the values of
/// its placeholders: the host (when one is asked for), then the limit.
#[derive(Clone, Debug)]
pub struct RecentSessionsQuery {
    pub sql: String,
    pub host_id: Option<String>,
    pub limit: i64,
}

pub open spec fn recent_sessions_sql(for_host: bool) -> Seq<char> {
    "SELECT id, host_id, session_id, started_at, ended_at, status, error_code, error_message, duration_seconds FROM recent_sessions"@
        + (if for_host { " WHERE host_id = ?"@ } else { Seq::<char>::empty() })
        + " ORDER BY started_at DESC LIMIT ?"@
}

pub fn recent_sessions_query(input: Option<ListRecentSessionsInput>) -> (r: RecentSessionsQuery)
    ensures
        r.limit == recent_limit_spec(input) as i64,
        r.host_id == (match input {
            Some(i) => i.host_id,
            None => None,
        }),
        r.sql@ == recent_sessions_sql(r.host_id is Some),
{
    let (asked, host_id) = match input {
        Some(i) => (
            match i.limit {
                Some(l) => l,
                None => DEFAULT_RECENT_LIMIT,
            },
            i.host_id,
        ),
        None => (DEFAULT_RECENT_LIMIT, None),
    };
    let limit = if asked < 1 {
        1
    } else if asked > MAX_RECENT_LIMIT {
        MAX_RECENT_LIMIT
    } else {
        asked
    };
    let mut sql = String::from_str(
        "SELECT id, host_id, session_id, started_at, ended_at, status, error_code, error_message, duration_seconds FROM recent_sessions",
    );
    if host_id.is_some() {
        sql.append(" WHERE host_id = ?");
    }
    sql.append(" ORDER BY started_at DESC LIMIT ?");
    proof {
        assert(sql@ =~= recent_sessions_sql(host_id is Some));
    }
    RecentSessionsQuery { sql, host_id, limit: limit as i64 }
}

/// The values a finished session's row gets: its length in whole seconds
/// (never negative) and the stored name of its error code.
pub fn finished_session_values(started_at: i64, ended_at: i64, error_code: Option<AppErrorCode>) -> (r: (Option<i64>, Option<String>))
    requires
        i64::MIN <= ended_at - started_at <= i64::MAX,
    ensures
        r.0 == Some(((if ended_at - started_at > 0 { ended_at - started_at } else { 0 }) / 1000) as i64),
        match error_code {
            Some(c) => r.1 matches Some(s) && s@ == error_code_name(c),
            None => r.1 is None,
        },
{
    let elapsed = ended_at - started_at;
    let clamped = if elapsed > 0 { elapsed } else { 0 };
    let code = match error_code {
        Some(c) => Some(app_error_code_to_db(c)),
        None => None,
    };
    (Some(clamped / 1000), code)
}


/// An error code as stored reads back as that code: its stored name needs
/// no escaping inside a JSON string, so `parse_error_code` takes it as it
/// is, and the name is that of the code.
pub proof fn law_error_code_round_trip(c: AppErrorCode)
    ensures
        is_plain_json_text(error_code_name(c)),
        error_code_from_name(error_code_name(c)) == Some(c),
{
    reveal_strlit("host_not_found");
    reveal_strlit("host_invalid");
    reveal_strlit("secret_not_found");
    reveal_strlit("secret_store_error");
    reveal_strlit("auth_failed");
    reveal_strlit("network_unreachable");
    reveal_strlit("timeout");
    reveal_strlit("session_not_found");
    reveal_strlit("session_closed");
    reveal_strlit("input_buffer_full");
    reveal_strlit("io_error");
    reveal_strlit("database_error");
    reveal_strlit("unsupported");
    reveal_strlit("unknown");
    match c {
        AppErrorCode::HostNotFound => {

        },
        AppErrorCode::HostInvalid => {
            assert("host_invalid"@.len() != "host_not_found"@.len());
        },
        AppErrorCode::SecretNotFound => {
            assert("secret_not_found"@.len() != "host_not_found"@.len());
            assert("secret_not_found"@.len() != "host_invalid"@.len());
        },
        AppErrorCode::SecretStoreError => {
            assert("secret_store_error"@.len() != "host_not_found"@.len());
            assert("secret_store_error"@.len() != "host_invalid"@.len());
            assert("secret_store_error"@.len() != "secret_not_found"@.len());
        },
        AppErrorCode::AuthFailed => {
            assert("auth_failed"@.len() != "host_not_found"@.len());
            assert("auth_failed"@.len() != "host_invalid"@.len());
            assert("auth_failed"@.len() != "secret_not_found"@.len());
            assert("auth_failed"@.len() != "secret_store_error"@.len());
        },
        AppErrorCode::NetworkUnreachable => {
            assert("network_unreachable"@.len() != "host_not_found"@.len());
            assert("network_unreachable"@.len() != "host_invalid"@.len());
            assert("network_unreachable"@.len() != "secret_not_found"@.len());
            assert("network_unreachable"@.len() != "secret_store_error"@.len());
            assert("network_unreachable"@.len() != "auth_failed"@.len());
        },
        AppErrorCode::Timeout => {
            assert("timeout"@.len() != "host_not_found"@.len());
            assert("timeout"@.len() != "host_invalid"@.len());
            assert("timeout"@.len() != "secret_not_found"@.len());
            assert("timeout"@.len() != "secret_store_error"@.len());
            assert("timeout"@.len() != "auth_failed"@.len());
            assert("timeout"@.len() != "network_unreachable"@.len());
        },
        AppErrorCode::SessionNotFound => {
            assert("session_not_found"@.len() != "host_not_found"@.len());
            assert("session_not_found"@.len() != "host_invalid"@.len());
            assert("session_not_found"@.len() != "secret_not_found"@.len());
            assert("session_not_found"@.len() != "secret_store_error"@.len());
            assert("session_not_found"@.len() != "auth_failed"@.len());
            assert("session_not_found"@.len() != "network_unreachable"@.len());
            assert("session_not_found"@.len() != "timeout"@.len());
        },
        AppErrorCode::SessionClosed => {
            assert("session_closed"@[0] != "host_not_found"@[0]);
            assert("session_closed"@.len() != "host_invalid"@.len());
            assert("session_closed"@.len() != "secret_not_found"@.len());
            assert("session_closed"@.len() != "secret_store_error"@.len());
            assert("session_closed"@.len() != "auth_failed"@.len());
            assert("session_closed"@.len() != "network_unreachable"@.len());
            assert("session_closed"@.len() != "timeout"@.len());
            assert("session_closed"@.len() != "session_not_found"@.len());
        },
        AppErrorCode::InputBufferFull => {
            assert("input_buffer_full"@.len() != "host_not_found"@.len());
            assert("input_buffer_full"@.len() != "host_invalid"@.len());
            assert("input_buffer_full"@.len() != "secret_not_found"@.len());
            assert("input_buffer_full"@.len() != "secret_store_error"@.len());
            assert("input_buffer_full"@.len() != "auth_failed"@.len());
            assert("input_buffer_full"@.len() != "network_unreachable"@.len());
            assert("input_buffer_full"@.len() != "timeout"@.len());
            assert("input_buffer_full"@[0] != "session_not_found"@[0]);
            assert("input_buffer_full"@.len() != "session_closed"@.len());
        },
        AppErrorCode::IoError => {
            assert("io_error"@.len() != "host_not_found"@.len());
            assert("io_error"@.len() != "host_invalid"@.len());
            assert("io_error"@.len() != "secret_not_found"@.len());
            assert("io_error"@.len() != "secret_store_error"@.len());
            assert("io_error"@.len() != "auth_failed"@.len());
            assert("io_error"@.len() != "network_unreachable"@.len());
            assert("io_error"@.len() != "timeout"@.len());
            assert("io_error"@.len() != "session_not_found"@.len());
            assert("io_error"@.len() != "session_closed"@.len());
            assert("io_error"@.len() != "input_buffer_full"@.len());
        },
        AppErrorCode::DatabaseError => {
            assert("database_error"@[0] != "host_not_found"@[0]);
            assert("database_error"@.len() != "host_invalid"@.len());
            assert("database_error"@.len() != "secret_not_found"@.len());
            assert("database_error"@.len() != "secret_store_error"@.len());
            assert("database_error"@.len() != "auth_failed"@.len());
            assert("database_error"@.len() != "network_unreachable"@.len());
            assert("database_error"@.len() != "timeout"@.len());
            assert("database_error"@.len() != "session_not_found"@.len());
            assert("database_error"@[0] != "session_closed"@[0]);
            assert("database_error"@.len() != "input_buffer_full"@.len());
            assert("database_error"@.len() != "io_error"@.len());
        },
        AppErrorCode::Unsupported => {
            assert("unsupported"@.len() != "host_not_found"@.len());
            assert("unsupported"@.len() != "host_invalid"@.len());
            assert("unsupported"@.len() != "secret_not_found"@.len());
            assert("unsupported"@.len() != "secret_store_error"@.len());
            assert("unsupported"@[0] != "auth_failed"@[0]);
            assert("unsupported"@.len() != "network_unreachable"@.len());
            assert("unsupported"@.len() != "timeout"@.len());
            assert("unsupported"@.len() != "session_not_found"@.len());
            assert("unsupported"@.len() != "session_closed"@.len());
            assert("unsupported"@.len() != "input_buffer_full"@.len());
            assert("unsupported"@.len() != "io_error"@.len());
            assert("unsupported"@.len() != "database_error"@.len());
        },
        AppErrorCode::Unknown => {
            assert("unknown"@.len() != "host_not_found"@.len());
            assert("unknown"@.len() != "host_invalid"@.len());
            assert("unknown"@.len() != "secret_not_found"@.len());
            assert("unknown"@.len() != "secret_store_error"@.len());
            assert("unknown"@.len() != "auth_failed"@.len());
            assert("unknown"@.len() != "network_unreachable"@.len());
            assert("unknown"@[0] != "timeout"@[0]);
            assert("unknown"@.len() != "session_not_found"@.len());
            assert("unknown"@.len() != "session_closed"@.len());
            assert("unknown"@.len() != "input_buffer_full"@.len());
            assert("unknown"@.len() != "io_error"@.len());
            assert("unknown"@.len() != "database_error"@.len());
            assert("unknown"@.len() != "unsupported"@.len());
        },
    }
    let n = error_code_name(c);
    assert forall|i: int| 0 <= i < n.len() implies #[trigger] n[i] != '"' && n[i] != '\\' && (n[i] as u32) >= 0x20 by {
        assert(('a' <= n[i] && n[i] <= 'z') || n[i] == '_');
    }
}

/// The history lists as many sessions as are asked for whenever that is
/// between 1 and 200; fewer than 1 lists one, more than 200 lists 200, and
/// no limit (or no input at all) lists 50.  Every limit lies in 1..=200,
/// and asking for more never lists fewer.
pub proof fn law_recent_limit_is_clamped(asked: u32, more: u32, host_id: Option<String>)
    ensures
        1 <= asked <= 200 ==> recent_limit_spec(Some(ListRecentSessionsInput { limit: Some(asked), host_id })) == asked,
        asked < 1 ==> recent_limit_spec(Some(ListRecentSessionsInput { limit: Some(asked), host_id })) == 1,
        asked > 200 ==> recent_limit_spec(Some(ListRecentSessionsInput { limit: Some(asked), host_id })) == 200,
        recent_limit_spec(Some(ListRecentSessionsInput { limit: None, host_id })) == 50,
        recent_limit_spec(None) == 50,
        1 <= recent_limit_spec(Some(ListRecentSessionsInput { limit: Some(asked), host_id })) <= 200,
        asked <= more ==> recent_limit_spec(Some(ListRecentSessionsInput { limit: Some(asked), host_id }))
            <= recent_limit_spec(Some(ListRecentSessionsInput { limit: Some(more), host_id })),
{
}

/// The history statement reads the sessions from `recent_sessions`, keeps
/// those of the host when one is asked for (and all otherwise), and ends by
/// ordering them by start time, newest first, before taking the limit: the
/// sessions listed are the most recently started ones, newest first.
pub proof fn law_recent_sessions_newest_first(for_host: bool)
    ensures
        starts_with_seq(
            recent_sessions_sql(for_host),
            "SELECT id, host_id, session_id, started_at, ended_at, status, error_code, error_message, duration_seconds FROM recent_sessions"@,
        ),
        ends_with_seq(recent_sessions_sql(for_host), " ORDER BY started_at DESC LIMIT ?"@),
        for_host ==> contains_seq(recent_sessions_sql(for_host), " WHERE host_id = ?"@),
        !for_host ==> recent_sessions_sql(for_host)
            == "SELECT id, host_id, session_id, started_at, ended_at, status, error_code, error_message, duration_seconds FROM recent_sessions"@
            + " ORDER BY started_at DESC LIMIT ?"@,
{
    let select = "SELECT id, host_id, session_id, started_at, ended_at, status, error_code, error_message, duration_seconds FROM recent_sessions"@;
    let filter = if for_host { " WHERE host_id = ?"@ } else { Seq::<char>::empty() };
    let order = " ORDER BY started_at DESC LIMIT ?"@;
    assert(recent_sessions_sql(for_host) == select + filter + order);
    assert(select + filter + order =~= select + (filter + order));
    lemma_starts_ends(select, filter + order);
    lemma_starts_ends(select + filter, order);
    lemma_contains_middle(select, filter, order);
    if !for_host {
        assert(select + filter + order =~= select + order);
    }
}

} // verus!
