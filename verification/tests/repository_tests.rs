use wmcssh::contracts::errors::AppErrorCode;
use wmcssh::contracts::host::{AuthType, ConnectionStatus, HostFilter};
use wmcssh::contracts::recent::ListRecentSessionsInput;
use wmcssh::repositories::host_repository::{
    auth_type_to_str, build_list_hosts_query, host_dto_from_record, host_dtos_from_records,
    latest_recent_sessions_sql, parse_auth_type, parse_connection_status, placeholder_list,
    recent_for_host, tags_for_host, tags_for_hosts_sql, to_db_i64, HostRecord, HostTagRow,
    RecentSessionHostRow,
};
use wmcssh::repositories::recent_session_repository::{
    app_error_code_to_db, finished_session_values, parse_connection_status_or_disconnected,
    parse_error_code, recent_session_dto, recent_sessions_query, RecentSessionRow,
};

fn record(id: &str) -> HostRecord {
    HostRecord {
        id: id.into(),
        name: "n".into(),
        hostname: "h".into(),
        port: 2222,
        username: "u".into(),
        auth_type: "password".into(),
        password_ref: Some(format!("host:{id}:password")),
        private_key_path: None,
        private_key_ref: None,
        passphrase_ref: None,
        group_id: None,
        startup_command: None,
        terminal_theme: None,
        connect_timeout_ms: 10000,
        keepalive_interval_secs: 30,
        sort_order: 0,
        created_at: 1,
        updated_at: 2,
    }
}

fn tag_row(host_id: &str, id: &str) -> HostTagRow {
    HostTagRow { host_id: host_id.into(), id: id.into(), name: format!("tag {id}"), color: None, created_at: 0, updated_at: 0 }
}

#[test]
fn auth_types_and_statuses_round_trip() {
    for a in [AuthType::Password, AuthType::PrivateKey] {
        assert_eq!(parse_auth_type(auth_type_to_str(&a)).unwrap(), a);
    }
    let e = parse_auth_type("PASSWORD").unwrap_err();
    assert_eq!(e.code, AppErrorCode::HostInvalid);
    assert_eq!(e.message, "Invalid auth type");
    assert_eq!(parse_connection_status("network_error").unwrap(), ConnectionStatus::NetworkError);
    let e = parse_connection_status("weird").unwrap_err();
    assert_eq!(e.code, AppErrorCode::DatabaseError);
    assert_eq!(parse_connection_status_or_disconnected("weird"), ConnectionStatus::Disconnected);
    assert_eq!(parse_connection_status_or_disconnected("auth_failed"), ConnectionStatus::AuthFailed);
}

#[test]
fn error_codes_round_trip_through_storage() {
    let codes = [
        AppErrorCode::HostNotFound,
        AppErrorCode::HostInvalid,
        AppErrorCode::SecretNotFound,
        AppErrorCode::SecretStoreError,
        AppErrorCode::AuthFailed,
        AppErrorCode::NetworkUnreachable,
        AppErrorCode::Timeout,
        AppErrorCode::SessionNotFound,
        AppErrorCode::SessionClosed,
        AppErrorCode::InputBufferFull,
        AppErrorCode::IoError,
        AppErrorCode::DatabaseError,
        AppErrorCode::Unsupported,
        AppErrorCode::Unknown,
    ];
    for c in codes {
        assert_eq!(parse_error_code(&app_error_code_to_db(c)), Some(c));
    }
    assert_eq!(app_error_code_to_db(AppErrorCode::InputBufferFull), "input_buffer_full");
    assert_eq!(parse_error_code("HOST_NOT_FOUND"), None);
    assert_eq!(parse_error_code("a\"b"), None);
}

#[test]
fn tags_and_latest_sessions_per_host() {
    let rows = vec![tag_row("h1", "t1"), tag_row("h2", "t2"), tag_row("h1", "t3")];
    let tags = tags_for_host(&rows, "h1");
    assert_eq!(tags.iter().map(|t| t.id.as_str()).collect::<Vec<_>>(), vec!["t1", "t3"]);
    assert!(tags_for_host(&rows, "h9").is_empty());
    let recent = vec![RecentSessionHostRow { host_id: "h2".into(), started_at: 5, status: "failed".into(), error_message: Some("x".into()) }];
    assert_eq!(recent_for_host(&recent, "h2").unwrap().started_at, 5);
    assert!(recent_for_host(&recent, "h1").is_none());
}

#[test]
fn host_dtos_hide_secrets() {
    let recent = RecentSessionHostRow { host_id: "h1".into(), started_at: 77, status: "connected".into(), error_message: None };
    let dto = host_dto_from_record(record("h1"), vec![], Some(recent)).unwrap();
    assert!(dto.has_password);
    assert!(!dto.has_passphrase);
    assert_eq!(dto.port, 2222);
    assert_eq!(dto.last_connected_at, Some(77));
    assert_eq!(dto.last_status, Some(ConnectionStatus::Connected));
    let mut bad = record("h2");
    bad.auth_type = "x".into();
    assert_eq!(host_dto_from_record(bad, vec![], None).unwrap_err().message, "Invalid auth type");
    let dtos = host_dtos_from_records(vec![record("h1"), record("h2")], &vec![tag_row("h2", "t")], &vec![]).unwrap();
    assert_eq!(dtos.len(), 2);
    assert!(dtos[0].tags.is_empty());
    assert_eq!(dtos[1].tags.len(), 1);
}

#[test]
fn list_query_follows_the_filter() {
    let q = build_list_hosts_query(None);
    assert_eq!(q.sql, "SELECT DISTINCT hosts.* FROM hosts WHERE 1 = 1 ORDER BY hosts.sort_order ASC, hosts.updated_at DESC");
    assert!(q.binds.is_empty());
    let q = build_list_hosts_query(Some(HostFilter {
        keyword: Some("  web ".into()),
        group_id: Some("g".into()),
        tag_ids: Some(vec!["t1".into(), "t2".into()]),
        auth_type: Some(AuthType::PrivateKey),
        recently_connected: Some(true),
    }));
    assert!(q.sql.starts_with("SELECT DISTINCT hosts.* FROM hosts INNER JOIN host_tags ON host_tags.host_id = hosts.id WHERE 1 = 1 AND (hosts.name LIKE ?"));
    assert!(q.sql.contains(" AND host_tags.tag_id IN (?, ?)"));
    assert!(q.sql.contains("rs.status = 'connected'"));
    assert_eq!(q.binds, vec!["%web%", "%web%", "%web%", "g", "private_key", "t1", "t2"]);
    let q = build_list_hosts_query(Some(HostFilter {
        keyword: Some("   ".into()),
        group_id: None,
        tag_ids: Some(vec![]),
        auth_type: None,
        recently_connected: Some(false),
    }));
    assert!(q.binds.is_empty());
    assert!(!q.sql.contains("LIKE"));
    assert!(!q.sql.contains("host_tags"));
}

#[test]
fn in_lists_have_one_placeholder_per_host() {
    assert_eq!(placeholder_list(0), "");
    assert_eq!(placeholder_list(1), "?");
    assert_eq!(placeholder_list(3), "?, ?, ?");
    assert!(tags_for_hosts_sql(2).contains("WHERE host_tags.host_id IN (?, ?) ORDER BY host_tags.host_id ASC, tags.name ASC"));
    assert!(latest_recent_sessions_sql(1).contains("WHERE host_id IN (?) GROUP BY host_id"));
}

#[test]
fn history_queries_and_rows() {
    let q = recent_sessions_query(None);
    assert_eq!(q.limit, 50);
    assert!(q.host_id.is_none());
    assert!(!q.sql.contains("WHERE"));
    let q = recent_sessions_query(Some(ListRecentSessionsInput { limit: Some(0), host_id: Some("h".into()) }));
    assert_eq!(q.limit, 1);
    assert!(q.sql.contains("WHERE host_id = ?"));
    assert_eq!(recent_sessions_query(Some(ListRecentSessionsInput { limit: Some(999), host_id: None })).limit, 200);
    let dto = recent_session_dto(RecentSessionRow {
        id: "r".into(),
        host_id: "h".into(),
        session_id: Some("s".into()),
        started_at: 1,
        ended_at: Some(2),
        status: "timeout".into(),
        error_code: Some("timeout".into()),
        error_message: None,
        duration_seconds: Some(0),
    });
    assert_eq!(dto.status, ConnectionStatus::Timeout);
    assert_eq!(dto.error_code, Some(AppErrorCode::Timeout));
}

#[test]
fn finishing_a_session() {
    assert_eq!(finished_session_values(1000, 62_999, None), (Some(61), None));
    assert_eq!(finished_session_values(5000, 1000, Some(AppErrorCode::IoError)), (Some(0), Some("io_error".to_string())));
    assert_eq!(to_db_i64(5), 5);
}

#[test]
fn rows_of_other_hosts_do_not_change_a_hosts_tags_or_latest_session() {
    let first = vec![tag_row("h1", "a"), tag_row("h2", "b")];
    let second = vec![tag_row("h2", "c"), tag_row("h1", "d")];
    let mut all = first.clone();
    all.extend(second.clone());
    let ids = |tags: Vec<wmcssh::contracts::host::TagDto>| tags.into_iter().map(|t| t.id).collect::<Vec<_>>();
    let mut joined = ids(tags_for_host(&first, "h1"));
    joined.extend(ids(tags_for_host(&second, "h1")));
    assert_eq!(ids(tags_for_host(&all, "h1")), joined);
    assert_eq!(joined, vec!["a".to_string(), "d".to_string()]);

    let row = |host: &str, at: i64| RecentSessionHostRow {
        host_id: host.into(),
        started_at: at,
        status: "connected".into(),
        error_message: None,
    };
    let earlier = vec![row("h1", 1), row("h2", 2)];
    let later = vec![row("h2", 3)];
    let mut both = earlier.clone();
    both.extend(later.clone());
    assert_eq!(recent_for_host(&both, "h1").unwrap().started_at, 1);
    assert_eq!(recent_for_host(&both, "h2").unwrap().started_at, 3);
}
