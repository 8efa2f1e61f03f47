//! Host rows: their shape, the text of their enumerations, the query that
//! lists them and their conversion to what the interface sees.
use vstd::prelude::*;
use vstd::string::StringExecFns;
use crate::contracts::errors::{plain_error, AppErrorCode, AppErrorDto};
use crate::contracts::host::{AuthType, ConnectionStatus, HostDto, HostFilter, TagDto};
use crate::text::{
    clone_opt_string, contains_seq, ends_with_seq, lemma_contains_middle, lemma_starts_ends, starts_with_seq, str_eq,
    trim, trim_seq,
};

verus! {

/// A row of the `hosts` table.
#[derive(Clone, Debug)]
pub struct HostRecord {
    pub id: String,
    pub name: String,
    pub hostname: String,
    pub port: i64,
    pub username: String,
    pub auth_type: String,
    pub password_ref: Option<String>,
    pub private_key_path: Option<String>,
    pub private_key_ref: Option<String>,
    pub passphrase_ref: Option<String>,
    pub group_id: Option<String>,
    pub startup_command: Option<String>,
    pub terminal_theme: Option<String>,
    pub connect_timeout_ms: i64,
    pub keepalive_interval_secs: i64,
    pub sort_order: i64,
    pub created_at: i64,
    pub updated_at: i64,
}

/// A host to insert, with the tags to attach.
#[derive(Clone, Debug)]
pub struct CreateHostRecord {
    pub id: String,
    pub name: String,
    pub hostname: String,
    pub port: u16,
    pub username: String,
    pub auth_type: AuthType,
    pub password_ref: Option<String>,
    pub private_key_path: Option<String>,
    pub private_key_ref: Option<String>,
    pub passphrase_ref: Option<String>,
    pub group_id: Option<String>,
    pub tag_ids: Vec<String>,
    pub startup_command: Option<String>,
    pub terminal_theme: Option<String>,
    pub connect_timeout_ms: u64,
    pub keepalive_interval_secs: u64,
    pub created_at: i64,
    pub updated_at: i64,
}

/// New values of a host, with the tags to attach.
#[derive(Clone, Debug)]
pub struct UpdateHostRecord {
    pub id: String,
    pub name: String,
    pub hostname: String,
    pub port: u16,
    pub username: String,
    pub auth_type: AuthType,
    pub password_ref: Option<String>,
    pub private_key_path: Option<String>,
    pub private_key_ref: Option<String>,
    pub passphrase_ref: Option<String>,
    pub group_id: Option<String>,
    pub tag_ids: Vec<String>,
    pub startup_command: Option<String>,
    pub terminal_theme: Option<String>,
    pub connect_timeout_ms: u64,
    pub keepalive_interval_secs: u64,
    pub updated_at: i64,
}

/// A row of the join of `host_tags` and `tags`.
#[derive(Clone, Debug)]
pub struct HostTagRow {
    pub host_id: String,
    pub id: String,
    pub name: String,
    pub color: Option<String>,
    pub created_at: i64,
    pub updated_at: i64,
}

/// A host's latest session, as a row of `recent_sessions`.
#[derive(Clone, Debug)]
pub struct RecentSessionHostRow {
    pub host_id: String,
    pub started_at: i64,
    pub status: String,
    pub error_message: Option<String>,
}

/// Stored text of an authentication type.
pub open spec fn auth_type_text(a: AuthType) -> Seq<char> {
    match a {
        AuthType::Password => "password"@,
        AuthType::PrivateKey => "private_key"@,
    }
}

/// The authentication type whose stored text this is.
pub open spec fn auth_type_from_text(s: Seq<char>) -> Option<AuthType> {
    if s == "password"@ {
        Some(AuthType::Password)
    } else if s == "private_key"@ {
        Some(AuthType::PrivateKey)
    } else {
        None
    }
}

/// Stored text of a connection status.
pub open spec fn connection_status_text(s: ConnectionStatus) -> Seq<char> {
    match s {
        ConnectionStatus::Connected => "connected"@,
        ConnectionStatus::Disconnected => "disconnected"@,
        ConnectionStatus::Failed => "failed"@,
        ConnectionStatus::AuthFailed => "auth_failed"@,
        ConnectionStatus::Timeout => "timeout"@,
        ConnectionStatus::NetworkError => "network_error"@,
    }
}

/// The connection status whose stored text this is.
pub open spec fn connection_status_from_text(s: Seq<char>) -> Option<ConnectionStatus> {
    if s == "connected"@ {
        Some(ConnectionStatus::Connected)
    } else if s == "disconnected"@ {
        Some(ConnectionStatus::Disconnected)
    } else if s == "failed"@ {
        Some(ConnectionStatus::Failed)
    } else if s == "auth_failed"@ {
        Some(ConnectionStatus::AuthFailed)
    } else if s == "timeout"@ {
        Some(ConnectionStatus::Timeout)
    } else if s == "network_error"@ {
        Some(ConnectionStatus::NetworkError)
    } else {
        None
    }
}

pub fn auth_type_to_str(auth_type: &AuthType) -> (r: &'static str)
    ensures
        r@ == auth_type_text(*auth_type),
{
    match auth_type {
        AuthType::Password => "password",
        AuthType::PrivateKey => "private_key",
    }
}

/// Reads a stored authentication type; any other text is `HostInvalid`.
pub fn parse_auth_type(value: &str) -> (r: Result<AuthType, AppErrorDto>)
    ensures
        match auth_type_from_text(value@) {
            Some(a) => r == Ok::<AuthType, AppErrorDto>(a),
            None => r matches Err(e) && plain_error(e, AppErrorCode::HostInvalid, "Invalid auth type"@, false),
        },
{
    if str_eq(value, "password") {
        Ok(AuthType::Password)
    } else if str_eq(value, "private_key") {
        Ok(AuthType::PrivateKey)
    } else {
        Err(AppErrorDto::new(AppErrorCode::HostInvalid, "Invalid auth type", false))
    }
}

/// Reads a stored connection status; any other text is a `DatabaseError`.
pub fn parse_connection_status(value: &str) -> (r: Result<ConnectionStatus, AppErrorDto>)
    ensures
        match connection_status_from_text(value@) {
            Some(s) => r == Ok::<ConnectionStatus, AppErrorDto>(s),
            None => r matches Err(e) && plain_error(
                e,
                AppErrorCode::DatabaseError,
                "Invalid connection status stored in database"@,
                false,
            ),
        },
{
    if str_eq(value, "connected") {
        Ok(ConnectionStatus::Connected)
    } else if str_eq(value, "disconnected") {
        Ok(ConnectionStatus::Disconnected)
    } else if str_eq(value, "failed") {
        Ok(ConnectionStatus::Failed)
    } else if str_eq(value, "auth_failed") {
        Ok(ConnectionStatus::AuthFailed)
    } else if str_eq(value, "timeout") {
        Ok(ConnectionStatus::Timeout)
    } else if str_eq(value, "network_error") {
        Ok(ConnectionStatus::NetworkError)
    } else {
        Err(
            AppErrorDto::new(
                AppErrorCode::DatabaseError,
                "Invalid connection status stored in database",
                false,
            ),
        )
    }
}

/// A timeout or interval as stored: the value, or `i64::MAX` when it does
/// not fit.
pub fn to_db_i64(value: u64) -> (r: i64)
    ensures
        r == (if value <= i64::MAX { value as i64 } else { i64::MAX }),
{
    if value <= i64::MAX as u64 {
        value as i64
    } else {
        i64::MAX
    }
}

pub open spec fn tag_of_row(row: HostTagRow) -> TagDto {
    TagDto { id: row.id, name: row.name, color: row.color, created_at: row.created_at, updated_at: row.updated_at }
}

/// The tags of a host: the rows that name it, in their order.
pub open spec fn tags_for_host_spec(rows: Seq<HostTagRow>, host_id: Seq<char>) -> Seq<TagDto>
    decreases rows.len(),
{
    if rows.len() == 0 {
        Seq::empty()
    } else {
        let init = tags_for_host_spec(rows.drop_last(), host_id);
        if rows.last().host_id@ == host_id {
            init.push(tag_of_row(rows.last()))
        } else {
            init
        }
    }
}

/// The latest session of a host: the last row that names it.
pub open spec fn recent_for_host_spec(rows: Seq<RecentSessionHostRow>, host_id: Seq<char>) -> Option<RecentSessionHostRow>
    decreases rows.len(),
{
    if rows.len() == 0 {
        None
    } else if rows.last().host_id@ == host_id {
        Some(rows.last())
    } else {
        recent_for_host_spec(rows.drop_last(), host_id)
    }
}

/// The tags of a host among the rows of several hosts.
pub fn tags_for_host(rows: &Vec<HostTagRow>, host_id: &str) -> (r: Vec<TagDto>)
    ensures
        r@ == tags_for_host_spec(rows@, host_id@),
{
    let mut tags: Vec<TagDto> = Vec::new();
    let mut i: usize = 0;
    assert(rows@.subrange(0, 0) =~= Seq::<HostTagRow>::empty());
    while i < rows.len()
        invariant
            i <= rows.len(),
            tags@ == tags_for_host_spec(rows@.subrange(0, i as int), host_id@),
        decreases rows.len() - i,
    {
        let row = &rows[i];
        proof {
            assert(rows@.subrange(0, i + 1).drop_last() =~= rows@.subrange(0, i as int));
            assert(rows@.subrange(0, i + 1).last() == rows@[i as int]);
        }
        if str_eq(row.host_id.as_str(), host_id) {
            tags.push(
                TagDto {
                    id: row.id.clone(),
                    name: row.name.clone(),
                    color: clone_opt_string(&row.color),
                    created_at: row.created_at,
                    updated_at: row.updated_at,
                },
            );
        }
        i = i + 1;
    }
    assert(rows@.subrange(0, rows.len() as int) =~= rows@);
    tags
}


/// The latest session of a host among the rows of several hosts.
pub fn recent_for_host(rows: &Vec<RecentSessionHostRow>, host_id: &str) -> (r: Option<RecentSessionHostRow>)
    ensures
        r == recent_for_host_spec(rows@, host_id@),
{
    let mut j: usize = rows.len();
    assert(rows@.subrange(0, j as int) =~= rows@);
    while j > 0
        invariant
            j <= rows.len(),
            recent_for_host_spec(rows@, host_id@) == recent_for_host_spec(rows@.subrange(0, j as int), host_id@),
        decreases j,
    {
        let row = &rows[j - 1];
        proof {
            assert(rows@.subrange(0, j as int).drop_last() =~= rows@.subrange(0, j - 1));
            assert(rows@.subrange(0, j as int).last() == rows@[j - 1]);
        }
        if str_eq(row.host_id.as_str(), host_id) {
            return Some(
                RecentSessionHostRow {
                    host_id: row.host_id.clone(),
                    started_at: row.started_at,
                    status: row.status.clone(),
                    error_message: clone_opt_string(&row.error_message),
                },
            );
        }
        j = j - 1;
    }
    None
}

/// `dto` is what the interface sees of a host row, given its tags, its
/// latest session and its parsed authentication type.  A status text that
/// is not a status is left out.
pub open spec fn is_host_dto_of(
    dto: HostDto,
    record: HostRecord,
    tags: Seq<TagDto>,
    recent: Option<RecentSessionHostRow>,
    auth: AuthType,
) -> bool {
    &&& dto.id == record.id
    &&& dto.name == record.name
    &&& dto.hostname == record.hostname
    &&& dto.port == record.port as u16
    &&& dto.username == record.username
    &&& dto.auth_type == auth
    &&& dto.has_password == record.password_ref is Some
    &&& dto.private_key_path == record.private_key_path
    &&& dto.has_passphrase == record.passphrase_ref is Some
    &&& dto.group_id == record.group_id
    &&& dto.tags@ == tags
    &&& dto.connect_timeout_ms == record.connect_timeout_ms as u64
    &&& dto.keepalive_interval_secs == record.keepalive_interval_secs as u64
    &&& dto.startup_command == record.startup_command
    &&& dto.terminal_theme == record.terminal_theme
    &&& dto.last_connected_at == (match recent { Some(s) => Some(s.started_at), None => None })
    &&& dto.last_status == (match recent { Some(s) => connection_status_from_text(s.status@), None => None })
    &&& dto.last_error_message == (match recent { Some(s) => s.error_message, None => None })
    &&& dto.created_at == record.created_at
    &&& dto.updated_at == record.updated_at
}

/// What the interface sees of a host row; a stored authentication text that
/// is not a type is `HostInvalid`.
pub fn host_dto_from_record(record: HostRecord, tags: Vec<TagDto>, recent: Option<RecentSessionHostRow>) -> (r: Result<HostDto, AppErrorDto>)
    ensures
        match auth_type_from_text(record.auth_type@) {
            Some(a) => r matches Ok(dto) && is_host_dto_of(dto, record, tags@, recent, a),
            None => r matches Err(e) && plain_error(e, AppErrorCode::HostInvalid, "Invalid auth type"@, false),
        },
{
    let auth_type = parse_auth_type(record.auth_type.as_str())?;
    let (last_connected_at, last_status, last_error_message) = match recent {
        Some(summary) => {
            let status = match parse_connection_status(summary.status.as_str()) {
                Ok(s) => Some(s),
                Err(_) => None,
            };
            (Some(summary.started_at), status, summary.error_message)
        },
        None => (None, None, None),
    };
    let has_password = record.password_ref.is_some();
    let has_passphrase = record.passphrase_ref.is_some();
    Ok(
        HostDto {
            id: record.id,
            name: record.name,
            hostname: record.hostname,
            port: record.port as u16,
            username: record.username,
            auth_type,
            has_password,
            private_key_path: record.private_key_path,
            has_passphrase,
            group_id: record.group_id,
            tags,
            connect_timeout_ms: record.connect_timeout_ms as u64,
            keepalive_interval_secs: record.keepalive_interval_secs as u64,
            startup_command: record.startup_command,
            terminal_theme: record.terminal_theme,
            last_connected_at,
            last_status,
            last_error_message,
            created_at: record.created_at,
            updated_at: record.updated_at,
        },
    )
}

/// What the interface sees of several host rows, given the tag rows and the
/// latest-session rows of all of them; the first row whose authentication
/// text is not a type makes it fail.
pub fn host_dtos_from_records(
    records: Vec<HostRecord>,
    tag_rows: &Vec<HostTagRow>,
    recent_rows: &Vec<RecentSessionHostRow>,
) -> (r: Result<Vec<HostDto>, AppErrorDto>)
    ensures
        match r {
            Ok(dtos) => dtos.len() == records.len() && forall|i: int| 0 <= i < records.len() ==> (
                #[trigger] auth_type_from_text(records@[i].auth_type@) matches Some(a) && is_host_dto_of(
                    dtos@[i],
                    records@[i],
                    tags_for_host_spec(tag_rows@, records@[i].id@),
                    recent_for_host_spec(recent_rows@, records@[i].id@),
                    a,
                )),
            Err(e) => exists|i: int| 0 <= i < records.len() && #[trigger] auth_type_from_text(records@[i].auth_type@) is None
                && (forall|j: int| 0 <= j < i ==> #[trigger] auth_type_from_text(records@[j].auth_type@) is Some)
                && plain_error(e, AppErrorCode::HostInvalid, "Invalid auth type"@, false),
        },
{
    let mut dtos: Vec<HostDto> = Vec::new();
    let n = records.len();
    let ghost rs = records@;
    let mut rest = records;
    let mut i: usize = 0;
    while i < n
        invariant
            n == rs.len(),
            rs == records@,
            i <= n,
            rest@ == rs.subrange(i as int, n as int),
            dtos.len() == i,
            forall|k: int| 0 <= k < i ==> (#[trigger] auth_type_from_text(rs[k].auth_type@) matches Some(a)
                && is_host_dto_of(dtos@[k], rs[k], tags_for_host_spec(tag_rows@, rs[k].id@), recent_for_host_spec(recent_rows@, rs[k].id@), a)),
        decreases n - i,
    {
        let record = rest.remove(0);
        assert(record == rs[i as int]);
        assert(rest@ =~= rs.subrange(i + 1, n as int));
        let tags = tags_for_host(tag_rows, record.id.as_str());
        let recent = recent_for_host(recent_rows, record.id.as_str());
        let dto = host_dto_from_record(record, tags, recent);
        match dto {
            Ok(d) => {
                dtos.push(d);
            },
            Err(e) => {
                assert(auth_type_from_text(rs[i as int].auth_type@) is None);
                assert(forall|j: int| 0 <= j < i ==> #[trigger] auth_type_from_text(rs[j].auth_type@) is Some);
                return Err(e);
            },
        }
        i = i + 1;
    }
    Ok(dtos)
}

/// Parameters of a list query, in the order of its placeholders.
#[derive(Clone, Debug)]
pub struct ListHostsQuery {
    pub sql: String,
    pub binds: Vec<String>,
}

/// `count` placeholders separated by commas.
pub open spec fn placeholders(count: nat) -> Seq<char>
    decreases count,
{
    if count == 0 {
        Seq::empty()
    } else if count == 1 {
        "?"@
    } else {
        placeholders((count - 1) as nat) + ", ?"@
    }
}

/// The keyword of a filter, trimmed, if it is not blank.
pub open spec fn filter_keyword(f: HostFilter) -> Option<Seq<char>> {
    match f.keyword {
        Some(k) => if trim_seq(k@).len() > 0 { Some(trim_seq(k@)) } else { None },
        None => None,
    }
}

/// The tag ids of a filter, if there are any.
pub open spec fn filter_tags(f: HostFilter) -> Option<Seq<String>> {
    match f.tag_ids {
        Some(t) => if t@.len() > 0 { Some(t@) } else { None },
        None => None,
    }
}

pub open spec fn empty_filter() -> HostFilter {
    HostFilter { keyword: None, group_id: None, tag_ids: None, auth_type: None, recently_connected: None }
}

pub open spec fn if_seq(c: bool, s: Seq<char>) -> Seq<char> {
    if c { s } else { Seq::empty() }
}

/// The statement that lists the hosts a filter selects: hosts whose name,
/// hostname or user name contains the keyword, in the group, with the
/// authentication type, with a connected session, or with one of the tags,
/// as far as the filter asks; ordered by sort order, then most recently
/// updated first.
pub open spec fn list_hosts_sql(f: HostFilter) -> Seq<char> {
    "SELECT DISTINCT hosts.* FROM hosts"@
        + if_seq(filter_tags(f) is Some, " INNER JOIN host_tags ON host_tags.host_id = hosts.id"@)
        + " WHERE 1 = 1"@
        + if_seq(filter_keyword(f) is Some, " AND (hosts.name LIKE ? OR hosts.hostname LIKE ? OR hosts.username LIKE ?)"@)
        + if_seq(f.group_id is Some, " AND hosts.group_id = ?"@)
        + if_seq(f.auth_type is Some, " AND hosts.auth_type = ?"@)
        + if_seq(f.recently_connected == Some(true),
            " AND EXISTS (SELECT 1 FROM recent_sessions rs WHERE rs.host_id = hosts.id AND rs.status = 'connected')"@)
        + (match filter_tags(f) {
            Some(t) => " AND host_tags.tag_id IN ("@ + placeholders(t.len()) + ")"@,
            None => Seq::empty(),
        })
        + " ORDER BY hosts.sort_order ASC, hosts.updated_at DESC"@
}

/// The values bound to the statement's placeholders, in order.
pub open spec fn list_hosts_binds(f: HostFilter) -> Seq<Seq<char>> {
    (match filter_keyword(f) {
        Some(k) => seq!["%"@ + k + "%"@, "%"@ + k + "%"@, "%"@ + k + "%"@],
        None => Seq::empty(),
    }) + (match f.group_id {
        Some(g) => seq![g@],
        None => Seq::empty(),
    }) + (match f.auth_type {
        Some(a) => seq![auth_type_text(a)],
        None => Seq::empty(),
    }) + (match filter_tags(f) {
        Some(t) => t.map_values(|s: String| s@),
        None => Seq::empty(),
    })
}

/// Appends copies of `items` to `out`.
fn push_all_cloned(out: &mut Vec<String>, items: &Vec<String>)
    ensures
        final(out).deep_view() == old(out).deep_view() + items@.map_values(|s: String| s@),
{
    let ghost start = out.deep_view();
    let mut i: usize = 0;
    while i < items.len()
        invariant
            i <= items.len(),
            out.deep_view() == start + items@.subrange(0, i as int).map_values(|s: String| s@),
        decreases items.len() - i,
    {
        let ghost before = out.deep_view();
        out.push(items[i].clone());
        proof {
            assert(out.deep_view() =~= before.push(items@[i as int]@));
            assert(items@.subrange(0, i + 1).map_values(|s: String| s@) =~= items@.subrange(0, i as int).map_values(|s: String| s@).push(items@[i as int]@));
            assert(out.deep_view() =~= start + items@.subrange(0, i + 1).map_values(|s: String| s@));
        }
        i = i + 1;
    }
    assert(items@.subrange(0, items@.len() as int) =~= items@);
}

/// The statement and values that list the hosts a filter selects (no
/// filter selects every host).
#[verifier::spinoff_prover]
#[verifier::rlimit(40)]
pub fn build_list_hosts_query(filter: Option<HostFilter>) -> (r: ListHostsQuery)
    ensures
        ({
            let f = match filter { Some(f) => f, None => empty_filter() };
            &&& r.sql@ == list_hosts_sql(f)
            &&& r.binds.deep_view() == list_hosts_binds(f)
        }),
{
    let f = match filter {
        Some(f) => f,
        None => HostFilter { keyword: None, group_id: None, tag_ids: None, auth_type: None, recently_connected: None },
    };
    let has_tags = match &f.tag_ids {
        Some(t) => t.len() > 0,
        None => false,
    };
    let mut sql = String::from_str("SELECT DISTINCT hosts.* FROM hosts");
    let mut binds: Vec<String> = Vec::new();
    if has_tags {
        sql.append(" INNER JOIN host_tags ON host_tags.host_id = hosts.id");
    }
    sql.append(" WHERE 1 = 1");
    let keyword: Option<&str> = match &f.keyword {
        Some(k) => {
            let t = trim(k.as_str());
            if t.unicode_len() > 0 { Some(t) } else { None }
        },
        None => None,
    };
    if let Some(k) = keyword {
        let pattern = String::from_str("%").concat(k).concat("%");
        sql.append(" AND (hosts.name LIKE ? OR hosts.hostname LIKE ? OR hosts.username LIKE ?)");
        binds.push(pattern.clone());
        binds.push(pattern.clone());
        binds.push(pattern);
    }
    if let Some(g) = &f.group_id {
        sql.append(" AND hosts.group_id = ?");
        binds.push(g.clone());
    }
    if let Some(a) = &f.auth_type {
        sql.append(" AND hosts.auth_type = ?");
        binds.push(String::from_str(auth_type_to_str(a)));
    }
    match f.recently_connected {
        Some(true) => {
            sql.append(
                " AND EXISTS (SELECT 1 FROM recent_sessions rs WHERE rs.host_id = hosts.id AND rs.status = 'connected')",
            );
        },
        _ => {},
    }
    if has_tags {
        let tags = f.tag_ids.as_ref().unwrap();
        sql.append(" AND host_tags.tag_id IN (");
        let list = placeholder_list(tags.len());
        sql.append(list.as_str());
        sql.append(")");
        push_all_cloned(&mut binds, tags);
    }
    sql.append(" ORDER BY hosts.sort_order ASC, hosts.updated_at DESC");
    proof {
        assert(sql@ =~= list_hosts_sql(f));
        assert(binds.deep_view() =~= list_hosts_binds(f));
    }
    ListHostsQuery { sql, binds }
}


/// `count` placeholders separated by commas.
pub fn placeholder_list(count: usize) -> (r: String)
    ensures
        r@ == placeholders(count as nat),
{
    let mut out = String::from_str("");
    proof {
        reveal_strlit("");
    }
    let mut i: usize = 0;
    while i < count
        invariant
            i <= count,
            out@ == placeholders(i as nat),
        decreases count - i,
    {
        if i == 0 {
            out.append("?");
        } else {
            out.append(", ?");
        }
        i = i + 1;
    }
    out
}

/// The statement that reads the tags of `count` hosts (their ids bound in
/// order), by host and then by tag name.
pub open spec fn tags_for_hosts_sql_spec(count: nat) -> Seq<char> {
    "SELECT host_tags.host_id, tags.id, tags.name, tags.color, tags.created_at, tags.updated_at FROM tags INNER JOIN host_tags ON host_tags.tag_id = tags.id WHERE host_tags.host_id IN ("@
        + placeholders(count) + ") ORDER BY host_tags.host_id ASC, tags.name ASC"@
}

pub fn tags_for_hosts_sql(count: usize) -> (r: String)
    ensures
        r@ == tags_for_hosts_sql_spec(count as nat),
{
    let mut sql = String::from_str(
        "SELECT host_tags.host_id, tags.id, tags.name, tags.color, tags.created_at, tags.updated_at FROM tags INNER JOIN host_tags ON host_tags.tag_id = tags.id WHERE host_tags.host_id IN (",
    );
    let list = placeholder_list(count);
    sql.append(list.as_str());
    sql.append(") ORDER BY host_tags.host_id ASC, tags.name ASC");
    sql
}

/// The statement that reads, for each of `count` hosts (their ids bound in
/// order), its most recently started session.
pub open spec fn latest_recent_sessions_sql_spec(count: nat) -> Seq<char> {
    "SELECT recent_sessions.host_id, recent_sessions.started_at, recent_sessions.status, recent_sessions.error_message FROM recent_sessions INNER JOIN (SELECT host_id, MAX(started_at) AS started_at FROM recent_sessions WHERE host_id IN ("@
        + placeholders(count)
        + ") GROUP BY host_id) latest ON latest.host_id = recent_sessions.host_id AND latest.started_at = recent_sessions.started_at"@
}

pub fn latest_recent_sessions_sql(count: usize) -> (r: String)
    ensures
        r@ == latest_recent_sessions_sql_spec(count as nat),
{
    let mut sql = String::from_str(
        "SELECT recent_sessions.host_id, recent_sessions.started_at, recent_sessions.status, recent_sessions.error_message FROM recent_sessions INNER JOIN (SELECT host_id, MAX(started_at) AS started_at FROM recent_sessions WHERE host_id IN (",
    );
    let list = placeholder_list(count);
    sql.append(list.as_str());
    sql.append(
        ") GROUP BY host_id) latest ON latest.host_id = recent_sessions.host_id AND latest.started_at = recent_sessions.started_at",
    );
    sql
}


/// The parts of the host list statement, in order: what comes before the
/// keyword condition, the keyword, group, authentication and recent-session
/// conditions, the tag condition and the ordering.
pub open spec fn list_hosts_head(f: HostFilter) -> Seq<char> {
    "SELECT DISTINCT hosts.* FROM hosts"@
        + if_seq(filter_tags(f) is Some, " INNER JOIN host_tags ON host_tags.host_id = hosts.id"@)
        + " WHERE 1 = 1"@
}

proof fn lemma_list_hosts_parts(f: HostFilter)
    ensures
        list_hosts_sql(f) == list_hosts_head(f)
            + if_seq(filter_keyword(f) is Some, " AND (hosts.name LIKE ? OR hosts.hostname LIKE ? OR hosts.username LIKE ?)"@)
            + if_seq(f.group_id is Some, " AND hosts.group_id = ?"@)
            + if_seq(f.auth_type is Some, " AND hosts.auth_type = ?"@)
            + if_seq(f.recently_connected == Some(true),
                " AND EXISTS (SELECT 1 FROM recent_sessions rs WHERE rs.host_id = hosts.id AND rs.status = 'connected')"@)
            + (match filter_tags(f) {
                Some(t) => " AND host_tags.tag_id IN ("@ + placeholders(t.len()) + ")"@,
                None => Seq::empty(),
            })
            + " ORDER BY hosts.sort_order ASC, hosts.updated_at DESC"@,
{
}

/// The host list reads every column of `hosts`, each host once, and orders
/// the hosts by their sort order, then most recently updated first.
pub proof fn law_list_hosts_reads_hosts_in_order(f: HostFilter)
    ensures
        starts_with_seq(list_hosts_sql(f), "SELECT DISTINCT hosts.* FROM hosts"@),
        ends_with_seq(list_hosts_sql(f), " ORDER BY hosts.sort_order ASC, hosts.updated_at DESC"@),
        contains_seq(list_hosts_sql(f), " WHERE 1 = 1"@),
{
    lemma_list_hosts_parts(f);
    let s = list_hosts_sql(f);
    let first = "SELECT DISTINCT hosts.* FROM hosts"@;
    let join = if_seq(filter_tags(f) is Some, " INNER JOIN host_tags ON host_tags.host_id = hosts.id"@);
    let order = " ORDER BY hosts.sort_order ASC, hosts.updated_at DESC"@;
    let middle = s.subrange(first.len() as int, s.len() - order.len());
    let rest = s.subrange((first.len() + join.len() + 12) as int, s.len() as int);
    assert(s =~= first + s.subrange(first.len() as int, s.len() as int));
    lemma_starts_ends(first, s.subrange(first.len() as int, s.len() as int));
    assert(s =~= s.subrange(0, s.len() - order.len()) + order);
    lemma_starts_ends(s.subrange(0, s.len() - order.len()), order);
    assert(" WHERE 1 = 1"@.len() == 12) by {
        reveal_strlit(" WHERE 1 = 1");
    }
    assert(s =~= (first + join) + " WHERE 1 = 1"@ + rest);
    lemma_contains_middle(first + join, " WHERE 1 = 1"@, rest);
}

/// A group filter keeps exactly the hosts of that group: the statement
/// asks that a host's group equal the value bound to its placeholder, and
/// that value is the filter's group (after the three keyword patterns, when
/// there is a keyword).
pub proof fn law_list_hosts_group_filter(f: HostFilter)
    ensures
        f.group_id matches Some(g) ==> {
            let at = if filter_keyword(f) is Some { 3int } else { 0int };
            &&& contains_seq(list_hosts_sql(f), " AND hosts.group_id = ?"@)
            &&& at < list_hosts_binds(f).len()
            &&& list_hosts_binds(f)[at] == g@
        },
{
    if let Some(g) = f.group_id {
        lemma_list_hosts_parts(f);
        let s = list_hosts_sql(f);
        let before = list_hosts_head(f)
            + if_seq(filter_keyword(f) is Some, " AND (hosts.name LIKE ? OR hosts.hostname LIKE ? OR hosts.username LIKE ?)"@);
        let clause = " AND hosts.group_id = ?"@;
        let after = s.subrange((before.len() + clause.len()) as int, s.len() as int);
        assert(s =~= before + clause + after);
        lemma_contains_middle(before, clause, after);
        let kb = match filter_keyword(f) {
            Some(k) => seq!["%"@ + k + "%"@, "%"@ + k + "%"@, "%"@ + k + "%"@],
            None => Seq::<Seq<char>>::empty(),
        };
        let rest = (match f.auth_type {
            Some(a) => seq![auth_type_text(a)],
            None => Seq::<Seq<char>>::empty(),
        }) + (match filter_tags(f) {
            Some(t) => t.map_values(|x: String| x@),
            None => Seq::<Seq<char>>::empty(),
        });
        assert(list_hosts_binds(f) =~= kb + seq![g@] + rest);
        assert((kb + seq![g@] + rest)[kb.len() as int] == g@);
    }
}

/// An authentication filter keeps exactly the hosts of that type: the
/// statement compares a host's type with the value bound to its
/// placeholder, the stored text of the filter's type, which follows the
/// keyword patterns and the group.
pub proof fn law_list_hosts_auth_filter(f: HostFilter)
    ensures
        f.auth_type matches Some(a) ==> {
            let at = (if filter_keyword(f) is Some { 3int } else { 0int }) + (if f.group_id is Some { 1int } else { 0int });
            &&& contains_seq(list_hosts_sql(f), " AND hosts.auth_type = ?"@)
            &&& at < list_hosts_binds(f).len()
            &&& list_hosts_binds(f)[at] == auth_type_text(a)
        },
{
    if let Some(a) = f.auth_type {
        lemma_list_hosts_parts(f);
        let s = list_hosts_sql(f);
        let before = list_hosts_head(f)
            + if_seq(filter_keyword(f) is Some, " AND (hosts.name LIKE ? OR hosts.hostname LIKE ? OR hosts.username LIKE ?)"@)
            + if_seq(f.group_id is Some, " AND hosts.group_id = ?"@);
        let clause = " AND hosts.auth_type = ?"@;
        let after = s.subrange((before.len() + clause.len()) as int, s.len() as int);
        assert(s =~= before + clause + after);
        lemma_contains_middle(before, clause, after);
        let kb = (match filter_keyword(f) {
            Some(k) => seq!["%"@ + k + "%"@, "%"@ + k + "%"@, "%"@ + k + "%"@],
            None => Seq::<Seq<char>>::empty(),
        }) + (match f.group_id {
            Some(g) => seq![g@],
            None => Seq::<Seq<char>>::empty(),
        });
        let rest = match filter_tags(f) {
            Some(t) => t.map_values(|x: String| x@),
            None => Seq::<Seq<char>>::empty(),
        };
        assert(list_hosts_binds(f) =~= kb + seq![auth_type_text(a)] + rest);
        assert((kb + seq![auth_type_text(a)] + rest)[kb.len() as int] == auth_type_text(a));
    }
}

/// A keyword filter keeps the hosts whose name, host name or user name
/// contains the trimmed keyword: three `LIKE` conditions joined by `OR`,
/// each bound to the keyword between `%` wildcards, first among the values.
pub proof fn law_list_hosts_keyword_filter(f: HostFilter)
    ensures
        filter_keyword(f) matches Some(k) ==> {
            &&& contains_seq(list_hosts_sql(f), " AND (hosts.name LIKE ? OR hosts.hostname LIKE ? OR hosts.username LIKE ?)"@)
            &&& 3 <= list_hosts_binds(f).len()
            &&& list_hosts_binds(f)[0] == "%"@ + k + "%"@
            &&& list_hosts_binds(f)[1] == "%"@ + k + "%"@
            &&& list_hosts_binds(f)[2] == "%"@ + k + "%"@
        },
{
    if let Some(k) = filter_keyword(f) {
        lemma_list_hosts_parts(f);
        let s = list_hosts_sql(f);
        let before = list_hosts_head(f);
        let clause = " AND (hosts.name LIKE ? OR hosts.hostname LIKE ? OR hosts.username LIKE ?)"@;
        let after = s.subrange((before.len() + clause.len()) as int, s.len() as int);
        assert(s =~= before + clause + after);
        lemma_contains_middle(before, clause, after);
    }
}

/// A tag filter keeps the hosts carrying one of the tags: the statement
/// joins `host_tags` and asks for a tag id among one placeholder per tag,
/// and the tag ids are the last values, in order.
pub proof fn law_list_hosts_tag_filter(f: HostFilter)
    ensures
        filter_tags(f) matches Some(t) ==> {
            let b = list_hosts_binds(f);
            &&& contains_seq(list_hosts_sql(f), " INNER JOIN host_tags ON host_tags.host_id = hosts.id"@)
            &&& contains_seq(list_hosts_sql(f), " AND host_tags.tag_id IN ("@ + placeholders(t.len()) + ")"@)
            &&& t.len() <= b.len()
            &&& b.subrange(b.len() - t.len(), b.len() as int) == t.map_values(|x: String| x@)
        },
{
    if let Some(t) = filter_tags(f) {
        lemma_list_hosts_parts(f);
        let s = list_hosts_sql(f);
        let first = "SELECT DISTINCT hosts.* FROM hosts"@;
        let join = " INNER JOIN host_tags ON host_tags.host_id = hosts.id"@;
        let after_join = s.subrange((first.len() + join.len()) as int, s.len() as int);
        assert(s =~= first + join + after_join);
        lemma_contains_middle(first, join, after_join);
        let clause = " AND host_tags.tag_id IN ("@ + placeholders(t.len()) + ")"@;
        let order = " ORDER BY hosts.sort_order ASC, hosts.updated_at DESC"@;
        let before = s.subrange(0, s.len() - order.len() - clause.len());
        assert(s =~= before + clause + order);
        lemma_contains_middle(before, clause, order);
        let head = (match filter_keyword(f) {
            Some(k) => seq!["%"@ + k + "%"@, "%"@ + k + "%"@, "%"@ + k + "%"@],
            None => Seq::<Seq<char>>::empty(),
        }) + (match f.group_id {
            Some(g) => seq![g@],
            None => Seq::<Seq<char>>::empty(),
        }) + (match f.auth_type {
            Some(a) => seq![auth_type_text(a)],
            None => Seq::<Seq<char>>::empty(),
        });
        let b = list_hosts_binds(f);
        assert(b =~= head + t.map_values(|x: String| x@));
        assert(b.subrange(b.len() - t.len(), b.len() as int) =~= t.map_values(|x: String| x@));
    }
}

/// A recently-connected filter keeps the hosts with a session whose status
/// is `connected`.
pub proof fn law_list_hosts_recently_connected(f: HostFilter)
    ensures
        f.recently_connected == Some(true) ==> contains_seq(
            list_hosts_sql(f),
            " AND EXISTS (SELECT 1 FROM recent_sessions rs WHERE rs.host_id = hosts.id AND rs.status = 'connected')"@,
        ),
{
    if f.recently_connected == Some(true) {
        lemma_list_hosts_parts(f);
        let s = list_hosts_sql(f);
        let before = list_hosts_head(f)
            + if_seq(filter_keyword(f) is Some, " AND (hosts.name LIKE ? OR hosts.hostname LIKE ? OR hosts.username LIKE ?)"@)
            + if_seq(f.group_id is Some, " AND hosts.group_id = ?"@)
            + if_seq(f.auth_type is Some, " AND hosts.auth_type = ?"@);
        let clause = " AND EXISTS (SELECT 1 FROM recent_sessions rs WHERE rs.host_id = hosts.id AND rs.status = 'connected')"@;
        let after = s.subrange((before.len() + clause.len()) as int, s.len() as int);
        assert(s =~= before + clause + after);
        lemma_contains_middle(before, clause, after);
    }
}

/// The tags of several hosts are read by host id among one placeholder per
/// host, ordered by host and then by tag name.
pub proof fn law_tags_for_hosts_sql(count: nat)
    ensures
        contains_seq(tags_for_hosts_sql_spec(count), " WHERE host_tags.host_id IN ("@ + placeholders(count) + ")"@),
        ends_with_seq(tags_for_hosts_sql_spec(count), " ORDER BY host_tags.host_id ASC, tags.name ASC"@),
{
    let s = tags_for_hosts_sql_spec(count);
    let head = "SELECT host_tags.host_id, tags.id, tags.name, tags.color, tags.created_at, tags.updated_at FROM tags INNER JOIN host_tags ON host_tags.tag_id = tags.id"@;
    let clause = " WHERE host_tags.host_id IN ("@ + placeholders(count) + ")"@;
    let order = " ORDER BY host_tags.host_id ASC, tags.name ASC"@;
    let whole = "SELECT host_tags.host_id, tags.id, tags.name, tags.color, tags.created_at, tags.updated_at FROM tags INNER JOIN host_tags ON host_tags.tag_id = tags.id WHERE host_tags.host_id IN ("@;
    let close = ") ORDER BY host_tags.host_id ASC, tags.name ASC"@;
    reveal_strlit("SELECT host_tags.host_id, tags.id, tags.name, tags.color, tags.created_at, tags.updated_at FROM tags INNER JOIN host_tags ON host_tags.tag_id = tags.id WHERE host_tags.host_id IN (");
    reveal_strlit("SELECT host_tags.host_id, tags.id, tags.name, tags.color, tags.created_at, tags.updated_at FROM tags INNER JOIN host_tags ON host_tags.tag_id = tags.id");
    reveal_strlit(" WHERE host_tags.host_id IN (");
    reveal_strlit(") ORDER BY host_tags.host_id ASC, tags.name ASC");
    reveal_strlit(" ORDER BY host_tags.host_id ASC, tags.name ASC");
    reveal_strlit(")");
    assert(whole =~= head + " WHERE host_tags.host_id IN ("@);
    assert(close =~= ")"@ + order);
    assert(s =~= head + clause + order);
    lemma_contains_middle(head, clause, order);
    lemma_starts_ends(head + clause, order);
}

/// The latest session of each of several hosts is the row of that host
/// whose start time is the greatest among its sessions: the statement
/// groups the host's sessions, takes the maximum start time, and joins back
/// the row started then.
pub proof fn law_latest_session_is_most_recent(count: nat)
    ensures
        contains_seq(latest_recent_sessions_sql_spec(count), "MAX(started_at) AS started_at"@),
        contains_seq(latest_recent_sessions_sql_spec(count), " WHERE host_id IN ("@ + placeholders(count) + ") GROUP BY host_id)"@),
        ends_with_seq(
            latest_recent_sessions_sql_spec(count),
            " ON latest.host_id = recent_sessions.host_id AND latest.started_at = recent_sessions.started_at"@,
        ),
{
    let s = latest_recent_sessions_sql_spec(count);
    let open_part = "SELECT recent_sessions.host_id, recent_sessions.started_at, recent_sessions.status, recent_sessions.error_message FROM recent_sessions INNER JOIN (SELECT host_id, MAX(started_at) AS started_at FROM recent_sessions WHERE host_id IN ("@;
    let close_part = ") GROUP BY host_id) latest ON latest.host_id = recent_sessions.host_id AND latest.started_at = recent_sessions.started_at"@;
    let a = "SELECT recent_sessions.host_id, recent_sessions.started_at, recent_sessions.status, recent_sessions.error_message FROM recent_sessions INNER JOIN (SELECT host_id, "@;
    let max = "MAX(started_at) AS started_at"@;
    let from = " FROM recent_sessions"@;
    let w = " WHERE host_id IN ("@;
    let g = ") GROUP BY host_id)"@;
    let l = " latest"@;
    let on = " ON latest.host_id = recent_sessions.host_id AND latest.started_at = recent_sessions.started_at"@;
    reveal_strlit("SELECT recent_sessions.host_id, recent_sessions.started_at, recent_sessions.status, recent_sessions.error_message FROM recent_sessions INNER JOIN (SELECT host_id, MAX(started_at) AS started_at FROM recent_sessions WHERE host_id IN (");
    reveal_strlit(") GROUP BY host_id) latest ON latest.host_id = recent_sessions.host_id AND latest.started_at = recent_sessions.started_at");
    reveal_strlit("SELECT recent_sessions.host_id, recent_sessions.started_at, recent_sessions.status, recent_sessions.error_message FROM recent_sessions INNER JOIN (SELECT host_id, ");
    reveal_strlit("MAX(started_at) AS started_at");
    reveal_strlit(" FROM recent_sessions");
    reveal_strlit(" WHERE host_id IN (");
    reveal_strlit(") GROUP BY host_id)");
    reveal_strlit(" latest");
    reveal_strlit(" ON latest.host_id = recent_sessions.host_id AND latest.started_at = recent_sessions.started_at");
    assert(open_part =~= a + max + from + w);
    assert(close_part =~= g + l + on);
    let p = placeholders(count);
    assert(s =~= a + max + (from + w + p + g + l + on));
    lemma_contains_middle(a, max, from + w + p + g + l + on);
    let clause = w + p + g;
    assert(s =~= (a + max + from) + clause + (l + on));
    lemma_contains_middle(a + max + from, clause, l + on);
    assert(s =~= (a + max + from + clause + l) + on);
    lemma_starts_ends(a + max + from + clause + l, on);
}

/// A host's tags read from the rows of several queries are its tags from
/// each, in order: rows of other hosts, wherever they stand, change nothing.
pub proof fn law_tags_for_host_split(first: Seq<HostTagRow>, second: Seq<HostTagRow>, host_id: Seq<char>)
    ensures
        tags_for_host_spec(first + second, host_id) == tags_for_host_spec(first, host_id)
            + tags_for_host_spec(second, host_id),
    decreases second.len(),
{
    if second.len() == 0 {
        assert(first + second =~= first);
        assert(tags_for_host_spec(first, host_id) + Seq::<TagDto>::empty() =~= tags_for_host_spec(first, host_id));
    } else {
        law_tags_for_host_split(first, second.drop_last(), host_id);
        assert((first + second).drop_last() =~= first + second.drop_last());
        assert((first + second).last() == second.last());
        let a = tags_for_host_spec(first, host_id);
        let b = tags_for_host_spec(second.drop_last(), host_id);
        if second.last().host_id@ == host_id {
            assert((a + b).push(tag_of_row(second.last())) =~= a + b.push(tag_of_row(second.last())));
        }
    }
}

/// A host's latest session read from the rows of several queries is the
/// one from the later rows when they name the host, else the one from the
/// earlier rows.
pub proof fn law_recent_for_host_split(
    first: Seq<RecentSessionHostRow>,
    second: Seq<RecentSessionHostRow>,
    host_id: Seq<char>,
)
    ensures
        recent_for_host_spec(first + second, host_id) == match recent_for_host_spec(second, host_id) {
            Some(row) => Some(row),
            None => recent_for_host_spec(first, host_id),
        },
    decreases second.len(),
{
    if second.len() == 0 {
        assert(first + second =~= first);
    } else {
        law_recent_for_host_split(first, second.drop_last(), host_id);
        assert((first + second).drop_last() =~= first + second.drop_last());
        assert((first + second).last() == second.last());
    }
}

/// The stored text of a connection status reads back as that status.
pub proof fn law_connection_status_round_trip(s: ConnectionStatus)
    ensures
        connection_status_from_text(connection_status_text(s)) == Some(s),
{
    reveal_strlit("connected");
    reveal_strlit("disconnected");
    reveal_strlit("failed");
    reveal_strlit("auth_failed");
    reveal_strlit("timeout");
    reveal_strlit("network_error");
    match s {
        ConnectionStatus::Connected => {

        },
        ConnectionStatus::Disconnected => {
            assert("disconnected"@.len() != "connected"@.len());
        },
        ConnectionStatus::Failed => {
            assert("failed"@.len() != "connected"@.len());
            assert("failed"@.len() != "disconnected"@.len());
        },
        ConnectionStatus::AuthFailed => {
            assert("auth_failed"@.len() != "connected"@.len());
            assert("auth_failed"@.len() != "disconnected"@.len());
            assert("auth_failed"@.len() != "failed"@.len());
        },
        ConnectionStatus::Timeout => {
            assert("timeout"@.len() != "connected"@.len());
            assert("timeout"@.len() != "disconnected"@.len());
            assert("timeout"@.len() != "failed"@.len());
            assert("timeout"@.len() != "auth_failed"@.len());
        },
        ConnectionStatus::NetworkError => {
            assert("network_error"@.len() != "connected"@.len());
            assert("network_error"@.len() != "disconnected"@.len());
            assert("network_error"@.len() != "failed"@.len());
            assert("network_error"@.len() != "auth_failed"@.len());
            assert("network_error"@.len() != "timeout"@.len());
        },
    }
}

} // verus!
