//! Remote paths and the rules of browsing and transferring files and
//! directory trees.
use vstd::prelude::*;
use vstd::string::{StrSliceExecFns, StringExecFns};
use crate::contracts::errors::{detailed_error, plain_error, AppErrorCode, AppErrorDto};
use crate::encoding::{base64_encode_spec, base64_standard_decoding, decode_base64, encode_base64};
use crate::contracts::file_transfer::{
    DownloadRemotePathResult, RemoteDirectoryFilePayload, RemoteFileEntry, RemoteFileEntryType,
};
use crate::text::{
    contains_char, is_blank, is_blank_seq, split_seq, starts_with_char, str_eq, trim, trim_end_char,
    trim_end_char_seq, trim_seq, last_index_of, last_index_of_seq,
};

verus! {

/// The root of the remote file system.
pub open spec fn root_path() -> Seq<char> {
    seq!['/']
}

/// Files a directory transfer may hold, at most.
pub const MAX_DIRECTORY_FILE_COUNT: usize = 1000;
/// Levels a directory transfer may reach, at most.
pub const MAX_DIRECTORY_DEPTH: usize = 10;
/// File type bits of a mode.
pub const S_IFMT: u32 = 0o170000;
/// File type bits of a directory.
pub const S_IFDIR: u32 = 0o040000;
/// File type bits of a symbolic link.
pub const S_IFLNK: u32 = 0o120000;

pub open spec fn dot() -> Seq<char> {
    seq!['.']
}

pub open spec fn dot_dot() -> Seq<char> {
    seq!['.', '.']
}

/// A part of a path that names something (not empty, not `.`).
pub open spec fn is_normal_part(p: Seq<char>) -> bool {
    p.len() > 0 && p != dot()
}

/// The last part that names something.
pub open spec fn last_normal(parts: Seq<Seq<char>>) -> Option<Seq<char>>
    decreases parts.len(),
{
    if parts.len() == 0 {
        None
    } else if is_normal_part(parts.last()) {
        Some(parts.last())
    } else {
        last_normal(parts.drop_last())
    }
}

/// `Path::file_name` of a `/`-separated path: the last component, unless
/// there is none or it is `..`.
pub open spec fn path_file_name(p: Seq<char>) -> Option<Seq<char>> {
    match last_normal(split_seq(p, '/')) {
        Some(n) => if n == dot_dot() { None } else { Some(n) },
        None => None,
    }
}

/// A part that a relative path may not have: an empty one or `..`.
pub open spec fn is_bad_part(p: Seq<char>) -> bool {
    p.len() == 0 || p == dot_dot()
}

pub open spec fn any_bad_part(parts: Seq<Seq<char>>) -> bool
    decreases parts.len(),
{
    parts.len() > 0 && (is_bad_part(parts.last()) || any_bad_part(parts.drop_last()))
}

pub open spec fn count_nonempty(parts: Seq<Seq<char>>) -> nat
    decreases parts.len(),
{
    if parts.len() == 0 {
        0
    } else {
        count_nonempty(parts.drop_last()) + if parts.last().len() > 0 { 1nat } else { 0nat }
    }
}

/// Number of levels of a relative path: its non-empty parts.
pub open spec fn relative_depth_spec(p: Seq<char>) -> nat {
    count_nonempty(split_seq(p, '/'))
}

/// The parts of a path seen so far, summarised.
struct PartsScan {
    any_bad: bool,
    nonempty: usize,
    last_normal: Option<(usize, usize)>,
}

proof fn lemma_split_nonempty(s: Seq<char>, sep: char)
    ensures
        split_seq(s, sep).len() >= 1,
    decreases s.len(),
{
    if s.len() > 0 {
        lemma_split_nonempty(s.drop_last(), sep);
    }
}

proof fn lemma_split_step(s: Seq<char>, sep: char, i: int)
    requires
        0 <= i < s.len(),
    ensures
        split_seq(s.subrange(0, i + 1), sep) == (if s[i] == sep {
            split_seq(s.subrange(0, i), sep).push(Seq::<char>::empty())
        } else {
            let init = split_seq(s.subrange(0, i), sep);
            init.update(init.len() - 1, init.last().push(s[i]))
        }),
{
    assert(s.subrange(0, i + 1).drop_last() =~= s.subrange(0, i));
    assert(s.subrange(0, i + 1).last() == s[i]);
}

/// Scans the `/`-separated parts of a path.
fn scan_parts(s: &str) -> (r: PartsScan)
    ensures
        r.any_bad == any_bad_part(split_seq(s@, '/')),
        r.nonempty == count_nonempty(split_seq(s@, '/')),
        match last_normal(split_seq(s@, '/')) {
            Some(n) => r.last_normal matches Some((a, b)) && a <= b <= s@.len() && s@.subrange(a as int, b as int) == n,
            None => r.last_normal is None,
        },
{
    let n = s.unicode_len();
    let mut i: usize = 0;
    let mut start: usize = 0;
    let mut any_bad = false;
    let mut nonempty: usize = 0;
    let mut best: Option<(usize, usize)> = None;
    assert(s@.subrange(0, 0) =~= Seq::<char>::empty());
    assert(split_seq(Seq::<char>::empty(), '/').drop_last() =~= Seq::<Seq<char>>::empty());
    while i < n
        invariant
            n == s@.len(),
            start <= i <= n,
            split_seq(s@.subrange(0, i as int), '/').len() >= 1,
            split_seq(s@.subrange(0, i as int), '/').last() == s@.subrange(start as int, i as int),
            any_bad == any_bad_part(split_seq(s@.subrange(0, i as int), '/').drop_last()),
            nonempty == count_nonempty(split_seq(s@.subrange(0, i as int), '/').drop_last()),
            nonempty <= start,
            match last_normal(split_seq(s@.subrange(0, i as int), '/').drop_last()) {
                Some(m) => best matches Some((a, b)) && a <= b <= n && s@.subrange(a as int, b as int) == m,
                None => best is None,
            },
        decreases n - i,
    {
        let c = s.get_char(i);
        proof {
            lemma_split_step(s@, '/', i as int);
            lemma_split_nonempty(s@.subrange(0, i as int), '/');
        }
        let ghost parts = split_seq(s@.subrange(0, i as int), '/');
        if c == '/' {
            let len = i - start;
            let is_dot = len == 1 && s.get_char(start) == '.';
            let is_dot_dot = len == 2 && s.get_char(start) == '.' && s.get_char(start + 1) == '.';
            proof {
                let p = s@.subrange(start as int, i as int);
                assert(split_seq(s@.subrange(0, i + 1), '/').drop_last() =~= parts);
                assert(parts =~= parts.drop_last().push(p));
                if len == 1 {
                    assert(p[0] == s@[start as int]);
                    assert(is_dot == (p =~= dot()));
                }
                if len == 2 {
                    assert(p[0] == s@[start as int] && p[1] == s@[start + 1]);
                    assert(is_dot_dot == (p =~= dot_dot()));
                }
                if len != 1 {
                    assert(p.len() != dot().len());
                }
                if len != 2 {
                    assert(p.len() != dot_dot().len());
                }
            }
            if len == 0 || is_dot_dot {
                any_bad = true;
            }
            if len > 0 {
                nonempty = nonempty + 1;
            }
            if len > 0 && !is_dot {
                best = Some((start, i));
            }
            start = i + 1;
            proof {
                assert(split_seq(s@.subrange(0, i + 1), '/').last() =~= s@.subrange(start as int, i + 1));
            }
        } else {
            proof {
                let next = split_seq(s@.subrange(0, i + 1), '/');
                assert(next.drop_last() =~= parts.drop_last());
                assert(next.last() =~= s@.subrange(start as int, i + 1));
            }
        }
        i = i + 1;
    }
    assert(s@.subrange(0, n as int) =~= s@);
    let ghost parts = split_seq(s@, '/');
    let last_len = n - start;
    let last_is_dot = last_len == 1 && s.get_char(start) == '.';
    let last_is_dot_dot = last_len == 2 && s.get_char(start) == '.' && s.get_char(start + 1) == '.';
    proof {
        let p = s@.subrange(start as int, n as int);
        assert(parts =~= parts.drop_last().push(p));
        if last_len == 1 {
            assert(p[0] == s@[start as int]);
            assert(last_is_dot == (p =~= dot()));
        } else {
            assert(p.len() != dot().len());
        }
        if last_len == 2 {
            assert(p[0] == s@[start as int] && p[1] == s@[start + 1]);
            assert(last_is_dot_dot == (p =~= dot_dot()));
        } else {
            assert(p.len() != dot_dot().len());
        }
    }
    if last_len == 0 || last_is_dot_dot {
        any_bad = true;
    }
    if last_len > 0 {
        nonempty = nonempty + 1;
    }
    if last_len > 0 && !last_is_dot {
        best = Some((start, n));
    }
    PartsScan { any_bad, nonempty, last_normal: best }
}

/// `Path::file_name` of a `/`-separated path.
pub fn path_file_name_of(path: &str) -> (r: Option<String>)
    ensures
        match path_file_name(path@) {
            Some(n) => r matches Some(s) && s@ == n,
            None => r is None,
        },
{
    let scan = scan_parts(path);
    match scan.last_normal {
        Some((a, b)) => {
            let is_dot_dot = b - a == 2 && path.get_char(a) == '.' && path.get_char(a + 1) == '.';
            proof {
                let p = path@.subrange(a as int, b as int);
                if b - a == 2 {
                    assert(p[0] == path@[a as int] && p[1] == path@[a + 1]);
                    assert(is_dot_dot == (p =~= dot_dot()));
                } else {
                    assert(p.len() != dot_dot().len());
                }
            }
            if is_dot_dot {
                None
            } else {
                Some(String::from_str(path.substring_char(a, b)))
            }
        },
        None => None,
    }
}

/// Number of levels of a relative path.
pub fn relative_depth(path: &str) -> (r: usize)
    ensures
        r == relative_depth_spec(path@),
{
    scan_parts(path).nonempty
}

/// `str::trim`, then `/` for nothing or the root, else without trailing `/`.
pub open spec fn normalize_remote_path_spec(path: Seq<char>) -> Seq<char> {
    let t = trim_seq(path);
    if t.len() == 0 || t == root_path() {
        root_path()
    } else {
        trim_end_char_seq(t, '/')
    }
}

/// A remote path as the user typed it, made canonical: trimmed, the root
/// for nothing, without trailing slashes.
pub fn normalize_remote_path(path: &str) -> (r: String)
    ensures
        r@ == normalize_remote_path_spec(path@),
{
    proof {
        reveal_strlit("/");
        assert("/"@ =~= root_path());
    }
    let trimmed = trim(path);
    if trimmed.unicode_len() == 0 {
        String::from_str("/")
    } else if str_eq(trimmed, "/") {
        String::from_str("/")
    } else {
        String::from_str(trim_end_char(trimmed, '/'))
    }
}

pub open spec fn join_remote_path_spec(parent: Seq<char>, name: Seq<char>) -> Seq<char> {
    if parent == root_path() {
        root_path() + name
    } else {
        parent + root_path() + name
    }
}

/// `name` under the directory `parent`.
pub fn join_remote_path(parent: &str, name: &str) -> (r: String)
    ensures
        r@ == join_remote_path_spec(parent@, name@),
{
    proof {
        reveal_strlit("/");
        assert("/"@ =~= root_path());
    }
    if str_eq(parent, "/") {
        String::from_str("/").concat(name)
    } else {
        String::from_str(parent).concat("/").concat(name)
    }
}

/// The directory that holds a path: up to its last `/` (the root when that
/// is the first character), nothing when there is no `/`.
pub open spec fn remote_parent_path_spec(path: Seq<char>) -> Option<Seq<char>> {
    match last_index_of_seq(path, '/') {
        Some(i) => if i == 0 { Some(root_path()) } else { Some(path.subrange(0, i)) },
        None => None,
    }
}

pub fn remote_parent_path(path: &str) -> (r: Option<String>)
    ensures
        match remote_parent_path_spec(path@) {
            Some(p) => r matches Some(s) && s@ == p,
            None => r is None,
        },
{
    proof {
        reveal_strlit("/");
        assert("/"@ =~= root_path());
    }
    match last_index_of(path, '/') {
        Some(i) => {
            if i == 0 {
                Some(String::from_str("/"))
            } else {
                Some(String::from_str(path.substring_char(0, i)))
            }
        },
        None => None,
    }
}

/// The name a remote path ends with; `IoError` when it has none.
pub fn remote_file_name(path: &str) -> (r: Result<String, AppErrorDto>)
    ensures
        match path_file_name(path@) {
            Some(n) => r matches Ok(s) && s@ == n,
            None => r matches Err(e) && plain_error(e, AppErrorCode::IoError, "Remote path name is invalid"@, false),
        },
{
    match path_file_name_of(path) {
        Some(name) => Ok(name),
        None => Err(AppErrorDto::new(AppErrorCode::IoError, "Remote path name is invalid", false)),
    }
}

/// The name of a downloaded file; `IoError` when the path has none.
pub fn download_file_name(path: &str) -> (r: Result<String, AppErrorDto>)
    ensures
        match path_file_name(path@) {
            Some(n) => r matches Ok(s) && s@ == n,
            None => r matches Err(e) && plain_error(e, AppErrorCode::IoError, "Remote file name is invalid"@, false),
        },
{
    match path_file_name_of(path) {
        Some(name) => Ok(name),
        None => Err(AppErrorDto::new(AppErrorCode::IoError, "Remote file name is invalid", false)),
    }
}

/// A path inside a transferred tree is relative, uses `/` only, and has
/// no empty part and no `..`.
pub open spec fn relative_path_ok(p: Seq<char>) -> bool {
    &&& !is_blank_seq(p)
    &&& !(p.len() > 0 && p[0] == '/')
    &&& !(p.len() > 0 && p[0] == '\\')
    &&& !p.contains('\\')
    &&& !any_bad_part(split_seq(p, '/'))
}

pub fn validate_relative_path(path: &str) -> (r: Result<(), AppErrorDto>)
    ensures
        relative_path_ok(path@) ==> r is Ok,
        !relative_path_ok(path@) ==> (r matches Err(e) && plain_error(
            e,
            AppErrorCode::IoError,
            "Directory entry path is invalid"@,
            false,
        )),
{
    if is_blank(path) || starts_with_char(path, '/') || starts_with_char(path, '\\') || contains_char(path, '\\')
        || scan_parts(path).any_bad {
        return Err(AppErrorDto::new(AppErrorCode::IoError, "Directory entry path is invalid", false));
    }
    Ok(())
}

pub open spec fn directory_limit_message() -> Seq<char> {
    "文件数量过多请打包后上传或下载"@
}

/// A transfer beyond the limits.
pub fn directory_limit_error() -> (r: AppErrorDto)
    ensures
        plain_error(r, AppErrorCode::Unsupported, directory_limit_message(), false),
{
    AppErrorDto::new(AppErrorCode::Unsupported, "文件数量过多请打包后上传或下载", false)
}

/// The table of transfer sessions cannot be used.
pub fn file_transfer_sessions_lock_error() -> (r: AppErrorDto)
    ensures
        plain_error(r, AppErrorCode::Unknown, "File transfer session state is unavailable"@, true),
{
    AppErrorDto::new(AppErrorCode::Unknown, "File transfer session state is unavailable", true)
}

/// A name for a directory to create: not blank, no separator, not `.` or `..`.
pub open spec fn directory_name_ok(name: Seq<char>) -> bool {
    &&& !is_blank_seq(name)
    &&& !name.contains('/')
    &&& !name.contains('\\')
    &&& name != dot()
    &&& name != dot_dot()
}

/// The paths of a transferred tree: its directories, then its files.
pub open spec fn payload_paths(directories: Seq<String>, files: Seq<RemoteDirectoryFilePayload>) -> Seq<Seq<char>> {
    directories.map_values(|d: String| d@) + files.map_values(|f: RemoteDirectoryFilePayload| f.relative_path@)
}

/// The first path of a tree that breaks a rule, and whether it breaks the
/// path rules (else it is too deep).
pub open spec fn first_bad_path(paths: Seq<Seq<char>>) -> Option<(int, bool)>
    decreases paths.len(),
{
    if paths.len() == 0 {
        None
    } else {
        match first_bad_path(paths.drop_last()) {
            Some(x) => Some(x),
            None => if !relative_path_ok(paths.last()) {
                Some((paths.len() - 1, true))
            } else if relative_depth_spec(paths.last()) > MAX_DIRECTORY_DEPTH {
                Some((paths.len() - 1, false))
            } else {
                None
            },
        }
    }
}

/// What is wrong with a tree to upload, checked in this order: the
/// directory name, the number of files, then each path (directories first)
/// for its form and its depth.
pub open spec fn payload_error(
    directory_name: Seq<char>,
    directories: Seq<String>,
    files: Seq<RemoteDirectoryFilePayload>,
) -> Option<(AppErrorCode, Seq<char>)> {
    if !directory_name_ok(directory_name) {
        Some((AppErrorCode::IoError, "Directory name is invalid"@))
    } else if files.len() > MAX_DIRECTORY_FILE_COUNT {
        Some((AppErrorCode::Unsupported, directory_limit_message()))
    } else {
        match first_bad_path(payload_paths(directories, files)) {
            Some((_, true)) => Some((AppErrorCode::IoError, "Directory entry path is invalid"@)),
            Some((_, false)) => Some((AppErrorCode::Unsupported, directory_limit_message())),
            None => None,
        }
    }
}

/// Checks a tree to upload against the naming rules and the limits.
pub fn validate_directory_payload(
    directory_name: &str,
    directories: &Vec<String>,
    files: &Vec<RemoteDirectoryFilePayload>,
) -> (r: Result<(), AppErrorDto>)
    ensures
        match payload_error(directory_name@, directories@, files@) {
            Some((code, m)) => r matches Err(e) && plain_error(e, code, m, false),
            None => r is Ok,
        },
{
    proof {
        reveal_strlit(".");
        reveal_strlit("..");
        assert("."@ =~= dot());
        assert(".."@ =~= dot_dot());
    }
    if is_blank(directory_name) || contains_char(directory_name, '/') || contains_char(directory_name, '\\')
        || str_eq(directory_name, ".") || str_eq(directory_name, "..") {
        return Err(AppErrorDto::new(AppErrorCode::IoError, "Directory name is invalid", false));
    }
    if files.len() > MAX_DIRECTORY_FILE_COUNT {
        return Err(directory_limit_error());
    }
    let ghost paths = payload_paths(directories@, files@);
    assert(directory_name_ok(directory_name@));
    let nd = directories.len();
    let nf = files.len();
    assert(paths.len() == nd + nf);
    let mut k: usize = 0;
    assert(paths.subrange(0, 0) =~= Seq::<Seq<char>>::empty());
    while k < nd
        invariant
            nd == directories.len(),
            nf == files.len(),
            nf <= MAX_DIRECTORY_FILE_COUNT,
            directory_name_ok(directory_name@),
            paths == payload_paths(directories@, files@),
            paths.len() == nd + nf,
            k <= nd,
            first_bad_path(paths.subrange(0, k as int)) is None,
        decreases nd - k,
    {
        let path = directories[k].as_str();
        assert(path@ == paths[k as int]);
        check_tree_path(path, Ghost(paths), Ghost(k as int))?;
        k = k + 1;
    }
    let mut j: usize = 0;
    while j < nf
        invariant
            nd == directories.len(),
            nf == files.len(),
            nf <= MAX_DIRECTORY_FILE_COUNT,
            directory_name_ok(directory_name@),
            paths == payload_paths(directories@, files@),
            paths.len() == nd + nf,
            j <= nf,
            first_bad_path(paths.subrange(0, nd + j)) is None,
        decreases nf - j,
    {
        let path = files[j].relative_path.as_str();
        assert(path@ == paths[nd + j]);
        check_tree_path(path, Ghost(paths), Ghost(nd + j))?;
        j = j + 1;
    }
    assert(paths.subrange(0, nd + nf) =~= paths);
    Ok(())
}

/// Checks the path at position `k` of a tree, all before it being fine.
fn check_tree_path(path: &str, Ghost(paths): Ghost<Seq<Seq<char>>>, Ghost(k): Ghost<int>) -> (r: Result<(), AppErrorDto>)
    requires
        0 <= k < paths.len(),
        path@ == paths[k],
        first_bad_path(paths.subrange(0, k)) is None,
    ensures
        r is Ok ==> first_bad_path(paths.subrange(0, k + 1)) is None,
        r matches Err(e) ==> first_bad_path(paths) matches Some((i, bad_form)) && i == k && if bad_form {
            plain_error(e, AppErrorCode::IoError, "Directory entry path is invalid"@, false)
        } else {
            plain_error(e, AppErrorCode::Unsupported, directory_limit_message(), false)
        },
{
    proof {
        assert(paths.subrange(0, k + 1).drop_last() =~= paths.subrange(0, k));
        assert(paths.subrange(0, k + 1).last() == paths[k]);
    }
    match validate_relative_path(path) {
        Ok(()) => {},
        Err(e) => {
            proof {
                lemma_first_bad_prefix(paths, k + 1);
            }
            return Err(e);
        },
    }
    if relative_depth(path) > MAX_DIRECTORY_DEPTH {
        proof {
            lemma_first_bad_prefix(paths, k + 1);
        }
        return Err(directory_limit_error());
    }
    Ok(())
}

/// A bad path in a prefix is the first bad path of the whole.
proof fn lemma_first_bad_prefix(paths: Seq<Seq<char>>, k: int)
    requires
        0 <= k <= paths.len(),
        first_bad_path(paths.subrange(0, k)) is Some,
    ensures
        first_bad_path(paths) == first_bad_path(paths.subrange(0, k)),
    decreases paths.len() - k,
{
    if k < paths.len() {
        lemma_first_bad_prefix_step(paths, k);
        lemma_first_bad_prefix(paths, k + 1);
    } else {
        assert(paths.subrange(0, k) =~= paths);
    }
}

proof fn lemma_first_bad_prefix_step(paths: Seq<Seq<char>>, k: int)
    requires
        0 <= k < paths.len(),
        first_bad_path(paths.subrange(0, k)) is Some,
    ensures
        first_bad_path(paths.subrange(0, k + 1)) == first_bad_path(paths.subrange(0, k)),
{
    assert(paths.subrange(0, k + 1).drop_last() =~= paths.subrange(0, k));
}

/// The kind of an entry from the type bits of its mode.
pub open spec fn detect_entry_type_spec(perm: Option<u32>) -> RemoteFileEntryType {
    match perm {
        Some(p) => if p & S_IFMT == S_IFDIR {
            RemoteFileEntryType::Directory
        } else if p & S_IFMT == S_IFLNK {
            RemoteFileEntryType::Symlink
        } else if p & S_IFMT == 0 {
            RemoteFileEntryType::Other
        } else {
            RemoteFileEntryType::File
        },
        None => RemoteFileEntryType::Other,
    }
}

pub fn detect_entry_type(perm: Option<u32>) -> (r: RemoteFileEntryType)
    ensures
        r == detect_entry_type_spec(perm),
{
    match perm {
        Some(p) => {
            let bits = p & S_IFMT;
            if bits == S_IFDIR {
                RemoteFileEntryType::Directory
            } else if bits == S_IFLNK {
                RemoteFileEntryType::Symlink
            } else if bits == 0 {
                RemoteFileEntryType::Other
            } else {
                RemoteFileEntryType::File
            }
        },
        None => RemoteFileEntryType::Other,
    }
}

/// The kind of a remote entry whose mode says nothing: a directory if it
/// can be listed, else a file if it can be opened, else other.  The probes
/// are made in that order and only as needed: `readdir_ok` is given exactly
/// when the mode says nothing, `open_ok` exactly when listing failed.
pub fn detect_remote_entry_type(perm: Option<u32>, readdir_ok: Option<bool>, open_ok: Option<bool>) -> (r: RemoteFileEntryType)
    requires
        readdir_ok is Some <==> detect_entry_type_spec(perm) == RemoteFileEntryType::Other,
        open_ok is Some <==> readdir_ok == Some(false),
    ensures
        r == (if detect_entry_type_spec(perm) != RemoteFileEntryType::Other {
            detect_entry_type_spec(perm)
        } else if readdir_ok == Some(true) {
            RemoteFileEntryType::Directory
        } else if open_ok == Some(true) {
            RemoteFileEntryType::File
        } else {
            RemoteFileEntryType::Other
        }),
{
    let t = detect_entry_type(perm);
    if t != RemoteFileEntryType::Other {
        return t;
    }
    match readdir_ok {
        Some(true) => RemoteFileEntryType::Directory,
        _ => match open_ok {
            Some(true) => RemoteFileEntryType::File,
            _ => RemoteFileEntryType::Other,
        },
    }
}

/// The name under which an entry is listed: its file name, unless it has
/// none or is `.` or `..`.
pub open spec fn listed_name(entry_path: Seq<char>) -> Option<Seq<char>> {
    match path_file_name(entry_path) {
        Some(n) => if n == dot() || n == dot_dot() {
            None
        } else {
            Some(n)
        },
        None => None,
    }
}

/// `e` is what the interface shows of the entry at `entry_path` in the
/// directory `parent_path`: its name, its path under the directory, its
/// kind, its size and its modification time in milliseconds.
pub open spec fn is_entry_for(
    e: RemoteFileEntry,
    parent_path: Seq<char>,
    entry_path: Seq<char>,
    perm: Option<u32>,
    size: Option<u64>,
    mtime: Option<u64>,
) -> bool {
    &&& listed_name(entry_path) matches Some(n)
    &&& e.name@ == n
    &&& e.path@ == join_remote_path_spec(parent_path, n)
    &&& e.entry_type == detect_entry_type_spec(perm)
    &&& e.size == size
    &&& e.modified_at == match mtime {
        Some(m) => Some(((m as i64) * 1000) as i64),
        None => None,
    }
}

/// What the interface sees of a directory entry; entries without a name,
/// and `.` and `..`, are left out.
pub fn to_remote_file_entry(parent_path: &str, entry_path: &str, perm: Option<u32>, size: Option<u64>, mtime: Option<u64>) -> (r: Option<RemoteFileEntry>)
    requires
        mtime matches Some(m) ==> i64::MIN <= (m as i64) * 1000 <= i64::MAX,
    ensures
        match listed_name(entry_path@) {
            Some(_) => r matches Some(e) && is_entry_for(e, parent_path@, entry_path@, perm, size, mtime),
            None => r is None,
        },
{
    proof {
        reveal_strlit(".");
        reveal_strlit("..");
        assert("."@ =~= dot());
        assert(".."@ =~= dot_dot());
    }
    let name = match path_file_name_of(entry_path) {
        Some(n) => n,
        None => return None,
    };
    if str_eq(name.as_str(), ".") || str_eq(name.as_str(), "..") {
        return None;
    }
    let path = join_remote_path(parent_path, name.as_str());
    let modified_at = match mtime {
        Some(m) => Some((m as i64) * 1000),
        None => None,
    };
    Some(RemoteFileEntry { name, path, entry_type: detect_entry_type(perm), size, modified_at })
}

/// The directory to list when the user named one: the normalized path,
/// unless the name is absent or blank.
pub fn requested_directory(path: &Option<String>) -> (r: Option<String>)
    ensures
        match *path {
            Some(p) => if is_blank_seq(p@) {
                r is None
            } else {
                r matches Some(s) && s@ == normalize_remote_path_spec(p@)
            },
            None => r is None,
        },
{
    match path {
        Some(p) => {
            if is_blank(p.as_str()) {
                None
            } else {
                Some(normalize_remote_path(p.as_str()))
            }
        },
        None => None,
    }
}

/// The directory to list when the user named none, from the remote
/// resolution of `.` (the login directory): that directory, or the root
/// when it cannot be resolved; and whether the listing fell back to the
/// root.
pub fn directory_from_realpath(realpath: Option<&str>) -> (r: (String, bool))
    ensures
        match realpath {
            Some(p) => r.0@ == normalize_remote_path_spec(p@) && r.1 == (normalize_remote_path_spec(p@) == root_path()),
            None => r.0@ == root_path() && r.1,
        },
{
    proof {
        reveal_strlit("/");
        assert("/"@ =~= root_path());
    }
    match realpath {
        Some(p) => {
            let normalized = normalize_remote_path(p);
            let fallback = str_eq(normalized.as_str(), "/");
            (normalized, fallback)
        },
        None => (String::from_str("/"), true),
    }
}

/// Whether the user named no directory (none, or a blank name), so that
/// the login directory is listed.
pub open spec fn no_directory_named(path: Option<String>) -> bool {
    match path {
        Some(p) => is_blank_seq(p@),
        None => true,
    }
}

/// Where a listing that failed at `listed` is tried once more: when the
/// user named no directory, the login directory that could not be listed
/// gives way to the root, listed as a fallback (`("/", true)`); a directory
/// the user named, or the root itself, is not retried (`None`).
pub fn retry_listing_at_root(path: &Option<String>, listed: &str) -> (r: Option<(String, bool)>)
    ensures
        (r is Some) == (no_directory_named(*path) && listed@ != root_path()),
        r matches Some(t) ==> t.0@ == root_path() && t.1,
{
    proof {
        reveal_strlit("/");
        assert("/"@ =~= root_path());
    }
    let named = requested_directory(path);
    if named.is_none() && !str_eq(listed, "/") {
        Some((String::from_str("/"), true))
    } else {
        None
    }
}

/// What downloading a path that is not a directory gives: its name, its
/// kind and its content in Base64, with no tree.
pub fn file_download(name: String, entry_type: RemoteFileEntryType, content: &[u8]) -> (r: DownloadRemotePathResult)
    requires
        content@.len() / 3 * 4 + 4 <= usize::MAX,
    ensures
        r.name == name,
        r.entry_type == entry_type,
        r.content_base64 matches Some(t) && t@ == base64_encode_spec(content@),
        r.directories@.len() == 0,
        r.files@.len() == 0,
{
    DownloadRemotePathResult {
        name,
        entry_type,
        content_base64: Some(encode_base64(content)),
        directories: Vec::new(),
        files: Vec::new(),
    }
}

/// Where downloading a directory starts: its name and kind, no content,
/// and a tree to be filled by the walk.
pub fn directory_download(name: String) -> (r: DownloadRemotePathResult)
    ensures
        r.name == name,
        r.entry_type == RemoteFileEntryType::Directory,
        r.content_base64 is None,
        r.directories@.len() == 0,
        r.files@.len() == 0,
{
    DownloadRemotePathResult {
        name,
        entry_type: RemoteFileEntryType::Directory,
        content_base64: None,
        directories: Vec::new(),
        files: Vec::new(),
    }
}

/// One step of uploading a tree.
#[derive(Debug)]
pub enum UploadStep {
    /// Make sure this remote directory exists.
    EnsureDirectory(String),
    /// Create this remote file with this content.
    WriteFile { path: String, content: Vec<u8> },
    /// Stop with this error (a file's content is not valid Base64).
    Fail(AppErrorDto),
}

/// What a step does, as values.
pub enum UploadStepView {
    Ensure(Seq<char>),
    Write(Seq<char>, Seq<u8>),
    Fail,
}

pub open spec fn step_view(s: UploadStep) -> UploadStepView {
    match s {
        UploadStep::EnsureDirectory(p) => UploadStepView::Ensure(p@),
        UploadStep::WriteFile { path, content } => UploadStepView::Write(path@, content@),
        UploadStep::Fail(_) => UploadStepView::Fail,
    }
}

pub open spec fn steps_view(steps: Seq<UploadStep>) -> Seq<UploadStepView> {
    steps.map_values(|s: UploadStep| step_view(s))
}

/// The directories of a tree at a given depth, in their order.
pub open spec fn dirs_at_depth(dirs: Seq<String>, d: nat) -> Seq<String>
    decreases dirs.len(),
{
    if dirs.len() == 0 {
        Seq::empty()
    } else if relative_depth_spec(dirs.last()@) == d {
        dirs_at_depth(dirs.drop_last(), d).push(dirs.last())
    } else {
        dirs_at_depth(dirs.drop_last(), d)
    }
}

/// The directories of a tree of depth at most `d`, shallower ones first
/// and in their order within a depth.
pub open spec fn dirs_by_depth_upto(dirs: Seq<String>, d: nat) -> Seq<String>
    decreases d,
{
    if d == 0 {
        dirs_at_depth(dirs, 0)
    } else {
        dirs_by_depth_upto(dirs, (d - 1) as nat) + dirs_at_depth(dirs, d)
    }
}

/// The directories of a valid tree ordered by depth, stably (every path of
/// a valid tree is at most `MAX_DIRECTORY_DEPTH` deep).
pub open spec fn dirs_by_depth(dirs: Seq<String>) -> Seq<String> {
    dirs_by_depth_upto(dirs, MAX_DIRECTORY_DEPTH as nat)
}

/// The steps for the files of a tree under `root`: for each file, make
/// sure its directory exists, then write it, or stop at the first file
/// whose content is not valid Base64.
pub open spec fn file_steps(root: Seq<char>, files: Seq<RemoteDirectoryFilePayload>) -> Seq<UploadStepView>
    decreases files.len(),
{
    if files.len() == 0 {
        Seq::empty()
    } else {
        let p = join_remote_path_spec(root, files[0].relative_path@);
        let ensure = match remote_parent_path_spec(p) {
            Some(q) => seq![UploadStepView::Ensure(q)],
            None => Seq::empty(),
        };
        match base64_standard_decoding(files[0].content_base64@) {
            Some(bytes) => ensure + seq![UploadStepView::Write(p, bytes)] + file_steps(root, files.drop_first()),
            None => ensure + seq![UploadStepView::Fail],
        }
    }
}

/// The remote root of an uploaded tree.
pub open spec fn upload_root(remote_dir_path: Seq<char>, directory_name: Seq<char>) -> Seq<char> {
    join_remote_path_spec(normalize_remote_path_spec(remote_dir_path), directory_name)
}

/// Making sure each directory exists under `root`.
pub open spec fn dir_steps(root: Seq<char>, dirs: Seq<String>) -> Seq<UploadStepView> {
    dirs.map_values(|d: String| UploadStepView::Ensure(join_remote_path_spec(root, d@)))
}

/// The steps of uploading a tree named `directory_name` into
/// `remote_dir_path`: its root, its directories by depth, then its files.
pub open spec fn upload_steps(
    remote_dir_path: Seq<char>,
    directory_name: Seq<char>,
    directories: Seq<String>,
    files: Seq<RemoteDirectoryFilePayload>,
) -> Seq<UploadStepView> {
    let root = upload_root(remote_dir_path, directory_name);
    seq![UploadStepView::Ensure(root)] + dir_steps(root, dirs_by_depth(directories)) + file_steps(root, files)
}

/// The directories of depth `d`, in order.
fn dirs_of_depth(dirs: &Vec<String>, d: usize) -> (r: Vec<usize>)
    ensures
        r@.map_values(|i: usize| dirs@[i as int]) == dirs_at_depth(dirs@, d as nat),
        forall|k: int| 0 <= k < r@.len() ==> #[trigger] r@[k] < dirs@.len(),
{
    let mut out: Vec<usize> = Vec::new();
    let mut i: usize = 0;
    assert(dirs@.subrange(0, 0) =~= Seq::<String>::empty());
    while i < dirs.len()
        invariant
            i <= dirs.len(),
            out@.map_values(|k: usize| dirs@[k as int]) == dirs_at_depth(dirs@.subrange(0, i as int), d as nat),
            forall|k: int| 0 <= k < out@.len() ==> #[trigger] out@[k] < dirs@.len(),
        decreases dirs.len() - i,
    {
        proof {
            assert(dirs@.subrange(0, i + 1).drop_last() =~= dirs@.subrange(0, i as int));
            assert(dirs@.subrange(0, i + 1).last() == dirs@[i as int]);
        }
        if relative_depth(dirs[i].as_str()) == d {
            out.push(i);
        }
        assert(out@.map_values(|k: usize| dirs@[k as int]) =~= dirs_at_depth(dirs@.subrange(0, i + 1), d as nat));
        i = i + 1;
    }
    assert(dirs@.subrange(0, dirs.len() as int) =~= dirs@);
    out
}

/// Checks a tree and plans its upload; the steps run in order and stop at
/// the first that fails.
#[verifier::spinoff_prover]
pub fn plan_directory_upload(
    remote_dir_path: &str,
    directory_name: &str,
    directories: &Vec<String>,
    files: &Vec<RemoteDirectoryFilePayload>,
) -> (r: Result<Vec<UploadStep>, AppErrorDto>)
    ensures
        match payload_error(directory_name@, directories@, files@) {
            Some((code, m)) => r matches Err(e) && plain_error(e, code, m, false),
            None => r matches Ok(steps) && steps_view(steps@) == upload_steps(
                remote_dir_path@,
                directory_name@,
                directories@,
                files@,
            ) && forall|k: int| 0 <= k < steps@.len() ==> (#[trigger] steps@[k] matches UploadStep::Fail(e)
                ==> e.code == AppErrorCode::IoError && e.message@ == "Invalid base64 input"@),
        },
{
    validate_directory_payload(directory_name, directories, files)?;
    let parent = normalize_remote_path(remote_dir_path);
    let root = join_remote_path(parent.as_str(), directory_name);
    let ghost root_v = root@;
    let mut steps: Vec<UploadStep> = Vec::new();
    steps.push(UploadStep::EnsureDirectory(root.clone()));
    let ghost head = seq![UploadStepView::Ensure(root_v)];
    assert(steps_view(steps@) =~= head);
    let mut d: usize = 0;
    while d <= MAX_DIRECTORY_DEPTH
        invariant
            root@ == root_v,
            d <= MAX_DIRECTORY_DEPTH + 1,
            forall|k: int| 0 <= k < steps@.len() ==> !(#[trigger] steps@[k] is Fail),
            steps_view(steps@) == head + dir_steps(root_v, if d == 0 {
                Seq::<String>::empty()
            } else {
                dirs_by_depth_upto(directories@, (d - 1) as nat)
            }),
        decreases MAX_DIRECTORY_DEPTH + 1 - d,
    {
        let picked = dirs_of_depth(directories, d);
        let ghost before = steps_view(steps@);
        let ghost chosen = dirs_at_depth(directories@, d as nat);
        let mut j: usize = 0;
        while j < picked.len()
            invariant
                root@ == root_v,
                j <= picked.len(),
                picked@.map_values(|i: usize| directories@[i as int]) == chosen,
                forall|k: int| 0 <= k < picked@.len() ==> #[trigger] picked@[k] < directories@.len(),
                forall|k: int| 0 <= k < steps@.len() ==> !(#[trigger] steps@[k] is Fail),
                steps_view(steps@) == before + dir_steps(root_v, chosen.subrange(0, j as int)),
            decreases picked.len() - j,
        {
            let idx = picked[j];
            assert(chosen[j as int] == directories@[idx as int]);
            let path = join_remote_path(root.as_str(), directories[idx].as_str());
            let ghost sv = steps_view(steps@);
            let ghost pv = path@;
            steps.push(UploadStep::EnsureDirectory(path));
            proof {
                assert(steps_view(steps@) =~= sv.push(UploadStepView::Ensure(pv)));
                assert(chosen.subrange(0, j + 1) =~= chosen.subrange(0, j as int).push(chosen[j as int]));
                assert(dir_steps(root_v, chosen.subrange(0, j + 1)) =~= dir_steps(root_v, chosen.subrange(0, j as int)).push(UploadStepView::Ensure(pv)));
                assert(steps_view(steps@) =~= before + dir_steps(root_v, chosen.subrange(0, j + 1)));
            }
            j = j + 1;
        }
        proof {
            assert(chosen.subrange(0, chosen.len() as int) =~= chosen);
            let prev = if d == 0 {
                Seq::<String>::empty()
            } else {
                dirs_by_depth_upto(directories@, (d - 1) as nat)
            };
            assert(dirs_by_depth_upto(directories@, d as nat) =~= prev + chosen);
            assert(dir_steps(root_v, prev + chosen) =~= dir_steps(root_v, prev) + dir_steps(root_v, chosen));
            assert(steps_view(steps@) =~= head + dir_steps(root_v, dirs_by_depth_upto(directories@, d as nat)));
        }
        d = d + 1;
    }
    let ghost dir_part = steps_view(steps@);
    let n = files.len();
    let mut i: usize = 0;
    assert(files@.subrange(0, n as int) =~= files@);
    assert(dir_part + file_steps(root_v, files@.subrange(0, n as int)) =~= dir_part + file_steps(root_v, files@));
    while i < n
        invariant
            n == files.len(),
            i <= n,
            root@ == root_v,
            root_v == upload_root(remote_dir_path@, directory_name@),
            payload_error(directory_name@, directories@, files@) is None,
            head == seq![UploadStepView::Ensure(root_v)],
            dir_part == head + dir_steps(root_v, dirs_by_depth(directories@)),
            forall|k: int| 0 <= k < steps@.len() ==> !(#[trigger] steps@[k] is Fail),
            dir_part + file_steps(root_v, files@) == steps_view(steps@) + file_steps(root_v, files@.subrange(i as int, n as int)),
        decreases n - i,
    {
        let file = &files[i];
        let ghost rest = files@.subrange(i as int, n as int);
        proof {
            assert(rest[0] == files@[i as int]);
            assert(rest.drop_first() =~= files@.subrange(i + 1, n as int));
        }
        let path = join_remote_path(root.as_str(), file.relative_path.as_str());
        let ghost before = steps_view(steps@);
        let ghost ensure = match remote_parent_path_spec(path@) {
            Some(q) => seq![UploadStepView::Ensure(q)],
            None => Seq::<UploadStepView>::empty(),
        };
        match remote_parent_path(path.as_str()) {
            Some(q) => {
                steps.push(UploadStep::EnsureDirectory(q));
                assert(steps_view(steps@) =~= before + ensure);
            },
            None => {
                assert(steps_view(steps@) =~= before + ensure);
            },
        }
        match decode_base64(file.content_base64.as_str()) {
            Ok(content) => {
                let ghost cv = content@;
                let ghost pv = path@;
                let ghost mid = steps_view(steps@);
                steps.push(UploadStep::WriteFile { path, content });
                proof {
                    assert(steps_view(steps@) =~= mid.push(UploadStepView::Write(pv, cv)));
                    assert(steps_view(steps@) + file_steps(root_v, files@.subrange(i + 1, n as int)) =~= before + file_steps(root_v, rest));
                }
            },
            Err(e) => {
                let ghost mid = steps_view(steps@);
                let ghost old_steps = steps@;
                assert(e.code == AppErrorCode::IoError && e.message@ == "Invalid base64 input"@);
                steps.push(UploadStep::Fail(e));
                proof {
                    assert(steps_view(steps@) =~= mid.push(UploadStepView::Fail));
                    assert(steps_view(steps@) =~= before + file_steps(root_v, rest));
                    assert forall|k: int| 0 <= k < steps@.len() implies (#[trigger] steps@[k] matches UploadStep::Fail(e2)
                        ==> e2.code == AppErrorCode::IoError && e2.message@ == "Invalid base64 input"@) by {
                        if k < steps@.len() - 1 {
                            assert(steps@[k] == old_steps[k]);
                            assert(!(old_steps[k] is Fail));
                        }
                    }
                    assert(steps_view(steps@) =~= dir_part + file_steps(root_v, files@));
                    assert(steps_view(steps@) == upload_steps(remote_dir_path@, directory_name@, directories@, files@));
                }
                return Ok(steps);
            },
        }
        i = i + 1;
    }
    assert(files@.subrange(n as int, n as int) =~= Seq::<RemoteDirectoryFilePayload>::empty());
    assert(steps_view(steps@) =~= dir_part + file_steps(root_v, files@));
    Ok(steps)
}

/// A walk that has gone deeper than the limit.
pub fn collect_depth_check(depth: usize) -> (r: Result<(), AppErrorDto>)
    ensures
        depth <= MAX_DIRECTORY_DEPTH ==> r is Ok,
        depth > MAX_DIRECTORY_DEPTH ==> (r matches Err(e) && plain_error(e, AppErrorCode::Unsupported, directory_limit_message(), false)),
{
    if depth > MAX_DIRECTORY_DEPTH {
        return Err(directory_limit_error());
    }
    Ok(())
}

/// An entry met while walking a remote tree.
#[derive(Clone, Debug)]
pub struct CollectEntry {
    pub name: String,
    /// Its path relative to the root of the walk.
    pub relative_path: String,
    /// Its remote path.
    pub remote_path: String,
}

/// The path of `name` inside the relative directory `relative_dir_path`.
pub open spec fn relative_child_spec(relative_dir_path: Seq<char>, name: Seq<char>) -> Seq<char> {
    if relative_dir_path.len() == 0 {
        name
    } else {
        relative_dir_path + root_path() + name
    }
}

/// The entry `entry_path` of the remote directory `remote_dir_path`, which
/// is `relative_dir_path` within the walk: left out (`None`) when it has no
/// name or is `.` or `..`, refused when it lies deeper than the limit.
pub fn collect_entry(remote_dir_path: &str, relative_dir_path: &str, entry_path: &str) -> (r: Result<Option<CollectEntry>, AppErrorDto>)
    ensures
        match path_file_name(entry_path@) {
            None => r == Ok::<Option<CollectEntry>, AppErrorDto>(None),
            Some(n) => if n == dot() || n == dot_dot() {
                r == Ok::<Option<CollectEntry>, AppErrorDto>(None)
            } else if relative_depth_spec(relative_child_spec(relative_dir_path@, n)) > MAX_DIRECTORY_DEPTH {
                r matches Err(e) && plain_error(e, AppErrorCode::Unsupported, directory_limit_message(), false)
            } else {
                r matches Ok(Some(c)) && c.name@ == n && c.relative_path@ == relative_child_spec(relative_dir_path@, n)
                    && c.remote_path@ == join_remote_path_spec(remote_dir_path@, n)
            },
        },
{
    proof {
        reveal_strlit(".");
        reveal_strlit("..");
        reveal_strlit("/");
        assert("."@ =~= dot());
        assert(".."@ =~= dot_dot());
        assert("/"@ =~= root_path());
    }
    let name = match path_file_name_of(entry_path) {
        Some(n) => n,
        None => return Ok(None),
    };
    if str_eq(name.as_str(), ".") || str_eq(name.as_str(), "..") {
        return Ok(None);
    }
    let relative_path = if relative_dir_path.unicode_len() == 0 {
        name.clone()
    } else {
        String::from_str(relative_dir_path).concat("/").concat(name.as_str())
    };
    if relative_depth(relative_path.as_str()) > MAX_DIRECTORY_DEPTH {
        return Err(directory_limit_error());
    }
    let remote_path = join_remote_path(remote_dir_path, name.as_str());
    Ok(Some(CollectEntry { name, relative_path, remote_path }))
}

/// What a walk does with an entry of a given kind.
#[derive(Clone, Copy, Debug, PartialEq, Eq, Structural)]
pub enum CollectAction {
    /// Record the directory and walk into it.
    Descend,
    /// Read the file and record it.
    ReadFile,
    /// Leave it out (links and other kinds).
    Skip,
}

/// The action for an entry of kind `entry_type` when `files_so_far` files
/// were collected: one file more than the limit is refused.
pub fn collect_action(entry_type: RemoteFileEntryType, files_so_far: usize) -> (r: Result<CollectAction, AppErrorDto>)
    ensures
        match entry_type {
            RemoteFileEntryType::Directory => r == Ok::<CollectAction, AppErrorDto>(CollectAction::Descend),
            RemoteFileEntryType::File => if files_so_far >= MAX_DIRECTORY_FILE_COUNT {
                r matches Err(e) && plain_error(e, AppErrorCode::Unsupported, directory_limit_message(), false)
            } else {
                r == Ok::<CollectAction, AppErrorDto>(CollectAction::ReadFile)
            },
            _ => r == Ok::<CollectAction, AppErrorDto>(CollectAction::Skip),
        },
{
    match entry_type {
        RemoteFileEntryType::Directory => Ok(CollectAction::Descend),
        RemoteFileEntryType::File => {
            if files_so_far >= MAX_DIRECTORY_FILE_COUNT {
                Err(directory_limit_error())
            } else {
                Ok(CollectAction::ReadFile)
            }
        },
        _ => Ok(CollectAction::Skip),
    }
}



/// A remote operation of a file transfer.
#[derive(Clone, Copy, Debug, PartialEq, Eq, Structural)]
pub enum RemoteAction {
    ReadDirectory,
    CreateFile,
    UploadFile,
    OpenFile,
    DownloadFile,
    StatPath,
    CreateDirectory,
}

pub open spec fn remote_action_prefix(action: RemoteAction) -> Seq<char> {
    match action {
        RemoteAction::ReadDirectory => "Failed to read remote directory "@,
        RemoteAction::CreateFile => "Failed to create remote file "@,
        RemoteAction::UploadFile => "Failed to upload remote file "@,
        RemoteAction::OpenFile => "Failed to open remote file "@,
        RemoteAction::DownloadFile => "Failed to download remote file "@,
        RemoteAction::StatPath => "Failed to stat remote path "@,
        RemoteAction::CreateDirectory => "Failed to create remote directory "@,
    }
}

/// The error of a remote operation on `path` that failed; `details` is the
/// text of the underlying error.  A retry may help.
pub fn remote_io_error(action: RemoteAction, path: &str, details: &str) -> (r: AppErrorDto)
    ensures
        detailed_error(r, AppErrorCode::IoError, remote_action_prefix(action) + path@, details@, true),
{
    let prefix = match action {
        RemoteAction::ReadDirectory => "Failed to read remote directory ",
        RemoteAction::CreateFile => "Failed to create remote file ",
        RemoteAction::UploadFile => "Failed to upload remote file ",
        RemoteAction::OpenFile => "Failed to open remote file ",
        RemoteAction::DownloadFile => "Failed to download remote file ",
        RemoteAction::StatPath => "Failed to stat remote path ",
        RemoteAction::CreateDirectory => "Failed to create remote directory ",
    };
    let message = String::from_str(prefix).concat(path);
    AppErrorDto::with_details(AppErrorCode::IoError, message.as_str(), details, true)
}

/// The error where a directory is wanted and a non-directory is found.
pub fn not_a_directory_error(path: &str) -> (r: AppErrorDto)
    ensures
        plain_error(r, AppErrorCode::IoError, "Remote path exists and is not a directory: "@ + path@, false),
{
    let message = String::from_str("Remote path exists and is not a directory: ").concat(path);
    AppErrorDto::new(AppErrorCode::IoError, message.as_str(), false)
}

/// The error where the SFTP subsystem cannot be opened.
pub fn sftp_open_error(details: &str) -> (r: AppErrorDto)
    ensures
        detailed_error(r, AppErrorCode::IoError, "Failed to open SFTP session"@, details@, true),
{
    AppErrorDto::with_details(AppErrorCode::IoError, "Failed to open SFTP session", details, true)
}


/// With no bad path, every path keeps the path rules and the depth limit.
proof fn lemma_no_bad_path(paths: Seq<Seq<char>>)
    requires
        first_bad_path(paths) is None,
    ensures
        forall|i: int| 0 <= i < paths.len() ==> relative_path_ok(#[trigger] paths[i])
            && relative_depth_spec(paths[i]) <= MAX_DIRECTORY_DEPTH,
    decreases paths.len(),
{
    if paths.len() > 0 {
        let init = paths.drop_last();
        lemma_no_bad_path(init);
        assert forall|i: int| 0 <= i < paths.len() implies relative_path_ok(#[trigger] paths[i])
            && relative_depth_spec(paths[i]) <= MAX_DIRECTORY_DEPTH by {
            if i < paths.len() - 1 {
                assert(paths[i] == init[i]);
            }
        }
    }
}

/// A tree that passes the checks stays within the limits: its name is a
/// plain name, it has at most `MAX_DIRECTORY_FILE_COUNT` files, and each of
/// its directory and file paths is relative, free of empty and `..` parts,
/// and at most `MAX_DIRECTORY_DEPTH` levels deep.
pub proof fn law_accepted_tree_within_limits(
    directory_name: Seq<char>,
    directories: Seq<String>,
    files: Seq<RemoteDirectoryFilePayload>,
)
    requires
        payload_error(directory_name, directories, files) is None,
    ensures
        directory_name_ok(directory_name),
        files.len() <= MAX_DIRECTORY_FILE_COUNT,
        forall|i: int| 0 <= i < directories.len() ==> relative_path_ok(#[trigger] directories[i]@)
            && relative_depth_spec(directories[i]@) <= MAX_DIRECTORY_DEPTH,
        forall|i: int| 0 <= i < files.len() ==> relative_path_ok(#[trigger] files[i].relative_path@)
            && relative_depth_spec(files[i].relative_path@) <= MAX_DIRECTORY_DEPTH,
{
    let paths = payload_paths(directories, files);
    lemma_no_bad_path(paths);
    let n = directories.len() as int;
    assert forall|i: int| 0 <= i < directories.len() implies relative_path_ok(#[trigger] directories[i]@)
        && relative_depth_spec(directories[i]@) <= MAX_DIRECTORY_DEPTH by {
        assert(paths[i] == directories[i]@);
    }
    assert forall|i: int| 0 <= i < files.len() implies relative_path_ok(#[trigger] files[i].relative_path@)
        && relative_depth_spec(files[i].relative_path@) <= MAX_DIRECTORY_DEPTH by {
        assert(paths[n + i] == files[i].relative_path@);
    }
}

/// The last `c` of a text is not moved by appending text without `c`.
proof fn lemma_last_index_past_suffix(s: Seq<char>, b: Seq<char>, c: char)
    requires
        forall|i: int| 0 <= i < b.len() ==> b[i] != c,
    ensures
        last_index_of_seq(s + b, c) == last_index_of_seq(s, c),
    decreases b.len(),
{
    if b.len() == 0 {
        assert(s + b =~= s);
    } else {
        lemma_last_index_past_suffix(s, b.drop_last(), c);
        assert((s + b).drop_last() =~= s + b.drop_last());
        assert((s + b).last() == b.last());
    }
}

/// A name joined under a directory has that directory as its parent: the
/// directory that an upload makes sure of before writing a file is the one
/// the file was put in.
pub proof fn law_parent_of_joined_path(parent: Seq<char>, name: Seq<char>)
    requires
        parent.len() > 0,
        forall|i: int| 0 <= i < name.len() ==> name[i] != '/',
    ensures
        remote_parent_path_spec(join_remote_path_spec(parent, name)) == Some(parent),
{
    let head = if parent == root_path() { Seq::<char>::empty() } else { parent };
    let joined = join_remote_path_spec(parent, name);
    assert(joined =~= head.push('/') + name);
    lemma_last_index_past_suffix(head.push('/'), name, '/');
    assert(head.push('/').drop_last() =~= head);
    if parent != root_path() {
        assert(joined.subrange(0, parent.len() as int) =~= parent);
    }
}

} // verus!
