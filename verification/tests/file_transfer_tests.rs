use wmcssh::contracts::errors::AppErrorCode;
use wmcssh::contracts::file_transfer::{RemoteDirectoryFilePayload, RemoteFileEntryType};
use wmcssh::services::file_transfer_service::{
    collect_action, collect_depth_check, collect_entry, detect_entry_type,
    detect_remote_entry_type, directory_download, directory_from_realpath, directory_limit_error,
    download_file_name, file_download,
    file_transfer_sessions_lock_error, join_remote_path, normalize_remote_path,
    not_a_directory_error, plan_directory_upload, relative_depth, remote_file_name,
    remote_io_error, remote_parent_path, requested_directory, retry_listing_at_root, sftp_open_error,
    to_remote_file_entry, validate_directory_payload, validate_relative_path, CollectAction,
    RemoteAction, UploadStep,
};

fn file(path: &str, content: &str) -> RemoteDirectoryFilePayload {
    RemoteDirectoryFilePayload { relative_path: path.into(), content_base64: content.into() }
}

#[test]
fn remote_paths_are_normalized() {
    assert_eq!(normalize_remote_path(""), "/");
    assert_eq!(normalize_remote_path("   "), "/");
    assert_eq!(normalize_remote_path(" / "), "/");
    assert_eq!(normalize_remote_path(" /var/log/ "), "/var/log");
    assert_eq!(normalize_remote_path("/var//"), "/var");
    assert_eq!(normalize_remote_path("relative/dir"), "relative/dir");
    assert_eq!(normalize_remote_path("///"), "");
}

#[test]
fn joining_and_parents() {
    assert_eq!(join_remote_path("/", "etc"), "/etc");
    assert_eq!(join_remote_path("/home/u", "a.txt"), "/home/u/a.txt");
    assert_eq!(remote_parent_path("/home/u/a.txt"), Some("/home/u".to_string()));
    assert_eq!(remote_parent_path("/etc"), Some("/".to_string()));
    assert_eq!(remote_parent_path("file"), None);
    let joined = join_remote_path("/srv", "data.bin");
    assert_eq!(remote_parent_path(&joined), Some("/srv".to_string()));
    let joined = join_remote_path("/", "data.bin");
    assert_eq!(remote_parent_path(&joined), Some("/".to_string()));
}

#[test]
fn file_names_follow_path_semantics() {
    assert_eq!(remote_file_name("/a/b.txt").unwrap(), "b.txt");
    assert_eq!(remote_file_name("/a/b/").unwrap(), "b");
    assert_eq!(remote_file_name("/a/b/.").unwrap(), "b");
    let e = remote_file_name("/").unwrap_err();
    assert_eq!(e.code, AppErrorCode::IoError);
    assert_eq!(e.message, "Remote path name is invalid");
    assert!(remote_file_name("/a/..").is_err());
    assert_eq!(download_file_name("/x/y").unwrap(), "y");
    assert_eq!(download_file_name("").unwrap_err().message, "Remote file name is invalid");
}

#[test]
fn relative_paths_and_depth() {
    assert_eq!(relative_depth("a/b/c"), 3);
    assert_eq!(relative_depth("a//b/"), 2);
    assert_eq!(relative_depth(""), 0);
    assert!(validate_relative_path("a/b.txt").is_ok());
    for bad in ["", " ", "/abs", "\\x", "a\\b", "a//b", "a/../b", "a/", ".."] {
        let e = validate_relative_path(bad).unwrap_err();
        assert_eq!(e.message, "Directory entry path is invalid", "{bad}");
    }
    assert!(validate_relative_path("./a").is_ok());
}

#[test]
fn directory_payload_rules() {
    let dirs = vec!["sub".to_string()];
    let files = vec![file("sub/a.txt", "")];
    assert!(validate_directory_payload("tree", &dirs, &files).is_ok());
    for bad in ["", "a/b", "a\\b", ".", ".."] {
        let e = validate_directory_payload(bad, &dirs, &files).unwrap_err();
        assert_eq!(e.message, "Directory name is invalid");
    }
    let e = validate_directory_payload("tree", &vec!["../x".to_string()], &files).unwrap_err();
    assert_eq!(e.message, "Directory entry path is invalid");
    let deep = (0..11).map(|i| format!("d{i}")).collect::<Vec<_>>().join("/");
    let e = validate_directory_payload("tree", &vec![deep], &files).unwrap_err();
    assert_eq!(e.code, AppErrorCode::Unsupported);
    assert_eq!(e.message, "文件数量过多请打包后上传或下载");
    let many: Vec<_> = (0..1001).map(|i| file(&format!("f{i}"), "")).collect();
    assert_eq!(validate_directory_payload("tree", &vec![], &many).unwrap_err().code, AppErrorCode::Unsupported);
    let limit: Vec<_> = (0..1000).map(|i| file(&format!("f{i}"), "")).collect();
    assert!(validate_directory_payload("tree", &vec![], &limit).is_ok());
}

#[test]
fn upload_plan_makes_directories_by_depth_then_writes_files() {
    let dirs = vec!["a/b".to_string(), "a".to_string(), "c".to_string()];
    let files = vec![file("a/b/x.txt", "eA=="), file("top.txt", "")];
    let steps = plan_directory_upload("/srv/", "tree", &dirs, &files).unwrap();
    let described: Vec<String> = steps
        .iter()
        .map(|s| match s {
            UploadStep::EnsureDirectory(p) => format!("mkdir {p}"),
            UploadStep::WriteFile { path, content } => format!("write {path} {content:?}"),
            UploadStep::Fail(e) => format!("fail {}", e.message),
        })
        .collect();
    assert_eq!(
        described,
        vec![
            "mkdir /srv/tree",
            "mkdir /srv/tree/a",
            "mkdir /srv/tree/c",
            "mkdir /srv/tree/a/b",
            "mkdir /srv/tree/a/b",
            "write /srv/tree/a/b/x.txt [120]",
            "mkdir /srv/tree",
            "write /srv/tree/top.txt []",
        ]
    );
}

#[test]
fn upload_plan_stops_at_invalid_content() {
    let files = vec![file("a.txt", "!!"), file("b.txt", "")];
    let steps = plan_directory_upload("/", "t", &vec![], &files).unwrap();
    assert_eq!(steps.len(), 3);
    match &steps[2] {
        UploadStep::Fail(e) => assert_eq!(e.message, "Invalid base64 input"),
        _ => panic!("expected a failing step"),
    }
}

#[test]
fn entry_kinds_from_mode_bits() {
    assert_eq!(detect_entry_type(Some(0o040755)), RemoteFileEntryType::Directory);
    assert_eq!(detect_entry_type(Some(0o120777)), RemoteFileEntryType::Symlink);
    assert_eq!(detect_entry_type(Some(0o100644)), RemoteFileEntryType::File);
    assert_eq!(detect_entry_type(Some(0o000644)), RemoteFileEntryType::Other);
    assert_eq!(detect_entry_type(None), RemoteFileEntryType::Other);
    assert_eq!(detect_remote_entry_type(Some(0o100644), None, None), RemoteFileEntryType::File);
    assert_eq!(detect_remote_entry_type(None, Some(true), None), RemoteFileEntryType::Directory);
    assert_eq!(detect_remote_entry_type(None, Some(false), Some(true)), RemoteFileEntryType::File);
    assert_eq!(detect_remote_entry_type(None, Some(false), Some(false)), RemoteFileEntryType::Other);
}

#[test]
fn entries_shown_in_listings() {
    let e = to_remote_file_entry("/d", "/d/f.txt", Some(0o100644), Some(3), Some(2)).unwrap();
    assert_eq!(e.name, "f.txt");
    assert_eq!(e.path, "/d/f.txt");
    assert_eq!(e.modified_at, Some(2000));
    assert!(to_remote_file_entry("/d", "/d/..", None, None, None).is_none());
    assert!(to_remote_file_entry("/d", "/", None, None, None).is_none());
}

#[test]
fn directory_to_list() {
    assert_eq!(requested_directory(&Some(" /tmp/ ".into())), Some("/tmp".to_string()));
    assert_eq!(requested_directory(&Some("  ".into())), None);
    assert_eq!(requested_directory(&None), None);
    assert_eq!(directory_from_realpath(Some("/home/u")), ("/home/u".to_string(), false));
    assert_eq!(directory_from_realpath(Some("/")), ("/".to_string(), true));
    assert_eq!(directory_from_realpath(None), ("/".to_string(), true));
}

#[test]
fn walking_a_remote_tree() {
    assert!(collect_depth_check(10).is_ok());
    assert_eq!(collect_depth_check(11).unwrap_err().code, AppErrorCode::Unsupported);
    let c = collect_entry("/r", "", "/r/a").unwrap().unwrap();
    assert_eq!((c.name.as_str(), c.relative_path.as_str(), c.remote_path.as_str()), ("a", "a", "/r/a"));
    let c = collect_entry("/r/a", "a", "/r/a/b").unwrap().unwrap();
    assert_eq!(c.relative_path, "a/b");
    assert!(collect_entry("/r", "", "/r/..").unwrap().is_none());
    let deep = (0..10).map(|i| format!("d{i}")).collect::<Vec<_>>().join("/");
    assert!(collect_entry("/r", &deep, "/r/x").is_err());
    assert_eq!(collect_action(RemoteFileEntryType::Directory, 5).unwrap(), CollectAction::Descend);
    assert_eq!(collect_action(RemoteFileEntryType::File, 999).unwrap(), CollectAction::ReadFile);
    assert!(collect_action(RemoteFileEntryType::File, 1000).is_err());
    assert_eq!(collect_action(RemoteFileEntryType::Symlink, 5000).unwrap(), CollectAction::Skip);
}

#[test]
fn transfer_errors() {
    let e = remote_io_error(RemoteAction::ReadDirectory, "/x", "denied");
    assert_eq!(e.message, "Failed to read remote directory /x");
    assert_eq!(e.details.as_deref(), Some("denied"));
    assert!(e.retryable);
    assert_eq!(remote_io_error(RemoteAction::CreateFile, "/f", "").message, "Failed to create remote file /f");
    assert_eq!(remote_io_error(RemoteAction::StatPath, "/p", "").message, "Failed to stat remote path /p");
    let e = not_a_directory_error("/f");
    assert_eq!(e.message, "Remote path exists and is not a directory: /f");
    assert!(!e.retryable);
    assert_eq!(sftp_open_error("x").message, "Failed to open SFTP session");
    assert_eq!(directory_limit_error().code, AppErrorCode::Unsupported);
    let e = file_transfer_sessions_lock_error();
    assert_eq!(e.code, AppErrorCode::Unknown);
    assert!(e.retryable);
}

#[test]
fn an_unlistable_login_directory_gives_way_to_the_root() {
    assert_eq!(retry_listing_at_root(&None, "/home/u"), Some(("/".to_string(), true)));
    assert_eq!(retry_listing_at_root(&Some("   ".into()), "/home/u"), Some(("/".to_string(), true)));
    assert_eq!(retry_listing_at_root(&None, "/"), None);
    assert_eq!(retry_listing_at_root(&Some("/srv".into()), "/srv"), None);
}

#[test]
fn a_file_download_carries_its_content() {
    let r = file_download("a.txt".into(), RemoteFileEntryType::File, b"hello");
    assert_eq!(r.name, "a.txt");
    assert_eq!(r.entry_type, RemoteFileEntryType::File);
    assert_eq!(r.content_base64.as_deref(), Some("aGVsbG8="));
    assert!(r.directories.is_empty() && r.files.is_empty());
    let d = directory_download("docs".into());
    assert_eq!(d.name, "docs");
    assert_eq!(d.entry_type, RemoteFileEntryType::Directory);
    assert!(d.content_base64.is_none());
    assert!(d.directories.is_empty() && d.files.is_empty());
}
