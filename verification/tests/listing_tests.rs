use wmcssh::contracts::file_transfer::{RemoteFileEntry, RemoteFileEntryType};
use wmcssh::services::directory_listing::{list_directory_entries, sort_directory_entries, RemoteDirEntry};

fn entry(name: &str, entry_type: RemoteFileEntryType) -> RemoteFileEntry {
    RemoteFileEntry {
        name: name.into(),
        path: format!("/d/{name}"),
        entry_type,
        size: None,
        modified_at: None,
    }
}

fn names(entries: &[RemoteFileEntry]) -> Vec<&str> {
    entries.iter().map(|e| e.name.as_str()).collect()
}

#[test]
fn directories_come_first_then_names_ignoring_case() {
    let items = vec![
        entry("zeta.txt", RemoteFileEntryType::File),
        entry("beta", RemoteFileEntryType::Directory),
        entry("Alpha.txt", RemoteFileEntryType::File),
        entry("link", RemoteFileEntryType::Symlink),
        entry("Aardvark", RemoteFileEntryType::Directory),
    ];
    let sorted = sort_directory_entries(items);
    assert_eq!(names(&sorted), vec!["Aardvark", "beta", "Alpha.txt", "link", "zeta.txt"]);
}

#[test]
fn entries_that_compare_equal_keep_their_order() {
    let items = vec![
        entry("README", RemoteFileEntryType::File),
        entry("readme", RemoteFileEntryType::Symlink),
        entry("ReadMe", RemoteFileEntryType::Other),
    ];
    let sorted = sort_directory_entries(items);
    assert_eq!(names(&sorted), vec!["README", "readme", "ReadMe"]);
}

#[test]
fn names_compare_in_lower_case() {
    let items = vec![
        entry("Banana", RemoteFileEntryType::File),
        entry("apple", RemoteFileEntryType::File),
        entry("Zoo", RemoteFileEntryType::Directory),
        entry("ant", RemoteFileEntryType::Directory),
    ];
    let sorted = sort_directory_entries(items);
    assert_eq!(names(&sorted), vec!["ant", "Zoo", "apple", "Banana"]);
}

#[test]
fn sorting_nothing_gives_nothing() {
    assert!(sort_directory_entries(Vec::new()).is_empty());
}

#[test]
fn listing_leaves_out_parent_entries_and_sorts() {
    let raw = vec![
        RemoteDirEntry { path: "/home/u/.hidden".into(), perm: Some(0o100600), size: Some(1), mtime: None },
        RemoteDirEntry { path: "/home/u/..".into(), perm: Some(0o040755), size: None, mtime: None },
        RemoteDirEntry { path: "/home/u/notes.md".into(), perm: Some(0o100644), size: Some(12), mtime: Some(1700000000) },
        RemoteDirEntry { path: "/home/u/src".into(), perm: Some(0o040755), size: Some(4096), mtime: None },
    ];
    let listed = list_directory_entries("/home/u", &raw);
    assert_eq!(names(&listed), vec!["src", ".hidden", "notes.md"]);
    assert_eq!(listed[0].entry_type, RemoteFileEntryType::Directory);
    assert_eq!(listed[0].path, "/home/u/src");
    assert_eq!(listed[2].entry_type, RemoteFileEntryType::File);
    assert_eq!(listed[2].size, Some(12));
    assert_eq!(listed[2].modified_at, Some(1700000000000));
}

#[test]
fn listing_the_root_joins_without_a_double_slash() {
    let raw = vec![RemoteDirEntry { path: "/etc".into(), perm: None, size: None, mtime: None }];
    let listed = list_directory_entries("/", &raw);
    assert_eq!(listed[0].path, "/etc");
    assert_eq!(listed[0].entry_type, RemoteFileEntryType::Other);
}
