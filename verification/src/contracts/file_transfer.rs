//! Remote file browsing and transfer.
use vstd::prelude::*;

verus! {

#[derive(Clone, Debug)]
pub struct ListRemoteDirectoryInput {
    pub transfer_session_id: String,
    pub path: Option<String>,
}

#[derive(Clone, Debug)]
pub struct OpenFileTransferSessionInput {
    pub host_id: String,
}

#[derive(Clone, Debug)]
pub struct OpenFileTransferSessionResult {
    pub transfer_session_id: String,
}

#[derive(Clone, Debug)]
pub struct CloseFileTransferSessionInput {
    pub transfer_session_id: String,
}

/// Kind of a remote directory entry.
#[derive(Clone, Copy, Debug, PartialEq, Eq, Structural)]
pub enum RemoteFileEntryType {
    Directory,
    File,
    Symlink,
    Other,
}

#[derive(Clone, Debug)]
pub struct RemoteFileEntry {
    pub name: String,
    pub path: String,
    pub entry_type: RemoteFileEntryType,
    pub size: Option<u64>,
    pub modified_at: Option<i64>,
}

#[derive(Clone, Debug)]
pub struct ListRemoteDirectoryResult {
    pub host_id: String,
    pub path: String,
    pub entries: Vec<RemoteFileEntry>,
    pub fallback_to_root: bool,
}

#[derive(Clone, Debug)]
pub struct UploadRemoteFileInput {
    pub transfer_session_id: String,
    pub remote_dir_path: String,
    pub file_name: String,
    pub content_base64: String,
}

/// A file of a directory tree, by its path relative to the tree's root.
#[derive(Clone, Debug)]
pub struct RemoteDirectoryFilePayload {
    pub relative_path: String,
    pub content_base64: String,
}

#[derive(Clone, Debug)]
pub struct UploadRemoteDirectoryInput {
    pub transfer_session_id: String,
    pub remote_dir_path: String,
    pub directory_name: String,
    pub directories: Vec<String>,
    pub files: Vec<RemoteDirectoryFilePayload>,
}

#[derive(Clone, Debug)]
pub struct DownloadRemoteFileInput {
    pub transfer_session_id: String,
    pub remote_file_path: String,
}

#[derive(Clone, Debug)]
pub struct DownloadRemoteFileResult {
    pub file_name: String,
    pub content_base64: String,
}

#[derive(Clone, Debug)]
pub struct DownloadRemotePathInput {
    pub transfer_session_id: String,
    pub remote_path: String,
}

#[derive(Clone, Debug)]
pub struct DownloadRemotePathResult {
    pub name: String,
    pub entry_type: RemoteFileEntryType,
    pub content_base64: Option<String>,
    pub directories: Vec<String>,
    pub files: Vec<RemoteDirectoryFilePayload>,
}

} // verus!
