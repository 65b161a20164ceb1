//! The records that WebDAV synchronisation exchanges, and the version
//! stamps by which two copies of a record are ordered.
use crate::text::{chars_of, push_all, string_from_chars};
use vstd::prelude::*;

verus! {

/// WebDAV synchronisation settings.
#[derive(Clone, Debug)]
pub struct SyncSettings {
    pub webdav_url: String,
    pub webdav_username: String,
    pub webdav_password: String,
    pub auto_sync: bool,
    /// Minutes between automatic syncs.
    pub sync_interval: i32,
    /// `incremental` or `archive`.
    pub sync_mode: String,
    pub startup_sync: bool,
    pub last_sync_at: Option<String>,
    pub device_id: String,
}

/// One file listed in the remote manifest.
#[derive(Clone, Debug)]
pub struct ManifestFile {
    pub path: String,
    pub sha256: String,
    pub updated_at: String,
    pub count: usize,
}

/// The remote manifest of the incremental layout. `files` is ordered by path,
/// as the map it is written from is.
#[derive(Clone, Debug)]
pub struct SyncManifest {
    pub version: String,
    pub schema_version: i32,
    pub updated_at: String,
    pub updated_by_device_id: String,
    pub files: Vec<ManifestFile>,
}

/// A to-do as synchronisation carries it.
#[derive(Clone, Debug)]
pub struct SyncTodo {
    pub sync_id: String,
    pub title: String,
    pub description: Option<String>,
    pub color: String,
    pub quadrant: i32,
    pub completed: bool,
    pub sort_order: i32,
    pub start_time: Option<String>,
    pub end_time: Option<String>,
    pub created_at: String,
    pub updated_at: String,
    pub updated_by_device_id: String,
    pub revision: i64,
}

/// A subtask as synchronisation carries it.
#[derive(Clone, Debug)]
pub struct SyncSubtask {
    pub sync_id: String,
    pub parent_todo_sync_id: String,
    pub title: String,
    pub content: Option<String>,
    pub completed: bool,
    pub sort_order: i32,
    pub created_at: String,
    pub updated_at: String,
    pub updated_by_device_id: String,
    pub revision: i64,
}

/// A reminder as synchronisation carries it.
#[derive(Clone, Debug)]
pub struct SyncReminder {
    pub sync_id: String,
    pub todo_sync_id: String,
    pub notify_at: String,
    pub sort_order: i32,
    pub created_at: String,
    pub updated_at: String,
    pub updated_by_device_id: String,
    pub revision: i64,
}

/// Settings shared between devices (none at present).
#[derive(Clone, Debug)]
pub struct SharedSettings {}

/// A record of a deletion: entity kind, synchronisation id and when.
#[derive(Clone, Debug)]
pub struct SyncTombstone {
    /// `todo`, `subtask` or `reminder`.
    pub entity: String,
    pub sync_id: String,
    pub deleted_at: String,
    pub deleted_by_device_id: String,
}

/// A complete snapshot of the synchronised data.
#[derive(Clone, Debug)]
pub struct SyncData {
    pub version: String,
    pub device_id: String,
    pub updated_at: String,
    pub manifest: SyncManifest,
    pub todos: Vec<SyncTodo>,
    pub subtasks: Vec<SyncSubtask>,
    pub reminders: Vec<SyncReminder>,
    pub settings: SharedSettings,
    pub tombstones: Vec<SyncTombstone>,
    pub images: Vec<String>,
}

/// What a download found, and whether it conflicts with local changes.
#[derive(Clone, Debug)]
pub struct SyncDownloadResult {
    pub has_remote: bool,
    pub remote_data: Option<SyncData>,
    pub local_updated_at: Option<String>,
    pub remote_updated_at: Option<String>,
    pub has_conflict: bool,
}

/// The outcome of a sync run.
#[derive(Clone, Debug)]
pub struct SyncRunResult {
    /// `no_changes` or `synced`.
    pub status: String,
    pub synced_at: Option<String>,
    pub message: String,
}

/// The remote lock file's content.
#[derive(Clone, Debug)]
pub struct SyncLock {
    pub device_id: String,
    pub token: String,
    pub created_at: i64,
    pub expires_at: i64,
}

/// The JSON texts of the parts of the incremental layout.
#[derive(Clone, Debug)]
pub struct UploadParts {
    pub todos_json: String,
    pub subtasks_json: String,
    pub reminders_json: String,
    pub settings_json: String,
    pub tombstones_json: String,
}

/// What a WebDAV server reports of a remote file.
#[derive(Clone, Debug)]
pub struct RemoteMetadata {
    pub etag: Option<String>,
    pub last_modified: Option<String>,
    pub content_length: Option<u64>,
}

/// A record with a synchronisation key and a version stamp: of two copies
/// with the same key, the one with the newer stamp is kept.
pub trait Versioned: Sized {
    /// The key that identifies the record across devices.
    spec fn key_view(&self) -> Seq<char>;

    /// The stamp (a timestamp) that orders copies of the record.
    spec fn stamp_view(&self) -> Seq<char>;

    /// The key.
    fn sync_key(&self) -> (k: String)
        ensures
            k@ == self.key_view(),
    ;

    /// The stamp.
    fn stamp(&self) -> (s: &String)
        ensures
            s@ == self.stamp_view(),
    ;
}

impl Versioned for SyncTodo {
    open spec fn key_view(&self) -> Seq<char> {
        self.sync_id@
    }

    open spec fn stamp_view(&self) -> Seq<char> {
        self.updated_at@
    }

    fn sync_key(&self) -> (k: String) {
        self.sync_id.clone()
    }

    fn stamp(&self) -> (s: &String) {
        &self.updated_at
    }
}

impl Versioned for SyncSubtask {
    open spec fn key_view(&self) -> Seq<char> {
        self.sync_id@
    }

    open spec fn stamp_view(&self) -> Seq<char> {
        self.updated_at@
    }

    fn sync_key(&self) -> (k: String) {
        self.sync_id.clone()
    }

    fn stamp(&self) -> (s: &String) {
        &self.updated_at
    }
}

impl Versioned for SyncReminder {
    open spec fn key_view(&self) -> Seq<char> {
        self.sync_id@
    }

    open spec fn stamp_view(&self) -> Seq<char> {
        self.updated_at@
    }

    fn sync_key(&self) -> (k: String) {
        self.sync_id.clone()
    }

    fn stamp(&self) -> (s: &String) {
        &self.updated_at
    }
}

/// The key of a tombstone: its entity, a colon, and its synchronisation id.
pub open spec fn tombstone_key(entity: Seq<char>, sync_id: Seq<char>) -> Seq<char> {
    entity + seq![':'] + sync_id
}

impl Versioned for SyncTombstone {
    open spec fn key_view(&self) -> Seq<char> {
        tombstone_key(self.entity@, self.sync_id@)
    }

    open spec fn stamp_view(&self) -> Seq<char> {
        self.deleted_at@
    }

    fn sync_key(&self) -> (k: String) {
        let mut v = chars_of(self.entity.as_str());
        v.push(':');
        let id = chars_of(self.sync_id.as_str());
        push_all(&mut v, id.as_slice());
        string_from_chars(v.as_slice())
    }

    fn stamp(&self) -> (s: &String) {
        &self.deleted_at
    }
}

} // verus!
