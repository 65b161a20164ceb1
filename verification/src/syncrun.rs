//! A WebDAV sync run as a sequence of steps: the caller performs each
//! action against the server and the database and reports what came of it;
//! the run decides what to do next. Also the remote layout and the pieces
//! of data each upload or download step moves.
use crate::digest::{compress_archive, decompress_archive, gzip_of, gunzip_text_of};
use crate::snapshot::{merge_snapshots, merged_snapshot};
use crate::sync::{RemoteMetadata, SyncData, SyncReminder, SyncSettings, SyncSubtask, UploadParts};
use crate::syncflow::{fingerprint_of, metadata_fingerprint, plan_sync, remote_fingerprint_changed, SyncStep};
use crate::text::{chars_of, owned, push_all, str_eq, string_from_chars};
use vstd::prelude::*;

verus! {

broadcast use vstd::string::group_string_axioms;

// ---------------------------------------------------------------------
// Remote layout
// ---------------------------------------------------------------------
/// The remote directories a run makes sure exist: the sync folder and its
/// image folder.
pub fn ensure_remote_dirs() -> (r: Vec<String>)
    ensures
        r@.len() == 2,
        r@[0]@ == "/mini-todo"@,
        r@[1]@ == "/mini-todo/images"@,
{
    let mut r: Vec<String> = Vec::new();
    r.push(owned("/mini-todo"));
    r.push(owned("/mini-todo/images"));
    r
}

/// How to reach the WebDAV server.
#[derive(Clone, Debug)]
pub struct WebDavClientConfig {
    pub url: String,
    pub username: String,
    pub password: String,
}

/// The server address and credentials of the sync settings.
pub fn get_client(settings: &SyncSettings) -> (c: WebDavClientConfig)
    ensures
        c.url == settings.webdav_url,
        c.username == settings.webdav_username,
        c.password == settings.webdav_password,
{
    WebDavClientConfig {
        url: settings.webdav_url.clone(),
        username: settings.webdav_username.clone(),
        password: settings.webdav_password.clone(),
    }
}

/// A file to write on the server.
#[derive(Clone, Debug)]
pub struct RemoteUpload {
    pub path: String,
    pub bytes: Vec<u8>,
    pub content_type: String,
}

/// The compressed archive of a snapshot's JSON text, as the file the
/// archive layout keeps; an error exactly when compression fails.
pub fn upload_archive_data(sync_json: &str) -> (r: Result<RemoteUpload, String>)
    ensures
        r matches Ok(u) ==> u.path@ == "/mini-todo/sync-data.json.gz"@ && gzip_of(
            vstd::utf8::encode_utf8(sync_json@),
        ) == Some(u.bytes@) && u.content_type@ == "application/gzip"@,
        r is Err ==> gzip_of(vstd::utf8::encode_utf8(sync_json@)) is None,
{
    match compress_archive(sync_json) {
        Ok(bytes) => Ok(
            RemoteUpload {
                path: owned("/mini-todo/sync-data.json.gz"),
                bytes,
                content_type: owned("application/gzip"),
            },
        ),
        Err(e) => Err(e),
    }
}

/// A text file to write on the server.
#[derive(Clone, Debug)]
pub struct RemoteText {
    pub path: String,
    pub text: String,
}

/// The remote JSON file named `stem` in the sync folder.
pub open spec fn remote_json(stem: Seq<char>) -> Seq<char> {
    "/mini-todo/"@ + stem + ".json"@
}

/// The remote files of the incremental layout.
pub open spec fn incremental_files() -> Seq<Seq<char>> {
    seq![
        remote_json("todos"@),
        remote_json("subtasks"@),
        remote_json("reminders"@),
        remote_json("settings"@),
        remote_json("tombstones"@),
        remote_json("manifest"@),
    ]
}

fn remote_json_path(stem: &str) -> (r: String)
    ensures
        r@ == remote_json(stem@),
{
    let mut v = chars_of("/mini-todo/");
    push_all(&mut v, chars_of(stem).as_slice());
    push_all(&mut v, chars_of(".json").as_slice());
    let r = string_from_chars(v.as_slice());
    assert(r@ =~= remote_json(stem@));
    r
}

/// The texts written by an incremental upload, in order: the five parts,
/// then the manifest, which goes last so that readers see a complete set.
pub fn upload_incremental_snapshot(parts: UploadParts, manifest_json: String) -> (r: Vec<RemoteText>)
    ensures
        r@.len() == 6,
        forall|i: int| 0 <= i < 6 ==> (#[trigger] r@[i]).path@ == incremental_files()[i],
        r@[0].text == parts.todos_json,
        r@[1].text == parts.subtasks_json,
        r@[2].text == parts.reminders_json,
        r@[3].text == parts.settings_json,
        r@[4].text == parts.tombstones_json,
        r@[5].text == manifest_json,
{
    let mut r: Vec<RemoteText> = Vec::new();
    r.push(RemoteText { path: remote_json_path("todos"), text: parts.todos_json });
    r.push(RemoteText { path: remote_json_path("subtasks"), text: parts.subtasks_json });
    r.push(RemoteText { path: remote_json_path("reminders"), text: parts.reminders_json });
    r.push(RemoteText { path: remote_json_path("settings"), text: parts.settings_json });
    r.push(RemoteText { path: remote_json_path("tombstones"), text: parts.tombstones_json });
    r.push(RemoteText { path: remote_json_path("manifest"), text: manifest_json });
    r
}

/// The JSON text of a downloaded archive, `None` when there is no archive;
/// an error when it does not decompress.
pub fn download_archive_snapshot(bytes: Option<Vec<u8>>) -> (r: Result<Option<String>, String>)
    ensures
        bytes is None ==> r matches Ok(None),
        bytes matches Some(b) ==> match r {
            Ok(Some(t)) => gunzip_text_of(b@) == Some(t@),
            Err(_) => gunzip_text_of(b@) is None,
            Ok(None) => false,
        },
{
    match bytes {
        None => Ok(None),
        Some(b) => match decompress_archive(b.as_slice()) {
            Ok(t) => Ok(Some(t)),
            Err(e) => Err(e),
        },
    }
}

/// The remote path of an image.
pub open spec fn remote_image_path(name: Seq<char>) -> Seq<char> {
    "/mini-todo/images/"@ + name
}

/// The images to upload, as `(name, remote path)`: those present locally
/// and not yet on the server, in the given order.
pub open spec fn images_to_upload(images: Seq<String>, local: Seq<bool>, remote: Seq<bool>) -> Seq<(Seq<char>, Seq<char>)>
    decreases images.len(),
{
    if images.len() == 0 {
        seq![]
    } else {
        let prev = images_to_upload(images.drop_last(), local, remote);
        let i = images.len() - 1;
        if local[i] && !remote[i] {
            prev.push((images[i]@, remote_image_path(images[i]@)))
        } else {
            prev
        }
    }
}

/// Which images to upload, given for each whether it exists locally and
/// whether the server has it.
pub fn upload_images(images: &Vec<String>, local_exists: &Vec<bool>, remote_exists: &Vec<bool>) -> (r: Vec<(String, String)>)
    requires
        local_exists@.len() == images@.len(),
        remote_exists@.len() == images@.len(),
    ensures
        r@.map_values(|p: (String, String)| (p.0@, p.1@)) == images_to_upload(images@, local_exists@, remote_exists@),
{
    let mut r: Vec<(String, String)> = Vec::new();
    let mut i: usize = 0;
    while i < images.len()
        invariant
            i <= images@.len(),
            local_exists@.len() == images@.len(),
            remote_exists@.len() == images@.len(),
            r@.map_values(|p: (String, String)| (p.0@, p.1@)) == images_to_upload(
                images@.take(i as int),
                local_exists@,
                remote_exists@,
            ),
        decreases images@.len() - i,
    {
        proof {
            assert(images@.take(i + 1).drop_last() =~= images@.take(i as int));
            assert(images@.take(i + 1)[i as int] == images@[i as int]);
        }
        if local_exists[i] && !remote_exists[i] {
            let mut p = chars_of("/mini-todo/images/");
            push_all(&mut p, chars_of(images[i].as_str()).as_slice());
            let path = string_from_chars(p.as_slice());
            let ghost before = r@;
            r.push((images[i].clone(), path));
            proof {
                assert(r@.map_values(|p: (String, String)| (p.0@, p.1@)) =~= before.map_values(
                    |p: (String, String)| (p.0@, p.1@),
                ).push((images@[i as int]@, remote_image_path(images@[i as int]@))));
            }
        }
        i = i + 1;
    }
    assert(images@.take(images@.len() as int) =~= images@);
    r
}

// ---------------------------------------------------------------------
// Reminders replaced by a snapshot
// ---------------------------------------------------------------------
/// The local id of the to-do with synchronisation id `key`: the last row
/// naming it.
pub open spec fn local_todo_id(ids: Seq<(String, i64)>, key: Seq<char>) -> Option<i64>
    decreases ids.len(),
{
    if ids.len() == 0 {
        None
    } else if ids.last().0@ == key {
        Some(ids.last().1)
    } else {
        local_todo_id(ids.drop_last(), key)
    }
}

/// What a tombstone deletes from the local database.
#[derive(PartialEq, Eq, Structural, Clone, Copy, Debug)]
pub enum TombstoneTarget {
    /// The to-do with the tombstone's id, and its reminders.
    Todo,
    /// The subtask with the tombstone's id.
    Subtask,
    /// The reminder with the tombstone's id.
    Reminder,
    /// Nothing (an entity kind this version does not know).
    Nothing,
}

/// What a tombstone of kind `entity` deletes.
pub fn tombstone_target(entity: &str) -> (r: TombstoneTarget)
    ensures
        r == (if entity@ == "todo"@ {
            TombstoneTarget::Todo
        } else if entity@ == "subtask"@ {
            TombstoneTarget::Subtask
        } else if entity@ == "reminder"@ {
            TombstoneTarget::Reminder
        } else {
            TombstoneTarget::Nothing
        }),
{
    if str_eq(entity, "todo") {
        TombstoneTarget::Todo
    } else if str_eq(entity, "subtask") {
        TombstoneTarget::Subtask
    } else if str_eq(entity, "reminder") {
        TombstoneTarget::Reminder
    } else {
        TombstoneTarget::Nothing
    }
}

/// The records of a snapshot that can be written locally, as (position in
/// the snapshot, local id of its to-do), in order: those whose to-do has a
/// local row; the others are skipped.
pub open spec fn placed(ids: Seq<(String, i64)>, parents: Seq<Seq<char>>) -> Seq<(int, i64)>
    decreases parents.len(),
{
    if parents.len() == 0 {
        seq![]
    } else {
        let p = placed(ids, parents.drop_last());
        match local_todo_id(ids, parents.last()) {
            Some(t) => p.push((parents.len() - 1, t)),
            None => p,
        }
    }
}

/// The subtasks of a snapshot to write, each with the local id of its
/// to-do; subtasks of a to-do with no local row are skipped.
pub fn placed_subtasks(ids: &Vec<(String, i64)>, subtasks: &Vec<SyncSubtask>) -> (r: Vec<(usize, i64)>)
    ensures
        r@.map_values(|x: (usize, i64)| (x.0 as int, x.1)) == placed(
            ids@,
            subtasks@.map_values(|x: SyncSubtask| x.parent_todo_sync_id@),
        ),
{
    let ghost parents = subtasks@.map_values(|x: SyncSubtask| x.parent_todo_sync_id@);
    let mut r: Vec<(usize, i64)> = Vec::new();
    let mut i: usize = 0;
    while i < subtasks.len()
        invariant
            i <= subtasks@.len(),
            parents == subtasks@.map_values(|x: SyncSubtask| x.parent_todo_sync_id@),
            r@.map_values(|x: (usize, i64)| (x.0 as int, x.1)) == placed(ids@, parents.take(i as int)),
        decreases subtasks@.len() - i,
    {
        proof {
            assert(parents.take(i + 1).drop_last() =~= parents.take(i as int));
            assert(parents.take(i + 1).last() == subtasks@[i as int].parent_todo_sync_id@);
        }
        match find_local_todo(ids, &subtasks[i].parent_todo_sync_id) {
            Some(t) => {
                r.push((i, t));
            },
            None => {},
        }
        i = i + 1;
        assert(r@.map_values(|x: (usize, i64)| (x.0 as int, x.1)) =~= placed(ids@, parents.take(i as int)));
    }
    assert(parents.take(i as int) =~= parents);
    r
}

/// The reminders of a snapshot to write, each with the local id of its
/// to-do; reminders of a to-do with no local row are skipped.
pub fn placed_reminders(ids: &Vec<(String, i64)>, reminders: &Vec<SyncReminder>) -> (r: Vec<(usize, i64)>)
    ensures
        r@.map_values(|x: (usize, i64)| (x.0 as int, x.1)) == placed(
            ids@,
            reminders@.map_values(|x: SyncReminder| x.todo_sync_id@),
        ),
{
    let ghost parents = reminders@.map_values(|x: SyncReminder| x.todo_sync_id@);
    let mut r: Vec<(usize, i64)> = Vec::new();
    let mut i: usize = 0;
    while i < reminders.len()
        invariant
            i <= reminders@.len(),
            parents == reminders@.map_values(|x: SyncReminder| x.todo_sync_id@),
            r@.map_values(|x: (usize, i64)| (x.0 as int, x.1)) == placed(ids@, parents.take(i as int)),
        decreases reminders@.len() - i,
    {
        proof {
            assert(parents.take(i + 1).drop_last() =~= parents.take(i as int));
            assert(parents.take(i + 1).last() == reminders@[i as int].todo_sync_id@);
        }
        match find_local_todo(ids, &reminders[i].todo_sync_id) {
            Some(t) => {
                r.push((i, t));
            },
            None => {},
        }
        i = i + 1;
        assert(r@.map_values(|x: (usize, i64)| (x.0 as int, x.1)) =~= placed(ids@, parents.take(i as int)));
    }
    assert(parents.take(i as int) =~= parents);
    r
}

/// The snapshot has a reminder with id `sid` for the local to-do `todo_id`.
pub open spec fn wanted(ids: Seq<(String, i64)>, reminders: Seq<SyncReminder>, todo_id: i64, sid: Seq<char>) -> bool {
    exists|i: int|
        0 <= i < reminders.len() && (#[trigger] reminders[i]).sync_id@ == sid && local_todo_id(
            ids,
            reminders[i].todo_sync_id@,
        ) == Some(todo_id)
}

/// The snapshot has some reminder for the local to-do `todo_id`.
pub open spec fn has_wanted(ids: Seq<(String, i64)>, reminders: Seq<SyncReminder>, todo_id: i64) -> bool {
    exists|i: int| 0 <= i < reminders.len() && local_todo_id(ids, (#[trigger] reminders[i]).todo_sync_id@) == Some(todo_id)
}

/// The stored reminders `(todo id, sync id)` that applying a snapshot
/// deletes: those of a to-do for which the snapshot has reminders, but not
/// this one; in the stored order.
pub open spec fn stale_of(ids: Seq<(String, i64)>, reminders: Seq<SyncReminder>, existing: Seq<(i64, String)>) -> Seq<(i64, Seq<char>)>
    decreases existing.len(),
{
    if existing.len() == 0 {
        seq![]
    } else {
        let prev = stale_of(ids, reminders, existing.drop_last());
        let (t, sid) = existing.last();
        if has_wanted(ids, reminders, t) && !wanted(ids, reminders, t, sid@) {
            prev.push((t, sid@))
        } else {
            prev
        }
    }
}

/// The local id of the to-do with synchronisation id `key`, among the
/// rows `(sync id, id)` read from the database; the last row naming it.
pub fn find_local_todo(ids: &Vec<(String, i64)>, key: &String) -> (r: Option<i64>)
    ensures
        r == local_todo_id(ids@, key@),
{
    let mut i = ids.len();
    assert(ids@.take(i as int) =~= ids@);
    while i > 0
        invariant
            i <= ids@.len(),
            local_todo_id(ids@, key@) == local_todo_id(ids@.take(i as int), key@),
        decreases i,
    {
        let ghost t = ids@.take(i as int);
        assert(t.drop_last() =~= ids@.take(i - 1));
        assert(t.last() == ids@[i - 1]);
        if ids[i - 1].0 == *key {
            return Some(ids[i - 1].1);
        }
        i = i - 1;
    }
    None
}

/// The stored reminders that applying a snapshot with `reminders` deletes,
/// given the local id of each to-do (`todo_ids`: sync id and local id) and
/// the stored reminders (`existing`: to-do id and sync id).
pub fn stale_reminders(todo_ids: &Vec<(String, i64)>, reminders: &Vec<SyncReminder>, existing: &Vec<(i64, String)>) -> (r: Vec<(i64, String)>)
    ensures
        r@.map_values(|p: (i64, String)| (p.0, p.1@)) == stale_of(todo_ids@, reminders@, existing@),
{
    let mut r: Vec<(i64, String)> = Vec::new();
    let mut k: usize = 0;
    while k < existing.len()
        invariant
            k <= existing@.len(),
            r@.map_values(|p: (i64, String)| (p.0, p.1@)) == stale_of(todo_ids@, reminders@, existing@.take(k as int)),
        decreases existing@.len() - k,
    {
        let t = existing[k].0;
        let sid = &existing[k].1;
        let mut any = false;
        let mut same = false;
        let mut j: usize = 0;
        while j < reminders.len()
            invariant
                j <= reminders@.len(),
                any == exists|i: int| 0 <= i < j && local_todo_id(todo_ids@, (#[trigger] reminders@[i]).todo_sync_id@) == Some(t),
                same == exists|i: int|
                    0 <= i < j && (#[trigger] reminders@[i]).sync_id@ == sid@ && local_todo_id(
                        todo_ids@,
                        reminders@[i].todo_sync_id@,
                    ) == Some(t),
            decreases reminders@.len() - j,
        {
            let owner = find_local_todo(todo_ids, &reminders[j].todo_sync_id);
            let mine = match owner {
                Some(o) => o == t,
                None => false,
            };
            let eq = reminders[j].sync_id == *sid;
            proof {
                assert(mine == (local_todo_id(todo_ids@, reminders@[j as int].todo_sync_id@) == Some(t)));
            }
            if mine {
                any = true;
                if eq {
                    same = true;
                }
            }
            j = j + 1;
        }
        proof {
            assert(existing@.take(k + 1).drop_last() =~= existing@.take(k as int));
            assert(existing@.take(k + 1).last() == existing@[k as int]);
        }
        if any && !same {
            let ghost before = r@;
            r.push((t, sid.clone()));
            assert(r@.map_values(|p: (i64, String)| (p.0, p.1@)) =~= before.map_values(|p: (i64, String)| (p.0, p.1@)).push(
                (t, sid@),
            ));
        }
        k = k + 1;
    }
    assert(existing@.take(existing@.len() as int) =~= existing@);
    r
}

// ---------------------------------------------------------------------
// The run
// ---------------------------------------------------------------------
/// The remote layout of a run.
#[derive(PartialEq, Eq, Structural, Clone, Copy, Debug)]
pub enum SyncMode {
    /// One JSON file per kind of record, and a manifest.
    Incremental,
    /// One compressed file holding the whole snapshot.
    Archive,
}

/// What a run is for.
#[derive(PartialEq, Eq, Structural, Clone, Copy, Debug)]
pub enum SyncGoal {
    /// Bring both sides together.
    Sync,
    /// Replace the remote archive with the local data.
    UploadArchive,
}

/// Where a run stands: the step whose outcome it waits for.
#[derive(PartialEq, Eq, Structural, Clone, Copy, Debug)]
pub enum Stage {
    EnsureDirs,
    InitialMeta,
    LocalCheck,
    PullDownload,
    PullApply,
    PullMeta,
    PullUpdate,
    Locking,
    Collect,
    RemoteDownload,
    BeforeUploadMeta,
    Reapply,
    Recollect,
    Redownload,
    FinalApply,
    UploadImages,
    UploadSnapshot,
    FinalMeta,
    FinalUpdate,
    Releasing,
    Finished,
}

/// What the caller does next.
#[derive(Clone, Debug)]
pub enum SyncAction {
    /// Make sure the remote directories exist.
    EnsureRemoteDirs,
    /// Read the metadata of the main remote file (manifest or archive).
    FetchMetadata,
    /// Tell whether local data changed since the last sync.
    CheckLocalChanges,
    /// Download the remote snapshot; an incremental download may fall
    /// back to the archive when `archive_fallback` holds.
    DownloadSnapshot { archive_fallback: bool },
    /// Write the run's snapshot into the local database, and fetch the
    /// images it lacks when `fetch_images` holds.
    ApplySnapshot { fetch_images: bool },
    /// Take the remote lock.
    AcquireLock,
    /// Read the local data as a snapshot.
    CollectLocal,
    /// Upload the snapshot's images that the server lacks.
    UploadImages,
    /// Upload the run's snapshot in the run's layout.
    UploadSnapshot,
    /// Record the sync: the snapshot's time and the latest metadata.
    UpdateSyncState,
    /// Give the remote lock back.
    ReleaseLock,
    /// The run is over; its outcome is the run's `outcome`.
    Finish,
}

/// What came of the last action.
#[derive(Clone, Debug)]
pub enum SyncEvent {
    /// It succeeded with nothing to report.
    Done,
    Metadata(Option<RemoteMetadata>),
    LocalChanges(bool),
    Snapshot(Option<SyncData>),
    Local(SyncData),
    /// The sync state was recorded; the recorded time.
    Updated(String),
    /// It failed with this message.
    Failed(String),
}

/// A sync run in progress.
#[derive(Clone, Debug)]
pub struct SyncRun {
    pub mode: SyncMode,
    pub goal: SyncGoal,
    pub stage: Stage,
    pub device_id: String,
    /// The remote fingerprint recorded by the last sync.
    pub stored_fingerprint: Option<String>,
    pub initial_meta: Option<RemoteMetadata>,
    pub latest_meta: Option<RemoteMetadata>,
    /// The local snapshot awaiting the remote one.
    pub local: Option<SyncData>,
    /// The snapshot being applied and uploaded.
    pub data: Option<SyncData>,
    pub lock_held: bool,
    /// The outcome of the run, once it is known: the time of the sync,
    /// `no_changes`, or an error message.
    pub outcome: Option<Result<String, String>>,
}

/// The stages during which the remote lock is held.
pub open spec fn locked_stage(s: Stage) -> bool {
    s == Stage::Collect || s == Stage::RemoteDownload || s == Stage::BeforeUploadMeta || s == Stage::Reapply
        || s == Stage::Recollect || s == Stage::Redownload || s == Stage::FinalApply || s
        == Stage::UploadImages || s == Stage::UploadSnapshot || s == Stage::FinalMeta || s
        == Stage::FinalUpdate || s == Stage::Releasing
}

/// The stages that work on the run's snapshot.
pub open spec fn data_stage(s: Stage) -> bool {
    s == Stage::PullApply || s == Stage::PullMeta || s == Stage::PullUpdate || s == Stage::BeforeUploadMeta
        || s == Stage::Reapply || s == Stage::Recollect || s == Stage::Redownload || s == Stage::FinalApply
        || s == Stage::UploadImages || s == Stage::UploadSnapshot || s == Stage::FinalMeta || s
        == Stage::FinalUpdate
}

impl SyncRun {
    /// The run's fields agree with its stage.
    pub open spec fn wf(&self) -> bool {
        &&& self.lock_held == locked_stage(self.stage)
        &&& (self.stage == Stage::RemoteDownload || self.stage == Stage::Redownload) ==> self.local is Some
        &&& data_stage(self.stage) ==> self.data is Some
        &&& (self.stage == Stage::Releasing || self.stage == Stage::Finished) ==> self.outcome is Some
    }
}

/// The event a stage waits for (a failure is always possible).
pub open spec fn expected(s: Stage, e: SyncEvent) -> bool {
    match e {
        SyncEvent::Failed(_) => true,
        SyncEvent::Done => s == Stage::EnsureDirs || s == Stage::PullApply || s == Stage::Locking || s
            == Stage::Reapply || s == Stage::FinalApply || s == Stage::UploadImages || s
            == Stage::UploadSnapshot || s == Stage::Releasing,
        SyncEvent::Metadata(_) => s == Stage::InitialMeta || s == Stage::PullMeta || s
            == Stage::BeforeUploadMeta || s == Stage::FinalMeta,
        SyncEvent::LocalChanges(_) => s == Stage::LocalCheck,
        SyncEvent::Snapshot(_) => s == Stage::PullDownload || s == Stage::RemoteDownload || s
            == Stage::Redownload,
        SyncEvent::Local(_) => s == Stage::Collect || s == Stage::Recollect,
        SyncEvent::Updated(_) => s == Stage::PullUpdate || s == Stage::FinalUpdate,
    }
}

/// Whether `event` is one that stage `stage` waits for (a failure always is).
pub fn event_expected(stage: Stage, event: &SyncEvent) -> (b: bool)
    ensures
        b == expected(stage, *event),
{
    match event {
        SyncEvent::Failed(_) => true,
        SyncEvent::Done => stage == Stage::EnsureDirs || stage == Stage::PullApply || stage == Stage::Locking
            || stage == Stage::Reapply || stage == Stage::FinalApply || stage == Stage::UploadImages || stage
            == Stage::UploadSnapshot || stage == Stage::Releasing,
        SyncEvent::Metadata(_) => stage == Stage::InitialMeta || stage == Stage::PullMeta || stage
            == Stage::BeforeUploadMeta || stage == Stage::FinalMeta,
        SyncEvent::LocalChanges(_) => stage == Stage::LocalCheck,
        SyncEvent::Snapshot(_) => stage == Stage::PullDownload || stage == Stage::RemoteDownload || stage
            == Stage::Redownload,
        SyncEvent::Local(_) => stage == Stage::Collect || stage == Stage::Recollect,
        SyncEvent::Updated(_) => stage == Stage::PullUpdate || stage == Stage::FinalUpdate,
    }
}

/// The fingerprint of optional metadata.
pub open spec fn fingerprint_opt(m: Option<RemoteMetadata>) -> Option<Seq<char>> {
    match m {
        Some(x) => Some(fingerprint_of(x)),
        None => None,
    }
}

/// The remote changed since the last sync (see `remote_fingerprint_changed`).
pub open spec fn changed_since(stored: Option<String>, m: Option<RemoteMetadata>) -> bool {
    !(stored matches Some(s) && m matches Some(x) && s@ == fingerprint_of(x))
}

/// A fresh run in the given layout, for the given goal.
fn start(mode: SyncMode, goal: SyncGoal, device_id: String, stored_fingerprint: Option<String>) -> (r: (
    SyncRun,
    SyncAction,
))
    ensures
        r.0.wf(),
        r.0.mode == mode,
        r.0.goal == goal,
        r.0.stage == Stage::EnsureDirs,
        r.0.device_id == device_id,
        r.0.stored_fingerprint == stored_fingerprint,
        !r.0.lock_held,
        r.1 is EnsureRemoteDirs,
{
    (
        SyncRun {
            mode,
            goal,
            stage: Stage::EnsureDirs,
            device_id,
            stored_fingerprint,
            initial_meta: None,
            latest_meta: None,
            local: None,
            data: None,
            lock_held: false,
            outcome: None,
        },
        SyncAction::EnsureRemoteDirs,
    )
}

/// Starts an incremental sync for this device, given the fingerprint of
/// the remote manifest recorded by the last sync.
pub fn run_incremental_sync(device_id: String, stored_fingerprint: Option<String>) -> (r: (SyncRun, SyncAction))
    ensures
        r.0.wf(),
        r.0.mode == SyncMode::Incremental,
        r.0.goal == SyncGoal::Sync,
        r.0.stage == Stage::EnsureDirs,
        r.0.device_id == device_id,
        r.0.stored_fingerprint == stored_fingerprint,
        r.1 is EnsureRemoteDirs,
{
    start(SyncMode::Incremental, SyncGoal::Sync, device_id, stored_fingerprint)
}

/// Starts an archive sync for this device, given the fingerprint of the
/// remote archive recorded by the last sync.
pub fn run_archive_sync(device_id: String, stored_fingerprint: Option<String>) -> (r: (SyncRun, SyncAction))
    ensures
        r.0.wf(),
        r.0.mode == SyncMode::Archive,
        r.0.goal == SyncGoal::Sync,
        r.0.stage == Stage::EnsureDirs,
        r.0.device_id == device_id,
        r.0.stored_fingerprint == stored_fingerprint,
        r.1 is EnsureRemoteDirs,
{
    start(SyncMode::Archive, SyncGoal::Sync, device_id, stored_fingerprint)
}

/// Starts replacing the remote archive with the local data.
pub fn upload_archive_snapshot(device_id: String) -> (r: (SyncRun, SyncAction))
    ensures
        r.0.wf(),
        r.0.mode == SyncMode::Archive,
        r.0.goal == SyncGoal::UploadArchive,
        r.0.stage == Stage::EnsureDirs,
        r.0.device_id == device_id,
        r.1 is EnsureRemoteDirs,
{
    start(SyncMode::Archive, SyncGoal::UploadArchive, device_id, None)
}

/// The stage after a step, and the action it asks for, when the step
/// involves no snapshot data.
pub open spec fn control(run: SyncRun, e: SyncEvent) -> (Stage, SyncAction) {
    match e {
        SyncEvent::Failed(_) => if run.stage == Stage::Releasing {
            (Stage::Finished, SyncAction::Finish)
        } else if run.lock_held {
            (Stage::Releasing, SyncAction::ReleaseLock)
        } else {
            (Stage::Finished, SyncAction::Finish)
        },
        SyncEvent::Done => if run.stage == Stage::EnsureDirs {
            if run.goal == SyncGoal::Sync {
                (Stage::InitialMeta, SyncAction::FetchMetadata)
            } else {
                (Stage::Locking, SyncAction::AcquireLock)
            }
        } else if run.stage == Stage::PullApply {
            (Stage::PullMeta, SyncAction::FetchMetadata)
        } else if run.stage == Stage::Locking {
            (Stage::Collect, SyncAction::CollectLocal)
        } else if run.stage == Stage::Reapply {
            (Stage::Recollect, SyncAction::CollectLocal)
        } else if run.stage == Stage::FinalApply {
            (Stage::UploadImages, SyncAction::UploadImages)
        } else if run.stage == Stage::UploadImages {
            (Stage::UploadSnapshot, SyncAction::UploadSnapshot)
        } else if run.stage == Stage::UploadSnapshot {
            (Stage::FinalMeta, SyncAction::FetchMetadata)
        } else {
            (Stage::Finished, SyncAction::Finish)
        },
        SyncEvent::Metadata(m) => if run.stage == Stage::InitialMeta {
            (Stage::LocalCheck, SyncAction::CheckLocalChanges)
        } else if run.stage == Stage::PullMeta {
            (Stage::PullUpdate, SyncAction::UpdateSyncState)
        } else if run.stage == Stage::BeforeUploadMeta {
            if fingerprint_opt(run.initial_meta) != fingerprint_opt(m) {
                (Stage::Reapply, SyncAction::ApplySnapshot { fetch_images: false })
            } else {
                (Stage::FinalApply, SyncAction::ApplySnapshot { fetch_images: true })
            }
        } else {
            (Stage::FinalUpdate, SyncAction::UpdateSyncState)
        },
        SyncEvent::LocalChanges(local_changed) => {
            let changed = changed_since(run.stored_fingerprint, run.initial_meta);
            if !local_changed && !changed {
                (Stage::Finished, SyncAction::Finish)
            } else if !local_changed && run.initial_meta is Some {
                (Stage::PullDownload, SyncAction::DownloadSnapshot { archive_fallback: false })
            } else {
                (Stage::Locking, SyncAction::AcquireLock)
            }
        },
        SyncEvent::Snapshot(s) => if run.stage == Stage::PullDownload {
            if s is None {
                (Stage::Finished, SyncAction::Finish)
            } else {
                (Stage::PullApply, SyncAction::ApplySnapshot { fetch_images: true })
            }
        } else if run.stage == Stage::RemoteDownload && run.mode == SyncMode::Incremental {
            (Stage::BeforeUploadMeta, SyncAction::FetchMetadata)
        } else {
            (Stage::FinalApply, SyncAction::ApplySnapshot { fetch_images: true })
        },
        SyncEvent::Local(_) => if run.stage == Stage::Recollect {
            (Stage::Redownload, SyncAction::DownloadSnapshot { archive_fallback: false })
        } else if run.goal == SyncGoal::UploadArchive {
            (Stage::UploadImages, SyncAction::UploadImages)
        } else {
            (Stage::RemoteDownload, SyncAction::DownloadSnapshot { archive_fallback: run.mode == SyncMode::Incremental })
        },
        SyncEvent::Updated(_) => if run.stage == Stage::PullUpdate {
            (Stage::Finished, SyncAction::Finish)
        } else {
            (Stage::Releasing, SyncAction::ReleaseLock)
        },
    }
}

/// An outcome as text.
pub open spec fn outcome_view(o: Option<Result<String, String>>) -> Option<Result<Seq<char>, Seq<char>>> {
    match o {
        Some(Ok(t)) => Some(Ok(t@)),
        Some(Err(e)) => Some(Err(e@)),
        None => None,
    }
}

/// The outcome after a step: a failure outside the release is the
/// outcome; a run with nothing to do ends with `no_changes`; a recorded
/// sync ends with its time.
pub open spec fn outcome_after(run: SyncRun, e: SyncEvent) -> Option<Result<Seq<char>, Seq<char>>> {
    match e {
        SyncEvent::Failed(msg) => if run.stage == Stage::Releasing {
            outcome_view(run.outcome)
        } else {
            Some(Err(msg@))
        },
        SyncEvent::LocalChanges(local_changed) => if !local_changed && !changed_since(run.stored_fingerprint, run.initial_meta) {
            Some(Ok("no_changes"@))
        } else {
            outcome_view(run.outcome)
        },
        SyncEvent::Snapshot(None) => if run.stage == Stage::PullDownload {
            Some(Ok("no_changes"@))
        } else {
            outcome_view(run.outcome)
        },
        SyncEvent::Updated(t) => Some(Ok(t@)),
        _ => outcome_view(run.outcome),
    }
}

/// What merging gives (see `merge_snapshots`), apart from the time stamp
/// and the manifest.
pub open spec fn merge_of(r: SyncData, local: SyncData, remote: Option<SyncData>, device_id: Seq<char>) -> bool {
    match remote {
        None => {
            &&& r.version == local.version
            &&& r.device_id@ == device_id
            &&& r.todos == local.todos
            &&& r.subtasks == local.subtasks
            &&& r.reminders == local.reminders
            &&& r.tombstones == local.tombstones
            &&& r.images == local.images
        },
        Some(rm) => merged_snapshot(r, local, rm, device_id),
    }
}

/// What a step does to the snapshots and metadata the run keeps.
pub open spec fn kept_after(run: SyncRun, e: SyncEvent, r: SyncRun) -> bool {
    &&& r.mode == run.mode
    &&& r.goal == run.goal
    &&& r.device_id == run.device_id
    &&& r.stored_fingerprint == run.stored_fingerprint
    &&& r.initial_meta == (match e {
        SyncEvent::Metadata(m) => if run.stage == Stage::InitialMeta {
            m
        } else {
            run.initial_meta
        },
        _ => run.initial_meta,
    })
    &&& r.latest_meta == (match e {
        SyncEvent::Metadata(m) => if run.stage == Stage::PullMeta || run.stage == Stage::FinalMeta {
            m
        } else {
            run.latest_meta
        },
        _ => run.latest_meta,
    })
    &&& r.local == (match e {
        SyncEvent::Local(d) => if run.goal == SyncGoal::Sync || run.stage == Stage::Recollect {
            Some(d)
        } else {
            run.local
        },
        SyncEvent::Snapshot(_) => if run.stage == Stage::PullDownload {
            run.local
        } else {
            None
        },
        _ => run.local,
    })
    &&& match e {
        SyncEvent::Snapshot(s) => if run.stage == Stage::PullDownload {
            r.data == s
        } else {
            r.data matches Some(d) && merge_of(d, run.local->0, s, run.device_id@)
        },
        SyncEvent::Local(d) => if run.goal == SyncGoal::UploadArchive && run.stage == Stage::Collect {
            r.data == Some(d)
        } else {
            r.data == run.data
        },
        _ => r.data == run.data,
    }
}

/// The steps of a run while it holds the remote lock: collect the local
/// data, download the remote snapshot and merge it in, check that the
/// remote did not change meanwhile (else apply, collect and download once
/// more), apply the result, upload the images and the snapshot, and record
/// the sync. Archive runs take the same steps without the check. A failure
/// hands the lock back.
pub fn run_incremental_sync_locked(run: SyncRun, event: SyncEvent) -> (r: (SyncRun, SyncAction))
    requires
        run.wf(),
        locked_stage(run.stage),
        run.stage != Stage::Releasing,
        expected(run.stage, event),
    ensures
        r.0.wf(),
        (r.0.stage, r.1) == control(run, event),
        r.0.lock_held == locked_stage(r.0.stage),
        outcome_view(r.0.outcome) == outcome_after(run, event),
        kept_after(run, event, r.0),
{
    let mut run = run;
    let stage = run.stage;
    match event {
        SyncEvent::Failed(msg) => {
            run.outcome = Some(Err(msg));
            run.stage = Stage::Releasing;
            (run, SyncAction::ReleaseLock)
        },
        SyncEvent::Done => {
            if stage == Stage::Reapply {
                run.stage = Stage::Recollect;
                (run, SyncAction::CollectLocal)
            } else if stage == Stage::FinalApply {
                run.stage = Stage::UploadImages;
                (run, SyncAction::UploadImages)
            } else if stage == Stage::UploadImages {
                run.stage = Stage::UploadSnapshot;
                (run, SyncAction::UploadSnapshot)
            } else {
                run.stage = Stage::FinalMeta;
                (run, SyncAction::FetchMetadata)
            }
        },
        SyncEvent::Metadata(m) => {
            if stage == Stage::BeforeUploadMeta {
                let before = metadata_fingerprint(&run.initial_meta);
                let now = metadata_fingerprint(&m);
                let same = match (&before, &now) {
                    (Some(a), Some(b)) => *a == *b,
                    (None, None) => true,
                    _ => false,
                };
                proof {
                    if same {
                        assert(fingerprint_opt(run.initial_meta) == fingerprint_opt(m));
                    } else {
                        assert(fingerprint_opt(run.initial_meta) != fingerprint_opt(m));
                    }
                }
                if !same {
                    run.stage = Stage::Reapply;
                    (run, SyncAction::ApplySnapshot { fetch_images: false })
                } else {
                    run.stage = Stage::FinalApply;
                    (run, SyncAction::ApplySnapshot { fetch_images: true })
                }
            } else {
                run.latest_meta = m;
                run.stage = Stage::FinalUpdate;
                (run, SyncAction::UpdateSyncState)
            }
        },
        SyncEvent::LocalChanges(_) => {
            assert(false);
            (run, SyncAction::Finish)
        },
        SyncEvent::Snapshot(s) => {
            let local = run.local.take().unwrap();
            let merged = merge_snapshots(local, s, run.device_id.as_str());
            run.data = Some(merged);
            if stage == Stage::RemoteDownload && run.mode == SyncMode::Incremental {
                run.stage = Stage::BeforeUploadMeta;
                (run, SyncAction::FetchMetadata)
            } else {
                run.stage = Stage::FinalApply;
                (run, SyncAction::ApplySnapshot { fetch_images: true })
            }
        },
        SyncEvent::Local(d) => {
            if stage == Stage::Recollect {
                run.local = Some(d);
                run.stage = Stage::Redownload;
                (run, SyncAction::DownloadSnapshot { archive_fallback: false })
            } else if run.goal == SyncGoal::UploadArchive {
                run.data = Some(d);
                run.stage = Stage::UploadImages;
                (run, SyncAction::UploadImages)
            } else {
                run.local = Some(d);
                run.stage = Stage::RemoteDownload;
                let fallback = run.mode == SyncMode::Incremental;
                (run, SyncAction::DownloadSnapshot { archive_fallback: fallback })
            }
        },
        SyncEvent::Updated(t) => {
            run.outcome = Some(Ok(t));
            run.stage = Stage::Releasing;
            (run, SyncAction::ReleaseLock)
        },
    }
}

/// Takes the outcome of the last action and says what to do next.
pub fn advance_sync(run: SyncRun, event: SyncEvent) -> (r: (SyncRun, SyncAction))
    requires
        run.wf(),
        run.stage != Stage::Finished,
        expected(run.stage, event),
    ensures
        r.0.wf(),
        (r.0.stage, r.1) == control(run, event),
        r.0.lock_held == locked_stage(r.0.stage),
        outcome_view(r.0.outcome) == outcome_after(run, event),
        kept_after(run, event, r.0),
{
    let stage = run.stage;
    if run.lock_held && stage != Stage::Releasing {
        return run_incremental_sync_locked(run, event);
    }
    let mut run = run;
    match event {
        SyncEvent::Failed(msg) => {
            if stage == Stage::Releasing {
                run.stage = Stage::Finished;
                run.lock_held = false;
                (run, SyncAction::Finish)
            } else {
                run.outcome = Some(Err(msg));
                run.stage = Stage::Finished;
                (run, SyncAction::Finish)
            }
        },
        SyncEvent::Done => {
            if stage == Stage::EnsureDirs {
                if run.goal == SyncGoal::Sync {
                    run.stage = Stage::InitialMeta;
                    (run, SyncAction::FetchMetadata)
                } else {
                    run.stage = Stage::Locking;
                    (run, SyncAction::AcquireLock)
                }
            } else if stage == Stage::PullApply {
                run.stage = Stage::PullMeta;
                (run, SyncAction::FetchMetadata)
            } else if stage == Stage::Locking {
                run.stage = Stage::Collect;
                run.lock_held = true;
                (run, SyncAction::CollectLocal)
            } else {
                run.stage = Stage::Finished;
                run.lock_held = false;
                (run, SyncAction::Finish)
            }
        },
        SyncEvent::Metadata(m) => {
            if stage == Stage::InitialMeta {
                run.initial_meta = m;
                run.stage = Stage::LocalCheck;
                (run, SyncAction::CheckLocalChanges)
            } else {
                run.latest_meta = m;
                run.stage = Stage::PullUpdate;
                (run, SyncAction::UpdateSyncState)
            }
        },
        SyncEvent::LocalChanges(local_changed) => {
            let changed = remote_fingerprint_changed(&run.stored_fingerprint, &run.initial_meta);
            match plan_sync(local_changed, changed, run.initial_meta.is_some()) {
                SyncStep::NoChanges => {
                    run.outcome = Some(Ok(owned("no_changes")));
                    run.stage = Stage::Finished;
                    (run, SyncAction::Finish)
                },
                SyncStep::PullRemote => {
                    run.stage = Stage::PullDownload;
                    (run, SyncAction::DownloadSnapshot { archive_fallback: false })
                },
                SyncStep::MergeUnderLock => {
                    run.stage = Stage::Locking;
                    (run, SyncAction::AcquireLock)
                },
            }
        },
        SyncEvent::Snapshot(s) => {
            match s {
                None => {
                    run.data = None;
                    run.outcome = Some(Ok(owned("no_changes")));
                    run.stage = Stage::Finished;
                    (run, SyncAction::Finish)
                },
                Some(d) => {
                    run.data = Some(d);
                    run.stage = Stage::PullApply;
                    (run, SyncAction::ApplySnapshot { fetch_images: true })
                },
            }
        },
        SyncEvent::Local(_) => {
            assert(false);
            (run, SyncAction::Finish)
        },
        SyncEvent::Updated(t) => {
            run.outcome = Some(Ok(t));
            run.stage = Stage::Finished;
            (run, SyncAction::Finish)
        },
    }
}

/// The remote lock is never left behind: a step that finishes the run
/// leaves it unlocked, the lock is only given back when held and only
/// taken when not held, and a failure while it is held gives it back.
pub proof fn lemma_lock_always_released(run: SyncRun, e: SyncEvent)
    requires
        run.wf(),
        run.stage != Stage::Finished,
        expected(run.stage, e),
    ensures
        control(run, e).1 is Finish ==> !locked_stage(control(run, e).0),
        control(run, e).1 is ReleaseLock ==> run.lock_held && control(run, e).0 == Stage::Releasing,
        control(run, e).1 is AcquireLock ==> !run.lock_held,
        run.lock_held && e is Failed && run.stage != Stage::Releasing ==> control(run, e).1 is ReleaseLock,
{
}

/// The local check decides a run by the local changes and the remote
/// fingerprint: with local changes the run always takes the lock (and so
/// merges and uploads), whatever the remote says. Without them it ends
/// with `no_changes` when the stored fingerprint is the remote's, pulls the
/// remote when that differs and the remote exists, and takes the lock
/// otherwise.
pub proof fn lemma_local_changes_are_always_uploaded(run: SyncRun, local_changed: bool)
    requires
        run.wf(),
        run.stage == Stage::LocalCheck,
    ensures
        ({
            let e = SyncEvent::LocalChanges(local_changed);
            let unchanged = run.stored_fingerprint matches Some(s) && run.initial_meta matches Some(m)
                && s@ == fingerprint_of(m);
            &&& local_changed ==> control(run, e).0 == Stage::Locking && control(run, e).1 is AcquireLock
                && outcome_after(run, e) == outcome_view(run.outcome)
            &&& !local_changed && unchanged ==> control(run, e).0 == Stage::Finished && control(run, e).1 is Finish
                && outcome_after(run, e) == Some(Ok::<Seq<char>, Seq<char>>("no_changes"@))
            &&& !local_changed && !unchanged && run.initial_meta is Some ==> control(run, e).0 == Stage::PullDownload
                && control(run, e).1 == (SyncAction::DownloadSnapshot { archive_fallback: false })
            &&& !local_changed && !unchanged && run.initial_meta is None ==> control(run, e).0 == Stage::Locking
                && control(run, e).1 is AcquireLock
        }),
{
}

} // verus!
