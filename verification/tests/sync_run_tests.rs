use mini_todo::snapshot::empty_manifest;
use mini_todo::sync::{RemoteMetadata, SharedSettings, SyncData, SyncSubtask, UploadParts};
use mini_todo::syncrun::{
    advance_sync, download_archive_snapshot, event_expected, ensure_remote_dirs, get_client, run_archive_sync,
    run_incremental_sync, run_incremental_sync_locked, upload_archive_data, upload_archive_snapshot, upload_images,
    upload_incremental_snapshot, Stage, SyncAction, SyncEvent,
};
use mini_todo::sync::{SyncReminder, SyncSettings};
use mini_todo::syncrun::{placed_reminders, placed_subtasks, stale_reminders, tombstone_target, TombstoneTarget};
use mini_todo::digest::decompress_archive;

fn snap(updated_at: &str, images: Vec<&str>) -> SyncData {
    SyncData {
        version: "4.0".to_string(),
        device_id: "dev_r".to_string(),
        updated_at: updated_at.to_string(),
        manifest: empty_manifest(),
        todos: Vec::new(),
        subtasks: Vec::new(),
        reminders: Vec::new(),
        settings: SharedSettings {},
        tombstones: Vec::new(),
        images: images.into_iter().map(|s| s.to_string()).collect(),
    }
}

fn meta(etag: &str) -> Option<RemoteMetadata> {
    Some(RemoteMetadata { etag: Some(etag.to_string()), last_modified: None, content_length: Some(1) })
}

#[test]
fn nothing_changed_means_no_changes() {
    let (run, a) = run_incremental_sync("dev_1".to_string(), Some("e||1".to_string()));
    assert!(matches!(a, SyncAction::EnsureRemoteDirs));
    let (run, a) = advance_sync(run, SyncEvent::Done);
    assert!(matches!(a, SyncAction::FetchMetadata));
    let (run, a) = advance_sync(run, SyncEvent::Metadata(meta("e")));
    assert!(matches!(a, SyncAction::CheckLocalChanges));
    let (run, a) = advance_sync(run, SyncEvent::LocalChanges(false));
    assert!(matches!(a, SyncAction::Finish));
    assert_eq!(run.outcome, Some(Ok("no_changes".to_string())));
    assert!(!run.lock_held);
}

#[test]
fn remote_only_change_is_pulled_without_the_lock() {
    let (run, _) = run_archive_sync("dev_1".to_string(), Some("old".to_string()));
    let (run, _) = advance_sync(run, SyncEvent::Done);
    let (run, _) = advance_sync(run, SyncEvent::Metadata(meta("new")));
    let (run, a) = advance_sync(run, SyncEvent::LocalChanges(false));
    assert!(matches!(a, SyncAction::DownloadSnapshot { archive_fallback: false }));
    let (run, a) = advance_sync(run, SyncEvent::Snapshot(Some(snap("2024-02-02 00:00:00", vec![]))));
    assert!(matches!(a, SyncAction::ApplySnapshot { fetch_images: true }));
    assert!(!run.lock_held);
    let (run, a) = advance_sync(run, SyncEvent::Done);
    assert!(matches!(a, SyncAction::FetchMetadata));
    let (run, a) = advance_sync(run, SyncEvent::Metadata(meta("new")));
    assert!(matches!(a, SyncAction::UpdateSyncState));
    assert_eq!(run.data.as_ref().unwrap().updated_at, "2024-02-02 00:00:00");
    let (run, a) = advance_sync(run, SyncEvent::Updated("2024-02-02 00:00:00".to_string()));
    assert!(matches!(a, SyncAction::Finish));
    assert_eq!(run.outcome, Some(Ok("2024-02-02 00:00:00".to_string())));
}

#[test]
fn local_change_merges_under_the_lock_and_releases_it() {
    let (run, _) = run_incremental_sync("dev_1".to_string(), None);
    let (run, _) = advance_sync(run, SyncEvent::Done);
    let (run, _) = advance_sync(run, SyncEvent::Metadata(meta("a")));
    let (run, a) = advance_sync(run, SyncEvent::LocalChanges(true));
    assert!(matches!(a, SyncAction::AcquireLock));
    let (run, a) = advance_sync(run, SyncEvent::Done);
    assert!(matches!(a, SyncAction::CollectLocal));
    assert!(run.lock_held);
    let (run, a) = advance_sync(run, SyncEvent::Local(snap("2024-01-01 00:00:00", vec!["l.png"])));
    assert!(matches!(a, SyncAction::DownloadSnapshot { archive_fallback: true }));
    let (run, a) = advance_sync(run, SyncEvent::Snapshot(Some(snap("2024-01-02 00:00:00", vec!["r.png"]))));
    assert!(matches!(a, SyncAction::FetchMetadata));
    assert_eq!(run.data.as_ref().unwrap().images, vec!["l.png", "r.png"]);
    assert_eq!(run.data.as_ref().unwrap().device_id, "dev_1");
    let (run, a) = advance_sync(run, SyncEvent::Metadata(meta("a")));
    assert!(matches!(a, SyncAction::ApplySnapshot { fetch_images: true }));
    let (run, a) = advance_sync(run, SyncEvent::Done);
    assert!(matches!(a, SyncAction::UploadImages));
    let (run, a) = advance_sync(run, SyncEvent::Done);
    assert!(matches!(a, SyncAction::UploadSnapshot));
    let (run, a) = advance_sync(run, SyncEvent::Done);
    assert!(matches!(a, SyncAction::FetchMetadata));
    let (run, a) = advance_sync(run, SyncEvent::Metadata(meta("b")));
    assert!(matches!(a, SyncAction::UpdateSyncState));
    let (run, a) = advance_sync(run, SyncEvent::Updated("2024-01-03 00:00:00".to_string()));
    assert!(matches!(a, SyncAction::ReleaseLock));
    assert!(run.lock_held);
    let (run, a) = advance_sync(run, SyncEvent::Done);
    assert!(matches!(a, SyncAction::Finish));
    assert!(!run.lock_held);
    assert_eq!(run.stage, Stage::Finished);
    assert_eq!(run.outcome, Some(Ok("2024-01-03 00:00:00".to_string())));
}

#[test]
fn remote_changing_during_the_run_is_merged_again() {
    let (run, _) = run_incremental_sync("dev_1".to_string(), None);
    let (run, _) = advance_sync(run, SyncEvent::Done);
    let (run, _) = advance_sync(run, SyncEvent::Metadata(meta("a")));
    let (run, _) = advance_sync(run, SyncEvent::LocalChanges(true));
    let (run, _) = advance_sync(run, SyncEvent::Done);
    let (run, _) = advance_sync(run, SyncEvent::Local(snap("2024-01-01 00:00:00", vec![])));
    let (run, _) = advance_sync(run, SyncEvent::Snapshot(None));
    let (run, a) = advance_sync(run, SyncEvent::Metadata(meta("changed")));
    assert!(matches!(a, SyncAction::ApplySnapshot { fetch_images: false }));
    let (run, a) = advance_sync(run, SyncEvent::Done);
    assert!(matches!(a, SyncAction::CollectLocal));
    let (run, a) = advance_sync(run, SyncEvent::Local(snap("2024-01-01 00:00:00", vec![])));
    assert!(matches!(a, SyncAction::DownloadSnapshot { archive_fallback: false }));
    let (run, a) = advance_sync(run, SyncEvent::Snapshot(Some(snap("2024-01-05 00:00:00", vec!["z.png"]))));
    assert!(matches!(a, SyncAction::ApplySnapshot { fetch_images: true }));
    assert_eq!(run.data.as_ref().unwrap().images, vec!["z.png"]);
}

#[test]
fn failure_under_the_lock_releases_it_first() {
    let (run, _) = upload_archive_snapshot("dev_1".to_string());
    let (run, a) = advance_sync(run, SyncEvent::Done);
    assert!(matches!(a, SyncAction::AcquireLock));
    let (run, _) = advance_sync(run, SyncEvent::Done);
    let (run, a) = advance_sync(run, SyncEvent::Local(snap("2024-01-01 00:00:00", vec![])));
    assert!(matches!(a, SyncAction::UploadImages));
    let (run, a) = advance_sync(run, SyncEvent::Failed("上传失败".to_string()));
    assert!(matches!(a, SyncAction::ReleaseLock));
    let (run, a) = advance_sync(run, SyncEvent::Failed("ignored".to_string()));
    assert!(matches!(a, SyncAction::Finish));
    assert!(!run.lock_held);
    assert_eq!(run.outcome, Some(Err("上传失败".to_string())));
}

#[test]
fn failure_before_the_lock_finishes_at_once() {
    let (run, _) = run_archive_sync("dev_1".to_string(), None);
    let (run, a) = advance_sync(run, SyncEvent::Failed("网络错误".to_string()));
    assert!(matches!(a, SyncAction::Finish));
    assert_eq!(run.outcome, Some(Err("网络错误".to_string())));
}

#[test]
fn remote_layout_steps() {
    assert_eq!(ensure_remote_dirs(), vec!["/mini-todo", "/mini-todo/images"]);
    let settings = SyncSettings {
        webdav_url: "https://dav".to_string(),
        webdav_username: "u".to_string(),
        webdav_password: "p".to_string(),
        auto_sync: false,
        sync_interval: 15,
        sync_mode: "archive".to_string(),
        startup_sync: false,
        last_sync_at: None,
        device_id: "d".to_string(),
    };
    let c = get_client(&settings);
    assert_eq!((c.url.as_str(), c.username.as_str(), c.password.as_str()), ("https://dav", "u", "p"));
    let up = upload_archive_data("{\"a\":1}").unwrap();
    assert_eq!(up.path, "/mini-todo/sync-data.json.gz");
    assert_eq!(up.content_type, "application/gzip");
    assert_eq!(decompress_archive(&up.bytes).unwrap(), "{\"a\":1}");
    assert_eq!(download_archive_snapshot(Some(up.bytes.clone())), Ok(Some("{\"a\":1}".to_string())));
    assert_eq!(download_archive_snapshot(None), Ok(None));
    assert!(download_archive_snapshot(Some(vec![1, 2, 3])).is_err());
    let parts = UploadParts {
        todos_json: "T".to_string(),
        subtasks_json: "S".to_string(),
        reminders_json: "R".to_string(),
        settings_json: "G".to_string(),
        tombstones_json: "X".to_string(),
    };
    let files = upload_incremental_snapshot(parts, "M".to_string());
    let v: Vec<(String, String)> = files.into_iter().map(|f| (f.path, f.text)).collect();
    assert_eq!(v.len(), 6);
    assert_eq!(v[0], ("/mini-todo/todos.json".to_string(), "T".to_string()));
    assert_eq!(v[4], ("/mini-todo/tombstones.json".to_string(), "X".to_string()));
    assert_eq!(v[5].1, "M");
    assert!(v[5].0.starts_with("/mini-todo/") && v[5].0.ends_with(".json"));
    let imgs = vec!["a.png".to_string(), "b.png".to_string(), "c.png".to_string()];
    let up = upload_images(&imgs, &vec![true, false, true], &vec![false, false, true]);
    assert_eq!(up, vec![("a.png".to_string(), "/mini-todo/images/a.png".to_string())]);
}

#[test]
fn stale_reminders_of_snapshot_todos_are_deleted() {
    let rem = |id: &str, todo: &str| SyncReminder {
        sync_id: id.to_string(),
        todo_sync_id: todo.to_string(),
        notify_at: "2024-01-01T09:00:00".to_string(),
        sort_order: 0,
        created_at: "c".to_string(),
        updated_at: "u".to_string(),
        updated_by_device_id: "d".to_string(),
        revision: 1,
    };
    let ids = vec![("todo:a".to_string(), 1), ("todo:b".to_string(), 2), ("todo:c".to_string(), 3)];
    let reminders = vec![rem("r1", "todo:a"), rem("r9", "todo:zzz")];
    let existing = vec![
        (1, "r1".to_string()),
        (1, "r2".to_string()),
        (2, "r3".to_string()),
        (3, "r1".to_string()),
    ];
    assert_eq!(stale_reminders(&ids, &reminders, &existing), vec![(1, "r2".to_string())]);
}

#[test]
fn locked_steps_hand_the_lock_back_on_failure() {
    let (run, _) = run_incremental_sync("dev_1".to_string(), None);
    let (run, _) = advance_sync(run, SyncEvent::Done);
    let (run, _) = advance_sync(run, SyncEvent::Metadata(meta("a")));
    let (run, _) = advance_sync(run, SyncEvent::LocalChanges(true));
    let (run, _) = advance_sync(run, SyncEvent::Done);
    assert_eq!(run.stage, Stage::Collect);
    let (run, a) = run_incremental_sync_locked(run, SyncEvent::Local(snap("2024-01-01 00:00:00", vec![])));
    assert!(matches!(a, SyncAction::DownloadSnapshot { archive_fallback: true }));
    assert_eq!(run.stage, Stage::RemoteDownload);
    let (run, a) = run_incremental_sync_locked(run, SyncEvent::Failed("下载失败".to_string()));
    assert!(matches!(a, SyncAction::ReleaseLock));
    assert_eq!(run.stage, Stage::Releasing);
    assert!(run.lock_held);
    assert_eq!(run.outcome, Some(Err("下载失败".to_string())));
    let (run, a) = advance_sync(run, SyncEvent::Done);
    assert!(matches!(a, SyncAction::Finish));
    assert!(!run.lock_held);
    assert_eq!(run.outcome, Some(Err("下载失败".to_string())));
}

#[test]
fn tombstones_name_what_they_delete() {
    assert_eq!(tombstone_target("todo"), TombstoneTarget::Todo);
    assert_eq!(tombstone_target("subtask"), TombstoneTarget::Subtask);
    assert_eq!(tombstone_target("reminder"), TombstoneTarget::Reminder);
    assert_eq!(tombstone_target("image"), TombstoneTarget::Nothing);
}

#[test]
fn records_of_unknown_todos_are_skipped() {
    let sub = |id: &str, parent: &str| SyncSubtask {
        sync_id: id.to_string(),
        parent_todo_sync_id: parent.to_string(),
        title: "s".to_string(),
        content: None,
        completed: false,
        sort_order: 0,
        created_at: "c".to_string(),
        updated_at: "u".to_string(),
        updated_by_device_id: "d".to_string(),
        revision: 1,
    };
    let rem = |id: &str, todo: &str| SyncReminder {
        sync_id: id.to_string(),
        todo_sync_id: todo.to_string(),
        notify_at: "2024-01-01T09:00:00".to_string(),
        sort_order: 0,
        created_at: "c".to_string(),
        updated_at: "u".to_string(),
        updated_by_device_id: "d".to_string(),
        revision: 1,
    };
    let ids = vec![("todo:a".to_string(), 1), ("todo:b".to_string(), 2), ("todo:a".to_string(), 5)];
    let subs = vec![sub("s1", "todo:b"), sub("s2", "todo:zz"), sub("s3", "todo:a")];
    assert_eq!(placed_subtasks(&ids, &subs), vec![(0, 2), (2, 5)]);
    let rems = vec![rem("r1", "todo:x"), rem("r2", "todo:a")];
    assert_eq!(placed_reminders(&ids, &rems), vec![(1, 5)]);
}

#[test]
fn stages_wait_for_their_events() {
    assert!(event_expected(Stage::EnsureDirs, &SyncEvent::Done));
    assert!(!event_expected(Stage::EnsureDirs, &SyncEvent::LocalChanges(true)));
    assert!(event_expected(Stage::LocalCheck, &SyncEvent::LocalChanges(true)));
    assert!(event_expected(Stage::Collect, &SyncEvent::Failed(s_("x"))));
}

fn s_(v: &str) -> String {
    v.to_string()
}
