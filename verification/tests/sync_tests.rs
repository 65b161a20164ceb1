use mini_todo::digest::{compress_archive, decompress_archive, generate_lock_token, hash_text, to_hex_lower};
use mini_todo::merge::{merge_by_updated_at, merge_tombstones};
use mini_todo::snapshot::{apply_tombstone_filters, assemble_local_snapshot, empty_manifest, merge_snapshots, sorted_union};
use mini_todo::store::{get_setting, SettingEntry};
use mini_todo::sync::{
    RemoteMetadata, SharedSettings, SyncData, SyncLock, SyncReminder, SyncSettings, SyncSubtask,
    SyncTodo, SyncTombstone,
};
use mini_todo::syncflow::{
    check_local_changes, check_lock_free, check_lock_won, download_result, get_stored_remote_fingerprint,
    is_webdav_local_dirty,
    lock_blocks, lock_confirmed, mark_webdav_local_dirty, metadata_fingerprint, new_lock, plan_sync,
    remote_fingerprint_changed, sync_run_result, update_last_sync_at, update_sync_state,
    webdav_configured, LocalChangeCounts, SyncStep,
};
use mini_todo::timefmt::{
    is_time_newer, iso_text_of_seconds, now_db_time, parse_time_score, spaced_datetime_seconds,
};

fn todo(id: &str, title: &str, at: &str) -> SyncTodo {
    SyncTodo {
        sync_id: id.to_string(),
        title: title.to_string(),
        description: None,
        color: "#EF4444".to_string(),
        quadrant: 4,
        completed: false,
        sort_order: 0,
        start_time: None,
        end_time: None,
        created_at: "2024-01-01 00:00:00".to_string(),
        updated_at: at.to_string(),
        updated_by_device_id: "dev_1".to_string(),
        revision: 1,
    }
}

fn subtask(id: &str, parent: &str, at: &str) -> SyncSubtask {
    SyncSubtask {
        sync_id: id.to_string(),
        parent_todo_sync_id: parent.to_string(),
        title: "s".to_string(),
        content: None,
        completed: false,
        sort_order: 0,
        created_at: at.to_string(),
        updated_at: at.to_string(),
        updated_by_device_id: "dev_1".to_string(),
        revision: 1,
    }
}

fn reminder(id: &str, todo: &str, at: &str) -> SyncReminder {
    SyncReminder {
        sync_id: id.to_string(),
        todo_sync_id: todo.to_string(),
        notify_at: "2024-02-01T09:00:00".to_string(),
        sort_order: 0,
        created_at: at.to_string(),
        updated_at: at.to_string(),
        updated_by_device_id: "dev_1".to_string(),
        revision: 1,
    }
}

fn tomb(entity: &str, id: &str, at: &str) -> SyncTombstone {
    SyncTombstone {
        entity: entity.to_string(),
        sync_id: id.to_string(),
        deleted_at: at.to_string(),
        deleted_by_device_id: "dev_2".to_string(),
    }
}

fn data(todos: Vec<SyncTodo>, tombstones: Vec<SyncTombstone>, images: Vec<&str>) -> SyncData {
    SyncData {
        version: "4.0".to_string(),
        device_id: "dev_x".to_string(),
        updated_at: "2024-01-01 00:00:00".to_string(),
        manifest: empty_manifest(),
        todos,
        subtasks: Vec::new(),
        reminders: Vec::new(),
        settings: SharedSettings {},
        tombstones,
        images: images.into_iter().map(|s| s.to_string()).collect(),
    }
}

fn settings(last: Option<&str>) -> SyncSettings {
    SyncSettings {
        webdav_url: " https://dav ".to_string(),
        webdav_username: "u".to_string(),
        webdav_password: "p".to_string(),
        auto_sync: false,
        sync_interval: 15,
        sync_mode: "incremental".to_string(),
        startup_sync: false,
        last_sync_at: last.map(|s| s.to_string()),
        device_id: "dev_1".to_string(),
    }
}

#[test]
fn sha256_hex_of_known_text() {
    assert_eq!(
        hash_text("abc"),
        "ba7816bf8f01cfea414140de5dae2223b00361a396177a9cb410ff61f20015ad"
    );
    assert_eq!(hash_text("").len(), 64);
    assert_eq!(to_hex_lower(&[0x00, 0xab, 0x0f]), "00ab0f");
}

#[test]
fn archive_compression_round_trips() {
    let text = "{\"todos\":[\"买菜\"]}";
    let bytes = compress_archive(text).unwrap();
    assert_ne!(bytes.as_slice(), text.as_bytes());
    assert_eq!(&bytes[0..2], &[0x1f, 0x8b]);
    assert_eq!(decompress_archive(&bytes).unwrap(), text);
    assert!(decompress_archive(b"not gzip").is_err());
}

#[test]
fn lock_tokens_are_alphanumeric() {
    let t = generate_lock_token();
    assert_eq!(t.len(), 32);
    assert!(t.chars().all(|c| c.is_ascii_alphanumeric()));
}

#[test]
fn time_scores_and_order() {
    assert_eq!(parse_time_score("1970-01-01 00:01:00"), 60);
    assert_eq!(parse_time_score("1970-01-01T00:00:30"), 30);
    assert_eq!(parse_time_score("1970-01-01T01:00:00+01:00"), 0);
    assert_eq!(parse_time_score("garbage"), 0);
    assert!(is_time_newer("2024-01-02 00:00:00", "2024-01-01 23:59:59"));
    assert!(!is_time_newer("2024-01-01 00:00:00", "2024-01-01 00:00:00"));
    assert!(is_time_newer("2023-12-31 17:00:00", "2024-01-01T00:00:00+08:00"));
    assert!(is_time_newer("b", "a"));
    assert_eq!(spaced_datetime_seconds("1970-01-02 00:00:00"), Some(86400));
    assert_eq!(iso_text_of_seconds(86400), Some("1970-01-02T00:00:00".to_string()));
}

#[test]
fn newer_copy_wins_a_merge() {
    let local = vec![todo("a", "local a", "2024-01-02 00:00:00"), todo("b", "local b", "2024-01-01 00:00:00")];
    let remote = vec![todo("a", "remote a", "2024-01-01 00:00:00"), todo("b", "remote b", "2024-01-03 00:00:00"), todo("c", "remote c", "2024-01-01 00:00:00")];
    let m = merge_by_updated_at(local, remote);
    assert_eq!(m.len(), 3);
    let title = |id: &str| m.iter().find(|t| t.sync_id == id).unwrap().title.clone();
    assert_eq!(title("a"), "local a");
    assert_eq!(title("b"), "remote b");
    assert_eq!(title("c"), "remote c");
}

#[test]
fn equal_stamps_keep_the_local_copy() {
    let m = merge_by_updated_at(
        vec![todo("a", "local", "2024-01-01 00:00:00")],
        vec![todo("a", "remote", "2024-01-01 00:00:00")],
    );
    assert_eq!(m.len(), 1);
    assert_eq!(m[0].title, "local");
}

#[test]
fn newest_deletion_wins() {
    let m = merge_tombstones(
        vec![tomb("todo", "a", "2024-01-01 00:00:00"), tomb("todo", "b", "2024-01-05 00:00:00")],
        vec![tomb("todo", "a", "2024-01-03 00:00:00"), tomb("subtask", "a", "2024-01-01 00:00:00")],
    );
    assert_eq!(m.len(), 3);
    let at = |e: &str, id: &str| m.iter().find(|t| t.entity == e && t.sync_id == id).unwrap().deleted_at.clone();
    assert_eq!(at("todo", "a"), "2024-01-03 00:00:00");
    assert_eq!(at("todo", "b"), "2024-01-05 00:00:00");
    assert_eq!(at("subtask", "a"), "2024-01-01 00:00:00");
}

#[test]
fn tombstones_remove_deleted_records_and_orphans() {
    let mut d = data(
        vec![todo("t1", "kept", "2024-01-05 00:00:00"), todo("t2", "gone", "2024-01-01 00:00:00")],
        vec![tomb("todo", "t2", "2024-01-02 00:00:00"), tomb("todo", "t1", "2024-01-01 00:00:00")],
        vec![],
    );
    d.subtasks = vec![subtask("s1", "t1", "2024-01-01 00:00:00"), subtask("s2", "t2", "2024-01-09 00:00:00")];
    d.reminders = vec![reminder("r1", "t2", "2024-01-01 00:00:00"), reminder("r2", "t1", "2024-01-01 00:00:00")];
    apply_tombstone_filters(&mut d);
    assert_eq!(d.todos.len(), 1);
    assert_eq!(d.todos[0].sync_id, "t1");
    assert_eq!(d.subtasks.len(), 1);
    assert_eq!(d.subtasks[0].sync_id, "s1");
    assert_eq!(d.reminders.len(), 1);
    assert_eq!(d.reminders[0].sync_id, "r2");
}

#[test]
fn image_names_are_united_and_sorted() {
    let u = sorted_union(
        vec!["b.png".to_string(), "a.png".to_string()],
        vec!["c.png".to_string(), "a.png".to_string()],
    );
    assert_eq!(u, vec!["a.png", "b.png", "c.png"]);
}

#[test]
fn merging_snapshots() {
    let local = data(vec![todo("a", "l", "2024-01-02 00:00:00")], vec![], vec!["x.png"]);
    let remote = data(vec![todo("b", "r", "2024-01-01 00:00:00")], vec![tomb("todo", "a", "2024-01-01 00:00:00")], vec!["y.png", "x.png"]);
    let m = merge_snapshots(local, Some(remote), "dev_me");
    assert_eq!(m.version, "4.0");
    assert_eq!(m.device_id, "dev_me");
    assert_eq!(m.todos.len(), 2);
    assert_eq!(m.tombstones.len(), 1);
    assert_eq!(m.images, vec!["x.png", "y.png"]);
    let alone = merge_snapshots(data(vec![todo("a", "l", "t")], vec![], vec![]), None, "dev_me");
    assert_eq!(alone.device_id, "dev_me");
    assert_eq!(alone.todos.len(), 1);
}

#[test]
fn a_later_tombstone_hides_the_record() {
    let local = data(vec![todo("a", "l", "2024-01-01 00:00:00")], vec![], vec![]);
    let remote = data(vec![], vec![tomb("todo", "a", "2024-01-02 00:00:00")], vec![]);
    let m = merge_snapshots(local, Some(remote), "dev_me");
    assert!(m.todos.is_empty());
}

#[test]
fn fingerprints_and_remote_change() {
    let meta = RemoteMetadata {
        etag: Some("\"e1\"".to_string()),
        last_modified: None,
        content_length: Some(12),
    };
    assert_eq!(metadata_fingerprint(&Some(meta.clone())), Some("\"e1\"||12".to_string()));
    assert_eq!(metadata_fingerprint(&None), None);
    assert!(!remote_fingerprint_changed(&Some("\"e1\"||12".to_string()), &Some(meta.clone())));
    assert!(remote_fingerprint_changed(&Some("old".to_string()), &Some(meta.clone())));
    assert!(remote_fingerprint_changed(&None, &Some(meta)));
    assert!(remote_fingerprint_changed(&Some("x".to_string()), &None));
}

#[test]
fn local_change_detection() {
    let zero = LocalChangeCounts { todos: 0, subtasks: 0, reminders: 0, tombstones: 0 };
    assert!(check_local_changes(&settings(None), false, &zero));
    assert!(!check_local_changes(&settings(Some("2024-01-01 00:00:00")), false, &zero));
    assert!(check_local_changes(&settings(Some("2024-01-01 00:00:00")), true, &zero));
    let one = LocalChangeCounts { todos: 0, subtasks: 0, reminders: 1, tombstones: 0 };
    assert!(check_local_changes(&settings(Some("2024-01-01 00:00:00")), false, &one));
}

#[test]
fn dirty_flag_and_sync_state() {
    let mut t: Vec<SettingEntry> = Vec::new();
    assert!(!is_webdav_local_dirty(&t));
    mark_webdav_local_dirty(&mut t);
    assert!(is_webdav_local_dirty(&t));
    let meta = RemoteMetadata { etag: Some("e".to_string()), last_modified: Some("m".to_string()), content_length: None };
    let r = update_sync_state(&mut t, "2024-03-01 10:00:00", "webdav_archive_file_fingerprint", &Some(meta));
    assert_eq!(r, "2024-03-01 10:00:00");
    assert!(!is_webdav_local_dirty(&t));
    assert_eq!(get_setting(&t, "webdav_archive_file_fingerprint"), Some("e|m|0".to_string()));
    assert_eq!(get_setting(&t, "webdav_last_sync_at"), Some("2024-03-01 10:00:00".to_string()));
    mark_webdav_local_dirty(&mut t);
    assert_eq!(update_last_sync_at(&mut t, "2024-03-02 10:00:00"), "2024-03-02 10:00:00");
    assert!(!is_webdav_local_dirty(&t));
}

#[test]
fn lock_rules() {
    let other = SyncLock { device_id: "dev_2".to_string(), token: "t".to_string(), created_at: 0, expires_at: 100 };
    assert!(lock_blocks(&Some(other.clone()), "dev_1", 99));
    assert!(!lock_blocks(&Some(other.clone()), "dev_1", 100));
    assert!(!lock_blocks(&Some(other.clone()), "dev_2", 50));
    assert!(!lock_blocks(&None, "dev_1", 50));
    assert_eq!(check_lock_free(&Some(other.clone()), "dev_1", 50), Err("云端正在同步，请稍后再试".to_string()));
    assert_eq!(check_lock_free(&None, "dev_1", 50), Ok(()));
    let mine = new_lock("dev_1", 1000);
    assert_eq!(mine.expires_at, 1120);
    assert_eq!(mine.created_at, 1000);
    assert_eq!(mine.token.len(), 32);
    assert!(lock_confirmed(&Some(mine.clone()), &mine));
    assert!(!lock_confirmed(&Some(other.clone()), &mine));
    assert!(!lock_confirmed(&None, &mine));
    assert_eq!(check_lock_won(&Some(mine.clone()), &mine), Ok(()));
    assert_eq!(check_lock_won(&Some(other), &mine), Err("云端同步锁竞争，请稍后再试".to_string()));
}

#[test]
fn run_plan_and_results() {
    assert!(matches!(plan_sync(false, false, true), SyncStep::NoChanges));
    assert!(matches!(plan_sync(false, true, true), SyncStep::PullRemote));
    assert!(matches!(plan_sync(false, true, false), SyncStep::MergeUnderLock));
    assert!(matches!(plan_sync(true, false, true), SyncStep::MergeUnderLock));
    let r = sync_run_result("no_changes".to_string());
    assert_eq!(r.status, "no_changes");
    assert_eq!(r.synced_at, None);
    assert_eq!(r.message, "暂无需要同步的变化");
    let r = sync_run_result("2024-01-01 00:00:00".to_string());
    assert_eq!(r.status, "synced");
    assert_eq!(r.synced_at, Some("2024-01-01 00:00:00".to_string()));
    assert_eq!(r.message, "同步完成");
    assert!(webdav_configured(&settings(None)));
    let mut blank = settings(None);
    blank.webdav_url = "   ".to_string();
    assert!(!webdav_configured(&blank));
}

#[test]
fn download_conflicts() {
    let none = download_result(&settings(None), None, true);
    assert!(!none.has_remote && !none.has_conflict);
    let remote = data(vec![], vec![], vec![]);
    let first = download_result(&settings(None), Some(remote.clone()), true);
    assert!(first.has_remote && first.has_conflict);
    let older = download_result(&settings(Some("2024-06-01 00:00:00")), Some(remote.clone()), true);
    assert!(!older.has_conflict);
    assert_eq!(older.remote_updated_at, Some("2024-01-01 00:00:00".to_string()));
    assert_eq!(older.local_updated_at, Some("2024-06-01 00:00:00".to_string()));
    let newer = download_result(&settings(Some("2023-06-01 00:00:00")), Some(remote.clone()), true);
    assert!(newer.has_conflict);
    let clean = download_result(&settings(Some("2023-06-01 00:00:00")), Some(remote), false);
    assert!(!clean.has_conflict);
}

#[test]
fn recorded_sync_sees_same_remote_unchanged() {
    let mut t: Vec<SettingEntry> = Vec::new();
    mark_webdav_local_dirty(&mut t);
    let meta = RemoteMetadata { etag: None, last_modified: Some("Tue".to_string()), content_length: Some(42) };
    update_sync_state(&mut t, "2024-05-01 08:00:00", "webdav_manifest_fingerprint", &Some(meta.clone()));
    let stored = get_stored_remote_fingerprint(&t, "webdav_manifest_fingerprint");
    assert_eq!(stored, Some("|Tue|42".to_string()));
    assert!(!remote_fingerprint_changed(&stored, &Some(meta)));
    let other = RemoteMetadata { etag: None, last_modified: Some("Wed".to_string()), content_length: Some(42) };
    assert!(remote_fingerprint_changed(&stored, &Some(other)));
    assert!(!is_webdav_local_dirty(&t));
}

#[test]
fn current_time_is_in_database_form() {
    let t = now_db_time();
    assert_eq!(t.len(), 19);
    let b = t.as_bytes();
    assert_eq!((b[4], b[7], b[10], b[13], b[16]), (b'-', b'-', b' ', b':', b':'));
    assert!(spaced_datetime_seconds(&t).is_some());
}

#[test]
fn merged_snapshot_is_stamped_with_a_database_time() {
    let alone = merge_snapshots(data(vec![todo("a", "l", "t")], vec![], vec![]), None, "dev_me");
    assert!(spaced_datetime_seconds(&alone.updated_at).is_some());
    let both = merge_snapshots(data(vec![], vec![], vec![]), Some(data(vec![], vec![], vec![])), "dev_me");
    assert!(spaced_datetime_seconds(&both.updated_at).is_some());
}

#[test]
fn local_snapshot_stamps_records_and_sorts_images() {
    let mut t = todo("todo:x:1", "a", "2024-01-01 00:00:00");
    t.updated_by_device_id = String::new();
    t.revision = 0;
    let d = assemble_local_snapshot(
        &"dev_me".to_string(),
        "2024-02-02 00:00:00".to_string(),
        vec![t],
        vec![],
        vec![],
        vec![],
        vec!["b.png".to_string(), "a.png".to_string()],
    );
    assert_eq!(d.todos[0].updated_by_device_id, "dev_me");
    assert_eq!(d.todos[0].revision, 1);
    assert_eq!(d.todos[0].title, "a");
    assert_eq!(d.images, vec!["a.png".to_string(), "b.png".to_string()]);
    assert_eq!(d.updated_at, "2024-02-02 00:00:00");
    assert_eq!(d.version, "4.0");
}

#[test]
fn second_tombstone_pass_changes_nothing() {
    let mut d = data(
        vec![todo("t1", "kept", "2024-01-05 00:00:00"), todo("t2", "gone", "2024-01-01 00:00:00")],
        vec![tomb("todo", "t2", "2024-01-02 00:00:00"), tomb("subtask", "s3", "2024-01-03 00:00:00")],
        vec![],
    );
    d.subtasks = vec![
        subtask("s1", "t1", "2024-01-01 00:00:00"),
        subtask("s2", "t2", "2024-01-09 00:00:00"),
        subtask("s3", "t1", "2024-01-01 00:00:00"),
    ];
    d.reminders = vec![reminder("r1", "t2", "2024-01-01 00:00:00"), reminder("r2", "t1", "2024-01-01 00:00:00")];
    apply_tombstone_filters(&mut d);
    let ids = |d: &SyncData| {
        (
            d.todos.iter().map(|t| t.sync_id.clone()).collect::<Vec<_>>(),
            d.subtasks.iter().map(|t| t.sync_id.clone()).collect::<Vec<_>>(),
            d.reminders.iter().map(|t| t.sync_id.clone()).collect::<Vec<_>>(),
        )
    };
    let once = ids(&d);
    apply_tombstone_filters(&mut d);
    assert_eq!(ids(&d), once);
    assert_eq!(once, (vec!["t1".to_string()], vec!["s1".to_string()], vec!["r2".to_string()]));
}
