use mini_todo::models::{normalize_reminder_times, Todo, UpdateSubTaskRequest, UpdateTodoRequest};
use mini_todo::store::{entry, get_setting, SettingEntry};
use mini_todo::todos::{
    decode_image_data, ensure_row_sync_id, get_or_create_sync_device_id, import_reminder_times, import_reminder_times_checked,
    is_import_extension, legacy_reminder_time, legacy_reminder_time_checked, looks_like_zip,
    plan_subtask_imports, plan_subtask_update, plan_todo_update, record_removed_reminder_tombstones,
    reorder_todos, SqlValue,
};
use mini_todo::legacy::make_sync_id;

fn s(v: &str) -> String {
    v.to_string()
}

fn empty_update() -> UpdateTodoRequest {
    UpdateTodoRequest {
        title: None,
        description: None,
        color: None,
        quadrant: None,
        reminder_times: None,
        completed: None,
        sort_order: None,
        clear_reminder_times: false,
        start_time: None,
        end_time: None,
        clear_start_time: false,
        clear_end_time: false,
    }
}

fn todo_with(times: Vec<&str>, legacy: Option<&str>, before: Option<i32>) -> Todo {
    Todo {
        id: 1,
        title: s("t"),
        description: None,
        color: s("#EF4444"),
        quadrant: 4,
        completed: false,
        sort_order: 0,
        start_time: None,
        end_time: None,
        reminder_times: times.into_iter().map(s).collect(),
        legacy_notify_at: legacy.map(s),
        legacy_notify_before: before,
        legacy_notified: false,
        created_at: s("2024-01-01 00:00:00"),
        updated_at: s("2024-01-01 00:00:00"),
        subtasks: Vec::new(),
    }
}

#[test]
fn reminder_times_are_trimmed_deduplicated_and_kept_in_order() {
    let input = vec![s(" 2024-01-01T09:00:00 "), s(""), s("2024-01-01T08:00:00"), s("2024-01-01T09:00:00"), s("   ")];
    let once = normalize_reminder_times(&input);
    assert_eq!(once, vec![s("2024-01-01T09:00:00"), s("2024-01-01T08:00:00")]);
    assert_eq!(normalize_reminder_times(&once), once);
    assert!(normalize_reminder_times(&[]).is_empty());
}

#[test]
fn todo_update_lists_each_given_field() {
    let mut d = empty_update();
    d.title = Some(s("new"));
    d.quadrant = Some(2);
    d.completed = Some(true);
    d.start_time = Some(s("2024-01-01T09:00:00"));
    d.clear_end_time = true;
    d.end_time = Some(s("ignored"));
    let p = plan_todo_update(&d).unwrap();
    assert_eq!(
        p.assignments,
        vec![
            s("title = ?"),
            s("quadrant = ?"),
            s("completed = ?"),
            s("start_time = ?"),
            s("end_time = NULL"),
            s("updated_at = datetime('now', 'localtime')")
        ]
    );
    assert_eq!(p.params.len(), 4);
    assert!(matches!(&p.params[0], SqlValue::Text(t) if t == "new"));
    assert!(matches!(&p.params[1], SqlValue::Int(2)));
    assert!(matches!(&p.params[2], SqlValue::Int(1)));
    assert!(matches!(&p.params[3], SqlValue::Text(t) if t == "2024-01-01T09:00:00"));
    assert!(p.reminder_times.is_none());
}

#[test]
fn empty_todo_update_is_refused() {
    let e = plan_todo_update(&empty_update()).err().unwrap();
    assert_eq!(e, "Invalid parameter name: No fields to update");
}

#[test]
fn reminder_only_update_is_accepted() {
    let mut d = empty_update();
    d.reminder_times = Some(vec![s("a")]);
    let p = plan_todo_update(&d).unwrap();
    assert_eq!(p.assignments, vec![s("updated_at = datetime('now', 'localtime')")]);
    assert_eq!(p.reminder_times, Some(vec![s("a")]));
    let mut c = empty_update();
    c.reminder_times = Some(vec![s("a")]);
    c.clear_reminder_times = true;
    assert_eq!(plan_todo_update(&c).unwrap().reminder_times, Some(Vec::new()));
}

#[test]
fn subtask_updates() {
    let none = UpdateSubTaskRequest { title: None, content: None, completed: None, sort_order: None };
    assert_eq!(plan_subtask_update(&none).err().unwrap(), "Invalid parameter name: No fields to update");
    let d = UpdateSubTaskRequest { title: None, content: Some(s("c")), completed: Some(false), sort_order: Some(7) };
    let p = plan_subtask_update(&d).unwrap();
    assert_eq!(
        p.assignments,
        vec![s("content = ?"), s("completed = ?"), s("sort_order = ?"), s("updated_at = datetime('now', 'localtime')")]
    );
    assert!(matches!(&p.params[1], SqlValue::Int(0)));
    assert!(matches!(&p.params[2], SqlValue::Int(7)));
}

#[test]
fn reorder_uses_positions() {
    assert_eq!(reorder_todos(&vec![30, 10, 20]), vec![(0, 30), (1, 10), (2, 20)]);
    assert!(reorder_todos(&vec![]).is_empty());
}

#[test]
fn removed_reminders_get_tombstones() {
    let existing = vec![(1, s("2024-01-01T09:00:00")), (2, s("2024-01-02T09:00:00")), (3, s("x"))];
    let next = vec![s(" 2024-01-02T09:00:00 ")];
    assert_eq!(record_removed_reminder_tombstones(&existing, &next), vec![1, 3]);
}

#[test]
fn device_id_is_created_once() {
    let mut t: Vec<SettingEntry> = vec![entry("webdav_device_id", "   ")];
    let d = get_or_create_sync_device_id(&mut t);
    assert!(d.starts_with("dev_"));
    assert_eq!(get_setting(&t, "webdav_device_id"), Some(d.clone()));
    let again = get_or_create_sync_device_id(&mut t);
    assert_eq!(again, d);
    assert_eq!(make_sync_id("todo", &d, 7), format!("todo:{}:7", d));
}

#[test]
fn legacy_reminder_moves_back() {
    assert_eq!(legacy_reminder_time("2024-01-01T10:00:00", Some(30)), "2024-01-01T09:30:00");
    assert_eq!(legacy_reminder_time("2024-01-01 00:10:00", Some(15)), "2023-12-31T23:55:00");
    assert_eq!(legacy_reminder_time("2024-01-01T10:00:00", None), "2024-01-01T10:00:00");
    assert_eq!(legacy_reminder_time("2024-01-01T10:00:00", Some(-5)), "2024-01-01T10:00:00");
    assert_eq!(legacy_reminder_time("tomorrow", Some(10)), "tomorrow");
    assert_eq!(legacy_reminder_time_checked("2024-01-01T10:00:00", Some(30)), Some(s("2024-01-01T09:30:00")));
}

#[test]
fn imported_reminder_times() {
    assert_eq!(import_reminder_times(&todo_with(vec![" a ", "a"], Some("2024-01-01T10:00:00"), Some(5))), vec![s("a")]);
    assert_eq!(
        import_reminder_times(&todo_with(vec![" "], Some("2024-01-01T10:00:00"), Some(5))),
        vec![s("2024-01-01T09:55:00")]
    );
    assert!(import_reminder_times(&todo_with(vec![], None, None)).is_empty());
    assert_eq!(import_reminder_times_checked(&todo_with(vec![], None, None)), Some(Vec::new()));
}

#[test]
fn image_data_decoding() {
    assert_eq!(decode_image_data("data:image/png;base64,aGk=").unwrap(), b"hi".to_vec());
    assert_eq!(decode_image_data("aGk=").unwrap(), b"hi".to_vec());
    assert!(decode_image_data("data:x,@@@").is_err());
}

#[test]
fn import_extensions() {
    assert!(is_import_extension("md"));
    assert!(is_import_extension("TXT"));
    assert!(is_import_extension("Md"));
    assert!(!is_import_extension("pdf"));
    assert!(!is_import_extension(""));
}

#[test]
fn subtask_import_plan() {
    assert_eq!(plan_subtask_imports(&vec![], 3).err().unwrap(), "未找到 .md 或 .txt 文件");
    let p = plan_subtask_imports(&vec![Some(s("a")), Some(s("")), None], 3).unwrap();
    assert_eq!(p.len(), 2);
    assert_eq!((p[0].file_index, p[0].title.as_str(), p[0].sort_order), (0, "a", 4));
    assert_eq!((p[1].file_index, p[1].title.as_str(), p[1].sort_order), (2, "untitled", 5));
}

#[test]
fn zip_detection() {
    assert!(looks_like_zip(b"PK\x03\x04"));
    assert!(!looks_like_zip(b"P"));
    assert!(!looks_like_zip(b"{}"));
}

#[test]
fn row_sync_id_kept_or_made() {
    let mut t: Vec<SettingEntry> = vec![entry("webdav_device_id", "dev_42")];
    assert_eq!(ensure_row_sync_id(&mut t, Some(s("todo:x:1")), "todo", 9), (s("todo:x:1"), false));
    assert_eq!(ensure_row_sync_id(&mut t, Some(s("  ")), "subtask", 9), (s("subtask:dev_42:9"), true));
    assert_eq!(ensure_row_sync_id(&mut t, None, "reminder", -3), (s("reminder:dev_42:-3"), true));
    assert_eq!(t.len(), 1);
    let mut empty: Vec<SettingEntry> = Vec::new();
    let (id, fresh) = ensure_row_sync_id(&mut empty, None, "todo", 5);
    assert!(fresh);
    let d = get_setting(&empty, "webdav_device_id").unwrap();
    assert!(d.starts_with("dev_"));
    assert_eq!(id, format!("todo:{}:5", d));
}

#[test]
fn export_and_import_files() {
    let json = "{\"version\":\"3.0\",\"todos\":[],\"标题\":\"买菜\"}";
    let zip = mini_todo::todos::export_file_bytes(json).unwrap();
    assert_eq!(&zip[..2], b"PK");
    assert_eq!(mini_todo::todos::import_file_text(&zip), Ok(json.to_string()));
    assert_eq!(mini_todo::todos::import_file_text(json.as_bytes()), Ok(json.to_string()));
    let bad = mini_todo::todos::import_file_text(&[0x7b, 0xff, 0x7d]).unwrap_err();
    assert!(bad.starts_with("文件编码错误: "));
    let broken = mini_todo::todos::import_file_text(b"PK not really a zip").unwrap_err();
    assert!(broken.starts_with("解析 ZIP 失败: "));
}
