use mini_todo::aisettings::{
    ai_endpoint, get_app_notification_position, get_notification_type, normalize_ai_settings,
    normalize_app_notification_position, normalize_notification_type, normalize_reasoning_effort,
    read_ai_settings, save_ai_settings, set_app_notification_position, set_notification_type,
    AiSettings,
};
use mini_todo::models::{
    default_app_notification_position, default_auto_hide_enabled, default_notification_type,
    default_quadrant, default_text_theme, default_view_mode, read_app_settings, save_settings, write_app_settings,
    AppSettings, WindowPosition, WindowSize,
};
use mini_todo::screen::{get_auto_hide_enabled_value, get_show_calendar, set_auto_hide_enabled, set_show_calendar};
use mini_todo::store::{entry, get_setting, read_bool, read_string, set_setting, SettingEntry};
use mini_todo::syncflow::{
    default_sync_mode, normalize_sync_interval, read_sync_settings, save_sync_settings,
};
use mini_todo::sync::SyncSettings;

fn table(rows: &[(&str, &str)]) -> Vec<SettingEntry> {
    rows.iter().map(|(k, v)| entry(k, v)).collect()
}

#[test]
fn latest_write_of_a_key_wins() {
    let mut t = table(&[("a", "1"), ("b", "2")]);
    set_setting(&mut t, "a", "3");
    assert_eq!(get_setting(&t, "a"), Some("3".to_string()));
    assert_eq!(get_setting(&t, "b"), Some("2".to_string()));
    assert_eq!(get_setting(&t, "c"), None);
    assert_eq!(read_string(&t, "c", "dflt"), "dflt");
    assert!(!read_bool(&t, "a", true));
    assert!(read_bool(&t, "missing", true));
}

#[test]
fn defaults_of_app_settings() {
    assert_eq!(default_quadrant(), 4);
    assert_eq!(default_text_theme(), "dark");
    assert!(default_auto_hide_enabled());
    assert_eq!(default_view_mode(), "quadrant");
    assert_eq!(default_notification_type(), "system");
    assert_eq!(default_app_notification_position(), "bottom_right");
}

#[test]
fn app_settings_read_from_empty_table_are_defaults() {
    let t: Vec<SettingEntry> = Vec::new();
    let s = read_app_settings(&t, None, None);
    assert!(!s.is_fixed);
    assert!(s.auto_hide_enabled);
    assert_eq!(s.text_theme, "dark");
    assert!(!s.show_calendar);
    assert_eq!(s.view_mode, "quadrant");
    assert_eq!(s.notification_type, "system");
    assert_eq!(s.app_notification_position, "bottom_right");
}

#[test]
fn app_settings_written_then_read_back() {
    let s = AppSettings {
        is_fixed: true,
        window_position: Some(WindowPosition { x: 10, y: 20 }),
        window_size: Some(WindowSize { width: 380, height: 600 }),
        auto_hide_enabled: false,
        text_theme: "light".to_string(),
        show_calendar: true,
        view_mode: "list".to_string(),
        notification_type: "app".to_string(),
        app_notification_position: "top_left".to_string(),
    };
    let mut t = table(&[("text_theme", "dark"), ("view_mode", "quadrant")]);
    write_app_settings(&mut t, &s);
    let r = read_app_settings(&t, None, None);
    assert_eq!(r.is_fixed, true);
    assert_eq!(r.auto_hide_enabled, false);
    assert_eq!(r.text_theme, "light");
    assert_eq!(r.show_calendar, true);
    assert_eq!(r.view_mode, "list");
    assert_eq!(r.notification_type, "app");
    assert_eq!(r.app_notification_position, "top_left");
    assert!(get_show_calendar(&t));
    assert!(!get_auto_hide_enabled_value(&t));
}

#[test]
fn window_settings_default_when_unset() {
    let t: Vec<SettingEntry> = Vec::new();
    assert!(get_auto_hide_enabled_value(&t));
    assert!(!get_show_calendar(&t));
    let t2 = table(&[("show_calendar", "yes")]);
    assert!(!get_show_calendar(&t2));
}

#[test]
fn notification_settings_are_normalized() {
    assert_eq!(normalize_app_notification_position("top_right"), "top_right");
    assert_eq!(normalize_app_notification_position("middle"), "bottom_right");
    assert_eq!(normalize_notification_type("app"), "app");
    assert_eq!(normalize_notification_type("popup"), "system");
    let t = table(&[("app_notification_position", "nowhere"), ("notification_type", "app")]);
    assert_eq!(get_app_notification_position(&t), "bottom_right");
    assert_eq!(get_notification_type(&t), "app");
    let empty: Vec<SettingEntry> = Vec::new();
    assert_eq!(get_notification_type(&empty), "system");
}

#[test]
fn sync_interval_is_kept_only_when_offered() {
    for v in [1, 2, 5, 10, 15, 30, 90] {
        assert_eq!(normalize_sync_interval(v), v);
    }
    assert_eq!(normalize_sync_interval(7), 15);
    assert_eq!(normalize_sync_interval(-1), 15);
    assert_eq!(default_sync_mode(), "incremental");
}

#[test]
fn sync_settings_saved_then_read_back() {
    let s = SyncSettings {
        webdav_url: "https://dav.example.com".to_string(),
        webdav_username: "me".to_string(),
        webdav_password: "SECRET-REDACTED".to_string(),
        auto_sync: true,
        sync_interval: 30,
        sync_mode: "archive".to_string(),
        startup_sync: true,
        last_sync_at: Some("2024-05-01 08:00:00".to_string()),
        device_id: "dev_42".to_string(),
    };
    let mut t: Vec<SettingEntry> = Vec::new();
    save_sync_settings(&mut t, &s);
    let r = read_sync_settings(&mut t);
    assert_eq!(r.webdav_url, s.webdav_url);
    assert_eq!(r.webdav_username, "me");
    assert_eq!(r.webdav_password, "SECRET-REDACTED");
    assert!(r.auto_sync);
    assert_eq!(r.sync_interval, 30);
    assert_eq!(r.sync_mode, "archive");
    assert!(r.startup_sync);
    assert_eq!(r.last_sync_at, Some("2024-05-01 08:00:00".to_string()));
    assert_eq!(r.device_id, "dev_42");
}

#[test]
fn sync_settings_read_from_empty_table_make_a_device_id() {
    let mut t: Vec<SettingEntry> = Vec::new();
    let r = read_sync_settings(&mut t);
    assert_eq!(r.webdav_url, "");
    assert!(!r.auto_sync);
    assert_eq!(r.sync_interval, 15);
    assert_eq!(r.sync_mode, "incremental");
    assert!(r.device_id.starts_with("dev_"));
    assert_eq!(get_setting(&t, "webdav_device_id"), Some(r.device_id.clone()));
    let again = read_sync_settings(&mut t);
    assert_eq!(again.device_id, r.device_id);
}

#[test]
fn odd_interval_and_mode_fall_back() {
    let mut t = table(&[
        ("webdav_sync_interval", "abc"),
        ("webdav_sync_mode", "weird"),
        ("webdav_device_id", "dev_1"),
    ]);
    let r = read_sync_settings(&mut t);
    assert_eq!(r.sync_interval, 15);
    assert_eq!(r.sync_mode, "incremental");
}

#[test]
fn reasoning_effort_is_high_or_max() {
    assert_eq!(normalize_reasoning_effort(" max "), "max");
    assert_eq!(normalize_reasoning_effort("low"), "high");
}

#[test]
fn ai_settings_are_normalized() {
    let s = AiSettings {
        base_url: "  https://api.example.com/v1// ".to_string(),
        api_key: " sk ".to_string(),
        model: "   ".to_string(),
        thinking_enabled: true,
        reasoning_effort: "MAX".to_string(),
    };
    let n = normalize_ai_settings(s);
    assert_eq!(n.base_url, "https://api.example.com/v1");
    assert_eq!(n.api_key, "sk");
    assert_eq!(n.model, "deepseek-v4-pro");
    assert!(n.thinking_enabled);
    assert_eq!(n.reasoning_effort, "high");
    let blank = AiSettings {
        base_url: "".to_string(),
        api_key: "".to_string(),
        model: "m".to_string(),
        thinking_enabled: false,
        reasoning_effort: "max".to_string(),
    };
    assert_eq!(normalize_ai_settings(blank).base_url, "https://api.deepseek.com");
}

#[test]
fn ai_settings_saved_then_read_back() {
    let s = AiSettings {
        base_url: "https://api.example.com/".to_string(),
        api_key: "key".to_string(),
        model: "gpt".to_string(),
        thinking_enabled: true,
        reasoning_effort: "max".to_string(),
    };
    let mut t: Vec<SettingEntry> = Vec::new();
    save_ai_settings(&mut t, s);
    let r = read_ai_settings(&t);
    assert_eq!(r.base_url, "https://api.example.com");
    assert_eq!(r.api_key, "key");
    assert_eq!(r.model, "gpt");
    assert!(r.thinking_enabled);
    assert_eq!(r.reasoning_effort, "max");
}

#[test]
fn ai_settings_defaults() {
    let t = table(&[("ai_model", "  ")]);
    let r = read_ai_settings(&t);
    assert_eq!(r.base_url, "https://api.deepseek.com");
    assert_eq!(r.model, "deepseek-v4-pro");
    assert_eq!(r.api_key, "");
    assert!(!r.thinking_enabled);
    assert_eq!(r.reasoning_effort, "high");
}

#[test]
fn endpoint_joins_with_one_slash() {
    assert_eq!(ai_endpoint("https://a.b/v1/", "/chat/completions"), "https://a.b/v1/chat/completions");
    assert_eq!(ai_endpoint("https://a.b", "models"), "https://a.b/models");
}

#[test]
fn saving_window_settings_writes_three_rows() {
    let s = AppSettings {
        is_fixed: false,
        window_position: None,
        window_size: None,
        auto_hide_enabled: true,
        text_theme: "dark".to_string(),
        show_calendar: true,
        view_mode: "list".to_string(),
        notification_type: "app".to_string(),
        app_notification_position: "top_left".to_string(),
    };
    let mut t = table(&[("view_mode", "list")]);
    save_settings(&mut t, &s);
    let rows: Vec<(String, String)> = t.into_iter().map(|e| (e.key, e.value)).collect();
    assert_eq!(
        rows,
        vec![
            ("view_mode".to_string(), "list".to_string()),
            ("is_fixed".to_string(), "false".to_string()),
            ("auto_hide_enabled".to_string(), "true".to_string()),
            ("text_theme".to_string(), "dark".to_string()),
        ]
    );
}

#[test]
fn notification_settings_read_back_normalized() {
    let mut t = table(&[("notification_type", "app")]);
    set_notification_type(&mut t, "popup");
    assert_eq!(get_notification_type(&t), "system");
    set_notification_type(&mut t, "app");
    assert_eq!(get_notification_type(&t), "app");
    set_app_notification_position(&mut t, "top_left");
    assert_eq!(get_app_notification_position(&t), "top_left");
    set_app_notification_position(&mut t, "center");
    assert_eq!(get_app_notification_position(&t), "bottom_right");
    assert_eq!(get_setting(&t, "app_notification_position"), Some("bottom_right".to_string()));
}

#[test]
fn window_switches_read_back() {
    let mut t: Vec<SettingEntry> = Vec::new();
    set_auto_hide_enabled(&mut t, false);
    set_show_calendar(&mut t, true);
    assert!(!get_auto_hide_enabled_value(&t));
    assert!(get_show_calendar(&t));
    set_auto_hide_enabled(&mut t, true);
    set_show_calendar(&mut t, false);
    assert!(get_auto_hide_enabled_value(&t));
    assert!(!get_show_calendar(&t));
    assert_eq!(get_setting(&t, "show_calendar"), Some("false".to_string()));
}
