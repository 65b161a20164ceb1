use mini_todo::models::{WindowPosition, WindowSize};
use mini_todo::screen::{
    foreground_is_fullscreen, is_desktop_or_shell_window, is_window_usable_on_screen, rect_covers_monitor,
    ForegroundInfo, MonitorArea, Rect,
};
use mini_todo::tray::{is_cursor_in_upper_half, tray_event_from_lparam, wide, write_tip};
use mini_todo::cmdpath::get_merged_path;

fn rect(left: i32, top: i32, right: i32, bottom: i32) -> Rect {
    Rect { left, top, right, bottom }
}

#[test]
fn wide_strings_end_with_nul() {
    assert_eq!(wide("ab"), vec![0x61, 0x62, 0]);
    assert_eq!(wide(""), vec![0]);
    assert_eq!(wide("待办"), vec![0x5F85, 0x529E, 0]);
    assert_eq!(wide("😀"), vec![0xD83D, 0xDE00, 0]);
    assert_eq!(wide("a😀"), "a😀".encode_utf16().chain(std::iter::once(0)).collect::<Vec<u16>>());
}

#[test]
fn tooltip_keeps_last_unit() {
    let mut buf = [7u16; 4];
    write_tip(&mut buf, "abcdef");
    assert_eq!(buf, [0x61, 0x62, 0x63, 7]);
    let mut buf2 = [7u16; 6];
    write_tip(&mut buf2, "ab");
    assert_eq!(buf2, [0x61, 0x62, 0, 7, 7, 7]);
    let mut none: [u16; 0] = [];
    write_tip(&mut none, "x");
}

#[test]
fn tray_events() {
    assert_eq!(tray_event_from_lparam(0x0205), 0x0205);
    assert_eq!(tray_event_from_lparam(0x0001_007B), 0x007B);
    assert_eq!(tray_event_from_lparam(0x0001_0202), 0x0001_0202);
    assert_eq!(tray_event_from_lparam(0x0202), 0x0202);
}

#[test]
fn covering_a_monitor() {
    let m = rect(0, 0, 1920, 1080);
    assert!(rect_covers_monitor(rect(-2, 1, 1918, 1080), m));
    assert!(!rect_covers_monitor(rect(3, 0, 1920, 1080), m));
    assert!(!rect_covers_monitor(rect(0, 0, 1917, 1080), m));
}

#[test]
fn shell_windows() {
    for c in ["Progman", "WorkerW", "Shell_TrayWnd", "Shell_SecondaryTrayWnd"] {
        assert!(is_desktop_or_shell_window(c));
    }
    assert!(!is_desktop_or_shell_window("Chrome_WidgetWin_1"));
}

fn fg(style: u32, r: Option<Rect>) -> ForegroundInfo {
    ForegroundInfo {
        is_null: false,
        is_bubble: false,
        is_shell: false,
        class_name: "Game".to_string(),
        visible: true,
        style,
        rect: r,
        monitor: Some(rect(0, 0, 1920, 1080)),
    }
}

#[test]
fn fullscreen_foreground() {
    assert!(foreground_is_fullscreen(&fg(0, Some(rect(0, 0, 1920, 1080)))));
    assert!(!foreground_is_fullscreen(&fg(0x00C0_0000 | 0x0004_0000, Some(rect(0, 0, 1920, 1080)))));
    assert!(foreground_is_fullscreen(&fg(0x00C0_0000, Some(rect(0, 0, 1920, 1080)))));
    assert!(!foreground_is_fullscreen(&fg(0, Some(rect(100, 100, 800, 600)))));
    assert!(!foreground_is_fullscreen(&fg(0, None)));
    let mut shell = fg(0, Some(rect(0, 0, 1920, 1080)));
    shell.class_name = "WorkerW".to_string();
    assert!(!foreground_is_fullscreen(&shell));
    let mut hidden = fg(0, Some(rect(0, 0, 1920, 1080)));
    hidden.visible = false;
    assert!(!foreground_is_fullscreen(&hidden));
}

#[test]
fn window_usable_on_screen() {
    let monitors = vec![MonitorArea { x: 0, y: 0, width: 1920, height: 1080 }];
    let size = WindowSize { width: 380, height: 600 };
    assert!(is_window_usable_on_screen(&WindowPosition { x: 100, y: 100 }, &size, &monitors));
    assert!(!is_window_usable_on_screen(&WindowPosition { x: 3000, y: 100 }, &size, &monitors));
    assert!(!is_window_usable_on_screen(&WindowPosition { x: -380, y: 0 }, &size, &monitors));
    assert!(!is_window_usable_on_screen(&WindowPosition { x: 0, y: 0 }, &WindowSize { width: 300, height: 600 }, &monitors));
    assert!(is_window_usable_on_screen(&WindowPosition { x: 5000, y: 5000 }, &size, &vec![]));
}

#[test]
fn cursor_half_of_monitor_or_screen() {
    assert!(is_cursor_in_upper_half(100, Some((0, 1080)), 0));
    assert!(!is_cursor_in_upper_half(540, Some((0, 1080)), 0));
    assert!(is_cursor_in_upper_half(-700, Some((-1080, 0)), 0));
    assert!(!is_cursor_in_upper_half(-540, Some((-1080, 0)), 0));
    assert!(is_cursor_in_upper_half(1, Some((0, 5)), 0));
    assert!(!is_cursor_in_upper_half(2, Some((0, 5)), 0));
    assert!(is_cursor_in_upper_half(7, Some((10, 5)), 0));
    assert!(!is_cursor_in_upper_half(8, Some((10, 5)), 0));
    assert!(is_cursor_in_upper_half(100, None, 1080));
    assert!(!is_cursor_in_upper_half(540, None, 1080));
    assert!(!is_cursor_in_upper_half(-5, None, 0));
}

#[test]
fn search_path_merges_registry_after_process() {
    assert_eq!(get_merged_path("C:\\a", Some("C:\\b".to_string())), "C:\\a;C:\\b");
    assert_eq!(get_merged_path("", Some("C:\\b".to_string())), "C:\\b");
    assert_eq!(get_merged_path("C:\\a", Some(String::new())), "C:\\a");
    assert_eq!(get_merged_path("C:\\a", None), "C:\\a");
    assert_eq!(get_merged_path("", None), "");
}
