//! Window placement decisions: whether a window can be seen on some
//! monitor, whether the foreground window is a full-screen one, and the
//! window settings kept in the settings table.
use crate::models::{WindowPosition, WindowSize};
use crate::store::{bool_str, bool_text, lookup, read_bool, set_setting, stored_bool, table_view, SettingEntry};
use crate::text::str_eq;
use vstd::prelude::*;

verus! {

broadcast use vstd::string::group_string_axioms;

/// The position and size of the main window, as saved between runs.
#[derive(Clone, Debug)]
pub struct WindowPersistState {
    pub position: WindowPosition,
    pub size: WindowSize,
}

/// A screen rectangle in physical pixels.
#[derive(Clone, Copy, Debug)]
pub struct Rect {
    pub left: i32,
    pub top: i32,
    pub right: i32,
    pub bottom: i32,
}

/// A rectangle covers a monitor when each of its edges is at most two
/// pixels inside the monitor's.
pub open spec fn covers(rect: Rect, monitor: Rect) -> bool {
    &&& rect.left <= monitor.left + 2
    &&& rect.top <= monitor.top + 2
    &&& rect.right >= monitor.right - 2
    &&& rect.bottom >= monitor.bottom - 2
}

/// Whether `rect` covers `monitor`, with two pixels of tolerance.
pub fn rect_covers_monitor(rect: Rect, monitor: Rect) -> (b: bool)
    ensures
        b == covers(rect, monitor),
{
    (rect.left as i64) <= (monitor.left as i64) + 2 && (rect.top as i64) <= (monitor.top as i64) + 2
        && (rect.right as i64) >= (monitor.right as i64) - 2 && (rect.bottom as i64) >= (
    monitor.bottom as i64) - 2
}

/// The window classes of the desktop and the taskbars.
pub open spec fn is_shell_class(name: Seq<char>) -> bool {
    name == "Progman"@ || name == "WorkerW"@ || name == "Shell_TrayWnd"@ || name
        == "Shell_SecondaryTrayWnd"@
}

/// Whether a window class is the desktop's or a taskbar's.
pub fn is_desktop_or_shell_window(class_name: &str) -> (b: bool)
    ensures
        b == is_shell_class(class_name@),
{
    str_eq(class_name, "Progman") || str_eq(class_name, "WorkerW") || str_eq(
        class_name,
        "Shell_TrayWnd",
    ) || str_eq(class_name, "Shell_SecondaryTrayWnd")
}

/// What Windows reports of the foreground window.
#[derive(Clone, Debug)]
pub struct ForegroundInfo {
    /// There is no foreground window.
    pub is_null: bool,
    /// It is the floating bubble itself.
    pub is_bubble: bool,
    /// It is the shell window.
    pub is_shell: bool,
    pub class_name: String,
    pub visible: bool,
    /// Its window style bits.
    pub style: u32,
    /// Its rectangle, when it could be read.
    pub rect: Option<Rect>,
    /// The rectangle of its monitor, when it could be read.
    pub monitor: Option<Rect>,
}

/// The style of a regular window: a caption and a sizing frame.
pub open spec fn regular_style(style: u32) -> bool {
    (style & 0x00C0_0000u32) != 0 && (style & 0x0004_0000u32) != 0
}

/// A foreground window is full screen when it is a visible window other
/// than the bubble, the shell, the desktop or a taskbar, covers its
/// monitor, and is not a regular captioned, resizable window.
pub open spec fn is_fullscreen(f: ForegroundInfo) -> bool {
    &&& !f.is_null
    &&& !f.is_bubble
    &&& !f.is_shell
    &&& !is_shell_class(f.class_name@)
    &&& f.visible
    &&& f.rect is Some
    &&& f.monitor is Some
    &&& covers(f.rect->0, f.monitor->0)
    &&& !regular_style(f.style)
}

/// Whether the foreground window is a full-screen one, over which the
/// floating bubble steps back.
pub fn foreground_is_fullscreen(f: &ForegroundInfo) -> (b: bool)
    ensures
        b == is_fullscreen(*f),
{
    if f.is_null || f.is_bubble || f.is_shell {
        return false;
    }
    if is_desktop_or_shell_window(f.class_name.as_str()) {
        return false;
    }
    if !f.visible {
        return false;
    }
    let looks_like_regular_window = (f.style & 0x00C0_0000u32) != 0 && (f.style & 0x0004_0000u32) != 0;
    match (f.rect, f.monitor) {
        (Some(rect), Some(monitor)) => rect_covers_monitor(rect, monitor) && !looks_like_regular_window,
        _ => false,
    }
}

/// A monitor's position and size in physical pixels.
#[derive(Clone, Copy, Debug)]
pub struct MonitorArea {
    pub x: i32,
    pub y: i32,
    pub width: u32,
    pub height: u32,
}

/// The far edge `start + length`.
pub open spec fn far_edge(start: i32, length: u32) -> int {
    start + length
}

/// A length that reads the same as an `i32`, and a far edge that fits one.
pub open spec fn span_fits(start: i32, length: u32) -> bool {
    length <= i32::MAX && far_edge(start, length) <= i32::MAX
}

/// The far edges of the window and of every monitor fit in an `i32`.
pub open spec fn edges_fit(position: WindowPosition, size: WindowSize, monitors: Seq<MonitorArea>) -> bool {
    &&& span_fits(position.x, size.width)
    &&& span_fits(position.y, size.height)
    &&& forall|i: int|
        0 <= i < monitors.len() ==> span_fits(#[trigger] monitors[i].x, monitors[i].width) && span_fits(
            monitors[i].y,
            monitors[i].height,
        )
}

/// The window overlaps the monitor.
pub open spec fn overlaps(position: WindowPosition, size: WindowSize, m: MonitorArea) -> bool {
    &&& far_edge(position.x, size.width) > m.x
    &&& position.x < far_edge(m.x, m.width)
    &&& far_edge(position.y, size.height) > m.y
    &&& position.y < far_edge(m.y, m.height)
}

/// A window is usable when it is at least 320 by 400 pixels and, if any
/// monitor is known, overlaps one of them.
pub open spec fn usable_on_screen(position: WindowPosition, size: WindowSize, monitors: Seq<MonitorArea>) -> bool {
    &&& size.width >= 320
    &&& size.height >= 400
    &&& (monitors.len() == 0 || exists|i: int| 0 <= i < monitors.len() && overlaps(position, size, #[trigger] monitors[i]))
}

/// Whether the main window can be used where it stands.
pub fn is_window_usable_on_screen(position: &WindowPosition, size: &WindowSize, monitors: &Vec<MonitorArea>) -> (b: bool)
    requires
        edges_fit(*position, *size, monitors@),
    ensures
        b == usable_on_screen(*position, *size, monitors@),
{
    if size.width < 320 || size.height < 400 {
        return false;
    }
    if monitors.len() == 0 {
        return true;
    }
    let left = position.x;
    let top = position.y;
    let right = position.x + size.width as i32;
    let bottom = position.y + size.height as i32;
    let mut i: usize = 0;
    while i < monitors.len()
        invariant
            i <= monitors@.len(),
            edges_fit(*position, *size, monitors@),
            size.width >= 320,
            size.height >= 400,
            monitors@.len() > 0,
            right == far_edge(position.x, size.width),
            bottom == far_edge(position.y, size.height),
            left == position.x,
            top == position.y,
            forall|k: int| 0 <= k < i ==> !overlaps(*position, *size, #[trigger] monitors@[k]),
        decreases monitors@.len() - i,
    {
        let m = monitors[i];
        assert(m == monitors@[i as int]);
        let monitor_left = m.x;
        let monitor_top = m.y;
        let monitor_right = monitor_left + m.width as i32;
        let monitor_bottom = monitor_top + m.height as i32;
        if right > monitor_left && left < monitor_right && bottom > monitor_top && top < monitor_bottom {
            assert(overlaps(*position, *size, monitors@[i as int]));
            return true;
        }
        i = i + 1;
    }
    false
}

/// Whether the window hides itself at the screen edge; on when not set.
pub fn get_auto_hide_enabled_value(table: &Vec<SettingEntry>) -> (b: bool)
    ensures
        b == stored_bool(lookup(table_view(table@), "auto_hide_enabled"@), true),
{
    read_bool(table, "auto_hide_enabled", true)
}

/// Whether the calendar is shown; off when not set.
pub fn get_show_calendar(table: &Vec<SettingEntry>) -> (b: bool)
    ensures
        b == stored_bool(lookup(table_view(table@), "show_calendar"@), false),
{
    read_bool(table, "show_calendar", false)
}

/// Stores whether the window hides itself at the screen edge.
pub fn set_auto_hide_enabled(table: &mut Vec<SettingEntry>, enabled: bool)
    ensures
        table_view(final(table)@) == table_view(old(table)@).push(("auto_hide_enabled"@, bool_text(enabled))),
{
    set_setting(table, "auto_hide_enabled", bool_str(enabled));
}

/// Stores whether the calendar is shown.
pub fn set_show_calendar(table: &mut Vec<SettingEntry>, show: bool)
    ensures
        table_view(final(table)@) == table_view(old(table)@).push(("show_calendar"@, bool_text(show))),
{
    set_setting(table, "show_calendar", bool_str(show));
}

/// The window switches read back what was last stored.
pub proof fn lemma_window_switches_write_then_read(t: Seq<(Seq<char>, Seq<char>)>, enabled: bool, show: bool)
    ensures
        stored_bool(lookup(t.push(("auto_hide_enabled"@, bool_text(enabled))), "auto_hide_enabled"@), true)
            == enabled,
        stored_bool(lookup(t.push(("show_calendar"@, bool_text(show))), "show_calendar"@), false) == show,
{
    crate::store::lemma_bool_text_reads_back(enabled);
    crate::store::lemma_bool_text_reads_back(show);
}

} // verus!
