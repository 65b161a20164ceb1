//! The records the application stores and exchanges: to-dos, subtasks,
//! requests, window and screen settings, and the reminder-time rules.
use crate::store::{
    bool_str, bool_text, entry, lemma_lookup_append, lemma_lookup_distinct_keys, lookup, read_bool, read_string, stored_bool, table_view,
    SettingEntry,
};
use crate::text::{lemma_trim_idempotent, owned, strs, trim, trim_seq};
use vstd::prelude::*;

verus! {

/// A to-do item with its reminders and subtasks.
#[derive(Clone, Debug)]
pub struct Todo {
    pub id: i64,
    pub title: String,
    pub description: Option<String>,
    /// Colour in hex form, such as `#EF4444`.
    pub color: String,
    /// Quadrant: 1 important and urgent, 2 important, 3 urgent, 4 neither.
    pub quadrant: i32,
    pub completed: bool,
    pub sort_order: i32,
    /// Start time; when empty the creation time stands for it.
    pub start_time: Option<String>,
    /// Deadline, if any.
    pub end_time: Option<String>,
    pub reminder_times: Vec<String>,
    /// A single reminder time written by old exports (`notifyAt`).
    pub legacy_notify_at: Option<String>,
    /// Minutes before `notifyAt` written by old exports (`notifyBefore`).
    pub legacy_notify_before: Option<i32>,
    /// Whether an old export had already notified (`notified`).
    pub legacy_notified: bool,
    pub created_at: String,
    pub updated_at: String,
    pub subtasks: Vec<SubTask>,
}

/// A subtask of a to-do.
#[derive(Clone, Debug)]
pub struct SubTask {
    pub id: i64,
    pub parent_id: i64,
    pub title: String,
    pub content: Option<String>,
    pub completed: bool,
    pub sort_order: i32,
    pub created_at: String,
    pub updated_at: String,
}

/// The fields of a new to-do.
#[derive(Clone, Debug)]
pub struct CreateTodoRequest {
    pub title: String,
    pub description: Option<String>,
    pub color: String,
    pub quadrant: i32,
    pub reminder_times: Vec<String>,
    pub start_time: Option<String>,
    pub end_time: Option<String>,
}

/// A partial update of a to-do.
#[derive(Clone, Debug)]
pub struct UpdateTodoRequest {
    pub title: Option<String>,
    pub description: Option<String>,
    pub color: Option<String>,
    pub quadrant: Option<i32>,
    pub reminder_times: Option<Vec<String>>,
    pub completed: Option<bool>,
    pub sort_order: Option<i32>,
    /// Clear all reminder times explicitly.
    pub clear_reminder_times: bool,
    pub start_time: Option<String>,
    pub end_time: Option<String>,
    /// Clear the start time explicitly.
    pub clear_start_time: bool,
    /// Clear the deadline explicitly.
    pub clear_end_time: bool,
}

/// The fields of a new subtask.
#[derive(Clone, Debug)]
pub struct CreateSubTaskRequest {
    pub parent_id: i64,
    pub title: String,
    pub content: Option<String>,
}

/// A partial update of a subtask.
#[derive(Clone, Debug)]
pub struct UpdateSubTaskRequest {
    pub title: Option<String>,
    pub content: Option<String>,
    pub completed: Option<bool>,
    pub sort_order: Option<i32>,
}

/// A window position in physical pixels.
#[derive(Clone, Debug)]
pub struct WindowPosition {
    pub x: i32,
    pub y: i32,
}

/// A window size in physical pixels.
#[derive(Clone, Debug)]
pub struct WindowSize {
    pub width: u32,
    pub height: u32,
}

/// The application settings shown in the settings panel.
#[derive(Clone, Debug)]
pub struct AppSettings {
    pub is_fixed: bool,
    pub window_position: Option<WindowPosition>,
    pub window_size: Option<WindowSize>,
    /// Whether the window hides itself at a screen edge.
    pub auto_hide_enabled: bool,
    /// `light` or `dark` text.
    pub text_theme: String,
    pub show_calendar: bool,
    /// `list` or `quadrant`.
    pub view_mode: String,
    /// `system` or `app`.
    pub notification_type: String,
    /// `bottom_right`, `bottom_left`, `top_right` or `top_left`.
    pub app_notification_position: String,
}

/// A full export of the data.
#[derive(Clone, Debug)]
pub struct ExportData {
    pub version: String,
    pub exported_at: String,
    pub todos: Vec<Todo>,
    pub settings: AppSettings,
}

/// The window state saved for one combination of screens.
#[derive(Clone, Debug)]
pub struct ScreenConfig {
    pub id: i64,
    /// Identifies the screen combination, such as `2_2560x1440@125_1920x1080@100`.
    pub config_id: String,
    pub display_name: Option<String>,
    pub window_x: i32,
    pub window_y: i32,
    pub window_width: i32,
    pub window_height: i32,
    pub is_fixed: bool,
    pub created_at: String,
    pub updated_at: String,
}

/// A request to save or update a screen configuration.
#[derive(Clone, Debug)]
pub struct SaveScreenConfigRequest {
    pub config_id: String,
    pub display_name: Option<String>,
    pub window_x: i32,
    pub window_y: i32,
    pub window_width: i32,
    pub window_height: i32,
    pub is_fixed: bool,
}

/// A dependency of one subtask on another.
#[derive(Clone, Debug)]
pub struct TaskDependency {
    pub id: i64,
    pub subtask_id: i64,
    pub depends_on_id: i64,
    /// `finish-to-start`, `start-to-start` or another kind.
    pub dependency_type: String,
    pub created_at: String,
}

// ---------------------------------------------------------------------
// Reminder times
// ---------------------------------------------------------------------
/// The reminder times that `normalize_reminder_times` keeps: each value
/// trimmed, empty values dropped, and only the first of equal values kept.
pub open spec fn normalized_times(s: Seq<Seq<char>>) -> Seq<Seq<char>>
    decreases s.len(),
{
    if s.len() == 0 {
        seq![]
    } else {
        let prev = normalized_times(s.drop_last());
        let t = trim_seq(s.last());
        if t.len() == 0 || prev.contains(t) {
            prev
        } else {
            prev.push(t)
        }
    }
}

/// A clean list of reminder times: none empty, none with surrounding
/// whitespace, none twice.
pub open spec fn clean_times(s: Seq<Seq<char>>) -> bool {
    &&& forall|i: int| 0 <= i < s.len() ==> (#[trigger] s[i]).len() > 0
    &&& forall|i: int| 0 <= i < s.len() ==> trim_seq(#[trigger] s[i]) == s[i]
    &&& s.no_duplicates()
}

/// Trims each reminder time, drops empty ones and keeps the first of equal ones.
pub fn normalize_reminder_times(reminder_times: &[String]) -> (result: Vec<String>)
    ensures
        strs(result@) == normalized_times(strs(reminder_times@)),
{
    let mut result: Vec<String> = Vec::new();
    let mut k: usize = 0;
    while k < reminder_times.len()
        invariant
            k <= reminder_times@.len(),
            strs(result@) == normalized_times(strs(reminder_times@).take(k as int)),
        decreases reminder_times@.len() - k,
    {
        let ghost s = strs(reminder_times@).take(k + 1);
        assert(s.drop_last() =~= strs(reminder_times@).take(k as int));
        assert(s.last() == reminder_times@[k as int]@);
        let trimmed = trim(reminder_times[k].as_str());
        let mut seen = false;
        let mut j: usize = 0;
        while j < result.len()
            invariant
                j <= result@.len(),
                seen == (exists|m: int| 0 <= m < j && result@[m]@ == trimmed@),
            decreases result@.len() - j,
        {
            if result[j] == trimmed {
                seen = true;
            }
            j = j + 1;
        }
        proof {
            let prev = strs(result@);
            if seen {
                let m = choose|m: int| 0 <= m < j && result@[m]@ == trimmed@;
                assert(prev[m] == trimmed@);
            }
            if prev.contains(trimmed@) {
                let m = choose|m: int| 0 <= m < prev.len() && prev[m] == trimmed@;
                assert(result@[m]@ == trimmed@);
            }
        }
        if !(trimmed.as_str().is_empty() || seen) {
            let ghost prev = strs(result@);
            result.push(trimmed);
            assert(strs(result@) =~= prev.push(trim_seq(s.last())));
        }
        k = k + 1;
    }
    assert(strs(reminder_times@).take(reminder_times@.len() as int) =~= strs(reminder_times@));
    result
}

/// What `normalized_times` keeps is clean, and every kept value is the
/// trimmed form of some given value.
pub proof fn lemma_normalized_times_clean(s: Seq<Seq<char>>)
    ensures
        clean_times(normalized_times(s)),
        forall|i: int|
            0 <= i < normalized_times(s).len() ==> exists|j: int|
                0 <= j < s.len() && trim_seq(s[j]) == #[trigger] normalized_times(s)[i],
        forall|j: int|
            0 <= j < s.len() && trim_seq(#[trigger] s[j]).len() > 0 ==> normalized_times(
                s,
            ).contains(trim_seq(s[j])),
    decreases s.len(),
{
    if s.len() > 0 {
        let d = s.drop_last();
        lemma_normalized_times_clean(d);
        let prev = normalized_times(d);
        let t = trim_seq(s.last());
        lemma_trim_idempotent(s.last());
        let r = normalized_times(s);
        assert forall|i: int| 0 <= i < r.len() implies exists|j: int|
            0 <= j < s.len() && trim_seq(s[j]) == #[trigger] r[i] by {
            if i < prev.len() {
                let j = choose|j: int| 0 <= j < d.len() && trim_seq(d[j]) == prev[i];
                assert(s[j] == d[j]);
            } else {
                assert(trim_seq(s[s.len() - 1]) == r[i]);
            }
        }
        assert forall|j: int|
            0 <= j < s.len() && trim_seq(#[trigger] s[j]).len() > 0 implies r.contains(
            trim_seq(s[j]),
        ) by {
            if j < d.len() {
                assert(d[j] == s[j]);
                let m = choose|m: int| 0 <= m < prev.len() && prev[m] == trim_seq(d[j]);
                assert(r[m] == prev[m]);
            } else {
                if !prev.contains(t) {
                    assert(r[prev.len() as int] == t);
                }
            }
        }
    }
}

/// A clean list is left as it is.
proof fn lemma_normalized_times_of_clean(s: Seq<Seq<char>>)
    requires
        clean_times(s),
    ensures
        normalized_times(s) == s,
    decreases s.len(),
{
    if s.len() > 0 {
        let d = s.drop_last();
        assert(clean_times(d)) by {
            assert forall|i: int, j: int| 0 <= i < d.len() && 0 <= j < d.len() && i != j implies d[i] != d[j] by {
                assert(d[i] == s[i] && d[j] == s[j]);
            }
            assert forall|i: int| 0 <= i < d.len() implies (#[trigger] d[i]).len() > 0 && trim_seq(d[i]) == d[i] by {
                assert(d[i] == s[i]);
            }
        }
        lemma_normalized_times_of_clean(d);
        assert(trim_seq(s.last()) == s.last());
        assert(!d.contains(s.last())) by {
            if d.contains(s.last()) {
                let m = choose|m: int| 0 <= m < d.len() && d[m] == s.last();
                assert(s[m] == s[s.len() - 1]);
            }
        }
        assert(d.push(s.last()) =~= s);
    }
}

/// Normalizing reminder times twice gives what normalizing once gives.
pub proof fn lemma_normalize_reminder_times_idempotent(s: Seq<Seq<char>>)
    ensures
        normalized_times(normalized_times(s)) == normalized_times(s),
{
    lemma_normalized_times_clean(s);
    lemma_normalized_times_of_clean(normalized_times(s));
}

// ---------------------------------------------------------------------
// Defaults
// ---------------------------------------------------------------------
/// The quadrant of a new to-do when none is given: not important, not urgent.
pub fn default_quadrant() -> (q: i32)
    ensures
        q == 4,
{
    4
}

/// The text theme when none is stored.
pub fn default_text_theme() -> (s: String)
    ensures
        s@ == "dark"@,
{
    owned("dark")
}

/// Whether edge auto-hide is on when nothing is stored.
pub fn default_auto_hide_enabled() -> (b: bool)
    ensures
        b,
{
    true
}

/// The view mode when none is stored.
pub fn default_view_mode() -> (s: String)
    ensures
        s@ == "quadrant"@,
{
    owned("quadrant")
}

/// The notification type when none is stored.
pub fn default_notification_type() -> (s: String)
    ensures
        s@ == "system"@,
{
    owned("system")
}

/// The position of in-app notifications when none is stored.
pub fn default_app_notification_position() -> (s: String)
    ensures
        s@ == "bottom_right"@,
{
    owned("bottom_right")
}

// ---------------------------------------------------------------------
// Application settings in the settings table
// ---------------------------------------------------------------------
/// The stored text of `key`, or `default` when the key is missing.
pub open spec fn stored_text(
    t: Seq<(Seq<char>, Seq<char>)>,
    key: Seq<char>,
    default: Seq<char>,
) -> Seq<char> {
    match lookup(t, key) {
        Some(v) => v,
        None => default,
    }
}

/// The scalar settings (all but window position and size) that a table holds.
pub open spec fn app_settings_read(t: Seq<(Seq<char>, Seq<char>)>, s: AppSettings) -> bool {
    &&& s.is_fixed == stored_bool(lookup(t, "is_fixed"@), false)
    &&& s.auto_hide_enabled == stored_bool(lookup(t, "auto_hide_enabled"@), true)
    &&& s.text_theme@ == stored_text(t, "text_theme"@, "dark"@)
    &&& s.show_calendar == stored_bool(lookup(t, "show_calendar"@), false)
    &&& s.view_mode@ == stored_text(t, "view_mode"@, "quadrant"@)
    &&& s.notification_type@ == stored_text(t, "notification_type"@, "system"@)
    &&& s.app_notification_position@ == stored_text(
        t,
        "app_notification_position"@,
        "bottom_right"@,
    )
}

/// Reads the application settings. Window position and size are stored as
/// JSON text, which the caller decodes and hands in.
pub fn read_app_settings(
    table: &Vec<SettingEntry>,
    window_position: Option<WindowPosition>,
    window_size: Option<WindowSize>,
) -> (s: AppSettings)
    ensures
        app_settings_read(table_view(table@), s),
        s.window_position == window_position,
        s.window_size == window_size,
{
    AppSettings {
        is_fixed: read_bool(table, "is_fixed", false),
        window_position,
        window_size,
        auto_hide_enabled: read_bool(table, "auto_hide_enabled", true),
        text_theme: read_string(table, "text_theme", "dark"),
        show_calendar: read_bool(table, "show_calendar", false),
        view_mode: read_string(table, "view_mode", "quadrant"),
        notification_type: read_string(table, "notification_type", "system"),
        app_notification_position: read_string(table, "app_notification_position", "bottom_right"),
    }
}

/// The rows that store the scalar application settings, in the order the
/// settings are written. Window position and size are written by the caller
/// as JSON text.
pub open spec fn app_settings_rows(s: AppSettings) -> Seq<(Seq<char>, Seq<char>)> {
    seq![
        ("is_fixed"@, bool_text(s.is_fixed)),
        ("auto_hide_enabled"@, bool_text(s.auto_hide_enabled)),
        ("text_theme"@, s.text_theme@),
        ("show_calendar"@, bool_text(s.show_calendar)),
        ("view_mode"@, s.view_mode@),
        ("notification_type"@, s.notification_type@),
        ("app_notification_position"@, s.app_notification_position@),
    ]
}

/// The rows that saving the window settings writes: whether the window is
/// fixed, edge auto-hide and the text theme (window position and size are
/// written by the caller as JSON text).
pub open spec fn window_settings_rows(s: AppSettings) -> Seq<(Seq<char>, Seq<char>)> {
    seq![
        ("is_fixed"@, bool_text(s.is_fixed)),
        ("auto_hide_enabled"@, bool_text(s.auto_hide_enabled)),
        ("text_theme"@, s.text_theme@),
    ]
}

/// Saves the window settings that are stored as text (the window's
/// position and size are stored as JSON by the caller, when present).
pub fn save_settings(table: &mut Vec<SettingEntry>, settings: &AppSettings)
    ensures
        table_view(final(table)@) == table_view(old(table)@) + window_settings_rows(*settings),
{
    let mut w: Vec<SettingEntry> = Vec::new();
    w.push(entry("is_fixed", bool_str(settings.is_fixed)));
    w.push(entry("auto_hide_enabled", bool_str(settings.auto_hide_enabled)));
    w.push(entry("text_theme", settings.text_theme.as_str()));
    assert(table_view(w@) =~= window_settings_rows(*settings));
    crate::store::apply_writes(table, w);
}

/// Stores the application settings that are kept as text (the window's
/// position and size are stored as JSON by the caller, when present).
pub fn write_app_settings(table: &mut Vec<SettingEntry>, settings: &AppSettings)
    ensures
        table_view(final(table)@) == table_view(old(table)@) + app_settings_rows(*settings),
{
    let mut w: Vec<SettingEntry> = Vec::new();
    w.push(entry("is_fixed", bool_str(settings.is_fixed)));
    w.push(entry("auto_hide_enabled", bool_str(settings.auto_hide_enabled)));
    w.push(entry("text_theme", settings.text_theme.as_str()));
    w.push(entry("show_calendar", bool_str(settings.show_calendar)));
    w.push(entry("view_mode", settings.view_mode.as_str()));
    w.push(entry("notification_type", settings.notification_type.as_str()));
    w.push(entry("app_notification_position", settings.app_notification_position.as_str()));
    assert(table_view(w@) =~= app_settings_rows(*settings));
    crate::store::apply_writes(table, w);
}

/// Reading the settings table after the application settings were written
/// gives back the scalar settings that were written, whatever the table held.
pub proof fn lemma_app_settings_write_then_read(
    t: Seq<(Seq<char>, Seq<char>)>,
    s: AppSettings,
    r: AppSettings,
)
    requires
        app_settings_read(t + app_settings_rows(s), r),
    ensures
        r.is_fixed == s.is_fixed,
        r.auto_hide_enabled == s.auto_hide_enabled,
        r.text_theme@ == s.text_theme@,
        r.show_calendar == s.show_calendar,
        r.view_mode@ == s.view_mode@,
        r.notification_type@ == s.notification_type@,
        r.app_notification_position@ == s.app_notification_position@,
{
    let w = app_settings_rows(s);
    reveal_strlit("is_fixed");
    reveal_strlit("auto_hide_enabled");
    reveal_strlit("text_theme");
    reveal_strlit("show_calendar");
    reveal_strlit("view_mode");
    reveal_strlit("notification_type");
    reveal_strlit("app_notification_position");
    reveal_strlit("true");
    reveal_strlit("false");
    assert("false"@.len() == 5 && "true"@.len() == 4);
    let keys = seq![
        "is_fixed"@,
        "auto_hide_enabled"@,
        "text_theme"@,
        "show_calendar"@,
        "view_mode"@,
        "notification_type"@,
        "app_notification_position"@,
    ];
    assert forall|j: int, k: int| 0 <= j < k < keys.len() implies keys[j] != keys[k] by {
        assert(0 <= j <= 6 && 0 <= k <= 6);
        if j == 0 { } else if j == 1 { } else if j == 2 { } else if j == 3 { } else if j == 4 { } else { }
        if keys[j] == keys[k] {
            assert(keys[j].len() == keys[k].len());
            assert(keys[j][0] == keys[k][0]);
        }
    }
    assert forall|i: int| 0 <= i < 7 implies lookup(w, #[trigger] keys[i]) == Some(w[i].1) by {
        lemma_lookup_distinct_keys(w, keys, i);
    }
    assert(keys[0] == "is_fixed"@);
    assert(keys[1] == "auto_hide_enabled"@);
    assert(keys[2] == "text_theme"@);
    assert(keys[3] == "show_calendar"@);
    assert(keys[4] == "view_mode"@);
    assert(keys[5] == "notification_type"@);
    assert(keys[6] == "app_notification_position"@);
    lemma_lookup_append(t, w, "is_fixed"@);
    lemma_lookup_append(t, w, "auto_hide_enabled"@);
    lemma_lookup_append(t, w, "text_theme"@);
    lemma_lookup_append(t, w, "show_calendar"@);
    lemma_lookup_append(t, w, "view_mode"@);
    lemma_lookup_append(t, w, "notification_type"@);
    lemma_lookup_append(t, w, "app_notification_position"@);
}

} // verus!
