//! The decisions around a WebDAV sync: settings, device identity, change
//! detection, remote fingerprints, the remote lock, and run results.
use crate::digest::generate_lock_token;
use crate::models::stored_text;
use crate::store::{
    bool_str, bool_text, entry, get_setting, lemma_lookup_append, lemma_lookup_distinct_keys,
    lookup, read_bool, read_string, set_setting, stored_bool, table_view, SettingEntry,
};
use crate::sync::{RemoteMetadata, SyncData, SyncDownloadResult, SyncLock, SyncRunResult, SyncSettings};
use crate::text::{
    chars_of, i64_digits, int_decimal, is_ascii_alphanumeric_seq, lemma_parse_i32_of_decimal,
    nat_decimal, opt_str, owned, parse_i32, parse_i32_value, push_all, str_eq, string_from_chars,
    trim, trim_seq, u64_digits,
};
use crate::timefmt::{is_time_newer, local_now, time_newer};
use vstd::prelude::*;

verus! {

broadcast use vstd::string::group_string_axioms;

// ---------------------------------------------------------------------
// Settings
// ---------------------------------------------------------------------
/// The intervals (minutes) that automatic sync offers.
pub open spec fn allowed_interval(n: i32) -> bool {
    n == 1 || n == 90 || n == 2 || n == 5 || n == 10 || n == 15 || n == 30
}

/// An interval, or 15 minutes when it is not one on offer.
pub open spec fn normalized_interval(n: i32) -> i32 {
    if allowed_interval(n) {
        n
    } else {
        15
    }
}

/// Keeps an interval that is on offer; any other becomes 15 minutes.
pub fn normalize_sync_interval(value: i32) -> (r: i32)
    ensures
        r == normalized_interval(value),
{
    if value == 1 || value == 90 || value == 2 || value == 5 || value == 10 || value == 15 || value
        == 30 {
        value
    } else {
        15
    }
}

/// The sync mode when none is stored.
pub fn default_sync_mode() -> (s: String)
    ensures
        s@ == "incremental"@,
{
    owned("incremental")
}

/// The stored interval: the stored text read as a number (15 when missing
/// or not a number), then normalized.
pub open spec fn interval_from(v: Option<Seq<char>>) -> i32 {
    normalized_interval(
        match v {
            Some(t) => match parse_i32_value(t) {
                Some(n) => n,
                None => 15,
            },
            None => 15,
        },
    )
}

/// The stored mode when it is `archive` or `incremental`; else `incremental`.
pub open spec fn sync_mode_from(v: Option<Seq<char>>) -> Seq<char> {
    match v {
        Some(m) => if m == "archive"@ || m == "incremental"@ {
            m
        } else {
            "incremental"@
        },
        None => "incremental"@,
    }
}

/// The mode that saving stores: `incremental`, or else `archive`.
pub open spec fn saved_mode(m: Seq<char>) -> Seq<char> {
    if m == "incremental"@ {
        "incremental"@
    } else {
        "archive"@
    }
}

/// A device id as this library makes them: `dev_` and a millisecond time.
pub open spec fn is_device_id(s: Seq<char>) -> bool {
    exists|m: i64| s == "dev_"@ + int_decimal(m as int)
}

/// The stored device id, empty when missing.
pub open spec fn stored_device_id(t: Seq<(Seq<char>, Seq<char>)>) -> Seq<char> {
    stored_text(t, "webdav_device_id"@, Seq::empty())
}

/// The sync settings (all but the device id) that a table holds.
pub open spec fn sync_settings_read(t: Seq<(Seq<char>, Seq<char>)>, s: SyncSettings) -> bool {
    &&& s.webdav_url@ == stored_text(t, "webdav_url"@, Seq::empty())
    &&& s.webdav_username@ == stored_text(t, "webdav_username"@, Seq::empty())
    &&& s.webdav_password@ == stored_text(t, "webdav_password"@, Seq::empty())
    &&& s.auto_sync == stored_bool(lookup(t, "webdav_auto_sync"@), false)
    &&& s.sync_interval == interval_from(lookup(t, "webdav_sync_interval"@))
    &&& s.sync_mode@ == sync_mode_from(lookup(t, "webdav_sync_mode"@))
    &&& s.startup_sync == stored_bool(lookup(t, "webdav_startup_sync"@), false)
    &&& opt_str(s.last_sync_at) == lookup(t, "webdav_last_sync_at"@)
}

/// A new device id from the clock: `dev_` and the time in milliseconds.
pub fn generate_device_id() -> (d: String)
    ensures
        is_device_id(d@),
        trim_seq(d@).len() > 0,
{
    let now = local_now();
    let mut v = chars_of("dev_");
    let digits = i64_digits(now.millis);
    push_all(&mut v, digits.as_slice());
    let d = string_from_chars(v.as_slice());
    proof {
        reveal_strlit("dev_");
        assert(d@ == "dev_"@ + int_decimal(now.millis as int));
        assert(d@[0] == 'd');
        crate::text::lemma_trim_shape(d@);
        lemma_trim_nonempty_when_first_not_ws(d@);
    }
    d
}

/// Text whose first character is not whitespace keeps something when trimmed.
proof fn lemma_trim_nonempty_when_first_not_ws(s: Seq<char>)
    requires
        s.len() > 0,
        !crate::text::is_ws(s[0]),
    ensures
        trim_seq(s).len() > 0,
{
    assert(crate::text::trim_start_seq(s) == s);
    crate::text::lemma_trim_end_shape(s);
    if crate::text::trim_end_seq(s).len() == 0 {
        lemma_trim_end_keeps_non_ws(s);
    }
}

/// Trimming the end never removes a non-whitespace first character.
proof fn lemma_trim_end_keeps_non_ws(s: Seq<char>)
    requires
        s.len() > 0,
        !crate::text::is_ws(s[0]),
    ensures
        crate::text::trim_end_seq(s).len() > 0,
    decreases s.len(),
{
    if s.len() > 1 && crate::text::is_ws(s.last()) {
        lemma_trim_end_keeps_non_ws(s.drop_last());
    }
}

/// Reads the sync settings. Where no usable device id is stored, a new one
/// is generated and written to the table.
pub fn read_sync_settings(table: &mut Vec<SettingEntry>) -> (s: SyncSettings)
    ensures
        sync_settings_read(table_view(old(table)@), s),
        trim_seq(stored_device_id(table_view(old(table)@))).len() > 0 ==> {
            &&& s.device_id@ == stored_device_id(table_view(old(table)@))
            &&& final(table)@ == old(table)@
        },
        trim_seq(stored_device_id(table_view(old(table)@))).len() == 0 ==> {
            &&& is_device_id(s.device_id@)
            &&& table_view(final(table)@) == table_view(old(table)@).push(
                ("webdav_device_id"@, s.device_id@),
            )
        },
{
    let ghost t0 = table_view(table@);
    let stored = read_string(table, "webdav_device_id", "");
    let trimmed = trim(stored.as_str());
    let device_id = if trimmed.as_str().is_empty() {
        let d = generate_device_id();
        set_setting(table, "webdav_device_id", d.as_str());
        d
    } else {
        stored
    };
    let interval_text = get_setting(table, "webdav_sync_interval");
    let parsed = match &interval_text {
        Some(t) => match parse_i32(chars_of(t.as_str()).as_slice()) {
            Some(n) => n,
            None => 15,
        },
        None => 15,
    };
    let mode = match get_setting(table, "webdav_sync_mode") {
        Some(m) => if str_eq(m.as_str(), "archive") || str_eq(m.as_str(), "incremental") {
            m
        } else {
            default_sync_mode()
        },
        None => default_sync_mode(),
    };
    let s = SyncSettings {
        webdav_url: read_string(table, "webdav_url", ""),
        webdav_username: read_string(table, "webdav_username", ""),
        webdav_password: read_string(table, "webdav_password", ""),
        auto_sync: read_bool(table, "webdav_auto_sync", false),
        sync_interval: normalize_sync_interval(parsed),
        sync_mode: mode,
        startup_sync: read_bool(table, "webdav_startup_sync", false),
        last_sync_at: get_setting(table, "webdav_last_sync_at"),
        device_id,
    };
    proof {
        reveal_strlit("webdav_device_id");
        reveal_strlit("webdav_url");
        reveal_strlit("webdav_username");
        reveal_strlit("webdav_password");
        reveal_strlit("webdav_auto_sync");
        reveal_strlit("webdav_sync_interval");
        reveal_strlit("webdav_sync_mode");
        reveal_strlit("webdav_startup_sync");
        reveal_strlit("webdav_last_sync_at");
        reveal_strlit("");
        let t1 = table_view(table@);
        assert(""@ =~= Seq::<char>::empty());
        assert(s.sync_interval == interval_from(lookup(t1, "webdav_sync_interval"@)));
        assert(s.sync_mode@ == sync_mode_from(lookup(t1, "webdav_sync_mode"@)));
        assert(sync_settings_read(t1, s));
        if t1 != t0 {
            let keys = seq![
                "webdav_url"@,
                "webdav_username"@,
                "webdav_password"@,
                "webdav_auto_sync"@,
                "webdav_sync_interval"@,
                "webdav_sync_mode"@,
                "webdav_startup_sync"@,
                "webdav_last_sync_at"@,
            ];
            assert forall|i: int| 0 <= i < keys.len() implies lookup(t1, #[trigger] keys[i]) == lookup(t0, keys[i]) by {
                assert(keys[i] != "webdav_device_id"@) by {
                    assert(keys[i].len() != "webdav_device_id"@.len() || keys[i][7] != "webdav_device_id"@[7]);
                }
                assert(t1.drop_last() =~= t0);
            }
            assert(lookup(t1, keys[0]) == lookup(t0, "webdav_url"@));
            assert(lookup(t1, keys[1]) == lookup(t0, "webdav_username"@));
            assert(lookup(t1, keys[2]) == lookup(t0, "webdav_password"@));
            assert(lookup(t1, keys[3]) == lookup(t0, "webdav_auto_sync"@));
            assert(lookup(t1, keys[4]) == lookup(t0, "webdav_sync_interval"@));
            assert(lookup(t1, keys[5]) == lookup(t0, "webdav_sync_mode"@));
            assert(lookup(t1, keys[6]) == lookup(t0, "webdav_startup_sync"@));
            assert(lookup(t1, keys[7]) == lookup(t0, "webdav_last_sync_at"@));
        }
    }
    s
}

/// The rows that saving sync settings writes, in order.
pub open spec fn sync_settings_rows(s: SyncSettings) -> Seq<(Seq<char>, Seq<char>)> {
    seq![
        ("webdav_url"@, s.webdav_url@),
        ("webdav_username"@, s.webdav_username@),
        ("webdav_password"@, s.webdav_password@),
        ("webdav_auto_sync"@, bool_text(s.auto_sync)),
        ("webdav_sync_interval"@, int_decimal(normalized_interval(s.sync_interval) as int)),
        ("webdav_sync_mode"@, saved_mode(s.sync_mode@)),
        ("webdav_startup_sync"@, bool_text(s.startup_sync)),
    ] + (match s.last_sync_at {
        Some(l) => seq![("webdav_last_sync_at"@, l@)],
        None => seq![],
    }) + seq![("webdav_device_id"@, s.device_id@)]
}

/// Saves the sync settings: the mode as `incremental` or `archive`, the
/// interval normalized, the last sync time only when set.
pub fn save_sync_settings(table: &mut Vec<SettingEntry>, settings: &SyncSettings)
    ensures
        table_view(final(table)@) == table_view(old(table)@) + sync_settings_rows(*settings),
{
    let mut w: Vec<SettingEntry> = Vec::new();
    w.push(entry("webdav_url", settings.webdav_url.as_str()));
    w.push(entry("webdav_username", settings.webdav_username.as_str()));
    w.push(entry("webdav_password", settings.webdav_password.as_str()));
    w.push(entry("webdav_auto_sync", bool_str(settings.auto_sync)));
    let interval = normalize_sync_interval(settings.sync_interval);
    let digits = i64_digits(interval as i64);
    let interval_text = string_from_chars(digits.as_slice());
    w.push(entry("webdav_sync_interval", interval_text.as_str()));
    let mode = if str_eq(settings.sync_mode.as_str(), "incremental") {
        "incremental"
    } else {
        "archive"
    };
    w.push(entry("webdav_sync_mode", mode));
    w.push(entry("webdav_startup_sync", bool_str(settings.startup_sync)));
    let ghost before_last = table_view(w@);
    match &settings.last_sync_at {
        Some(last) => {
            w.push(entry("webdav_last_sync_at", last.as_str()));
        },
        None => {},
    }
    w.push(entry("webdav_device_id", settings.device_id.as_str()));
    assert(table_view(w@) =~= sync_settings_rows(*settings));
    crate::store::apply_writes(table, w);
}

/// The settings that reading back saved settings gives.
pub open spec fn settings_as_saved(r: SyncSettings, s: SyncSettings, t: Seq<(Seq<char>, Seq<char>)>) -> bool {
    &&& r.webdav_url@ == s.webdav_url@
    &&& r.webdav_username@ == s.webdav_username@
    &&& r.webdav_password@ == s.webdav_password@
    &&& r.auto_sync == s.auto_sync
    &&& r.sync_interval == normalized_interval(s.sync_interval)
    &&& r.sync_mode@ == saved_mode(s.sync_mode@)
    &&& r.startup_sync == s.startup_sync
    &&& opt_str(r.last_sync_at) == (match s.last_sync_at {
        Some(l) => Some(l@),
        None => lookup(t, "webdav_last_sync_at"@),
    })
}

/// Reading the sync settings after saving them gives back what was saved:
/// the same server, account, switches and device id, the mode and interval
/// as saving normalized them, and the last sync time saved, or the one the
/// table already held when none was saved.
pub proof fn lemma_sync_settings_save_then_read(
    t: Seq<(Seq<char>, Seq<char>)>,
    s: SyncSettings,
    r: SyncSettings,
)
    requires
        sync_settings_read(t + sync_settings_rows(s), r),
    ensures
        settings_as_saved(r, s, t),
        stored_device_id(t + sync_settings_rows(s)) == s.device_id@,
{
    let w = sync_settings_rows(s);
    let t2 = t + w;
    reveal_strlit("webdav_device_id");
    reveal_strlit("webdav_url");
    reveal_strlit("webdav_username");
    reveal_strlit("webdav_password");
    reveal_strlit("webdav_auto_sync");
    reveal_strlit("webdav_sync_interval");
    reveal_strlit("webdav_sync_mode");
    reveal_strlit("webdav_startup_sync");
    reveal_strlit("webdav_last_sync_at");
    reveal_strlit("true");
    reveal_strlit("false");
    reveal_strlit("archive");
    reveal_strlit("incremental");
    assert("false"@.len() == 5 && "true"@.len() == 4);
    let keys = match s.last_sync_at {
        Some(_) => seq![
            "webdav_url"@,
            "webdav_username"@,
            "webdav_password"@,
            "webdav_auto_sync"@,
            "webdav_sync_interval"@,
            "webdav_sync_mode"@,
            "webdav_startup_sync"@,
            "webdav_last_sync_at"@,
            "webdav_device_id"@,
        ],
        None => seq![
            "webdav_url"@,
            "webdav_username"@,
            "webdav_password"@,
            "webdav_auto_sync"@,
            "webdav_sync_interval"@,
            "webdav_sync_mode"@,
            "webdav_startup_sync"@,
            "webdav_device_id"@,
        ],
    };
    assert forall|j: int| 0 <= j < w.len() implies (#[trigger] w[j]).0 == keys[j] by {}
    assert forall|j: int, k: int| 0 <= j < k < keys.len() implies keys[j] != keys[k] by {
        if keys[j] == keys[k] {
            assert(keys[j].len() == keys[k].len());
            assert(keys[j][7] == keys[k][7]);
            assert(keys[j][8] == keys[k][8]);
            assert(keys[j][13] == keys[k][13] || keys[j].len() <= 13);
        }
    }
    assert forall|i: int| 0 <= i < w.len() implies lookup(w, #[trigger] keys[i]) == Some(w[i].1) by {
        lemma_lookup_distinct_keys(w, keys, i);
    }
    lemma_lookup_append(t, w, "webdav_url"@);
    lemma_lookup_append(t, w, "webdav_username"@);
    lemma_lookup_append(t, w, "webdav_password"@);
    lemma_lookup_append(t, w, "webdav_auto_sync"@);
    lemma_lookup_append(t, w, "webdav_sync_interval"@);
    lemma_lookup_append(t, w, "webdav_sync_mode"@);
    lemma_lookup_append(t, w, "webdav_startup_sync"@);
    lemma_lookup_append(t, w, "webdav_last_sync_at"@);
    lemma_lookup_append(t, w, "webdav_device_id"@);
    assert(lookup(w, "webdav_url"@) == Some(s.webdav_url@));
    assert(lookup(w, "webdav_username"@) == Some(s.webdav_username@));
    assert(lookup(w, "webdav_password"@) == Some(s.webdav_password@));
    assert(lookup(w, "webdav_auto_sync"@) == Some(bool_text(s.auto_sync)));
    assert(lookup(w, "webdav_sync_interval"@) == Some(int_decimal(normalized_interval(s.sync_interval) as int)));
    assert(lookup(w, "webdav_sync_mode"@) == Some(saved_mode(s.sync_mode@)));
    assert(lookup(w, "webdav_startup_sync"@) == Some(bool_text(s.startup_sync)));
    assert(lookup(w, "webdav_device_id"@) == Some(s.device_id@));
    match s.last_sync_at {
        Some(l) => {
            assert(lookup(w, "webdav_last_sync_at"@) == Some(l@));
        },
        None => {
            assert forall|i: int| 0 <= i < w.len() implies (#[trigger] w[i]).0 != "webdav_last_sync_at"@ by {
                assert(keys[i] != "webdav_last_sync_at"@) by {
                    assert(keys[i].len() != 19 || keys[i][7] != 'l');
                }
            }
            lemma_lookup_missing(w, "webdav_last_sync_at"@);
        },
    }
    lemma_parse_i32_of_decimal(normalized_interval(s.sync_interval));
}

/// A key no row names is missing.
proof fn lemma_lookup_missing(w: Seq<(Seq<char>, Seq<char>)>, key: Seq<char>)
    requires
        forall|i: int| 0 <= i < w.len() ==> (#[trigger] w[i]).0 != key,
    ensures
        lookup(w, key) is None,
    decreases w.len(),
{
    if w.len() > 0 {
        assert(w.last().0 != key);
        assert forall|i: int| 0 <= i < w.drop_last().len() implies (#[trigger] w.drop_last()[i]).0 != key by {
            assert(w.drop_last()[i] == w[i]);
        }
        lemma_lookup_missing(w.drop_last(), key);
    }
}

impl Default for SyncSettings {
    /// No server, manual sync every 15 minutes in incremental mode, never
    /// synced, and a new device id.
    fn default() -> (s: Self)
        ensures
            s.webdav_url@ == Seq::<char>::empty(),
            s.webdav_username@ == Seq::<char>::empty(),
            s.webdav_password@ == Seq::<char>::empty(),
            !s.auto_sync,
            s.sync_interval == 15,
            s.sync_mode@ == "incremental"@,
            !s.startup_sync,
            s.last_sync_at is None,
            is_device_id(s.device_id@),
    {
        SyncSettings {
            webdav_url: String::new(),
            webdav_username: String::new(),
            webdav_password: String::new(),
            auto_sync: false,
            sync_interval: 15,
            sync_mode: default_sync_mode(),
            startup_sync: false,
            last_sync_at: None,
            device_id: generate_device_id(),
        }
    }
}

// ---------------------------------------------------------------------
// Local change tracking
// ---------------------------------------------------------------------
/// Marks local data as changed since the last sync.
pub fn mark_webdav_local_dirty(table: &mut Vec<SettingEntry>)
    ensures
        table_view(final(table)@) == table_view(old(table)@).push(("webdav_local_dirty"@, "true"@)),
{
    set_setting(table, "webdav_local_dirty", "true");
}

/// Marks local data as synced.
pub fn clear_webdav_local_dirty(table: &mut Vec<SettingEntry>)
    ensures
        table_view(final(table)@) == table_view(old(table)@).push(("webdav_local_dirty"@, "false"@)),
{
    set_setting(table, "webdav_local_dirty", "false");
}

/// Whether local data changed since the last sync (stored `true`).
pub fn is_webdav_local_dirty(table: &Vec<SettingEntry>) -> (b: bool)
    ensures
        b == stored_bool(lookup(table_view(table@), "webdav_local_dirty"@), false),
{
    read_bool(table, "webdav_local_dirty", false)
}

/// How many records changed after the last sync, per kind.
#[derive(Clone, Debug)]
pub struct LocalChangeCounts {
    pub todos: i64,
    pub subtasks: i64,
    pub reminders: i64,
    pub tombstones: i64,
}

/// Whether there are local changes to sync: always before the first sync;
/// after it, when the data is marked changed or any record changed since.
pub fn check_local_changes(settings: &SyncSettings, dirty: bool, counts: &LocalChangeCounts) -> (b: bool)
    ensures
        b == (settings.last_sync_at is None || dirty || counts.todos > 0 || counts.subtasks > 0
            || counts.reminders > 0 || counts.tombstones > 0),
{
    match &settings.last_sync_at {
        None => true,
        Some(_) => dirty || counts.todos > 0 || counts.subtasks > 0 || counts.reminders > 0
            || counts.tombstones > 0,
    }
}

// ---------------------------------------------------------------------
// Remote fingerprints
// ---------------------------------------------------------------------
/// The fingerprint of remote metadata: entity tag, modification time and
/// length, joined by `|` (empty text or 0 where missing).
pub open spec fn fingerprint_of(m: RemoteMetadata) -> Seq<char> {
    (match m.etag {
        Some(e) => e@,
        None => Seq::empty(),
    }) + seq!['|'] + (match m.last_modified {
        Some(l) => l@,
        None => Seq::empty(),
    }) + seq!['|'] + nat_decimal(
        match m.content_length {
            Some(n) => n as nat,
            None => 0,
        },
    )
}

/// The fingerprint of remote metadata, if there is any.
pub fn metadata_fingerprint(meta: &Option<RemoteMetadata>) -> (r: Option<String>)
    ensures
        match meta {
            Some(m) => r matches Some(f) && f@ == fingerprint_of(*m),
            None => r is None,
        },
{
    match meta {
        None => None,
        Some(m) => {
            let mut v: Vec<char> = Vec::new();
            match &m.etag {
                Some(e) => {
                    let c = chars_of(e.as_str());
                    push_all(&mut v, c.as_slice());
                },
                None => {},
            }
            v.push('|');
            match &m.last_modified {
                Some(l) => {
                    let c = chars_of(l.as_str());
                    push_all(&mut v, c.as_slice());
                },
                None => {},
            }
            v.push('|');
            let n: u64 = match m.content_length {
                Some(n) => n,
                None => 0,
            };
            let d = u64_digits(n);
            push_all(&mut v, d.as_slice());
            let f = string_from_chars(v.as_slice());
            assert(f@ =~= fingerprint_of(*m));
            Some(f)
        },
    }
}

/// The fingerprint stored under `key` when the remote was last synced.
pub fn get_stored_remote_fingerprint(table: &Vec<SettingEntry>, key: &str) -> (r: Option<String>)
    ensures
        opt_str(r) == lookup(table_view(table@), key@),
{
    get_setting(table, key)
}

/// Whether the remote changed since the last sync: unless both the stored
/// and the current fingerprint are known and equal.
pub fn remote_fingerprint_changed(stored: &Option<String>, meta: &Option<RemoteMetadata>) -> (b: bool)
    ensures
        b == !(stored matches Some(s) && meta matches Some(m) && s@ == fingerprint_of(*m)),
{
    let current = metadata_fingerprint(meta);
    match (stored, current) {
        (Some(s), Some(c)) => !(*s == c),
        _ => true,
    }
}

/// The table after a sync is recorded: its time, the remote fingerprint
/// (when known) under `fingerprint_key`, and that local data is clean.
pub open spec fn recorded_sync(
    t: Seq<(Seq<char>, Seq<char>)>,
    synced_at: Seq<char>,
    fingerprint_key: Seq<char>,
    remote_meta: Option<RemoteMetadata>,
) -> Seq<(Seq<char>, Seq<char>)> {
    t + seq![("webdav_last_sync_at"@, synced_at)] + (match remote_meta {
        Some(m) => seq![(fingerprint_key, fingerprint_of(m))],
        None => seq![],
    }) + seq![("webdav_local_dirty"@, "false"@)]
}

/// Records a completed sync: its time, the remote fingerprint (when known)
/// under `fingerprint_key`, and that local data is clean. Returns the time.
pub fn update_sync_state(
    table: &mut Vec<SettingEntry>,
    synced_at: &str,
    fingerprint_key: &str,
    remote_meta: &Option<RemoteMetadata>,
) -> (r: String)
    ensures
        r@ == synced_at@,
        table_view(final(table)@) == recorded_sync(table_view(old(table)@), synced_at@, fingerprint_key@, *remote_meta),
{
    let ghost t0 = table_view(table@);
    let fingerprint = metadata_fingerprint(remote_meta);
    set_setting(table, "webdav_last_sync_at", synced_at);
    let ghost t1 = table_view(table@);
    match &fingerprint {
        Some(value) => {
            set_setting(table, fingerprint_key, value.as_str());
        },
        None => {},
    }
    let ghost t2 = table_view(table@);
    clear_webdav_local_dirty(table);
    proof {
        assert(t2 =~= t0 + seq![("webdav_last_sync_at"@, synced_at@)] + (match remote_meta {
            Some(m) => seq![(fingerprint_key@, fingerprint_of(*m))],
            None => seq![],
        }));
    }
    owned(synced_at)
}

/// Once a sync is recorded with the remote's metadata, the fingerprint read
/// back under its key is that metadata's, so the same remote counts as
/// unchanged at the next sync; and local data reads as clean. (The key
/// must not be the one of the local-change flag.)
pub proof fn lemma_recorded_sync_sees_remote_unchanged(
    t: Seq<(Seq<char>, Seq<char>)>,
    synced_at: Seq<char>,
    fingerprint_key: Seq<char>,
    m: RemoteMetadata,
)
    requires
        fingerprint_key != "webdav_local_dirty"@,
    ensures
        ({
            let t2 = recorded_sync(t, synced_at, fingerprint_key, Some(m));
            &&& lookup(t2, fingerprint_key) == Some(fingerprint_of(m))
            &&& stored_bool(lookup(t2, "webdav_local_dirty"@), false) == false
        }),
{
    let w = seq![("webdav_last_sync_at"@, synced_at)] + seq![(fingerprint_key, fingerprint_of(m))] + seq![
        ("webdav_local_dirty"@, "false"@),
    ];
    let t2 = recorded_sync(t, synced_at, fingerprint_key, Some(m));
    assert(t2 =~= t + w);
    lemma_lookup_append(t, w, fingerprint_key);
    lemma_lookup_append(t, w, "webdav_local_dirty"@);
    assert(w.last() == ("webdav_local_dirty"@, "false"@));
    assert(w.drop_last() =~= seq![("webdav_last_sync_at"@, synced_at), (fingerprint_key, fingerprint_of(m))]);
    assert(lookup(w.drop_last(), fingerprint_key) == Some(fingerprint_of(m)));
    assert(lookup(w, fingerprint_key) == Some(fingerprint_of(m)));
    assert(lookup(w, "webdav_local_dirty"@) == Some("false"@));
    reveal_strlit("false");
    reveal_strlit("true");
    assert("false"@[0] != "true"@[0]);
}

/// Records a sync time and that local data is clean. Returns the time.
pub fn update_last_sync_at(table: &mut Vec<SettingEntry>, synced_at: &str) -> (r: String)
    ensures
        r@ == synced_at@,
        table_view(final(table)@) == table_view(old(table)@).push(("webdav_last_sync_at"@, synced_at@)).push(
            ("webdav_local_dirty"@, "false"@),
        ),
{
    set_setting(table, "webdav_last_sync_at", synced_at);
    clear_webdav_local_dirty(table);
    owned(synced_at)
}

// ---------------------------------------------------------------------
// The remote lock
// ---------------------------------------------------------------------
/// How long a remote lock holds, in seconds.
pub const LOCK_TTL_SECONDS: i64 = 120;

/// Another device holds an unexpired lock.
pub open spec fn lock_blocks_spec(existing: Option<SyncLock>, device_id: Seq<char>, now: i64) -> bool {
    match existing {
        Some(l) => l.device_id@ != device_id && l.expires_at > now,
        None => false,
    }
}

/// The remote lock is the given one (same device and token).
pub open spec fn lock_confirmed_spec(remote: Option<SyncLock>, lock: SyncLock) -> bool {
    match remote {
        Some(r) => r.device_id@ == lock.device_id@ && r.token@ == lock.token@,
        None => false,
    }
}

/// Whether the lock found on the remote keeps this device from syncing.
/// Lock text that does not parse counts as no lock.
pub fn lock_blocks(existing: &Option<SyncLock>, device_id: &str, now: i64) -> (b: bool)
    ensures
        b == lock_blocks_spec(*existing, device_id@, now),
{
    match existing {
        Some(l) => !str_eq(l.device_id.as_str(), device_id) && l.expires_at > now,
        None => false,
    }
}

/// A new lock for this device, taken at `now`, with a fresh random token.
pub fn new_lock(device_id: &str, now: i64) -> (l: SyncLock)
    requires
        now <= i64::MAX - LOCK_TTL_SECONDS,
    ensures
        l.device_id@ == device_id@,
        l.token@.len() == 32,
        is_ascii_alphanumeric_seq(l.token@),
        l.created_at == now,
        l.expires_at == now + LOCK_TTL_SECONDS,
{
    SyncLock {
        device_id: owned(device_id),
        token: generate_lock_token(),
        created_at: now,
        expires_at: now + LOCK_TTL_SECONDS,
    }
}

/// Whether the lock read back from the remote is ours (to confirm an
/// acquisition, or before releasing it).
pub fn lock_confirmed(remote: &Option<SyncLock>, lock: &SyncLock) -> (b: bool)
    ensures
        b == lock_confirmed_spec(*remote, *lock),
{
    match remote {
        Some(r) => r.device_id == lock.device_id && r.token == lock.token,
        None => false,
    }
}

/// The first check of taking the lock: refused while another device holds
/// an unexpired lock.
pub fn check_lock_free(existing: &Option<SyncLock>, device_id: &str, now: i64) -> (r: Result<(), String>)
    ensures
        lock_blocks_spec(*existing, device_id@, now) ==> (r matches Err(e) && e@ == "云端正在同步，请稍后再试"@),
        !lock_blocks_spec(*existing, device_id@, now) ==> r is Ok,
{
    if lock_blocks(existing, device_id, now) {
        Err(owned("云端正在同步，请稍后再试"))
    } else {
        Ok(())
    }
}

/// The last check of taking the lock: the lock read back must be ours,
/// else another device won the race.
pub fn check_lock_won(remote: &Option<SyncLock>, lock: &SyncLock) -> (r: Result<(), String>)
    ensures
        lock_confirmed_spec(*remote, *lock) ==> r is Ok,
        !lock_confirmed_spec(*remote, *lock) ==> (r matches Err(e) && e@ == "云端同步锁竞争，请稍后再试"@),
{
    if lock_confirmed(remote, lock) {
        Ok(())
    } else {
        Err(owned("云端同步锁竞争，请稍后再试"))
    }
}

/// A lock read back unchanged confirms itself; a device is never blocked by
/// its own lock; another device's lock blocks exactly until it expires.
pub proof fn lemma_lock_rules(l: SyncLock, me: Seq<char>, now: i64)
    ensures
        lock_confirmed_spec(Some(l), l),
        l.device_id@ == me ==> !lock_blocks_spec(Some(l), me, now),
        l.device_id@ != me ==> (lock_blocks_spec(Some(l), me, now) <==> now < l.expires_at),
        !lock_blocks_spec(None, me, now),
{
}

// ---------------------------------------------------------------------
// Run decisions and results
// ---------------------------------------------------------------------
/// What a sync run does.
#[derive(Clone, Debug)]
pub enum SyncStep {
    /// Nothing changed on either side.
    NoChanges,
    /// Only the remote changed: download and apply it.
    PullRemote,
    /// Local data changed: merge both sides under the remote lock and upload.
    MergeUnderLock,
}

/// Chooses what a sync run does from the local and remote change state.
pub fn plan_sync(has_local_changes: bool, remote_changed: bool, remote_exists: bool) -> (s: SyncStep)
    ensures
        s == (if !has_local_changes && !remote_changed {
            SyncStep::NoChanges
        } else if !has_local_changes && remote_exists {
            SyncStep::PullRemote
        } else {
            SyncStep::MergeUnderLock
        }),
{
    if !has_local_changes && !remote_changed {
        SyncStep::NoChanges
    } else if !has_local_changes && remote_exists {
        SyncStep::PullRemote
    } else {
        SyncStep::MergeUnderLock
    }
}

/// Whether a WebDAV server is configured (its address is not blank).
pub fn webdav_configured(settings: &SyncSettings) -> (b: bool)
    ensures
        b == (trim_seq(settings.webdav_url@).len() > 0),
{
    let t = trim(settings.webdav_url.as_str());
    !t.as_str().is_empty()
}

/// Whether the incremental layout is used.
pub fn is_incremental(settings: &SyncSettings) -> (b: bool)
    ensures
        b == (settings.sync_mode@ == "incremental"@),
{
    str_eq(settings.sync_mode.as_str(), "incremental")
}

/// The outcome reported for a sync run that ended with `sync_result`
/// (`no_changes`, or the time of the sync).
pub fn sync_run_result(sync_result: String) -> (r: SyncRunResult)
    ensures
        sync_result@ == "no_changes"@ ==> r.status@ == "no_changes"@ && r.synced_at is None
            && r.message@ == "暂无需要同步的变化"@,
        sync_result@ != "no_changes"@ ==> r.status@ == "synced"@ && opt_str(r.synced_at) == Some(
            sync_result@,
        ) && r.message@ == "同步完成"@,
{
    if str_eq(sync_result.as_str(), "no_changes") {
        SyncRunResult {
            status: owned("no_changes"),
            synced_at: None,
            message: owned("暂无需要同步的变化"),
        }
    } else {
        SyncRunResult { status: owned("synced"), synced_at: Some(sync_result), message: owned("同步完成") }
    }
}

/// What a download reports: whether the remote holds data, and a conflict
/// when local changes meet remote data newer than the last sync (or any
/// remote data, before the first sync).
pub fn download_result(
    settings: &SyncSettings,
    remote: Option<SyncData>,
    has_local_changes: bool,
) -> (r: SyncDownloadResult)
    ensures
        opt_str(r.local_updated_at) == opt_str(settings.last_sync_at),
        match remote {
            None => !r.has_remote && r.remote_data is None && r.remote_updated_at is None
                && !r.has_conflict,
            Some(d) => {
                &&& r.has_remote
                &&& r.remote_data == Some(d)
                &&& opt_str(r.remote_updated_at) == Some(d.updated_at@)
                &&& r.has_conflict == (has_local_changes && match settings.last_sync_at {
                    Some(last) => time_newer(d.updated_at@, last@),
                    None => true,
                })
            },
        },
{
    let local_updated_at = match &settings.last_sync_at {
        Some(l) => Some(l.clone()),
        None => None,
    };
    match remote {
        None => SyncDownloadResult {
            has_remote: false,
            remote_data: None,
            local_updated_at,
            remote_updated_at: None,
            has_conflict: false,
        },
        Some(d) => {
            let remote_is_newer = match &settings.last_sync_at {
                Some(last) => is_time_newer(d.updated_at.as_str(), last.as_str()),
                None => true,
            };
            let remote_updated_at = Some(d.updated_at.clone());
            SyncDownloadResult {
                has_remote: true,
                remote_updated_at,
                local_updated_at,
                remote_data: Some(d),
                has_conflict: has_local_changes && remote_is_newer,
            }
        },
    }
}

} // verus!
