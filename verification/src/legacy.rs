//! Synchronisation ids, and snapshots of the layout that exports used
//! before tombstones and per-record ids (a list of to-dos with nested
//! subtasks and reminder times).
use crate::snapshot::{empty_manifest, is_empty_manifest};
use crate::sync::{SharedSettings, SyncData, SyncReminder, SyncSubtask, SyncTodo};
use crate::text::{
    chars_of, i64_digits, int_decimal, nat_decimal, opt_str, owned, push_all, string_from_chars,
    strs, u64_digits,
};
use crate::timefmt::{is_db_time, now_db_time};
use vstd::prelude::*;

verus! {

/// A synchronisation id: kind, device and row id, joined by colons.
pub open spec fn sync_id_of(prefix: Seq<char>, device_id: Seq<char>, id: int) -> Seq<char> {
    prefix + seq![':'] + device_id + seq![':'] + int_decimal(id)
}

/// Builds the synchronisation id `prefix:device_id:id`.
pub fn make_sync_id(prefix: &str, device_id: &str, id: i64) -> (r: String)
    ensures
        r@ == sync_id_of(prefix@, device_id@, id as int),
{
    let mut v = chars_of(prefix);
    v.push(':');
    let d = chars_of(device_id);
    push_all(&mut v, d.as_slice());
    v.push(':');
    let n = i64_digits(id);
    push_all(&mut v, n.as_slice());
    let r = string_from_chars(v.as_slice());
    assert(r@ =~= sync_id_of(prefix@, device_id@, id as int));
    r
}

/// A subtask as the old layout nests it (fields missing where absent).
#[derive(Clone, Debug)]
pub struct LegacySubtask {
    pub id: Option<i64>,
    pub title: Option<String>,
    pub content: Option<String>,
    pub completed: Option<bool>,
    pub sort_order: Option<i64>,
    pub created_at: Option<String>,
    pub updated_at: Option<String>,
}

/// A to-do as the old layout holds it (fields missing where absent).
#[derive(Clone, Debug)]
pub struct LegacyTodo {
    pub id: Option<i64>,
    pub title: Option<String>,
    pub description: Option<String>,
    pub color: Option<String>,
    pub quadrant: Option<i64>,
    pub completed: Option<bool>,
    pub sort_order: Option<i64>,
    pub start_time: Option<String>,
    pub end_time: Option<String>,
    pub created_at: Option<String>,
    pub updated_at: Option<String>,
    /// The nested subtasks, when the field is a list.
    pub subtasks: Option<Vec<LegacySubtask>>,
    /// The reminder times that are strings, in order, when the field is a list.
    pub reminder_times: Option<Vec<String>>,
}

/// A snapshot in the old layout.
#[derive(Clone, Debug)]
pub struct LegacyExport {
    pub device_id: Option<String>,
    pub updated_at: Option<String>,
    pub todos: Vec<LegacyTodo>,
    /// The image names that are strings, in order.
    pub images: Vec<String>,
}

/// Optional text, or a default.
pub open spec fn or_text(o: Option<String>, d: Seq<char>) -> Seq<char> {
    match o {
        Some(s) => s@,
        None => d,
    }
}

/// The device the old snapshot came from (`legacy` when it does not say).
pub open spec fn legacy_device(l: LegacyExport) -> Seq<char> {
    or_text(l.device_id, "legacy"@)
}

/// The subtasks an old to-do nests.
pub open spec fn legacy_subs(t: LegacyTodo) -> Seq<LegacySubtask> {
    match t.subtasks {
        Some(v) => v@,
        None => Seq::empty(),
    }
}

/// The reminder times an old to-do holds.
pub open spec fn legacy_times(t: LegacyTodo) -> Seq<Seq<char>> {
    match t.reminder_times {
        Some(v) => strs(v@),
        None => Seq::empty(),
    }
}

/// How many subtasks the first `n` old to-dos nest.
pub open spec fn subs_before(todos: Seq<LegacyTodo>, n: int) -> int
    decreases n,
{
    if n <= 0 {
        0
    } else {
        subs_before(todos, n - 1) + legacy_subs(todos[n - 1]).len()
    }
}

/// How many reminder times the first `n` old to-dos hold.
pub open spec fn times_before(todos: Seq<LegacyTodo>, n: int) -> int
    decreases n,
{
    if n <= 0 {
        0
    } else {
        times_before(todos, n - 1) + legacy_times(todos[n - 1]).len()
    }
}

/// The subtasks of earlier to-dos come before those of later ones.
proof fn lemma_subs_before_bound(l: Seq<LegacyTodo>, a: int, b: int)
    requires
        0 <= a < b,
    ensures
        subs_before(l, a) + legacy_subs(l[a]).len() <= subs_before(l, b),
        subs_before(l, a) >= 0,
    decreases b,
{
    lemma_subs_before_nonneg(l, a);
    if b > a + 1 {
        lemma_subs_before_bound(l, a, b - 1);
    }
}

proof fn lemma_subs_before_nonneg(l: Seq<LegacyTodo>, a: int)
    ensures
        subs_before(l, a) >= 0,
    decreases a,
{
    if a > 0 {
        lemma_subs_before_nonneg(l, a - 1);
    }
}

/// The reminder times of earlier to-dos come before those of later ones.
proof fn lemma_times_before_bound(l: Seq<LegacyTodo>, a: int, b: int)
    requires
        0 <= a < b,
    ensures
        times_before(l, a) + legacy_times(l[a]).len() <= times_before(l, b),
        times_before(l, a) >= 0,
    decreases b,
{
    lemma_times_before_nonneg(l, a);
    if b > a + 1 {
        lemma_times_before_bound(l, a, b - 1);
    }
}

proof fn lemma_times_before_nonneg(l: Seq<LegacyTodo>, a: int)
    ensures
        times_before(l, a) >= 0,
    decreases a,
{
    if a > 0 {
        lemma_times_before_nonneg(l, a - 1);
    }
}

/// The id of an old to-do (0 when missing).
pub open spec fn legacy_todo_id(t: LegacyTodo) -> i64 {
    match t.id {
        Some(i) => i,
        None => 0,
    }
}

/// A to-do converted from the old layout, whose time stamp defaults to `at`.
pub open spec fn todo_from_legacy(r: SyncTodo, t: LegacyTodo, dev: Seq<char>, at: Seq<char>) -> bool {
    let updated = or_text(t.updated_at, at);
    &&& r.sync_id@ == sync_id_of("todo"@, dev, legacy_todo_id(t) as int)
    &&& r.title@ == or_text(t.title, Seq::empty())
    &&& opt_str(r.description) == opt_str(t.description)
    &&& r.color@ == or_text(t.color, "#10B981"@)
    &&& r.quadrant == (match t.quadrant {
        Some(q) => q,
        None => 4,
    }) as i32
    &&& r.completed == (t.completed == Some(true))
    &&& r.sort_order == (match t.sort_order {
        Some(s) => s,
        None => 0,
    }) as i32
    &&& opt_str(r.start_time) == opt_str(t.start_time)
    &&& opt_str(r.end_time) == opt_str(t.end_time)
    &&& r.created_at@ == or_text(t.created_at, updated)
    &&& r.updated_at@ == updated
    &&& r.updated_by_device_id@ == dev
    &&& r.revision == 1
}

/// A subtask converted from the old layout, nested in `t`.
pub open spec fn subtask_from_legacy(
    r: SyncSubtask,
    s: LegacySubtask,
    t: LegacyTodo,
    dev: Seq<char>,
    at: Seq<char>,
) -> bool {
    let updated = or_text(t.updated_at, at);
    &&& r.sync_id@ == sync_id_of(
        "subtask"@,
        dev,
        (match s.id {
            Some(i) => i,
            None => 0,
        }) as int,
    )
    &&& r.parent_todo_sync_id@ == sync_id_of("todo"@, dev, legacy_todo_id(t) as int)
    &&& r.title@ == or_text(s.title, Seq::empty())
    &&& opt_str(r.content) == opt_str(s.content)
    &&& r.completed == (s.completed == Some(true))
    &&& r.sort_order == (match s.sort_order {
        Some(o) => o,
        None => 0,
    }) as i32
    &&& r.created_at@ == or_text(s.created_at, updated)
    &&& r.updated_at@ == or_text(s.updated_at, updated)
    &&& r.updated_by_device_id@ == dev
    &&& r.revision == 1
}

/// The reminder at position `j` of the old to-do `t`, converted.
pub open spec fn reminder_from_legacy(
    r: SyncReminder,
    time: Seq<char>,
    j: int,
    t: LegacyTodo,
    dev: Seq<char>,
    at: Seq<char>,
) -> bool {
    let updated = or_text(t.updated_at, at);
    &&& r.sync_id@ == sync_id_of("reminder"@, dev, legacy_todo_id(t) as int) + seq![':']
        + nat_decimal(j as nat)
    &&& r.todo_sync_id@ == sync_id_of("todo"@, dev, legacy_todo_id(t) as int)
    &&& r.notify_at@ == time
    &&& r.sort_order == j as i32
    &&& r.created_at@ == updated
    &&& r.updated_at@ == updated
    &&& r.updated_by_device_id@ == dev
    &&& r.revision == 1
}

/// The converted records of the first `n` old to-dos.
pub open spec fn converted_prefix(
    todos: Seq<SyncTodo>,
    subs: Seq<SyncSubtask>,
    rems: Seq<SyncReminder>,
    l: Seq<LegacyTodo>,
    n: int,
    dev: Seq<char>,
    at: Seq<char>,
) -> bool {
    &&& todos.len() == n
    &&& subs.len() == subs_before(l, n)
    &&& rems.len() == times_before(l, n)
    &&& forall|i: int| 0 <= i < n ==> todo_from_legacy(#[trigger] todos[i], l[i], dev, at)
    &&& forall|i: int, j: int|
        0 <= i < n && 0 <= j < legacy_subs(l[i]).len() ==> subtask_from_legacy(
            #[trigger] subs[subs_before(l, i) + j],
            #[trigger] legacy_subs(l[i])[j],
            l[i],
            dev,
            at,
        )
    &&& forall|i: int, j: int|
        0 <= i < n && 0 <= j < legacy_times(l[i]).len() ==> reminder_from_legacy(
            #[trigger] rems[times_before(l, i) + j],
            #[trigger] legacy_times(l[i])[j],
            j,
            l[i],
            dev,
            at,
        )
}

fn text_or(o: &Option<String>, d: &str) -> (r: String)
    ensures
        r@ == (match o {
            Some(s) => s@,
            None => d@,
        }),
{
    match o {
        Some(s) => s.clone(),
        None => owned(d),
    }
}

fn text_or_string(o: &Option<String>, d: &String) -> (r: String)
    ensures
        r@ == or_text(*o, d@),
{
    match o {
        Some(s) => s.clone(),
        None => d.clone(),
    }
}

fn clone_opt(o: &Option<String>) -> (r: Option<String>)
    ensures
        opt_str(r) == opt_str(*o),
{
    match o {
        Some(s) => Some(s.clone()),
        None => None,
    }
}

/// Converts a snapshot in the old layout: per to-do, ids are formed from
/// the device and the old row ids, missing fields take their defaults, and
/// nested subtasks and reminder times become records of their own. The
/// snapshot's time stamp defaults to the current time; its manifest is left
/// empty for `build_manifest` to fill.
pub fn sync_data_from_legacy(legacy: &LegacyExport) -> (d: SyncData)
    ensures
        d.version@ == "4.0"@,
        d.device_id@ == legacy_device(*legacy),
        legacy.updated_at matches Some(u) ==> d.updated_at@ == u@,
        legacy.updated_at is None ==> is_db_time(d.updated_at@),
        is_empty_manifest(d.manifest),
        d.tombstones@.len() == 0,
        strs(d.images@) == strs(legacy.images@),
        converted_prefix(
            d.todos@,
            d.subtasks@,
            d.reminders@,
            legacy.todos@,
            legacy.todos@.len() as int,
            legacy_device(*legacy),
            d.updated_at@,
        ),
{
    let device_id = text_or(&legacy.device_id, "legacy");
    let updated_at = match &legacy.updated_at {
        Some(u) => u.clone(),
        None => now_db_time(),
    };
    let ghost dev = device_id@;
    let ghost at = updated_at@;
    let ghost l = legacy.todos@;
    let mut todos: Vec<SyncTodo> = Vec::new();
    let mut subtasks: Vec<SyncSubtask> = Vec::new();
    let mut reminders: Vec<SyncReminder> = Vec::new();
    let mut i: usize = 0;
    while i < legacy.todos.len()
        invariant
            i <= l.len(),
            l == legacy.todos@,
            dev == device_id@,
            at == updated_at@,
            converted_prefix(todos@, subtasks@, reminders@, l, i as int, dev, at),
        decreases l.len() - i,
    {
        let t = &legacy.todos[i];
        let id: i64 = match t.id {
            Some(x) => x,
            None => 0,
        };
        let todo_sync_id = make_sync_id("todo", device_id.as_str(), id);
        let todo_updated_at = text_or_string(&t.updated_at, &updated_at);
        let quadrant: i64 = match t.quadrant {
            Some(q) => q,
            None => 4,
        };
        let sort_order: i64 = match t.sort_order {
            Some(s) => s,
            None => 0,
        };
        let ghost todos0 = todos@;
        todos.push(SyncTodo {
            sync_id: todo_sync_id.clone(),
            title: text_or(&t.title, ""),
            description: clone_opt(&t.description),
            color: text_or(&t.color, "#10B981"),
            quadrant: quadrant as i32,
            completed: t.completed == Some(true),
            sort_order: sort_order as i32,
            start_time: clone_opt(&t.start_time),
            end_time: clone_opt(&t.end_time),
            created_at: text_or_string(&t.created_at, &todo_updated_at),
            updated_at: todo_updated_at.clone(),
            updated_by_device_id: device_id.clone(),
            revision: 1,
        });
        proof {
            reveal_strlit("");
            assert(""@ =~= Seq::<char>::empty());
            assert forall|k: int| 0 <= k < i + 1 implies todo_from_legacy(#[trigger] todos@[k], l[k], dev, at) by {
                if k < i {
                    assert(todos@[k] == todos0[k]);
                }
            }
        }
        // nested subtasks
        let ghost subs0 = subtasks@;
        match &t.subtasks {
            Some(items) => {
                let mut j: usize = 0;
                while j < items.len()
                    invariant
                        j <= items@.len(),
                        items@ == legacy_subs(l[i as int]),
                        l == legacy.todos@,
                        i < l.len(),
                        dev == device_id@,
                        at == updated_at@,
                        todo_sync_id@ == sync_id_of("todo"@, dev, legacy_todo_id(l[i as int]) as int),
                        todo_updated_at@ == or_text(l[i as int].updated_at, at),
                        subtasks@.len() == subs0.len() + j,
                        forall|k: int| 0 <= k < subs0.len() ==> #[trigger] subtasks@[k] == subs0[k],
                        forall|k: int| 0 <= k < j ==> subtask_from_legacy(
                            #[trigger] subtasks@[subs0.len() + k],
                            items@[k],
                            l[i as int],
                            dev,
                            at,
                        ),
                    decreases items@.len() - j,
                {
                    let s = &items[j];
                    let sub_id: i64 = match s.id {
                        Some(x) => x,
                        None => 0,
                    };
                    let sub_sort: i64 = match s.sort_order {
                        Some(x) => x,
                        None => 0,
                    };
                    let ghost before = subtasks@;
                    subtasks.push(SyncSubtask {
                        sync_id: make_sync_id("subtask", device_id.as_str(), sub_id),
                        parent_todo_sync_id: todo_sync_id.clone(),
                        title: text_or(&s.title, ""),
                        content: clone_opt(&s.content),
                        completed: s.completed == Some(true),
                        sort_order: sub_sort as i32,
                        created_at: text_or_string(&s.created_at, &todo_updated_at),
                        updated_at: text_or_string(&s.updated_at, &todo_updated_at),
                        updated_by_device_id: device_id.clone(),
                        revision: 1,
                    });
                    proof {
                        reveal_strlit("");
                        assert(""@ =~= Seq::<char>::empty());
                        assert forall|k: int| 0 <= k < subs0.len() implies #[trigger] subtasks@[k] == subs0[k] by {
                            assert(subtasks@[k] == before[k]);
                        }
                        assert forall|k: int| 0 <= k < j + 1 implies subtask_from_legacy(
                            #[trigger] subtasks@[subs0.len() + k],
                            items@[k],
                            l[i as int],
                            dev,
                            at,
                        ) by {
                            if k < j {
                                assert(subtasks@[subs0.len() + k] == before[subs0.len() + k]);
                            }
                        }
                    }
                    j = j + 1;
                }
            },
            None => {},
        }
        // reminder times
        let ghost rems0 = reminders@;
        match &t.reminder_times {
            Some(times) => {
                let mut j: usize = 0;
                while j < times.len()
                    invariant
                        j <= times@.len(),
                        strs(times@) == legacy_times(l[i as int]),
                        l == legacy.todos@,
                        i < l.len(),
                        dev == device_id@,
                        at == updated_at@,
                        todo_sync_id@ == sync_id_of("todo"@, dev, legacy_todo_id(l[i as int]) as int),
                        todo_updated_at@ == or_text(l[i as int].updated_at, at),
                        id == legacy_todo_id(l[i as int]),
                        reminders@.len() == rems0.len() + j,
                        forall|k: int| 0 <= k < rems0.len() ==> #[trigger] reminders@[k] == rems0[k],
                        forall|k: int| 0 <= k < j ==> reminder_from_legacy(
                            #[trigger] reminders@[rems0.len() + k],
                            times@[k]@,
                            k,
                            l[i as int],
                            dev,
                            at,
                        ),
                    decreases times@.len() - j,
                {
                    let base = make_sync_id("reminder", device_id.as_str(), id);
                    let mut v = chars_of(base.as_str());
                    v.push(':');
                    let idx = u64_digits(j as u64);
                    push_all(&mut v, idx.as_slice());
                    let rid = string_from_chars(v.as_slice());
                    assert(rid@ =~= base@ + seq![':'] + nat_decimal(j as nat));
                    let ghost before = reminders@;
                    reminders.push(SyncReminder {
                        sync_id: rid,
                        todo_sync_id: todo_sync_id.clone(),
                        notify_at: times[j].clone(),
                        sort_order: j as i32,
                        created_at: todo_updated_at.clone(),
                        updated_at: todo_updated_at.clone(),
                        updated_by_device_id: device_id.clone(),
                        revision: 1,
                    });
                    proof {
                        assert forall|k: int| 0 <= k < rems0.len() implies #[trigger] reminders@[k] == rems0[k] by {
                            assert(reminders@[k] == before[k]);
                        }
                        assert forall|k: int| 0 <= k < j + 1 implies reminder_from_legacy(
                            #[trigger] reminders@[rems0.len() + k],
                            times@[k]@,
                            k,
                            l[i as int],
                            dev,
                            at,
                        ) by {
                            if k < j {
                                assert(reminders@[rems0.len() + k] == before[rems0.len() + k]);
                            }
                        }
                    }
                    j = j + 1;
                }
            },
            None => {},
        }
        proof {
            let n = (i + 1) as int;
            let ii = i as int;
            assert(subs_before(l, n) == subs_before(l, ii) + legacy_subs(l[ii]).len());
            assert(times_before(l, n) == times_before(l, ii) + legacy_times(l[ii]).len());
            if t.subtasks is None {
                assert(subtasks@ =~= subs0);
            }
            if t.reminder_times is None {
                assert(reminders@ =~= rems0);
            }
            assert forall|a: int, b: int|
                0 <= a < n && 0 <= b < legacy_subs(l[a]).len() implies subtask_from_legacy(
                #[trigger] subtasks@[subs_before(l, a) + b],
                #[trigger] legacy_subs(l[a])[b],
                l[a],
                dev,
                at,
            ) by {
                if a < ii {
                    lemma_subs_before_bound(l, a, ii);
                    assert(subtasks@[subs_before(l, a) + b] == subs0[subs_before(l, a) + b]);
                }
            }
            assert forall|a: int, b: int|
                0 <= a < n && 0 <= b < legacy_times(l[a]).len() implies reminder_from_legacy(
                #[trigger] reminders@[times_before(l, a) + b],
                #[trigger] legacy_times(l[a])[b],
                b,
                l[a],
                dev,
                at,
            ) by {
                if a < ii {
                    lemma_times_before_bound(l, a, ii);
                    assert(reminders@[times_before(l, a) + b] == rems0[times_before(l, a) + b]);
                } else {
                    match &t.reminder_times {
                        Some(times) => {
                            assert(legacy_times(l[a])[b] == times@[b]@);
                        },
                        None => {},
                    }
                }
            }
        }
        i = i + 1;
    }
    let images = clone_strings(&legacy.images);
    SyncData {
        version: owned("4.0"),
        device_id,
        updated_at,
        manifest: empty_manifest(),
        todos,
        subtasks,
        reminders,
        settings: SharedSettings {},
        tombstones: Vec::new(),
        images,
    }
}

/// A copy of a list of strings.
pub fn clone_strings(v: &Vec<String>) -> (r: Vec<String>)
    ensures
        strs(r@) == strs(v@),
{
    let mut r: Vec<String> = Vec::new();
    let mut k: usize = 0;
    while k < v.len()
        invariant
            k <= v@.len(),
            r@.len() == k,
            forall|i: int| 0 <= i < k ==> (#[trigger] r@[i])@ == v@[i]@,
        decreases v@.len() - k,
    {
        r.push(v[k].clone());
        k = k + 1;
    }
    assert(strs(r@) =~= strs(v@));
    r
}

} // verus!
