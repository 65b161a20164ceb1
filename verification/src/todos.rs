//! To-do and subtask edits: which columns an update sets, the order a
//! reorder writes, which reminders an edit removes, synchronisation ids of
//! rows, reminder times of imported to-dos, subtask images and files, and
//! the files that export and import write and read.
use crate::legacy::{clone_strings, make_sync_id, sync_id_of};
use crate::models::{normalize_reminder_times, normalized_times, Todo, UpdateSubTaskRequest, UpdateTodoRequest};
use crate::store::{get_setting, set_setting, table_view, SettingEntry};
use crate::syncflow::{generate_device_id, is_device_id, stored_device_id};
use crate::text::{chars_of, owned, push_all, str_eq, string_from_chars, strs, trim_bounds, trim_seq};
use crate::timefmt::{format_iso_seconds, iso_text_of_seconds, naive_seconds, spaced_datetime_seconds};
use base64::Engine;
use std::io::{Read, Write};
use vstd::prelude::*;

verus! {

broadcast use vstd::string::group_string_axioms;

// ---------------------------------------------------------------------
// Update statements
// ---------------------------------------------------------------------
/// A value bound to a `?` of a statement.
#[derive(Clone, Debug)]
pub enum SqlValue {
    Text(String),
    Int(i64),
}

/// What an update writes: the `SET` assignments in order, the values of
/// their `?` in order, and the reminder times to store, if they change.
#[derive(Clone, Debug)]
pub struct UpdatePlan {
    pub assignments: Vec<String>,
    pub params: Vec<SqlValue>,
    pub reminder_times: Option<Vec<String>>,
}

/// Appends `x` when `c` holds.
pub open spec fn push_if<T>(s: Seq<T>, c: bool, x: T) -> Seq<T> {
    if c {
        s.push(x)
    } else {
        s
    }
}

/// The assignment that stamps the update time.
pub open spec fn stamp_assignment() -> Seq<char> {
    "updated_at = datetime('now', 'localtime')"@
}

/// The assignments a to-do update makes before the time stamp.
pub open spec fn todo_assignments(d: UpdateTodoRequest) -> Seq<Seq<char>> {
    let s = push_if(Seq::<Seq<char>>::empty(), d.title is Some, "title = ?"@);
    let s = push_if(s, d.description is Some, "description = ?"@);
    let s = push_if(s, d.color is Some, "color = ?"@);
    let s = push_if(s, d.quadrant is Some, "quadrant = ?"@);
    let s = push_if(s, d.completed is Some, "completed = ?"@);
    let s = push_if(s, d.sort_order is Some, "sort_order = ?"@);
    let s = if d.clear_start_time {
        s.push("start_time = NULL"@)
    } else {
        push_if(s, d.start_time is Some, "start_time = ?"@)
    };
    if d.clear_end_time {
        s.push("end_time = NULL"@)
    } else {
        push_if(s, d.end_time is Some, "end_time = ?"@)
    }
}

/// The values of a to-do update, in the order of its `?`.
pub open spec fn todo_params(d: UpdateTodoRequest) -> Seq<SqlValue> {
    let s = push_if(Seq::<SqlValue>::empty(), d.title is Some, SqlValue::Text(d.title->0));
    let s = push_if(s, d.description is Some, SqlValue::Text(d.description->0));
    let s = push_if(s, d.color is Some, SqlValue::Text(d.color->0));
    let s = push_if(s, d.quadrant is Some, SqlValue::Int(d.quadrant->0 as i64));
    let s = push_if(s, d.completed is Some, SqlValue::Int(if d.completed->0 { 1 } else { 0 }));
    let s = push_if(s, d.sort_order is Some, SqlValue::Int(d.sort_order->0 as i64));
    let s = push_if(s, !d.clear_start_time && d.start_time is Some, SqlValue::Text(d.start_time->0));
    push_if(s, !d.clear_end_time && d.end_time is Some, SqlValue::Text(d.end_time->0))
}

/// The reminder times an update stores: none when it is asked to clear
/// them, the given ones otherwise; `None` when they stay.
pub open spec fn reminder_update(d: UpdateTodoRequest) -> Option<Seq<Seq<char>>> {
    if d.clear_reminder_times {
        Some(Seq::empty())
    } else {
        match d.reminder_times {
            Some(v) => Some(strs(v@)),
            None => None,
        }
    }
}

/// The message of an update that changes nothing.
pub open spec fn nothing_to_update() -> Seq<char> {
    "Invalid parameter name: No fields to update"@
}

fn push_text(assignments: &mut Vec<String>, params: &mut Vec<SqlValue>, a: &str, v: &Option<String>)
    ensures
        v is Some ==> final(assignments)@.map_values(|x: String| x@) == old(assignments)@.map_values(
            |x: String| x@,
        ).push(a@) && final(params)@ == old(params)@.push(SqlValue::Text(v->0)),
        v is None ==> final(assignments)@ == old(assignments)@ && final(params)@ == old(params)@,
{
    match v {
        Some(t) => {
            assignments.push(owned(a));
            params.push(SqlValue::Text(t.clone()));
            proof {
                assert(assignments@.map_values(|x: String| x@) =~= old(assignments)@.map_values(
                    |x: String| x@,
                ).push(a@));
            }
        },
        None => {},
    }
}

fn push_int(assignments: &mut Vec<String>, params: &mut Vec<SqlValue>, a: &str, v: Option<i64>)
    ensures
        v is Some ==> final(assignments)@.map_values(|x: String| x@) == old(assignments)@.map_values(
            |x: String| x@,
        ).push(a@) && final(params)@ == old(params)@.push(SqlValue::Int(v->0)),
        v is None ==> final(assignments)@ == old(assignments)@ && final(params)@ == old(params)@,
{
    match v {
        Some(n) => {
            assignments.push(owned(a));
            params.push(SqlValue::Int(n));
            proof {
                assert(assignments@.map_values(|x: String| x@) =~= old(assignments)@.map_values(
                    |x: String| x@,
                ).push(a@));
            }
        },
        None => {},
    }
}

fn push_plain(assignments: &mut Vec<String>, a: &str)
    ensures
        final(assignments)@.map_values(|x: String| x@) == old(assignments)@.map_values(|x: String| x@).push(
            a@,
        ),
{
    assignments.push(owned(a));
    assert(assignments@.map_values(|x: String| x@) =~= old(assignments)@.map_values(|x: String| x@).push(
        a@,
    ));
}

/// An assignment that binds a value to a `?`.
pub open spec fn binds_value(a: Seq<char>) -> bool {
    a.len() > 0 && a.last() == '?'
}

/// The assignments that bind values, in order.
pub open spec fn bound_columns(a: Seq<Seq<char>>) -> Seq<Seq<char>> {
    a.filter(|x: Seq<char>| binds_value(x))
}

/// The value a to-do edit asks to store through assignment `a`.
#[verifier::opaque]
pub open spec fn requested_todo_value(d: UpdateTodoRequest, a: Seq<char>) -> Option<SqlValue> {
    if a == "title = ?"@ {
        match d.title {
            Some(t) => Some(SqlValue::Text(t)),
            None => None,
        }
    } else if a == "description = ?"@ {
        match d.description {
            Some(t) => Some(SqlValue::Text(t)),
            None => None,
        }
    } else if a == "color = ?"@ {
        match d.color {
            Some(t) => Some(SqlValue::Text(t)),
            None => None,
        }
    } else if a == "quadrant = ?"@ {
        match d.quadrant {
            Some(q) => Some(SqlValue::Int(q as i64)),
            None => None,
        }
    } else if a == "completed = ?"@ {
        match d.completed {
            Some(c) => Some(SqlValue::Int(if c { 1 } else { 0 })),
            None => None,
        }
    } else if a == "sort_order = ?"@ {
        match d.sort_order {
            Some(o) => Some(SqlValue::Int(o as i64)),
            None => None,
        }
    } else if a == "start_time = ?"@ {
        match d.start_time {
            Some(t) => Some(SqlValue::Text(t)),
            None => None,
        }
    } else if a == "end_time = ?"@ {
        match d.end_time {
            Some(t) => Some(SqlValue::Text(t)),
            None => None,
        }
    } else {
        None
    }
}

/// Each `?` of `a` (in order) is bound to the matching value of `p`, and
/// that value is the one `d` asks to store in that column.
#[verifier::opaque]
pub open spec fn binds_requested(a: Seq<Seq<char>>, p: Seq<SqlValue>, d: UpdateTodoRequest) -> bool {
    &&& bound_columns(a).len() == p.len()
    &&& forall|k: int| 0 <= k < p.len() ==> requested_todo_value(d, #[trigger] bound_columns(a)[k]) == Some(p[k])
}

proof fn lemma_bind_step(a: Seq<Seq<char>>, p: Seq<SqlValue>, d: UpdateTodoRequest, c: bool, col: Seq<char>, v: SqlValue)
    requires
        binds_requested(a, p, d),
        c ==> binds_value(col) && requested_todo_value(d, col) == Some(v),
    ensures
        binds_requested(push_if(a, c, col), push_if(p, c, v), d),
{
    reveal(binds_requested);
    if c {
        a.lemma_filter_push(col, |x: Seq<char>| binds_value(x));
        assert forall|k: int| 0 <= k < p.push(v).len() implies requested_todo_value(
            d,
            #[trigger] bound_columns(a.push(col))[k],
        ) == Some(p.push(v)[k]) by {
            if k < p.len() {
                assert(bound_columns(a.push(col))[k] == bound_columns(a)[k]);
            }
        }
    }
}

proof fn lemma_unbound_step(a: Seq<Seq<char>>, p: Seq<SqlValue>, d: UpdateTodoRequest, col: Seq<char>)
    requires
        binds_requested(a, p, d),
        !binds_value(col),
    ensures
        binds_requested(a.push(col), p, d),
{
    reveal(binds_requested);
    a.lemma_filter_push(col, |x: Seq<char>| binds_value(x));
}

proof fn lemma_todo_columns(d: UpdateTodoRequest)
    ensures
        binds_value("title = ?"@) && requested_todo_value(d, "title = ?"@) == (match d.title {
            Some(t) => Some(SqlValue::Text(t)),
            None => None,
        }),
        binds_value("description = ?"@) && requested_todo_value(d, "description = ?"@) == (match d.description {
            Some(t) => Some(SqlValue::Text(t)),
            None => None,
        }),
        binds_value("color = ?"@) && requested_todo_value(d, "color = ?"@) == (match d.color {
            Some(t) => Some(SqlValue::Text(t)),
            None => None,
        }),
        binds_value("quadrant = ?"@) && requested_todo_value(d, "quadrant = ?"@) == (match d.quadrant {
            Some(q) => Some(SqlValue::Int(q as i64)),
            None => None,
        }),
        binds_value("completed = ?"@) && requested_todo_value(d, "completed = ?"@) == (match d.completed {
            Some(c) => Some(SqlValue::Int(if c { 1 } else { 0 })),
            None => None,
        }),
        binds_value("sort_order = ?"@) && requested_todo_value(d, "sort_order = ?"@) == (match d.sort_order {
            Some(o) => Some(SqlValue::Int(o as i64)),
            None => None,
        }),
        binds_value("start_time = ?"@) && requested_todo_value(d, "start_time = ?"@) == (match d.start_time {
            Some(t) => Some(SqlValue::Text(t)),
            None => None,
        }),
        binds_value("end_time = ?"@) && requested_todo_value(d, "end_time = ?"@) == (match d.end_time {
            Some(t) => Some(SqlValue::Text(t)),
            None => None,
        }),
        !binds_value("start_time = NULL"@),
        !binds_value("end_time = NULL"@),
{
    reveal(requested_todo_value);
    reveal_strlit("title = ?");
    reveal_strlit("description = ?");
    reveal_strlit("color = ?");
    reveal_strlit("quadrant = ?");
    reveal_strlit("completed = ?");
    reveal_strlit("sort_order = ?");
    reveal_strlit("start_time = ?");
    reveal_strlit("end_time = ?");
    reveal_strlit("start_time = NULL");
    reveal_strlit("end_time = NULL");
    assert("description = ?"@[0] != "title = ?"@[0]);
    assert("color = ?"@[0] != "title = ?"@[0] && "color = ?"@[0] != "description = ?"@[0]);
    assert("quadrant = ?"@[0] != "title = ?"@[0] && "quadrant = ?"@[0] != "description = ?"@[0] && "quadrant = ?"@[0]
        != "color = ?"@[0]);
    assert("completed = ?"@[0] != "title = ?"@[0] && "completed = ?"@[0] != "description = ?"@[0]
        && "completed = ?"@[2] != "color = ?"@[2] && "completed = ?"@[0] != "quadrant = ?"@[0]);
    assert("sort_order = ?"@[0] != "title = ?"@[0] && "sort_order = ?"@[0] != "description = ?"@[0]
        && "sort_order = ?"@[0] != "color = ?"@[0] && "sort_order = ?"@[0] != "quadrant = ?"@[0]
        && "sort_order = ?"@[0] != "completed = ?"@[0]);
    assert("start_time = ?"@[0] != "title = ?"@[0] && "start_time = ?"@[0] != "description = ?"@[0]
        && "start_time = ?"@[0] != "color = ?"@[0] && "start_time = ?"@[0] != "quadrant = ?"@[0]
        && "start_time = ?"@[0] != "completed = ?"@[0] && "start_time = ?"@[1] != "sort_order = ?"@[1]);
    assert("end_time = ?"@[0] != "title = ?"@[0] && "end_time = ?"@[0] != "description = ?"@[0]
        && "end_time = ?"@[0] != "color = ?"@[0] && "end_time = ?"@[0] != "quadrant = ?"@[0]
        && "end_time = ?"@[0] != "completed = ?"@[0] && "end_time = ?"@[0] != "sort_order = ?"@[0]
        && "end_time = ?"@[0] != "start_time = ?"@[0]);
}

proof fn lemma_push_if_contains(s: Seq<Seq<char>>, c: bool, x: Seq<char>, y: Seq<char>)
    ensures
        s.contains(y) ==> push_if(s, c, x).contains(y),
        c ==> push_if(s, c, x).contains(x),
{
    if c {
        if s.contains(y) {
            let i = choose|i: int| 0 <= i < s.len() && s[i] == y;
            assert(s.push(x)[i] == y);
        }
        assert(s.push(x)[s.len() as int] == x);
    }
}

/// A to-do edit binds each `?` to exactly the value asked for that column
/// (a completed flag is stored as 1 or 0 as asked), in the order of the
/// `?`; a start or end time to clear is written as `NULL`, with no value.
pub proof fn lemma_todo_update_binds_requested_values(d: UpdateTodoRequest)
    ensures
        binds_requested(todo_assignments(d), todo_params(d), d),
{
    lemma_todo_columns(d);
    let e = Seq::<Seq<char>>::empty();
    let ep = Seq::<SqlValue>::empty();
    assert(bound_columns(e) =~= e) by {
        reveal(Seq::filter);
    }
    assert(binds_requested(e, ep, d)) by {
        reveal(binds_requested);
    }
    let s1 = push_if(e, d.title is Some, "title = ?"@);
    let p1 = push_if(ep, d.title is Some, SqlValue::Text(d.title->0));
    lemma_bind_step(e, ep, d, d.title is Some, "title = ?"@, SqlValue::Text(d.title->0));
    let s2 = push_if(s1, d.description is Some, "description = ?"@);
    let p2 = push_if(p1, d.description is Some, SqlValue::Text(d.description->0));
    lemma_bind_step(s1, p1, d, d.description is Some, "description = ?"@, SqlValue::Text(d.description->0));
    let s3 = push_if(s2, d.color is Some, "color = ?"@);
    let p3 = push_if(p2, d.color is Some, SqlValue::Text(d.color->0));
    lemma_bind_step(s2, p2, d, d.color is Some, "color = ?"@, SqlValue::Text(d.color->0));
    let s4 = push_if(s3, d.quadrant is Some, "quadrant = ?"@);
    let p4 = push_if(p3, d.quadrant is Some, SqlValue::Int(d.quadrant->0 as i64));
    lemma_bind_step(s3, p3, d, d.quadrant is Some, "quadrant = ?"@, SqlValue::Int(d.quadrant->0 as i64));
    let v5 = SqlValue::Int(if d.completed->0 { 1 } else { 0 });
    let s5 = push_if(s4, d.completed is Some, "completed = ?"@);
    let p5 = push_if(p4, d.completed is Some, v5);
    lemma_bind_step(s4, p4, d, d.completed is Some, "completed = ?"@, v5);
    let s6 = push_if(s5, d.sort_order is Some, "sort_order = ?"@);
    let p6 = push_if(p5, d.sort_order is Some, SqlValue::Int(d.sort_order->0 as i64));
    lemma_bind_step(s5, p5, d, d.sort_order is Some, "sort_order = ?"@, SqlValue::Int(d.sort_order->0 as i64));
    let s7 = if d.clear_start_time {
        s6.push("start_time = NULL"@)
    } else {
        push_if(s6, d.start_time is Some, "start_time = ?"@)
    };
    let p7 = push_if(p6, !d.clear_start_time && d.start_time is Some, SqlValue::Text(d.start_time->0));
    if d.clear_start_time {
        lemma_unbound_step(s6, p6, d, "start_time = NULL"@);
    } else {
        lemma_bind_step(s6, p6, d, d.start_time is Some, "start_time = ?"@, SqlValue::Text(d.start_time->0));
    }
    if d.clear_end_time {
        lemma_unbound_step(s7, p7, d, "end_time = NULL"@);
    } else {
        lemma_bind_step(s7, p7, d, d.end_time is Some, "end_time = ?"@, SqlValue::Text(d.end_time->0));
    }
}

/// Un-checking or checking a to-do stores the flag asked for: the value
/// bound to `completed = ?` is 1 for a completed to-do and 0 otherwise.
pub proof fn lemma_todo_update_stores_requested_completed_flag(d: UpdateTodoRequest, c: bool)
    requires
        d.completed == Some(c),
    ensures
        exists|k: int|
            0 <= k < todo_params(d).len() && bound_columns(todo_assignments(d))[k] == "completed = ?"@,
        forall|k: int|
            0 <= k < todo_params(d).len() && bound_columns(todo_assignments(d))[k] == "completed = ?"@
                ==> #[trigger] todo_params(d)[k] == SqlValue::Int(if c { 1 } else { 0 }),
{
    lemma_todo_update_binds_requested_values(d);
    lemma_todo_update_writes_requested_columns(d);
    lemma_todo_columns(d);
    reveal(binds_requested);
    let a = todo_assignments(d);
    let f = |x: Seq<char>| binds_value(x);
    let i = choose|i: int| 0 <= i < a.len() && a[i] == "completed = ?"@;
    a.lemma_filter_contains(f, i);
    assert(bound_columns(a).contains("completed = ?"@));
    a.lemma_filter_len(f);
    assert forall|k: int|
        0 <= k < todo_params(d).len() && bound_columns(a)[k] == "completed = ?"@ implies #[trigger] todo_params(
        d,
    )[k] == SqlValue::Int(if c { 1 } else { 0 }) by {
        assert(requested_todo_value(d, bound_columns(a)[k]) == Some(todo_params(d)[k]));
    }
}

/// A to-do edit writes every column it asks to change (and clears the
/// times it asks to clear).
pub proof fn lemma_todo_update_writes_requested_columns(d: UpdateTodoRequest)
    ensures
        d.title is Some ==> todo_assignments(d).contains("title = ?"@),
        d.description is Some ==> todo_assignments(d).contains("description = ?"@),
        d.color is Some ==> todo_assignments(d).contains("color = ?"@),
        d.quadrant is Some ==> todo_assignments(d).contains("quadrant = ?"@),
        d.completed is Some ==> todo_assignments(d).contains("completed = ?"@),
        d.sort_order is Some ==> todo_assignments(d).contains("sort_order = ?"@),
        d.clear_start_time ==> todo_assignments(d).contains("start_time = NULL"@),
        !d.clear_start_time && d.start_time is Some ==> todo_assignments(d).contains("start_time = ?"@),
        d.clear_end_time ==> todo_assignments(d).contains("end_time = NULL"@),
        !d.clear_end_time && d.end_time is Some ==> todo_assignments(d).contains("end_time = ?"@),
{
    let e = Seq::<Seq<char>>::empty();
    let s1 = push_if(e, d.title is Some, "title = ?"@);
    let s2 = push_if(s1, d.description is Some, "description = ?"@);
    let s3 = push_if(s2, d.color is Some, "color = ?"@);
    let s4 = push_if(s3, d.quadrant is Some, "quadrant = ?"@);
    let s5 = push_if(s4, d.completed is Some, "completed = ?"@);
    let s6 = push_if(s5, d.sort_order is Some, "sort_order = ?"@);
    let s7 = if d.clear_start_time {
        s6.push("start_time = NULL"@)
    } else {
        push_if(s6, d.start_time is Some, "start_time = ?"@)
    };
    let s8 = if d.clear_end_time {
        s7.push("end_time = NULL"@)
    } else {
        push_if(s7, d.end_time is Some, "end_time = ?"@)
    };
    assert forall|y: Seq<char>| #[trigger] s8.contains(y) <== (s1.contains(y) || s2.contains(y) || s3.contains(y)
        || s4.contains(y) || s5.contains(y) || s6.contains(y) || s7.contains(y)) by {
        lemma_push_if_contains(s1, d.description is Some, "description = ?"@, y);
        lemma_push_if_contains(s2, d.color is Some, "color = ?"@, y);
        lemma_push_if_contains(s3, d.quadrant is Some, "quadrant = ?"@, y);
        lemma_push_if_contains(s4, d.completed is Some, "completed = ?"@, y);
        lemma_push_if_contains(s5, d.sort_order is Some, "sort_order = ?"@, y);
        lemma_push_if_contains(s6, true, "start_time = NULL"@, y);
        lemma_push_if_contains(s6, d.start_time is Some, "start_time = ?"@, y);
        lemma_push_if_contains(s7, true, "end_time = NULL"@, y);
        lemma_push_if_contains(s7, d.end_time is Some, "end_time = ?"@, y);
    }
    lemma_push_if_contains(e, d.title is Some, "title = ?"@, "title = ?"@);
    lemma_push_if_contains(s1, d.description is Some, "description = ?"@, "description = ?"@);
    lemma_push_if_contains(s2, d.color is Some, "color = ?"@, "color = ?"@);
    lemma_push_if_contains(s3, d.quadrant is Some, "quadrant = ?"@, "quadrant = ?"@);
    lemma_push_if_contains(s4, d.completed is Some, "completed = ?"@, "completed = ?"@);
    lemma_push_if_contains(s5, d.sort_order is Some, "sort_order = ?"@, "sort_order = ?"@);
    lemma_push_if_contains(s6, true, "start_time = NULL"@, "start_time = NULL"@);
    lemma_push_if_contains(s6, d.start_time is Some, "start_time = ?"@, "start_time = ?"@);
    lemma_push_if_contains(s7, true, "end_time = NULL"@, "end_time = NULL"@);
    lemma_push_if_contains(s7, d.end_time is Some, "end_time = ?"@, "end_time = ?"@);
    assert(s8 == todo_assignments(d));
}

/// What updating a to-do with `data` writes. An update that sets no column
/// and leaves the reminder times is refused.
pub fn plan_todo_update(data: &UpdateTodoRequest) -> (r: Result<UpdatePlan, String>)
    ensures
        (todo_assignments(*data).len() == 0 && reminder_update(*data) is None) ==> (r matches Err(e) && e@
            == nothing_to_update()),
        !(todo_assignments(*data).len() == 0 && reminder_update(*data) is None) ==> (r matches Ok(p) && p.assignments@.map_values(
            |x: String| x@,
        ) == todo_assignments(*data).push(stamp_assignment()) && p.params@ == todo_params(*data) && match p.reminder_times {
            Some(v) => reminder_update(*data) == Some(strs(v@)),
            None => reminder_update(*data) is None,
        }),
{
    let mut assignments: Vec<String> = Vec::new();
    let mut params: Vec<SqlValue> = Vec::new();
    assert(assignments@.map_values(|x: String| x@) =~= Seq::<Seq<char>>::empty());
    push_text(&mut assignments, &mut params, "title = ?", &data.title);
    push_text(&mut assignments, &mut params, "description = ?", &data.description);
    push_text(&mut assignments, &mut params, "color = ?", &data.color);
    let quadrant = match data.quadrant {
        Some(q) => Some(q as i64),
        None => None,
    };
    push_int(&mut assignments, &mut params, "quadrant = ?", quadrant);
    let reminder_times: Option<Vec<String>> = if data.clear_reminder_times {
        Some(Vec::new())
    } else {
        match &data.reminder_times {
            Some(v) => Some(clone_strings(v)),
            None => None,
        }
    };
    proof {
        if data.clear_reminder_times {
            assert(strs(reminder_times->0@) =~= Seq::<Seq<char>>::empty());
        }
    }
    let completed = match data.completed {
        Some(c) => Some(if c {
            1i64
        } else {
            0i64
        }),
        None => None,
    };
    push_int(&mut assignments, &mut params, "completed = ?", completed);
    let sort_order = match data.sort_order {
        Some(s) => Some(s as i64),
        None => None,
    };
    push_int(&mut assignments, &mut params, "sort_order = ?", sort_order);
    if data.clear_start_time {
        push_plain(&mut assignments, "start_time = NULL");
    } else {
        push_text(&mut assignments, &mut params, "start_time = ?", &data.start_time);
    }
    if data.clear_end_time {
        push_plain(&mut assignments, "end_time = NULL");
    } else {
        push_text(&mut assignments, &mut params, "end_time = ?", &data.end_time);
    }
    assert(assignments@.map_values(|x: String| x@) == todo_assignments(*data));
    assert(params@ == todo_params(*data));
    if assignments.len() == 0 && reminder_times.is_none() {
        return Err(owned("Invalid parameter name: No fields to update"));
    }
    push_plain(&mut assignments, "updated_at = datetime('now', 'localtime')");
    Ok(UpdatePlan { assignments, params, reminder_times })
}

/// The assignments a subtask update makes before the time stamp.
pub open spec fn subtask_assignments(d: UpdateSubTaskRequest) -> Seq<Seq<char>> {
    let s = push_if(Seq::<Seq<char>>::empty(), d.title is Some, "title = ?"@);
    let s = push_if(s, d.content is Some, "content = ?"@);
    let s = push_if(s, d.completed is Some, "completed = ?"@);
    push_if(s, d.sort_order is Some, "sort_order = ?"@)
}

/// The values of a subtask update, in the order of its `?`.
pub open spec fn subtask_params(d: UpdateSubTaskRequest) -> Seq<SqlValue> {
    let s = push_if(Seq::<SqlValue>::empty(), d.title is Some, SqlValue::Text(d.title->0));
    let s = push_if(s, d.content is Some, SqlValue::Text(d.content->0));
    let s = push_if(s, d.completed is Some, SqlValue::Int(if d.completed->0 { 1 } else { 0 }));
    push_if(s, d.sort_order is Some, SqlValue::Int(d.sort_order->0 as i64))
}

/// The value a subtask edit asks to store through assignment `a`.
#[verifier::opaque]
pub open spec fn requested_subtask_value(d: UpdateSubTaskRequest, a: Seq<char>) -> Option<SqlValue> {
    if a == "title = ?"@ {
        match d.title {
            Some(t) => Some(SqlValue::Text(t)),
            None => None,
        }
    } else if a == "content = ?"@ {
        match d.content {
            Some(t) => Some(SqlValue::Text(t)),
            None => None,
        }
    } else if a == "completed = ?"@ {
        match d.completed {
            Some(c) => Some(SqlValue::Int(if c { 1 } else { 0 })),
            None => None,
        }
    } else if a == "sort_order = ?"@ {
        match d.sort_order {
            Some(o) => Some(SqlValue::Int(o as i64)),
            None => None,
        }
    } else {
        None
    }
}

/// Each `?` of `a` (in order) is bound to the matching value of `p`, the
/// one the subtask edit `d` asks to store in that column.
#[verifier::opaque]
pub open spec fn binds_requested_subtask(a: Seq<Seq<char>>, p: Seq<SqlValue>, d: UpdateSubTaskRequest) -> bool {
    &&& bound_columns(a).len() == p.len()
    &&& forall|k: int|
        0 <= k < p.len() ==> requested_subtask_value(d, #[trigger] bound_columns(a)[k]) == Some(p[k])
}

proof fn lemma_subtask_bind_step(
    a: Seq<Seq<char>>,
    p: Seq<SqlValue>,
    d: UpdateSubTaskRequest,
    c: bool,
    col: Seq<char>,
    v: SqlValue,
)
    requires
        binds_requested_subtask(a, p, d),
        c ==> binds_value(col) && requested_subtask_value(d, col) == Some(v),
    ensures
        binds_requested_subtask(push_if(a, c, col), push_if(p, c, v), d),
{
    reveal(binds_requested_subtask);
    if c {
        a.lemma_filter_push(col, |x: Seq<char>| binds_value(x));
        assert forall|k: int| 0 <= k < p.push(v).len() implies requested_subtask_value(
            d,
            #[trigger] bound_columns(a.push(col))[k],
        ) == Some(p.push(v)[k]) by {
            if k < p.len() {
                assert(bound_columns(a.push(col))[k] == bound_columns(a)[k]);
            }
        }
    }
}

proof fn lemma_subtask_columns(d: UpdateSubTaskRequest)
    ensures
        binds_value("title = ?"@) && requested_subtask_value(d, "title = ?"@) == (match d.title {
            Some(t) => Some(SqlValue::Text(t)),
            None => None,
        }),
        binds_value("content = ?"@) && requested_subtask_value(d, "content = ?"@) == (match d.content {
            Some(t) => Some(SqlValue::Text(t)),
            None => None,
        }),
        binds_value("completed = ?"@) && requested_subtask_value(d, "completed = ?"@) == (match d.completed {
            Some(c) => Some(SqlValue::Int(if c { 1 } else { 0 })),
            None => None,
        }),
        binds_value("sort_order = ?"@) && requested_subtask_value(d, "sort_order = ?"@) == (match d.sort_order {
            Some(o) => Some(SqlValue::Int(o as i64)),
            None => None,
        }),
{
    reveal(requested_subtask_value);
    reveal_strlit("title = ?");
    reveal_strlit("content = ?");
    reveal_strlit("completed = ?");
    reveal_strlit("sort_order = ?");
    assert("content = ?"@[0] != "title = ?"@[0]);
    assert("completed = ?"@[0] != "title = ?"@[0] && "completed = ?"@[2] != "content = ?"@[2]);
    assert("sort_order = ?"@[0] != "title = ?"@[0] && "sort_order = ?"@[0] != "content = ?"@[0]
        && "sort_order = ?"@[0] != "completed = ?"@[0]);
}

/// A subtask edit binds each `?` to exactly the value asked for that
/// column (a completed flag as 1 or 0 as asked), in the order of the `?`.
pub proof fn lemma_subtask_update_binds_requested_values(d: UpdateSubTaskRequest)
    ensures
        binds_requested_subtask(subtask_assignments(d), subtask_params(d), d),
{
    lemma_subtask_columns(d);
    let e = Seq::<Seq<char>>::empty();
    let ep = Seq::<SqlValue>::empty();
    assert(bound_columns(e) =~= e) by {
        reveal(Seq::filter);
    }
    assert(binds_requested_subtask(e, ep, d)) by {
        reveal(binds_requested_subtask);
    }
    let s1 = push_if(e, d.title is Some, "title = ?"@);
    let p1 = push_if(ep, d.title is Some, SqlValue::Text(d.title->0));
    lemma_subtask_bind_step(e, ep, d, d.title is Some, "title = ?"@, SqlValue::Text(d.title->0));
    let s2 = push_if(s1, d.content is Some, "content = ?"@);
    let p2 = push_if(p1, d.content is Some, SqlValue::Text(d.content->0));
    lemma_subtask_bind_step(s1, p1, d, d.content is Some, "content = ?"@, SqlValue::Text(d.content->0));
    let v3 = SqlValue::Int(if d.completed->0 { 1 } else { 0 });
    let s3 = push_if(s2, d.completed is Some, "completed = ?"@);
    let p3 = push_if(p2, d.completed is Some, v3);
    lemma_subtask_bind_step(s2, p2, d, d.completed is Some, "completed = ?"@, v3);
    lemma_subtask_bind_step(s3, p3, d, d.sort_order is Some, "sort_order = ?"@, SqlValue::Int(d.sort_order->0 as i64));
}

/// A subtask edit writes every column it asks to change.
pub proof fn lemma_subtask_update_writes_requested_columns(d: UpdateSubTaskRequest)
    ensures
        d.title is Some ==> subtask_assignments(d).contains("title = ?"@),
        d.content is Some ==> subtask_assignments(d).contains("content = ?"@),
        d.completed is Some ==> subtask_assignments(d).contains("completed = ?"@),
        d.sort_order is Some ==> subtask_assignments(d).contains("sort_order = ?"@),
{
    let e = Seq::<Seq<char>>::empty();
    let s1 = push_if(e, d.title is Some, "title = ?"@);
    let s2 = push_if(s1, d.content is Some, "content = ?"@);
    let s3 = push_if(s2, d.completed is Some, "completed = ?"@);
    let s4 = push_if(s3, d.sort_order is Some, "sort_order = ?"@);
    assert forall|y: Seq<char>| #[trigger] s4.contains(y) <== (s1.contains(y) || s2.contains(y) || s3.contains(y)) by {
        lemma_push_if_contains(s1, d.content is Some, "content = ?"@, y);
        lemma_push_if_contains(s2, d.completed is Some, "completed = ?"@, y);
        lemma_push_if_contains(s3, d.sort_order is Some, "sort_order = ?"@, y);
    }
    lemma_push_if_contains(e, d.title is Some, "title = ?"@, "title = ?"@);
    lemma_push_if_contains(s1, d.content is Some, "content = ?"@, "content = ?"@);
    lemma_push_if_contains(s2, d.completed is Some, "completed = ?"@, "completed = ?"@);
    lemma_push_if_contains(s3, d.sort_order is Some, "sort_order = ?"@, "sort_order = ?"@);
    assert(s4 == subtask_assignments(d));
}

/// What updating a subtask with `data` writes; an update that sets no
/// column is refused.
pub fn plan_subtask_update(data: &UpdateSubTaskRequest) -> (r: Result<UpdatePlan, String>)
    ensures
        subtask_assignments(*data).len() == 0 ==> (r matches Err(e) && e@ == nothing_to_update()),
        subtask_assignments(*data).len() > 0 ==> (r matches Ok(p) && p.assignments@.map_values(
            |x: String| x@,
        ) == subtask_assignments(*data).push(stamp_assignment()) && p.params@ == subtask_params(*data)
            && p.reminder_times is None),
{
    let mut assignments: Vec<String> = Vec::new();
    let mut params: Vec<SqlValue> = Vec::new();
    assert(assignments@.map_values(|x: String| x@) =~= Seq::<Seq<char>>::empty());
    push_text(&mut assignments, &mut params, "title = ?", &data.title);
    push_text(&mut assignments, &mut params, "content = ?", &data.content);
    let completed = match data.completed {
        Some(c) => Some(if c {
            1i64
        } else {
            0i64
        }),
        None => None,
    };
    push_int(&mut assignments, &mut params, "completed = ?", completed);
    let sort_order = match data.sort_order {
        Some(s) => Some(s as i64),
        None => None,
    };
    push_int(&mut assignments, &mut params, "sort_order = ?", sort_order);
    assert(assignments@.map_values(|x: String| x@) == subtask_assignments(*data));
    if assignments.len() == 0 {
        return Err(owned("Invalid parameter name: No fields to update"));
    }
    push_plain(&mut assignments, "updated_at = datetime('now', 'localtime')");
    Ok(UpdatePlan { assignments, params, reminder_times: None })
}

/// The sort order each to-do gets from a reorder: its position in `ids`,
/// cast to `i32` as the statement binds it.
pub fn reorder_todos(ids: &Vec<i64>) -> (r: Vec<(i32, i64)>)
    ensures
        r@.len() == ids@.len(),
        forall|i: int| 0 <= i < ids@.len() ==> #[trigger] r@[i] == (i as i32, ids@[i]),
{
    let mut r: Vec<(i32, i64)> = Vec::new();
    let mut i: usize = 0;
    while i < ids.len()
        invariant
            i <= ids@.len(),
            r@.len() == i,
            forall|k: int| 0 <= k < i ==> #[trigger] r@[k] == (k as i32, ids@[k]),
        decreases ids@.len() - i,
    {
        #[verifier::truncate]
        let order: i32 = i as i32;
        r.push((order, ids[i]));
        i = i + 1;
    }
    r
}

// ---------------------------------------------------------------------
// Reminders removed by an edit
// ---------------------------------------------------------------------
/// The ids of the stored reminders `(id, notify_at)` whose time is not among
/// the new ones, in the stored order.
pub open spec fn removed_ids(existing: Seq<(i64, String)>, next: Seq<Seq<char>>) -> Seq<i64>
    decreases existing.len(),
{
    if existing.len() == 0 {
        seq![]
    } else {
        let prev = removed_ids(existing.drop_last(), next);
        if next.contains(existing.last().1@) {
            prev
        } else {
            prev.push(existing.last().0)
        }
    }
}

/// The stored reminders `(id, notify_at)` an edit removes are exactly those
/// whose time is not among the new times (at any position), kept in the
/// stored order: a stored time found among the new ones is never removed.
pub proof fn lemma_removed_reminders_are_those_not_kept(existing: Seq<(i64, String)>, next: Seq<Seq<char>>)
    ensures
        removed_ids(existing, next) == existing.filter(|e: (i64, String)| !next.contains(e.1@)).map_values(
            |e: (i64, String)| e.0,
        ),
    decreases existing.len(),
{
    let f = |e: (i64, String)| !next.contains(e.1@);
    if existing.len() == 0 {
        assert(existing.filter(f) =~= Seq::<(i64, String)>::empty()) by {
            reveal(Seq::filter);
        }
        assert(existing.filter(f).map_values(|e: (i64, String)| e.0) =~= Seq::<i64>::empty());
    } else {
        let p = existing.drop_last();
        lemma_removed_reminders_are_those_not_kept(p, next);
        assert(p.push(existing.last()) =~= existing);
        p.lemma_filter_push(existing.last(), f);
        if f(existing.last()) {
            assert(p.filter(f).push(existing.last()).map_values(|e: (i64, String)| e.0) =~= p.filter(f).map_values(
                |e: (i64, String)| e.0,
            ).push(existing.last().0));
        }
    }
}

/// The reminders that an edit of a to-do's reminder times to
/// `next_reminder_times` removes; each of them gets a tombstone.
pub fn record_removed_reminder_tombstones(existing: &Vec<(i64, String)>, next_reminder_times: &[String]) -> (r:
    Vec<i64>)
    ensures
        r@ == removed_ids(existing@, normalized_times(strs(next_reminder_times@))),
        r@ == existing@.filter(
            |e: (i64, String)| !normalized_times(strs(next_reminder_times@)).contains(e.1@),
        ).map_values(|e: (i64, String)| e.0),
{
    proof {
        lemma_removed_reminders_are_those_not_kept(existing@, normalized_times(strs(next_reminder_times@)));
    }
    let next = normalize_reminder_times(next_reminder_times);
    let ghost nv = normalized_times(strs(next_reminder_times@));
    let mut r: Vec<i64> = Vec::new();
    let mut i: usize = 0;
    while i < existing.len()
        invariant
            i <= existing@.len(),
            strs(next@) == nv,
            r@ == removed_ids(existing@.take(i as int), nv),
        decreases existing@.len() - i,
    {
        proof {
            assert(existing@.take(i + 1).drop_last() =~= existing@.take(i as int));
        }
        let notify_at = existing[i].1.as_str();
        let mut found = false;
        let mut j: usize = 0;
        while j < next.len()
            invariant
                j <= next@.len(),
                strs(next@) == nv,
                found == exists|k: int| 0 <= k < j && nv[k] == notify_at@,
            decreases next@.len() - j,
        {
            if str_eq(next[j].as_str(), notify_at) {
                found = true;
            }
            proof {
                assert(nv[j as int] == next@[j as int]@);
            }
            j = j + 1;
        }
        proof {
            if found {
                let k = choose|k: int| 0 <= k < j && nv[k] == notify_at@;
                assert(nv.contains(notify_at@));
            } else {
                assert(!nv.contains(notify_at@));
            }
        }
        if !found {
            r.push(existing[i].0);
        }
        i = i + 1;
    }
    assert(existing@.take(existing@.len() as int) =~= existing@);
    r
}

// ---------------------------------------------------------------------
// Synchronisation ids
// ---------------------------------------------------------------------
/// The device id of this installation: the stored one when it is not
/// blank; otherwise a new one, which is written to the table.
pub fn get_or_create_sync_device_id(table: &mut Vec<SettingEntry>) -> (r: String)
    ensures
        trim_seq(stored_device_id(table_view(old(table)@))).len() > 0 ==> r@ == stored_device_id(
            table_view(old(table)@),
        ) && final(table)@ == old(table)@,
        trim_seq(stored_device_id(table_view(old(table)@))).len() == 0 ==> is_device_id(r@) && table_view(
            final(table)@,
        ) == table_view(old(table)@).push(("webdav_device_id"@, r@)),
{
    match get_setting(table, "webdav_device_id") {
        Some(v) => {
            let tv = chars_of(v.as_str());
            let (a, b) = trim_bounds(tv.as_slice());
            if a < b {
                return v;
            }
        },
        None => {},
    }
    let d = generate_device_id();
    set_setting(table, "webdav_device_id", d.as_str());
    d
}

/// The text is present and not blank.
pub open spec fn is_set_id(current: Option<String>) -> bool {
    current matches Some(c) && trim_seq(c@).len() > 0
}

/// The synchronisation id of a row: its stored id when that is not blank;
/// otherwise `prefix:device:id` with this installation's device id (created
/// when missing), which the caller then stores on the row. The flag says
/// whether the id is new.
pub fn ensure_row_sync_id(table: &mut Vec<SettingEntry>, current: Option<String>, prefix: &str, id: i64) -> (r: (
    String,
    bool,
))
    ensures
        is_set_id(current) ==> !r.1 && Some(r.0) == current && final(table)@ == old(table)@,
        !is_set_id(current) ==> {
            let d = stored_device_id(table_view(final(table)@));
            &&& r.1
            &&& r.0@ == sync_id_of(prefix@, d, id as int)
            &&& trim_seq(stored_device_id(table_view(old(table)@))).len() > 0 ==> final(table)@ == old(table)@
            &&& trim_seq(stored_device_id(table_view(old(table)@))).len() == 0 ==> is_device_id(d) && table_view(
                final(table)@,
            ) == table_view(old(table)@).push(("webdav_device_id"@, d))
        },
{
    match current {
        Some(c) => {
            let cv = chars_of(c.as_str());
            let (a, b) = trim_bounds(cv.as_slice());
            if a < b {
                return (c, false);
            }
        },
        None => {},
    }
    let device = get_or_create_sync_device_id(table);
    proof {
        reveal_strlit("webdav_device_id");
    }
    (make_sync_id(prefix, device.as_str(), id), true)
}

// ---------------------------------------------------------------------
// Reminder times of imported to-dos
// ---------------------------------------------------------------------
/// Minutes before `notifyAt` that an old export asks for, never negative.
pub open spec fn legacy_minutes(notify_before: Option<i32>) -> int {
    let m = match notify_before {
        Some(x) => x as int,
        None => 0,
    };
    if m < 0 {
        0
    } else {
        m
    }
}

/// `T` replaced by a space.
pub open spec fn t_to_space(s: Seq<char>) -> Seq<char> {
    s.map_values(|c: char| if c == 'T' { ' ' } else { c })
}

/// The time of an old reminder as `%Y-%m-%d %H:%M:%S` seconds, if it parses.
pub open spec fn legacy_seconds(notify_at: Seq<char>) -> Option<i64> {
    naive_seconds(t_to_space(notify_at), "%Y-%m-%d %H:%M:%S"@)
}

/// The shifted time of an old reminder stays within what dates can hold
/// (where it does not, moving a date back fails).
pub open spec fn legacy_in_range(notify_at: Seq<char>, notify_before: Option<i32>) -> bool {
    legacy_minutes(notify_before) == 0 || match legacy_seconds(notify_at) {
        None => true,
        Some(s) => s - legacy_minutes(notify_before) * 60 >= i64::MIN && format_iso_seconds(
            (s - legacy_minutes(notify_before) * 60) as i64,
        ) is Some,
    }
}

/// The reminder time of an old export: `notifyAt` moved back by
/// `notifyBefore` minutes and written as `%Y-%m-%dT%H:%M:%S`; `notifyAt`
/// unchanged when there is nothing to move or it does not parse.
pub open spec fn legacy_time(notify_at: Seq<char>, notify_before: Option<i32>) -> Seq<char> {
    let m = legacy_minutes(notify_before);
    if m == 0 {
        notify_at
    } else {
        match legacy_seconds(notify_at) {
            None => notify_at,
            Some(s) => format_iso_seconds((s - m * 60) as i64)->0,
        }
    }
}

fn replace_t(v: &str) -> (r: String)
    ensures
        r@ == t_to_space(v@),
{
    let cs = chars_of(v);
    let mut out: Vec<char> = Vec::new();
    let mut i: usize = 0;
    while i < cs.len()
        invariant
            i <= cs@.len(),
            out@ == t_to_space(cs@.take(i as int)),
        decreases cs@.len() - i,
    {
        let c = cs[i];
        out.push(if c == 'T' {
            ' '
        } else {
            c
        });
        assert(out@ =~= t_to_space(cs@.take(i + 1)));
        i = i + 1;
    }
    assert(cs@.take(cs@.len() as int) =~= cs@);
    crate::text::string_from_chars(out.as_slice())
}

fn minutes_of(notify_before: Option<i32>) -> (m: i64)
    ensures
        m == legacy_minutes(notify_before),
{
    let m: i32 = match notify_before {
        Some(x) => x,
        None => 0,
    };
    if m < 0 {
        0
    } else {
        m as i64
    }
}

/// The reminder time that an old export's `notifyAt` and `notifyBefore`
/// stand for.
pub fn legacy_reminder_time(notify_at: &str, notify_before: Option<i32>) -> (r: String)
    requires
        legacy_in_range(notify_at@, notify_before),
    ensures
        r@ == legacy_time(notify_at@, notify_before),
{
    let minutes = minutes_of(notify_before);
    if minutes == 0 {
        return owned(notify_at);
    }
    let normalized = replace_t(notify_at);
    match spaced_datetime_seconds(normalized.as_str()) {
        None => owned(notify_at),
        Some(secs) => {
            let shifted = secs - minutes * 60;
            match iso_text_of_seconds(shifted) {
                Some(t) => t,
                None => owned(notify_at),
            }
        },
    }
}

/// `legacy_reminder_time` where the shifted time can be written, `None`
/// where it cannot.
pub fn legacy_reminder_time_checked(notify_at: &str, notify_before: Option<i32>) -> (r: Option<String>)
    ensures
        legacy_in_range(notify_at@, notify_before) ==> (r matches Some(t) && t@ == legacy_time(
            notify_at@,
            notify_before,
        )),
        !legacy_in_range(notify_at@, notify_before) ==> r is None,
{
    let minutes = minutes_of(notify_before);
    if minutes > 0 {
        let normalized = replace_t(notify_at);
        if let Some(secs) = spaced_datetime_seconds(normalized.as_str()) {
            match secs.checked_sub(minutes * 60) {
                None => {
                    return None;
                },
                Some(shifted) => {
                    if iso_text_of_seconds(shifted).is_none() {
                        return None;
                    }
                },
            }
        }
    }
    Some(legacy_reminder_time(notify_at, notify_before))
}

/// The reminder times of an imported to-do: its own, normalized; when it
/// has none, the single time of an old export, if any.
pub open spec fn import_times(todo: Todo) -> Seq<Seq<char>> {
    let own = normalized_times(strs(todo.reminder_times@));
    if own.len() > 0 {
        own
    } else {
        match todo.legacy_notify_at {
            Some(v) => seq![legacy_time(v@, todo.legacy_notify_before)],
            None => seq![],
        }
    }
}

/// The old reminder time of a to-do, where it is used, can be written.
pub open spec fn import_in_range(todo: Todo) -> bool {
    normalized_times(strs(todo.reminder_times@)).len() > 0 || match todo.legacy_notify_at {
        Some(v) => legacy_in_range(v@, todo.legacy_notify_before),
        None => true,
    }
}

/// The reminder times an imported to-do gets.
pub fn import_reminder_times(todo: &Todo) -> (r: Vec<String>)
    requires
        import_in_range(*todo),
    ensures
        strs(r@) == import_times(*todo),
{
    let reminder_times = normalize_reminder_times(todo.reminder_times.as_slice());
    if reminder_times.len() > 0 {
        return reminder_times;
    }
    match &todo.legacy_notify_at {
        Some(value) => {
            let t = legacy_reminder_time(value.as_str(), todo.legacy_notify_before);
            let mut r: Vec<String> = Vec::new();
            r.push(t);
            assert(strs(r@) =~= import_times(*todo));
            r
        },
        None => {
            let r: Vec<String> = Vec::new();
            assert(strs(r@) =~= import_times(*todo));
            r
        },
    }
}

/// `import_reminder_times` where the old reminder time can be written,
/// `None` where it cannot.
pub fn import_reminder_times_checked(todo: &Todo) -> (r: Option<Vec<String>>)
    ensures
        import_in_range(*todo) ==> (r matches Some(v) && strs(v@) == import_times(*todo)),
        !import_in_range(*todo) ==> r is None,
{
    let own = normalize_reminder_times(todo.reminder_times.as_slice());
    if own.len() == 0 {
        if let Some(value) = &todo.legacy_notify_at {
            if legacy_reminder_time_checked(value.as_str(), todo.legacy_notify_before).is_none() {
                return None;
            }
        }
    }
    Some(import_reminder_times(todo))
}

// ---------------------------------------------------------------------
// Subtask images and files
// ---------------------------------------------------------------------
/// What the standard base64 engine (`base64::engine::general_purpose::STANDARD`)
/// decodes a text to, or the message of its error.
pub uninterp spec fn base64_standard_decoded(s: Seq<char>) -> Result<Seq<u8>, Seq<char>>;

/// `STANDARD.decode`: the bytes, or the error's message. Stated: the outcome
/// is `base64_standard_decoded` of the text; the decoding is not written out.
#[verifier::external_body]
fn base64_decode(s: &str) -> (r: Result<Vec<u8>, String>)
    ensures
        match r {
            Ok(b) => base64_standard_decoded(s@) == Ok::<Seq<u8>, Seq<char>>(b@),
            Err(e) => base64_standard_decoded(s@) == Err::<Seq<u8>, Seq<char>>(e@),
        },
{
    base64::engine::general_purpose::STANDARD.decode(s).map_err(|e| e.to_string())
}

/// The base64 part of image data: what follows the first comma (a data URL
/// header ends there), or all of it.
pub open spec fn image_payload(data: Seq<char>) -> Seq<char> {
    if data.contains(',') {
        data.skip(
            (choose|i: int| 0 <= i < data.len() && data[i] == ',' && forall|j: int| 0 <= j < i ==> data[j] != ',')
                + 1,
        )
    } else {
        data
    }
}

/// The bytes of an image sent as base64 text, possibly as a data URL.
pub fn decode_image_data(image_data: &str) -> (r: Result<Vec<u8>, String>)
    ensures
        match r {
            Ok(b) => base64_standard_decoded(image_payload(image_data@)) == Ok::<Seq<u8>, Seq<char>>(b@),
            Err(e) => base64_standard_decoded(image_payload(image_data@)) == Err::<Seq<u8>, Seq<char>>(e@),
        },
{
    let cs = chars_of(image_data);
    let mut i: usize = 0;
    while i < cs.len()
        invariant
            i <= cs@.len(),
            cs@ == image_data@,
            forall|j: int| 0 <= j < i ==> cs@[j] != ',',
        decreases cs@.len() - i,
    {
        if cs[i] == ',' {
            let rest = crate::text::slice_range(cs.as_slice(), i + 1, cs.len());
            proof {
                let k = choose|k: int|
                    0 <= k < cs@.len() && cs@[k] == ',' && forall|j: int| 0 <= j < k ==> cs@[j] != ',';
                assert(cs@.contains(','));
                if k < i {
                } else if k > i {
                    assert(cs@[i as int] == ',');
                }
                assert(rest@ =~= image_payload(image_data@));
            }
            let raw = crate::text::string_from_chars(rest.as_slice());
            return base64_decode(raw.as_str());
        }
        i = i + 1;
    }
    proof {
        if image_data@.contains(',') {
            let k = choose|k: int| 0 <= k < cs@.len() && cs@[k] == ',';
        }
    }
    base64_decode(image_data)
}

/// What `str::to_lowercase` makes of a text (Unicode lower case).
pub uninterp spec fn lowercase(s: Seq<char>) -> Seq<char>;

/// `str::to_lowercase`. Stated: the result is `lowercase` of the text.
#[verifier::external_body]
fn to_lowercase(s: &str) -> (r: String)
    ensures
        r@ == lowercase(s@),
{
    s.to_lowercase()
}

/// The file extensions whose files become subtasks.
pub open spec fn is_import_ext(ext: Seq<char>) -> bool {
    lowercase(ext) == "md"@ || lowercase(ext) == "txt"@
}

/// Whether a file with extension `ext` is imported as a subtask (`md` or
/// `txt`, in any case).
pub fn is_import_extension(ext: &str) -> (b: bool)
    ensures
        b == is_import_ext(ext@),
{
    let l = to_lowercase(ext);
    str_eq(l.as_str(), "md") || str_eq(l.as_str(), "txt")
}

/// A subtask to create from an imported file.
#[derive(Clone, Debug)]
pub struct ImportedSubtask {
    /// The position of the file in the list.
    pub file_index: usize,
    pub title: String,
    pub sort_order: i32,
}

/// The title of a file's subtask: its stem, or `untitled` when the name has none.
pub open spec fn import_title(stem: Option<String>) -> Seq<char> {
    match stem {
        Some(s) => s@,
        None => "untitled"@,
    }
}

/// The subtasks made from files with the given stems, in order, skipping
/// those with an empty title and numbering the rest after `max_order`.
pub open spec fn import_plan(stems: Seq<Option<String>>, max_order: int) -> Seq<(int, Seq<char>, int)>
    decreases stems.len(),
{
    if stems.len() == 0 {
        seq![]
    } else {
        let prev = import_plan(stems.drop_last(), max_order);
        let t = import_title(stems.last());
        if t.len() == 0 {
            prev
        } else {
            prev.push((stems.len() - 1, t, max_order + prev.len() + 1))
        }
    }
}

proof fn lemma_import_plan_len(stems: Seq<Option<String>>, max_order: int)
    ensures
        import_plan(stems, max_order).len() <= stems.len(),
    decreases stems.len(),
{
    if stems.len() > 0 {
        lemma_import_plan_len(stems.drop_last(), max_order);
    }
}

/// The subtasks to create from the files of an import, given each file's
/// stem (sorted by path, as the caller lists them) and the highest sort
/// order among the parent's subtasks; an error when there is no file.
pub fn plan_subtask_imports(stems: &Vec<Option<String>>, max_order: i32) -> (r: Result<Vec<ImportedSubtask>, String>)
    requires
        max_order + stems@.len() <= i32::MAX,
    ensures
        stems@.len() == 0 ==> (r matches Err(e) && e@ == "未找到 .md 或 .txt 文件"@),
        stems@.len() > 0 ==> (r matches Ok(v) && v@.map_values(
            |x: ImportedSubtask| (x.file_index as int, x.title@, x.sort_order as int),
        ) == import_plan(stems@, max_order as int)),
{
    if stems.len() == 0 {
        return Err(owned("未找到 .md 或 .txt 文件"));
    }
    let mut out: Vec<ImportedSubtask> = Vec::new();
    let mut order = max_order;
    let mut i: usize = 0;
    while i < stems.len()
        invariant
            i <= stems@.len(),
            max_order + stems@.len() <= i32::MAX,
            out@.map_values(|x: ImportedSubtask| (x.file_index as int, x.title@, x.sort_order as int))
                == import_plan(stems@.take(i as int), max_order as int),
            order == max_order + out@.len(),
            out@.len() <= i,
        decreases stems@.len() - i,
    {
        proof {
            assert(stems@.take(i + 1).drop_last() =~= stems@.take(i as int));
            assert(stems@.take(i + 1).last() == stems@[i as int]);
        }
        let title = match &stems[i] {
            Some(s) => s.clone(),
            None => owned("untitled"),
        };
        if !title.as_str().is_empty() {
            order = order + 1;
            let ghost before = out@;
            out.push(ImportedSubtask { file_index: i, title, sort_order: order });
            proof {
                assert(out@.map_values(|x: ImportedSubtask| (x.file_index as int, x.title@, x.sort_order as int))
                    =~= before.map_values(|x: ImportedSubtask| (x.file_index as int, x.title@, x.sort_order as int)).push(
                    (i as int, import_title(stems@[i as int]), max_order + before.len() + 1),
                ));
            }
        }
        i = i + 1;
    }
    assert(stems@.take(stems@.len() as int) =~= stems@);
    Ok(out)
}

/// Whether an import file is a ZIP archive: it starts with `PK`.
pub fn looks_like_zip(bytes: &[u8]) -> (b: bool)
    ensures
        b == (bytes@.len() >= 2 && bytes@[0] == 0x50u8 && bytes@[1] == 0x4Bu8),
{
    bytes.len() >= 2 && bytes[0] == 0x50 && bytes[1] == 0x4B
}

// ---------------------------------------------------------------------
// Export and import files
// ---------------------------------------------------------------------
/// A text result as plain text.
pub open spec fn text_result(r: Result<String, String>) -> Result<Seq<char>, Seq<char>> {
    match r {
        Ok(t) => Ok(t@),
        Err(e) => Err(e@),
    }
}

/// What `zip` reads of the entry `name` of the archive `bytes` as text:
/// the text, or the error (the archive does not open, has no such entry,
/// or the entry is not UTF-8 text).
pub uninterp spec fn zip_entry_text_of(bytes: Seq<u8>, name: Seq<char>) -> Result<Seq<char>, Seq<char>>;

/// The archive that `zip` writes, in memory, holding one deflated entry
/// `name` with the content `data`; or the error it reports.
pub uninterp spec fn zip_archive_of(name: Seq<char>, data: Seq<u8>) -> Result<Seq<u8>, Seq<char>>;

/// The message std gives for bytes that are not UTF-8.
pub uninterp spec fn utf8_error_text_of(bytes: Seq<u8>) -> Seq<char>;

/// `zip::ZipArchive::new` over the bytes, `by_name`, and `read_to_string`.
/// Stated: the outcome is `zip_entry_text_of` of the arguments (reading
/// computes on the bytes alone); the errors carry zip's messages after
/// the library's own prefixes.
#[verifier::external_body]
fn zip_entry_text(bytes: &[u8], name: &str) -> (r: Result<String, String>)
    ensures
        text_result(r) == zip_entry_text_of(bytes@, name@),
{
    let mut archive =
        zip::ZipArchive::new(std::io::Cursor::new(bytes)).map_err(|e| format!("解析 ZIP 失败: {}", e))?;
    let mut file = archive.by_name(name).map_err(|e| format!("ZIP 中未找到 {}: {}", name, e))?;
    let mut text = String::new();
    file.read_to_string(&mut text).map_err(|e| format!("读取 {} 失败: {}", name, e))?;
    Ok(text)
}

/// `zip::ZipWriter` over a `Vec`: one file `name`, deflated, holding
/// `data`, then finished. Stated: the outcome is `zip_archive_of` of the
/// arguments (without zip's `time` feature the entry is dated 1980-01-01,
/// so the bytes depend on the arguments alone).
#[verifier::external_body]
fn zip_single_file(name: &str, data: &[u8]) -> (r: Result<Vec<u8>, String>)
    ensures
        match r {
            Ok(b) => zip_archive_of(name@, data@) == Ok::<Seq<u8>, Seq<char>>(b@),
            Err(e) => zip_archive_of(name@, data@) == Err::<Seq<u8>, Seq<char>>(e@),
        },
{
    let mut zip = zip::ZipWriter::new(std::io::Cursor::new(Vec::new()));
    let options = zip::write::SimpleFileOptions::default().compression_method(zip::CompressionMethod::Deflated);
    zip.start_file(name, options).map_err(|e| format!("写入 ZIP 失败: {}", e))?;
    zip.write_all(data).map_err(|e| format!("写入数据失败: {}", e))?;
    zip.finish().map(|c| c.into_inner()).map_err(|e| format!("完成 ZIP 失败: {}", e))
}

/// `std::str::from_utf8`. Stated: it succeeds exactly on valid UTF-8 and
/// gives the decoded text; otherwise std's message, a function of the bytes.
#[verifier::external_body]
fn utf8_text(bytes: &[u8]) -> (r: Result<String, String>)
    ensures
        match r {
            Ok(t) => vstd::utf8::valid_utf8(bytes@) && t@ == vstd::utf8::decode_utf8(bytes@),
            Err(e) => !vstd::utf8::valid_utf8(bytes@) && e@ == utf8_error_text_of(bytes@),
        },
{
    std::str::from_utf8(bytes).map(|t| t.to_string()).map_err(|e| e.to_string())
}

/// The bytes of an export file: the JSON text as `data.json` in a ZIP
/// archive.
pub fn export_file_bytes(json: &str) -> (r: Result<Vec<u8>, String>)
    ensures
        match r {
            Ok(b) => zip_archive_of("data.json"@, vstd::utf8::encode_utf8(json@)) == Ok::<Seq<u8>, Seq<char>>(b@),
            Err(e) => zip_archive_of("data.json"@, vstd::utf8::encode_utf8(json@)) == Err::<Seq<u8>, Seq<char>>(
                e@,
            ),
        },
{
    zip_single_file("data.json", json.as_bytes())
}

/// The text an import file holds: `data.json` read from it when it is a
/// ZIP archive (it starts with `PK`); otherwise the file itself as UTF-8,
/// with an encoding error when it is not.
pub fn import_file_text(bytes: &[u8]) -> (r: Result<String, String>)
    ensures
        (bytes@.len() >= 2 && bytes@[0] == 0x50u8 && bytes@[1] == 0x4Bu8) ==> text_result(r) == zip_entry_text_of(
            bytes@,
            "data.json"@,
        ),
        !(bytes@.len() >= 2 && bytes@[0] == 0x50u8 && bytes@[1] == 0x4Bu8) ==> text_result(r) == (if vstd::utf8::valid_utf8(
            bytes@,
        ) {
            Ok::<Seq<char>, Seq<char>>(vstd::utf8::decode_utf8(bytes@))
        } else {
            Err::<Seq<char>, Seq<char>>("文件编码错误: "@ + utf8_error_text_of(bytes@))
        }),
{
    if looks_like_zip(bytes) {
        zip_entry_text(bytes, "data.json")
    } else {
        match utf8_text(bytes) {
            Ok(t) => Ok(t),
            Err(e) => {
                let mut v = chars_of("文件编码错误: ");
                let ev = chars_of(e.as_str());
                push_all(&mut v, ev.as_slice());
                let m = string_from_chars(v.as_slice());
                assert(m@ =~= "文件编码错误: "@ + e@);
                Err(m)
            },
        }
    }
}

} // verus!
