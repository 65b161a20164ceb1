//! Snapshots: applying deletion records, merging a local and a remote
//! snapshot, and describing a snapshot in a manifest.
use crate::digest::{hash_text, text_hash};
use crate::merge::{
    has_key, merge_by_updated_at, merge_tombstones, merged_by_updated_at, merged_tombstones,
};
use crate::sync::{
    ManifestFile, SharedSettings, SyncData, SyncManifest, SyncReminder, SyncSubtask, SyncTodo,
    SyncTombstone, UploadParts, Versioned,
};
use crate::text::{chars_lt, lemma_lex_lt_total, lemma_lex_lt_transitive, lex_lt, owned, str_eq, strs};
use crate::timefmt::{is_db_time, is_time_newer, now_db_time, time_newer};
use vstd::prelude::*;

verus! {

// ---------------------------------------------------------------------
// Deletion records
// ---------------------------------------------------------------------
/// When the record of kind `entity` with id `sid` was deleted: the time of
/// the last matching tombstone.
pub open spec fn deletion_time(tombs: Seq<SyncTombstone>, entity: Seq<char>, sid: Seq<char>) -> Option<
    Seq<char>,
>
    decreases tombs.len(),
{
    if tombs.len() == 0 {
        None
    } else if tombs.last().entity@ == entity && tombs.last().sync_id@ == sid {
        Some(tombs.last().deleted_at@)
    } else {
        deletion_time(tombs.drop_last(), entity, sid)
    }
}

/// A record stamped `stamp` survives a deletion at `del` when it was updated later.
pub open spec fn outlives(stamp: Seq<char>, del: Option<Seq<char>>) -> bool {
    match del {
        None => true,
        Some(d) => time_newer(stamp, d),
    }
}

/// A to-do survives the tombstones.
pub open spec fn todo_kept(t: SyncTodo, tombs: Seq<SyncTombstone>) -> bool {
    outlives(t.updated_at@, deletion_time(tombs, "todo"@, t.sync_id@))
}

/// A subtask survives: its to-do survives and it outlives its own deletion.
pub open spec fn subtask_kept(
    s: SyncSubtask,
    active: Seq<SyncTodo>,
    tombs: Seq<SyncTombstone>,
) -> bool {
    has_key(active, s.parent_todo_sync_id@) && outlives(
        s.updated_at@,
        deletion_time(tombs, "subtask"@, s.sync_id@),
    )
}

/// A reminder survives: its to-do survives and it outlives its own deletion.
pub open spec fn reminder_kept(
    r: SyncReminder,
    active: Seq<SyncTodo>,
    tombs: Seq<SyncTombstone>,
) -> bool {
    has_key(active, r.todo_sync_id@) && outlives(
        r.updated_at@,
        deletion_time(tombs, "reminder"@, r.sync_id@),
    )
}

/// The surviving to-dos, in order.
pub open spec fn kept_todos(todos: Seq<SyncTodo>, tombs: Seq<SyncTombstone>) -> Seq<SyncTodo>
    decreases todos.len(),
{
    if todos.len() == 0 {
        seq![]
    } else {
        let p = kept_todos(todos.drop_last(), tombs);
        if todo_kept(todos.last(), tombs) {
            p.push(todos.last())
        } else {
            p
        }
    }
}

/// The surviving subtasks, in order.
pub open spec fn kept_subtasks(
    subs: Seq<SyncSubtask>,
    active: Seq<SyncTodo>,
    tombs: Seq<SyncTombstone>,
) -> Seq<SyncSubtask>
    decreases subs.len(),
{
    if subs.len() == 0 {
        seq![]
    } else {
        let p = kept_subtasks(subs.drop_last(), active, tombs);
        if subtask_kept(subs.last(), active, tombs) {
            p.push(subs.last())
        } else {
            p
        }
    }
}

/// The surviving reminders, in order.
pub open spec fn kept_reminders(
    rems: Seq<SyncReminder>,
    active: Seq<SyncTodo>,
    tombs: Seq<SyncTombstone>,
) -> Seq<SyncReminder>
    decreases rems.len(),
{
    if rems.len() == 0 {
        seq![]
    } else {
        let p = kept_reminders(rems.drop_last(), active, tombs);
        if reminder_kept(rems.last(), active, tombs) {
            p.push(rems.last())
        } else {
            p
        }
    }
}

/// Every surviving subtask meets the survival rule.
pub proof fn lemma_kept_subtasks_sound(
    subs: Seq<SyncSubtask>,
    active: Seq<SyncTodo>,
    tombs: Seq<SyncTombstone>,
)
    ensures
        forall|i: int|
            0 <= i < kept_subtasks(subs, active, tombs).len() ==> subtask_kept(
                #[trigger] kept_subtasks(subs, active, tombs)[i],
                active,
                tombs,
            ),
    decreases subs.len(),
{
    if subs.len() > 0 {
        lemma_kept_subtasks_sound(subs.drop_last(), active, tombs);
        let p = kept_subtasks(subs.drop_last(), active, tombs);
        assert forall|i: int| 0 <= i < p.len() implies kept_subtasks(subs, active, tombs)[i] == p[i] by {}
    }
}

/// Every surviving reminder meets the survival rule.
pub proof fn lemma_kept_reminders_sound(
    rems: Seq<SyncReminder>,
    active: Seq<SyncTodo>,
    tombs: Seq<SyncTombstone>,
)
    ensures
        forall|i: int|
            0 <= i < kept_reminders(rems, active, tombs).len() ==> reminder_kept(
                #[trigger] kept_reminders(rems, active, tombs)[i],
                active,
                tombs,
            ),
    decreases rems.len(),
{
    if rems.len() > 0 {
        lemma_kept_reminders_sound(rems.drop_last(), active, tombs);
        let p = kept_reminders(rems.drop_last(), active, tombs);
        assert forall|i: int| 0 <= i < p.len() implies kept_reminders(rems, active, tombs)[i] == p[i] by {}
    }
}

/// Every surviving to-do was updated after its deletion, if it has one.
pub proof fn lemma_kept_todos_sound(todos: Seq<SyncTodo>, tombs: Seq<SyncTombstone>)
    ensures
        forall|i: int|
            0 <= i < kept_todos(todos, tombs).len() ==> todo_kept(
                #[trigger] kept_todos(todos, tombs)[i],
                tombs,
            ),
    decreases todos.len(),
{
    if todos.len() > 0 {
        lemma_kept_todos_sound(todos.drop_last(), tombs);
        let p = kept_todos(todos.drop_last(), tombs);
        assert forall|i: int| 0 <= i < p.len() implies kept_todos(todos, tombs)[i] == p[i] by {}
    }
}

/// After deletion records are applied, every subtask and every reminder
/// belongs to a to-do that is still there, and every to-do that is still
/// there was updated after its deletion, if it has one.
pub proof fn lemma_tombstone_filters_keep_references(
    todos: Seq<SyncTodo>,
    subs: Seq<SyncSubtask>,
    rems: Seq<SyncReminder>,
    tombs: Seq<SyncTombstone>,
)
    ensures
        ({
            let kt = kept_todos(todos, tombs);
            &&& forall|i: int|
                0 <= i < kept_subtasks(subs, kt, tombs).len() ==> has_key(
                    kt,
                    (#[trigger] kept_subtasks(subs, kt, tombs)[i]).parent_todo_sync_id@,
                )
            &&& forall|i: int|
                0 <= i < kept_reminders(rems, kt, tombs).len() ==> has_key(
                    kt,
                    (#[trigger] kept_reminders(rems, kt, tombs)[i]).todo_sync_id@,
                )
            &&& forall|i: int| 0 <= i < kt.len() ==> todo_kept(#[trigger] kt[i], tombs)
        }),
{
    let kt = kept_todos(todos, tombs);
    lemma_kept_subtasks_sound(subs, kt, tombs);
    lemma_kept_reminders_sound(rems, kt, tombs);
    lemma_kept_todos_sound(todos, tombs);
}

proof fn lemma_kept_todos_all(todos: Seq<SyncTodo>, tombs: Seq<SyncTombstone>)
    requires
        forall|i: int| 0 <= i < todos.len() ==> todo_kept(#[trigger] todos[i], tombs),
    ensures
        kept_todos(todos, tombs) == todos,
    decreases todos.len(),
{
    if todos.len() > 0 {
        let p = todos.drop_last();
        assert forall|i: int| 0 <= i < p.len() implies todo_kept(#[trigger] p[i], tombs) by {
            assert(p[i] == todos[i]);
        }
        lemma_kept_todos_all(p, tombs);
        assert(todo_kept(todos[todos.len() - 1], tombs));
        assert(p.push(todos.last()) =~= todos);
    }
}

proof fn lemma_kept_subtasks_all(subs: Seq<SyncSubtask>, active: Seq<SyncTodo>, tombs: Seq<SyncTombstone>)
    requires
        forall|i: int| 0 <= i < subs.len() ==> subtask_kept(#[trigger] subs[i], active, tombs),
    ensures
        kept_subtasks(subs, active, tombs) == subs,
    decreases subs.len(),
{
    if subs.len() > 0 {
        let p = subs.drop_last();
        assert forall|i: int| 0 <= i < p.len() implies subtask_kept(#[trigger] p[i], active, tombs) by {
            assert(p[i] == subs[i]);
        }
        lemma_kept_subtasks_all(p, active, tombs);
        assert(subtask_kept(subs[subs.len() - 1], active, tombs));
        assert(p.push(subs.last()) =~= subs);
    }
}

proof fn lemma_kept_reminders_all(rems: Seq<SyncReminder>, active: Seq<SyncTodo>, tombs: Seq<SyncTombstone>)
    requires
        forall|i: int| 0 <= i < rems.len() ==> reminder_kept(#[trigger] rems[i], active, tombs),
    ensures
        kept_reminders(rems, active, tombs) == rems,
    decreases rems.len(),
{
    if rems.len() > 0 {
        let p = rems.drop_last();
        assert forall|i: int| 0 <= i < p.len() implies reminder_kept(#[trigger] p[i], active, tombs) by {
            assert(p[i] == rems[i]);
        }
        lemma_kept_reminders_all(p, active, tombs);
        assert(reminder_kept(rems[rems.len() - 1], active, tombs));
        assert(p.push(rems.last()) =~= rems);
    }
}

/// Applying the deletion records a second time changes nothing: what one
/// pass keeps of the to-dos, subtasks and reminders, a second pass (with
/// the same tombstones) keeps whole.
pub proof fn lemma_tombstone_filters_idempotent(
    todos: Seq<SyncTodo>,
    subs: Seq<SyncSubtask>,
    rems: Seq<SyncReminder>,
    tombs: Seq<SyncTombstone>,
)
    ensures
        ({
            let kt = kept_todos(todos, tombs);
            let ks = kept_subtasks(subs, kt, tombs);
            let kr = kept_reminders(rems, kt, tombs);
            &&& kept_todos(kt, tombs) == kt
            &&& kept_subtasks(ks, kept_todos(kt, tombs), tombs) == ks
            &&& kept_reminders(kr, kept_todos(kt, tombs), tombs) == kr
        }),
{
    let kt = kept_todos(todos, tombs);
    lemma_kept_todos_sound(todos, tombs);
    lemma_kept_todos_all(kt, tombs);
    lemma_kept_subtasks_sound(subs, kt, tombs);
    lemma_kept_subtasks_all(kept_subtasks(subs, kt, tombs), kt, tombs);
    lemma_kept_reminders_sound(rems, kt, tombs);
    lemma_kept_reminders_all(kept_reminders(rems, kt, tombs), kt, tombs);
}

/// Tombstone `j` is the last one of kind `entity` for the record `sid`.
pub open spec fn last_tombstone(tombs: Seq<SyncTombstone>, entity: Seq<char>, sid: Seq<char>, j: int) -> bool {
    &&& 0 <= j < tombs.len()
    &&& tombs[j].entity@ == entity
    &&& tombs[j].sync_id@ == sid
    &&& forall|k: int| j < k < tombs.len() ==> !(tombs[k].entity@ == entity && tombs[k].sync_id@ == sid)
}

/// A record stamped `stamp` was updated after its deletion (the last
/// tombstone of kind `entity` for `sid`), if it has one.
pub open spec fn updated_after_deletion(
    stamp: Seq<char>,
    tombs: Seq<SyncTombstone>,
    entity: Seq<char>,
    sid: Seq<char>,
) -> bool {
    forall|j: int| last_tombstone(tombs, entity, sid, j) ==> time_newer(stamp, tombs[j].deleted_at@)
}

/// Some to-do of `todos` has the synchronisation id `sid`.
pub open spec fn todo_present(todos: Seq<SyncTodo>, sid: Seq<char>) -> bool {
    exists|a: int| 0 <= a < todos.len() && todos[a].sync_id@ == sid
}

proof fn lemma_deletion_time_is_last(tombs: Seq<SyncTombstone>, entity: Seq<char>, sid: Seq<char>)
    ensures
        match deletion_time(tombs, entity, sid) {
            Some(d) => exists|j: int| last_tombstone(tombs, entity, sid, j) && tombs[j].deleted_at@ == d,
            None => forall|j: int| !last_tombstone(tombs, entity, sid, j),
        },
        forall|j1: int, j2: int|
            last_tombstone(tombs, entity, sid, j1) && last_tombstone(tombs, entity, sid, j2) ==> j1 == j2,
    decreases tombs.len(),
{
    assert forall|j1: int, j2: int|
        last_tombstone(tombs, entity, sid, j1) && last_tombstone(tombs, entity, sid, j2) implies j1 == j2 by {
        if j1 < j2 {
            assert(!(tombs[j2].entity@ == entity && tombs[j2].sync_id@ == sid));
        } else if j2 < j1 {
            assert(!(tombs[j1].entity@ == entity && tombs[j1].sync_id@ == sid));
        }
    }
    if tombs.len() > 0 {
        let p = tombs.drop_last();
        let n = tombs.len() - 1;
        if tombs.last().entity@ == entity && tombs.last().sync_id@ == sid {
            assert(last_tombstone(tombs, entity, sid, n));
        } else {
            lemma_deletion_time_is_last(p, entity, sid);
            assert forall|j: int| last_tombstone(p, entity, sid, j) implies last_tombstone(tombs, entity, sid, j) by {
                assert forall|k: int| j < k < tombs.len() implies !(tombs[k].entity@ == entity && tombs[k].sync_id@
                    == sid) by {
                    if k < n {
                        assert(tombs[k] == p[k]);
                    }
                }
            }
            assert forall|j: int| last_tombstone(tombs, entity, sid, j) implies last_tombstone(p, entity, sid, j) by {
                assert(j != n);
                assert forall|k: int| j < k < p.len() implies !(p[k].entity@ == entity && p[k].sync_id@ == sid) by {
                    assert(tombs[k] == p[k]);
                }
            }
            match deletion_time(p, entity, sid) {
                Some(d) => {
                    let j = choose|j: int| last_tombstone(p, entity, sid, j) && p[j].deleted_at@ == d;
                    assert(last_tombstone(tombs, entity, sid, j));
                },
                None => {},
            }
        }
    }
}

proof fn lemma_outlives_is_updated_after_deletion(
    stamp: Seq<char>,
    tombs: Seq<SyncTombstone>,
    entity: Seq<char>,
    sid: Seq<char>,
)
    ensures
        outlives(stamp, deletion_time(tombs, entity, sid)) == updated_after_deletion(stamp, tombs, entity, sid),
{
    lemma_deletion_time_is_last(tombs, entity, sid);
    match deletion_time(tombs, entity, sid) {
        Some(d) => {
            let j = choose|j: int| last_tombstone(tombs, entity, sid, j) && tombs[j].deleted_at@ == d;
            if updated_after_deletion(stamp, tombs, entity, sid) {
                assert(time_newer(stamp, tombs[j].deleted_at@));
            }
        },
        None => {},
    }
}

proof fn lemma_kept_todos_members(items: Seq<SyncTodo>, tombs: Seq<SyncTombstone>)
    ensures
        forall|i: int| 0 <= i < kept_todos(items, tombs).len() ==> items.contains(#[trigger] kept_todos(items, tombs)[i]),
        forall|i: int| 0 <= i < items.len() && todo_kept(#[trigger] items[i], tombs) ==> kept_todos(items, tombs).contains(items[i]),
    decreases items.len(),
{
    if items.len() > 0 {
        let p = items.drop_last();
        lemma_kept_todos_members(p, tombs);
        let k = kept_todos(items, tombs);
        let kp = kept_todos(p, tombs);
        assert forall|i: int| 0 <= i < k.len() implies items.contains(#[trigger] k[i]) by {
            if i < kp.len() {
                assert(k[i] == kp[i]);
                let j = choose|j: int| 0 <= j < p.len() && p[j] == kp[i];
                assert(items[j] == p[j]);
            } else {
                assert(k[i] == items[items.len() - 1]);
            }
        }
        assert forall|i: int| 0 <= i < items.len() && todo_kept(#[trigger] items[i], tombs) implies k.contains(items[i]) by {
            if i < p.len() {
                assert(items[i] == p[i]);
                assert(todo_kept(p[i], tombs));
                let j = choose|j: int| 0 <= j < kp.len() && kp[j] == p[i];
                assert(k[j] == kp[j]);
            } else {
                assert(k[k.len() - 1] == items[i]);
            }
        }
    }
}

proof fn lemma_kept_subtasks_members(items: Seq<SyncSubtask>, active: Seq<SyncTodo>, tombs: Seq<SyncTombstone>)
    ensures
        forall|i: int| 0 <= i < kept_subtasks(items, active, tombs).len() ==> items.contains(#[trigger] kept_subtasks(items, active, tombs)[i]),
        forall|i: int| 0 <= i < items.len() && subtask_kept(#[trigger] items[i], active, tombs) ==> kept_subtasks(items, active, tombs).contains(items[i]),
    decreases items.len(),
{
    if items.len() > 0 {
        let p = items.drop_last();
        lemma_kept_subtasks_members(p, active, tombs);
        let k = kept_subtasks(items, active, tombs);
        let kp = kept_subtasks(p, active, tombs);
        assert forall|i: int| 0 <= i < k.len() implies items.contains(#[trigger] k[i]) by {
            if i < kp.len() {
                assert(k[i] == kp[i]);
                let j = choose|j: int| 0 <= j < p.len() && p[j] == kp[i];
                assert(items[j] == p[j]);
            } else {
                assert(k[i] == items[items.len() - 1]);
            }
        }
        assert forall|i: int| 0 <= i < items.len() && subtask_kept(#[trigger] items[i], active, tombs) implies k.contains(items[i]) by {
            if i < p.len() {
                assert(items[i] == p[i]);
                assert(subtask_kept(p[i], active, tombs));
                let j = choose|j: int| 0 <= j < kp.len() && kp[j] == p[i];
                assert(k[j] == kp[j]);
            } else {
                assert(k[k.len() - 1] == items[i]);
            }
        }
    }
}

proof fn lemma_kept_reminders_members(items: Seq<SyncReminder>, active: Seq<SyncTodo>, tombs: Seq<SyncTombstone>)
    ensures
        forall|i: int| 0 <= i < kept_reminders(items, active, tombs).len() ==> items.contains(#[trigger] kept_reminders(items, active, tombs)[i]),
        forall|i: int| 0 <= i < items.len() && reminder_kept(#[trigger] items[i], active, tombs) ==> kept_reminders(items, active, tombs).contains(items[i]),
    decreases items.len(),
{
    if items.len() > 0 {
        let p = items.drop_last();
        lemma_kept_reminders_members(p, active, tombs);
        let k = kept_reminders(items, active, tombs);
        let kp = kept_reminders(p, active, tombs);
        assert forall|i: int| 0 <= i < k.len() implies items.contains(#[trigger] k[i]) by {
            if i < kp.len() {
                assert(k[i] == kp[i]);
                let j = choose|j: int| 0 <= j < p.len() && p[j] == kp[i];
                assert(items[j] == p[j]);
            } else {
                assert(k[i] == items[items.len() - 1]);
            }
        }
        assert forall|i: int| 0 <= i < items.len() && reminder_kept(#[trigger] items[i], active, tombs) implies k.contains(items[i]) by {
            if i < p.len() {
                assert(items[i] == p[i]);
                assert(reminder_kept(p[i], active, tombs));
                let j = choose|j: int| 0 <= j < kp.len() && kp[j] == p[i];
                assert(k[j] == kp[j]);
            } else {
                assert(k[k.len() - 1] == items[i]);
            }
        }
    }
}

/// Applying deletion records keeps exactly the records they allow, in
/// their order: a to-do survives exactly when it was updated after its
/// deletion (if it has one); a subtask or reminder exactly when its to-do
/// is among those kept and it was updated after its own deletion (if it
/// has one). Nothing else is kept.
pub proof fn lemma_tombstone_filters_keep_exactly_the_survivors(
    todos: Seq<SyncTodo>,
    subs: Seq<SyncSubtask>,
    rems: Seq<SyncReminder>,
    tombs: Seq<SyncTombstone>,
)
    ensures
        ({
            let kt = kept_todos(todos, tombs);
            let ks = kept_subtasks(subs, kt, tombs);
            let kr = kept_reminders(rems, kt, tombs);
            &&& forall|i: int|
                0 <= i < kt.len() ==> todos.contains(#[trigger] kt[i]) && updated_after_deletion(
                    kt[i].updated_at@,
                    tombs,
                    "todo"@,
                    kt[i].sync_id@,
                )
            &&& forall|i: int|
                0 <= i < todos.len() && updated_after_deletion(
                    (#[trigger] todos[i]).updated_at@,
                    tombs,
                    "todo"@,
                    todos[i].sync_id@,
                ) ==> kt.contains(todos[i])
            &&& forall|i: int|
                0 <= i < ks.len() ==> subs.contains(#[trigger] ks[i]) && todo_present(kt, ks[i].parent_todo_sync_id@)
                    && updated_after_deletion(ks[i].updated_at@, tombs, "subtask"@, ks[i].sync_id@)
            &&& forall|i: int|
                0 <= i < subs.len() && todo_present(kt, (#[trigger] subs[i]).parent_todo_sync_id@)
                    && updated_after_deletion(subs[i].updated_at@, tombs, "subtask"@, subs[i].sync_id@)
                    ==> ks.contains(subs[i])
            &&& forall|i: int|
                0 <= i < kr.len() ==> rems.contains(#[trigger] kr[i]) && todo_present(kt, kr[i].todo_sync_id@)
                    && updated_after_deletion(kr[i].updated_at@, tombs, "reminder"@, kr[i].sync_id@)
            &&& forall|i: int|
                0 <= i < rems.len() && todo_present(kt, (#[trigger] rems[i]).todo_sync_id@)
                    && updated_after_deletion(rems[i].updated_at@, tombs, "reminder"@, rems[i].sync_id@)
                    ==> kr.contains(rems[i])
        }),
{
    let kt = kept_todos(todos, tombs);
    let ks = kept_subtasks(subs, kt, tombs);
    let kr = kept_reminders(rems, kt, tombs);
    lemma_kept_todos_sound(todos, tombs);
    lemma_kept_subtasks_sound(subs, kt, tombs);
    lemma_kept_reminders_sound(rems, kt, tombs);
    lemma_kept_todos_members(todos, tombs);
    lemma_kept_subtasks_members(subs, kt, tombs);
    lemma_kept_reminders_members(rems, kt, tombs);
    assert forall|i: int| 0 <= i < kt.len() implies updated_after_deletion(
        (#[trigger] kt[i]).updated_at@,
        tombs,
        "todo"@,
        kt[i].sync_id@,
    ) by {
        lemma_outlives_is_updated_after_deletion(kt[i].updated_at@, tombs, "todo"@, kt[i].sync_id@);
    }
    assert forall|i: int|
        0 <= i < todos.len() && updated_after_deletion(
            (#[trigger] todos[i]).updated_at@,
            tombs,
            "todo"@,
            todos[i].sync_id@,
        ) implies kt.contains(todos[i]) by {
        lemma_outlives_is_updated_after_deletion(todos[i].updated_at@, tombs, "todo"@, todos[i].sync_id@);
    }
    assert forall|i: int| 0 <= i < ks.len() implies todo_present(kt, (#[trigger] ks[i]).parent_todo_sync_id@)
        && updated_after_deletion(ks[i].updated_at@, tombs, "subtask"@, ks[i].sync_id@) by {
        lemma_outlives_is_updated_after_deletion(ks[i].updated_at@, tombs, "subtask"@, ks[i].sync_id@);
        let a = choose|a: int| 0 <= a < kt.len() && (#[trigger] kt[a]).key_view() == ks[i].parent_todo_sync_id@;
        assert(kt[a].sync_id@ == ks[i].parent_todo_sync_id@);
    }
    assert forall|i: int|
        0 <= i < subs.len() && todo_present(kt, (#[trigger] subs[i]).parent_todo_sync_id@)
            && updated_after_deletion(subs[i].updated_at@, tombs, "subtask"@, subs[i].sync_id@)
            implies ks.contains(subs[i]) by {
        lemma_outlives_is_updated_after_deletion(subs[i].updated_at@, tombs, "subtask"@, subs[i].sync_id@);
        let a = choose|a: int| 0 <= a < kt.len() && kt[a].sync_id@ == subs[i].parent_todo_sync_id@;
        assert(kt[a].key_view() == subs[i].parent_todo_sync_id@);
    }
    assert forall|i: int| 0 <= i < kr.len() implies todo_present(kt, (#[trigger] kr[i]).todo_sync_id@)
        && updated_after_deletion(kr[i].updated_at@, tombs, "reminder"@, kr[i].sync_id@) by {
        lemma_outlives_is_updated_after_deletion(kr[i].updated_at@, tombs, "reminder"@, kr[i].sync_id@);
        let a = choose|a: int| 0 <= a < kt.len() && (#[trigger] kt[a]).key_view() == kr[i].todo_sync_id@;
        assert(kt[a].sync_id@ == kr[i].todo_sync_id@);
    }
    assert forall|i: int|
        0 <= i < rems.len() && todo_present(kt, (#[trigger] rems[i]).todo_sync_id@)
            && updated_after_deletion(rems[i].updated_at@, tombs, "reminder"@, rems[i].sync_id@)
            implies kr.contains(rems[i]) by {
        lemma_outlives_is_updated_after_deletion(rems[i].updated_at@, tombs, "reminder"@, rems[i].sync_id@);
        let a = choose|a: int| 0 <= a < kt.len() && kt[a].sync_id@ == rems[i].todo_sync_id@;
        assert(kt[a].key_view() == rems[i].todo_sync_id@);
    }
}

/// The time of the last tombstone of kind `entity` for `sid`.
fn find_deletion(tombs: &Vec<SyncTombstone>, entity: &str, sid: &String) -> (r: Option<String>)
    ensures
        opt_view(r) == deletion_time(tombs@, entity@, sid@),
{
    let mut i = tombs.len();
    assert(tombs@.take(i as int) =~= tombs@);
    while i > 0
        invariant
            i <= tombs@.len(),
            deletion_time(tombs@, entity@, sid@) == deletion_time(tombs@.take(i as int), entity@, sid@),
        decreases i,
    {
        let ghost t = tombs@.take(i as int);
        assert(t.drop_last() =~= tombs@.take(i - 1));
        assert(t.last() == tombs@[i - 1]);
        if str_eq(tombs[i - 1].entity.as_str(), entity) && tombs[i - 1].sync_id == *sid {
            return Some(tombs[i - 1].deleted_at.clone());
        }
        i = i - 1;
    }
    None
}

/// The view of an optional string.
pub open spec fn opt_view(o: Option<String>) -> Option<Seq<char>> {
    match o {
        Some(s) => Some(s@),
        None => None,
    }
}

/// Whether a record stamped `stamp` survives a deletion at `del`.
fn survives(stamp: &String, del: &Option<String>) -> (b: bool)
    ensures
        b == outlives(stamp@, opt_view(*del)),
{
    match del {
        None => true,
        Some(d) => is_time_newer(stamp.as_str(), d.as_str()),
    }
}

/// Whether some to-do of `todos` has id `sid`.
fn has_todo(todos: &Vec<SyncTodo>, sid: &String) -> (b: bool)
    ensures
        b == has_key(todos@, sid@),
{
    let mut i: usize = 0;
    while i < todos.len()
        invariant
            i <= todos@.len(),
            forall|k: int| 0 <= k < i ==> (#[trigger] todos@[k]).sync_id@ != sid@,
        decreases todos@.len() - i,
    {
        if todos[i].sync_id == *sid {
            return true;
        }
        i = i + 1;
    }
    false
}

/// Removes every record that a tombstone deletes (and was not updated after
/// it), and every subtask and reminder whose to-do is gone.
pub fn apply_tombstone_filters(data: &mut SyncData)
    ensures
        final(data).todos@ == kept_todos(old(data).todos@, old(data).tombstones@),
        final(data).subtasks@ == kept_subtasks(
            old(data).subtasks@,
            final(data).todos@,
            old(data).tombstones@,
        ),
        final(data).reminders@ == kept_reminders(
            old(data).reminders@,
            final(data).todos@,
            old(data).tombstones@,
        ),
        final(data).tombstones == old(data).tombstones,
        final(data).images == old(data).images,
        final(data).version == old(data).version,
        final(data).device_id == old(data).device_id,
        final(data).updated_at == old(data).updated_at,
        final(data).manifest == old(data).manifest,
{
    let ghost tombs = data.tombstones@;
    // to-dos
    let mut todos: Vec<SyncTodo> = Vec::new();
    std::mem::swap(&mut todos, &mut data.todos);
    let ghost all_t = todos@;
    let mut kept_t: Vec<SyncTodo> = Vec::new();
    let mut k: usize = 0;
    let n = todos.len();
    assert(all_t.skip(0) =~= all_t);
    while todos.len() > 0
        invariant
            k <= all_t.len(),
            all_t.len() == n,
            todos@ == all_t.skip(k as int),
            kept_t@ == kept_todos(all_t.take(k as int), tombs),
            data.tombstones@ == tombs,
        decreases todos@.len(),
    {
        let t = todos.remove(0);
        proof {
            assert(t == all_t[k as int]);
            assert(all_t.take(k + 1).drop_last() =~= all_t.take(k as int));
            assert(all_t.take(k + 1).last() == all_t[k as int]);
        }
        let del = find_deletion(&data.tombstones, "todo", &t.sync_id);
        if survives(&t.updated_at, &del) {
            kept_t.push(t);
        }
        k = k + 1;
        assert(todos@ =~= all_t.skip(k as int));
    }
    assert(all_t.take(k as int) =~= all_t);
    // subtasks
    let mut subs: Vec<SyncSubtask> = Vec::new();
    std::mem::swap(&mut subs, &mut data.subtasks);
    let ghost all_s = subs@;
    let mut kept_s: Vec<SyncSubtask> = Vec::new();
    let mut k: usize = 0;
    let n = subs.len();
    assert(all_s.skip(0) =~= all_s);
    while subs.len() > 0
        invariant
            k <= all_s.len(),
            all_s.len() == n,
            subs@ == all_s.skip(k as int),
            kept_s@ == kept_subtasks(all_s.take(k as int), kept_t@, tombs),
            data.tombstones@ == tombs,
        decreases subs@.len(),
    {
        let s = subs.remove(0);
        proof {
            assert(s == all_s[k as int]);
            assert(all_s.take(k + 1).drop_last() =~= all_s.take(k as int));
            assert(all_s.take(k + 1).last() == all_s[k as int]);
        }
        if has_todo(&kept_t, &s.parent_todo_sync_id) {
            let del = find_deletion(&data.tombstones, "subtask", &s.sync_id);
            if survives(&s.updated_at, &del) {
                kept_s.push(s);
            }
        }
        k = k + 1;
        assert(subs@ =~= all_s.skip(k as int));
    }
    assert(all_s.take(k as int) =~= all_s);
    // reminders
    let mut rems: Vec<SyncReminder> = Vec::new();
    std::mem::swap(&mut rems, &mut data.reminders);
    let ghost all_r = rems@;
    let mut kept_r: Vec<SyncReminder> = Vec::new();
    let mut k: usize = 0;
    let n = rems.len();
    assert(all_r.skip(0) =~= all_r);
    while rems.len() > 0
        invariant
            k <= all_r.len(),
            all_r.len() == n,
            rems@ == all_r.skip(k as int),
            kept_r@ == kept_reminders(all_r.take(k as int), kept_t@, tombs),
            data.tombstones@ == tombs,
        decreases rems@.len(),
    {
        let r = rems.remove(0);
        proof {
            assert(r == all_r[k as int]);
            assert(all_r.take(k + 1).drop_last() =~= all_r.take(k as int));
            assert(all_r.take(k + 1).last() == all_r[k as int]);
        }
        if has_todo(&kept_t, &r.todo_sync_id) {
            let del = find_deletion(&data.tombstones, "reminder", &r.sync_id);
            if survives(&r.updated_at, &del) {
                kept_r.push(r);
            }
        }
        k = k + 1;
        assert(rems@ =~= all_r.skip(k as int));
    }
    assert(all_r.take(k as int) =~= all_r);
    data.todos = kept_t;
    data.subtasks = kept_s;
    data.reminders = kept_r;
}

// ---------------------------------------------------------------------
// Image lists
// ---------------------------------------------------------------------
/// Strictly increasing in the order of `str`: sorted, with no repeats.
pub open spec fn sorted_strict(s: Seq<Seq<char>>) -> bool {
    forall|i: int, j: int| 0 <= i < j < s.len() ==> lex_lt(#[trigger] s[i], #[trigger] s[j])
}

/// Inserts `x` into a strictly sorted list unless it is already there.
fn insert_sorted(v: &mut Vec<String>, x: String)
    requires
        sorted_strict(strs(old(v)@)),
    ensures
        sorted_strict(strs(final(v)@)),
        forall|y: Seq<char>|
            strs(final(v)@).contains(y) <==> (strs(old(v)@).contains(y) || y == x@),
{
    let ghost s0 = strs(v@);
    let xv = crate::text::chars_of(x.as_str());
    let mut p: usize = 0;
    while p < v.len() && chars_lt(crate::text::chars_of(v[p].as_str()).as_slice(), xv.as_slice())
        invariant
            p <= v@.len(),
            s0 == strs(v@),
            xv@ == x@,
            forall|i: int| 0 <= i < p ==> lex_lt(#[trigger] s0[i], x@),
        decreases v@.len() - p,
    {
        p = p + 1;
    }
    if p < v.len() && v[p] == x {
        proof {
            assert(s0[p as int] == x@);
        }
        return;
    }
    proof {
        if p < v@.len() {
            lemma_lex_lt_total(s0[p as int], x@);
        }
    }
    v.insert(p, x);
    proof {
        let s1 = strs(v@);
        assert(s1 =~= s0.insert(p as int, x@));
        assert forall|i: int, j: int| 0 <= i < j < s1.len() implies lex_lt(
            #[trigger] s1[i],
            #[trigger] s1[j],
        ) by {
            if j < p {
                assert(s1[i] == s0[i] && s1[j] == s0[j]);
            } else if j == p {
                assert(s1[i] == s0[i]);
            } else if i < p {
                assert(s1[i] == s0[i] && s1[j] == s0[j - 1]);
                if j - 1 > p {
                    assert(lex_lt(s0[p as int], s0[j - 1]));
                    lemma_lex_lt_transitive(x@, s0[p as int], s0[j - 1]);
                }
                lemma_lex_lt_transitive(s0[i], x@, s0[j - 1]);
            } else if i == p {
                assert(s1[j] == s0[j - 1]);
                if j - 1 > p {
                    assert(lex_lt(s0[p as int], s0[j - 1]));
                    lemma_lex_lt_transitive(x@, s0[p as int], s0[j - 1]);
                }
            } else {
                assert(s1[i] == s0[i - 1] && s1[j] == s0[j - 1]);
            }
        }
        assert forall|y: Seq<char>| s1.contains(y) <==> (s0.contains(y) || y == x@) by {
            if s1.contains(y) {
                let i = choose|i: int| 0 <= i < s1.len() && s1[i] == y;
                if i < p {
                    assert(s0[i] == y);
                } else if i > p {
                    assert(s0[i - 1] == y);
                }
            }
            if s0.contains(y) {
                let i = choose|i: int| 0 <= i < s0.len() && s0[i] == y;
                if i < p {
                    assert(s1[i] == y);
                } else {
                    assert(s1[i + 1] == y);
                }
            }
            if y == x@ {
                assert(s1[p as int] == y);
            }
        }
    }
}

/// The names of both lists together, sorted, each once.
pub fn sorted_union(a: Vec<String>, b: Vec<String>) -> (r: Vec<String>)
    ensures
        sorted_strict(strs(r@)),
        forall|y: Seq<char>|
            strs(r@).contains(y) <==> (strs(a@).contains(y) || strs(b@).contains(y)),
{
    let mut r: Vec<String> = Vec::new();
    let ghost sa = strs(a@);
    let ghost sb = strs(b@);
    let mut rest = a;
    let n = rest.len();
    let mut k: usize = 0;
    assert(sa.skip(0) =~= sa);
    while rest.len() > 0
        invariant
            k <= n,
            sa.len() == n,
            strs(rest@) == sa.skip(k as int),
            rest@.len() + k == n,
            sorted_strict(strs(r@)),
            forall|y: Seq<char>| strs(r@).contains(y) <==> sa.take(k as int).contains(y),
        decreases rest@.len(),
    {
        assert(strs(rest@)[0] == sa.skip(k as int)[0]);
        let ghost before = rest@;
        let x = rest.remove(0);
        proof {
            assert(x@ == sa[k as int]);
        }
        insert_sorted(&mut r, x);
        k = k + 1;
        proof {
            assert forall|i: int| 0 <= i < strs(rest@).len() implies strs(rest@)[i] == sa.skip(k as int)[i] by {
                assert(rest@[i] == before[i + 1]);
                assert(strs(before)[i + 1] == sa.skip(k - 1)[i + 1]);
            }
            assert(strs(rest@) =~= sa.skip(k as int));
            let pre = sa.take(k - 1);
            let cur = sa.take(k as int);
            let last = sa[k - 1];
            assert forall|y: Seq<char>| cur.contains(y) <==> (pre.contains(y) || y == last) by {
                if cur.contains(y) {
                    let i = choose|i: int| 0 <= i < cur.len() && cur[i] == y;
                    if i < pre.len() {
                        assert(pre[i] == y);
                    }
                }
                if pre.contains(y) {
                    let i = choose|i: int| 0 <= i < pre.len() && pre[i] == y;
                    assert(cur[i] == y);
                }
                if y == last {
                    assert(cur[pre.len() as int] == y);
                }
            }
        }
    }
    assert(sa.take(k as int) =~= sa);
    let mut rest = b;
    let n = rest.len();
    let mut k: usize = 0;
    assert(sb.skip(0) =~= sb);
    while rest.len() > 0
        invariant
            k <= n,
            sb.len() == n,
            strs(rest@) == sb.skip(k as int),
            rest@.len() + k == n,
            sorted_strict(strs(r@)),
            forall|y: Seq<char>| strs(r@).contains(y) <==> (sa.contains(y) || sb.take(k as int).contains(y)),
        decreases rest@.len(),
    {
        assert(strs(rest@)[0] == sb.skip(k as int)[0]);
        let ghost before = rest@;
        let x = rest.remove(0);
        proof {
            assert(x@ == sb[k as int]);
        }
        let ghost xv = x@;
        let ghost r0 = strs(r@);
        let ghost pre0 = sb.take(k as int);
        assert forall|y: Seq<char>| r0.contains(y) <==> (sa.contains(y) || pre0.contains(y)) by {
            assert(strs(r@).contains(y) <==> (sa.contains(y) || sb.take(k as int).contains(y)));
        }
        insert_sorted(&mut r, x);
        k = k + 1;
        proof {
            assert forall|i: int| 0 <= i < strs(rest@).len() implies strs(rest@)[i] == sb.skip(k as int)[i] by {
                assert(rest@[i] == before[i + 1]);
                assert(strs(before)[i + 1] == sb.skip(k - 1)[i + 1]);
            }
            assert(strs(rest@) =~= sb.skip(k as int));
            let pre = sb.take(k - 1);
            let cur = sb.take(k as int);
            let last = sb[k - 1];
            assert forall|y: Seq<char>| cur.contains(y) <==> (pre.contains(y) || y == last) by {
                if cur.contains(y) {
                    let i = choose|i: int| 0 <= i < cur.len() && cur[i] == y;
                    if i < pre.len() {
                        assert(pre[i] == y);
                    }
                }
                if pre.contains(y) {
                    let i = choose|i: int| 0 <= i < pre.len() && pre[i] == y;
                    assert(cur[i] == y);
                }
                if y == last {
                    assert(cur[pre.len() as int] == y);
                }
            }
            assert forall|y: Seq<char>| strs(r@).contains(y) <==> (sa.contains(y) || cur.contains(y)) by {
                assert(strs(r@).contains(y) <==> (r0.contains(y) || y == xv));
                assert(pre0 == pre);
                assert(r0.contains(y) <==> (sa.contains(y) || pre.contains(y)));
            }
        }
    }
    assert(sb.take(k as int) =~= sb);
    r
}

// ---------------------------------------------------------------------
// Snapshots and manifests
// ---------------------------------------------------------------------
/// A manifest with nothing in it (the value of a snapshot whose manifest is
/// yet to be built).
pub open spec fn is_empty_manifest(m: SyncManifest) -> bool {
    &&& m.version@ == Seq::<char>::empty()
    &&& m.schema_version == 0
    &&& m.updated_at@ == Seq::<char>::empty()
    &&& m.updated_by_device_id@ == Seq::<char>::empty()
    &&& m.files@.len() == 0
}

/// A manifest with nothing in it.
pub fn empty_manifest() -> (m: SyncManifest)
    ensures
        is_empty_manifest(m),
{
    SyncManifest {
        version: String::new(),
        schema_version: 0,
        updated_at: String::new(),
        updated_by_device_id: String::new(),
        files: Vec::new(),
    }
}

/// The schema version that manifests carry.
pub const SYNC_SCHEMA_VERSION: i32 = 4;

/// A manifest entry describes the file `path` holding `json` with `count` records.
pub open spec fn manifest_file_is(
    f: ManifestFile,
    path: Seq<char>,
    json: Seq<char>,
    updated_at: Seq<char>,
    count: int,
) -> bool {
    &&& f.path@ == path
    &&& f.sha256@ == text_hash(json)
    &&& f.updated_at@ == updated_at
    &&& f.count == count
}

/// The manifest of a snapshot whose parts have the JSON texts `parts`.
pub open spec fn manifest_of(m: SyncManifest, data: SyncData, parts: UploadParts) -> bool {
    &&& m.version@ == data.version@
    &&& m.schema_version == SYNC_SCHEMA_VERSION
    &&& m.updated_at@ == data.updated_at@
    &&& m.updated_by_device_id@ == data.device_id@
    &&& m.files@.len() == 5
    &&& manifest_file_is(
        m.files@[0],
        "reminders.json"@,
        parts.reminders_json@,
        data.updated_at@,
        data.reminders@.len() as int,
    )
    &&& manifest_file_is(m.files@[1], "settings.json"@, parts.settings_json@, data.updated_at@, 1)
    &&& manifest_file_is(
        m.files@[2],
        "subtasks.json"@,
        parts.subtasks_json@,
        data.updated_at@,
        data.subtasks@.len() as int,
    )
    &&& manifest_file_is(
        m.files@[3],
        "todos.json"@,
        parts.todos_json@,
        data.updated_at@,
        data.todos@.len() as int,
    )
    &&& manifest_file_is(
        m.files@[4],
        "tombstones.json"@,
        parts.tombstones_json@,
        data.updated_at@,
        data.tombstones@.len() as int,
    )
}

fn manifest_file(path: &str, json: &String, updated_at: &String, count: usize) -> (f: ManifestFile)
    ensures
        manifest_file_is(f, path@, json@, updated_at@, count as int),
{
    ManifestFile {
        path: owned(path),
        sha256: hash_text(json.as_str()),
        updated_at: updated_at.clone(),
        count,
    }
}

/// Describes a snapshot: one entry per part file, ordered by path, each
/// with the SHA-256 of the part's JSON text and its record count.
pub fn build_manifest(data: &SyncData, parts: &UploadParts) -> (m: SyncManifest)
    ensures
        manifest_of(m, *data, *parts),
{
    let mut files: Vec<ManifestFile> = Vec::new();
    files.push(manifest_file("reminders.json", &parts.reminders_json, &data.updated_at, data.reminders.len()));
    files.push(manifest_file("settings.json", &parts.settings_json, &data.updated_at, 1));
    files.push(manifest_file("subtasks.json", &parts.subtasks_json, &data.updated_at, data.subtasks.len()));
    files.push(manifest_file("todos.json", &parts.todos_json, &data.updated_at, data.todos.len()));
    files.push(manifest_file("tombstones.json", &parts.tombstones_json, &data.updated_at, data.tombstones.len()));
    SyncManifest {
        version: data.version.clone(),
        schema_version: SYNC_SCHEMA_VERSION,
        updated_at: data.updated_at.clone(),
        updated_by_device_id: data.device_id.clone(),
        files,
    }
}

/// A record stamped as written by device `device_id`, at revision 1.
pub open spec fn stamped_todo(x: SyncTodo, device_id: String) -> SyncTodo {
    SyncTodo { updated_by_device_id: device_id, revision: 1, ..x }
}

fn stamp_todos(items: Vec<SyncTodo>, device_id: &String) -> (r: Vec<SyncTodo>)
    ensures
        r@ == items@.map_values(|x: SyncTodo| stamped_todo(x, *device_id)),
{
    let ghost given = items@;
    let mut rest = items;
    let mut out: Vec<SyncTodo> = Vec::new();
    while rest.len() > 0
        invariant
            given == given.take(out@.len() as int) + rest@,
            out@ == given.take(out@.len() as int).map_values(|x: SyncTodo| stamped_todo(x, *device_id)),
            out@.len() <= given.len(),
        decreases rest@.len(),
    {
        let ghost k = out@.len() as int;
        proof {
            assert(rest@[0] == given[k]);
        }
        let mut x = rest.remove(0);
        x.updated_by_device_id = device_id.clone();
        x.revision = 1;
        out.push(x);
        proof {
            assert(given =~= given.take(k + 1) + rest@);
            assert(out@ =~= given.take(k + 1).map_values(|x: SyncTodo| stamped_todo(x, *device_id)));
        }
    }
    assert(given.take(given.len() as int) =~= given);
    out
}

/// A record stamped as written by device `device_id`, at revision 1.
pub open spec fn stamped_subtask(x: SyncSubtask, device_id: String) -> SyncSubtask {
    SyncSubtask { updated_by_device_id: device_id, revision: 1, ..x }
}

fn stamp_subtasks(items: Vec<SyncSubtask>, device_id: &String) -> (r: Vec<SyncSubtask>)
    ensures
        r@ == items@.map_values(|x: SyncSubtask| stamped_subtask(x, *device_id)),
{
    let ghost given = items@;
    let mut rest = items;
    let mut out: Vec<SyncSubtask> = Vec::new();
    while rest.len() > 0
        invariant
            given == given.take(out@.len() as int) + rest@,
            out@ == given.take(out@.len() as int).map_values(|x: SyncSubtask| stamped_subtask(x, *device_id)),
            out@.len() <= given.len(),
        decreases rest@.len(),
    {
        let ghost k = out@.len() as int;
        proof {
            assert(rest@[0] == given[k]);
        }
        let mut x = rest.remove(0);
        x.updated_by_device_id = device_id.clone();
        x.revision = 1;
        out.push(x);
        proof {
            assert(given =~= given.take(k + 1) + rest@);
            assert(out@ =~= given.take(k + 1).map_values(|x: SyncSubtask| stamped_subtask(x, *device_id)));
        }
    }
    assert(given.take(given.len() as int) =~= given);
    out
}

/// A record stamped as written by device `device_id`, at revision 1.
pub open spec fn stamped_reminder(x: SyncReminder, device_id: String) -> SyncReminder {
    SyncReminder { updated_by_device_id: device_id, revision: 1, ..x }
}

fn stamp_reminders(items: Vec<SyncReminder>, device_id: &String) -> (r: Vec<SyncReminder>)
    ensures
        r@ == items@.map_values(|x: SyncReminder| stamped_reminder(x, *device_id)),
{
    let ghost given = items@;
    let mut rest = items;
    let mut out: Vec<SyncReminder> = Vec::new();
    while rest.len() > 0
        invariant
            given == given.take(out@.len() as int) + rest@,
            out@ == given.take(out@.len() as int).map_values(|x: SyncReminder| stamped_reminder(x, *device_id)),
            out@.len() <= given.len(),
        decreases rest@.len(),
    {
        let ghost k = out@.len() as int;
        proof {
            assert(rest@[0] == given[k]);
        }
        let mut x = rest.remove(0);
        x.updated_by_device_id = device_id.clone();
        x.revision = 1;
        out.push(x);
        proof {
            assert(given =~= given.take(k + 1) + rest@);
            assert(out@ =~= given.take(k + 1).map_values(|x: SyncReminder| stamped_reminder(x, *device_id)));
        }
    }
    assert(given.take(given.len() as int) =~= given);
    out
}

/// The snapshot of the local data: version 4.0, stamped now by this device,
/// every record stamped as this device's at revision 1, the image names
/// sorted (each once), and its manifest still to be built.
pub fn assemble_local_snapshot(
    device_id: &String,
    now: String,
    todos: Vec<SyncTodo>,
    subtasks: Vec<SyncSubtask>,
    reminders: Vec<SyncReminder>,
    tombstones: Vec<SyncTombstone>,
    images: Vec<String>,
) -> (d: SyncData)
    ensures
        d.version@ == "4.0"@,
        d.device_id@ == device_id@,
        d.updated_at@ == now@,
        is_empty_manifest(d.manifest),
        d.todos@ == todos@.map_values(|x: SyncTodo| stamped_todo(x, *device_id)),
        d.subtasks@ == subtasks@.map_values(|x: SyncSubtask| stamped_subtask(x, *device_id)),
        d.reminders@ == reminders@.map_values(|x: SyncReminder| stamped_reminder(x, *device_id)),
        d.tombstones == tombstones,
        sorted_strict(strs(d.images@)),
        forall|y: Seq<char>| strs(d.images@).contains(y) <==> strs(images@).contains(y),
{
    SyncData {
        version: owned("4.0"),
        device_id: device_id.clone(),
        updated_at: now,
        manifest: empty_manifest(),
        todos: stamp_todos(todos, device_id),
        subtasks: stamp_subtasks(subtasks, device_id),
        reminders: stamp_reminders(reminders, device_id),
        settings: SharedSettings {},
        tombstones,
        images: sorted_union(images, Vec::new()),
    }
}

/// What merging a remote snapshot into a local one gives, apart from the
/// time stamp and the manifest.
pub open spec fn merged_snapshot(r: SyncData, local: SyncData, remote: SyncData, device_id: Seq<char>) -> bool {
    let tombs = merged_tombstones(local.tombstones@, remote.tombstones@);
    let todos = kept_todos(merged_by_updated_at(local.todos@, remote.todos@), tombs);
    &&& r.version@ == "4.0"@
    &&& r.device_id@ == device_id
    &&& r.tombstones@ == tombs
    &&& r.todos@ == todos
    &&& r.subtasks@ == kept_subtasks(merged_by_updated_at(local.subtasks@, remote.subtasks@), todos, tombs)
    &&& r.reminders@ == kept_reminders(merged_by_updated_at(local.reminders@, remote.reminders@), todos, tombs)
    &&& sorted_strict(strs(r.images@))
    &&& forall|y: Seq<char>|
        strs(r.images@).contains(y) <==> (strs(local.images@).contains(y) || strs(remote.images@).contains(y))
}

/// Merges the remote snapshot (if any) into the local one for this device.
/// Without a remote snapshot the local one is kept and re-stamped. With one,
/// records are merged (newer copy wins), tombstones merged (newer deletion
/// wins), images united, and the tombstones then applied. The result is
/// stamped with the current time; its manifest is left empty for
/// `build_manifest` to fill from the parts' JSON texts.
pub fn merge_snapshots(local: SyncData, remote: Option<SyncData>, device_id: &str) -> (r: SyncData)
    ensures
        is_empty_manifest(r.manifest),
        is_db_time(r.updated_at@),
        remote is None ==> {
            &&& r.version == local.version
            &&& r.device_id@ == device_id@
            &&& r.todos == local.todos
            &&& r.subtasks == local.subtasks
            &&& r.reminders == local.reminders
            &&& r.tombstones == local.tombstones
            &&& r.images == local.images
        },
        remote matches Some(rm) ==> merged_snapshot(r, local, rm, device_id@),
{
    match remote {
        None => {
            let mut local = local;
            local.updated_at = now_db_time();
            local.device_id = owned(device_id);
            local.manifest = empty_manifest();
            local
        },
        Some(remote) => {
            let ghost l = local;
            let ghost rm = remote;
            let tombstones = merge_tombstones(local.tombstones, remote.tombstones);
            let mut merged = SyncData {
                version: owned("4.0"),
                device_id: owned(device_id),
                updated_at: now_db_time(),
                manifest: empty_manifest(),
                todos: merge_by_updated_at(local.todos, remote.todos),
                subtasks: merge_by_updated_at(local.subtasks, remote.subtasks),
                reminders: merge_by_updated_at(local.reminders, remote.reminders),
                settings: SharedSettings {},
                tombstones,
                images: sorted_union(local.images, remote.images),
            };
            apply_tombstone_filters(&mut merged);
            merged
        },
    }
}

} // verus!
