//! Reminder notifications: which settings apply, which reminders are due and
//! in what order, and what each notification shows.
use crate::models::stored_text;
use crate::store::{read_string, table_view, SettingEntry};
use crate::text::{
    chars_lt, chars_of, lemma_lex_lt_asymmetric, lemma_lex_lt_transitive, lex_lt, nat_decimal,
    push_all, str_eq, string_from_chars, u64_digits,
};
use vstd::prelude::*;

verus! {

broadcast use vstd::string::group_string_axioms;

/// Where in-app notifications stack up on the screen.
#[derive(PartialEq, Eq, Structural, Clone, Copy, Debug)]
pub enum AppNotificationPosition {
    BottomRight,
    BottomLeft,
    TopRight,
    TopLeft,
}

/// The position a stored setting names; anything unknown is bottom right.
pub open spec fn position_of(v: Seq<char>) -> AppNotificationPosition {
    if v == "bottom_left"@ {
        AppNotificationPosition::BottomLeft
    } else if v == "top_right"@ {
        AppNotificationPosition::TopRight
    } else if v == "top_left"@ {
        AppNotificationPosition::TopLeft
    } else {
        AppNotificationPosition::BottomRight
    }
}

impl AppNotificationPosition {
    /// Reads a stored position setting.
    pub fn from_setting(value: &str) -> (r: Self)
        ensures
            r == position_of(value@),
    {
        if str_eq(value, "bottom_left") {
            AppNotificationPosition::BottomLeft
        } else if str_eq(value, "top_right") {
            AppNotificationPosition::TopRight
        } else if str_eq(value, "top_left") {
            AppNotificationPosition::TopLeft
        } else {
            AppNotificationPosition::BottomRight
        }
    }

    /// Whether notifications stack down from the top of the work area.
    pub fn is_top(&self) -> (b: bool)
        ensures
            b == (*self == AppNotificationPosition::TopRight || *self == AppNotificationPosition::TopLeft),
    {
        match self {
            AppNotificationPosition::TopRight | AppNotificationPosition::TopLeft => true,
            _ => false,
        }
    }

    /// Whether notifications sit at the left edge of the work area.
    pub fn is_left(&self) -> (b: bool)
        ensures
            b == (*self == AppNotificationPosition::BottomLeft || *self
                == AppNotificationPosition::TopLeft),
    {
        match self {
            AppNotificationPosition::BottomLeft | AppNotificationPosition::TopLeft => true,
            _ => false,
        }
    }
}

/// A reminder with what the database says of it and of its to-do.
#[derive(Clone, Debug)]
pub struct ReminderCandidate {
    pub reminder_id: i64,
    pub title: String,
    pub description: Option<String>,
    /// The reminder time as stored.
    pub notify_at: String,
    pub todo_completed: bool,
    pub notified: bool,
    /// The reminder time has come (in local time).
    pub due: bool,
}

/// A reminder to show now.
#[derive(Clone, Debug)]
pub struct PendingNotification {
    pub reminder_id: i64,
    pub title: String,
    pub description: Option<String>,
}

/// What to show for one reminder.
#[derive(Clone, Debug)]
pub enum NotificationPlan {
    /// A notification of the operating system.
    System { title: String, body: String },
    /// A notification window of the app, opened at `url` under `label`.
    App { label: String, url: String },
}

/// The service that shows reminder notifications.
#[derive(Clone, Debug)]
pub struct NotificationService;

/// A reminder is shown when its to-do is open, it has not been shown and its time has come.
pub open spec fn is_pending(c: ReminderCandidate) -> bool {
    !c.todo_completed && !c.notified && c.due
}

/// The reminders to show, in the given order.
pub open spec fn pending_rows(s: Seq<ReminderCandidate>) -> Seq<ReminderCandidate>
    decreases s.len(),
{
    if s.len() == 0 {
        seq![]
    } else if is_pending(s.last()) {
        pending_rows(s.drop_last()).push(s.last())
    } else {
        pending_rows(s.drop_last())
    }
}

/// A reminder row after reminder `id` is marked as shown.
pub open spec fn marked(c: ReminderCandidate, id: i64) -> ReminderCandidate {
    if c.reminder_id == id {
        ReminderCandidate { notified: true, ..c }
    } else {
        c
    }
}

/// Reminder rows after reminder `id` is marked as shown.
pub open spec fn marked_rows(s: Seq<ReminderCandidate>, id: i64) -> Seq<ReminderCandidate>
    decreases s.len(),
{
    if s.len() == 0 {
        seq![]
    } else {
        marked_rows(s.drop_last(), id).push(marked(s.last(), id))
    }
}

/// Once a reminder is marked as shown, it is no longer among the reminders
/// to show, and every other reminder to show stays so, in the same order.
pub proof fn lemma_marked_reminder_not_pending(s: Seq<ReminderCandidate>, id: i64)
    ensures
        forall|i: int|
            0 <= i < pending_rows(marked_rows(s, id)).len() ==> #[trigger] pending_rows(marked_rows(s, id))[i].reminder_id
                != id,
        pending_rows(marked_rows(s, id)) == pending_rows(s).filter(|c: ReminderCandidate| c.reminder_id != id),
    decreases s.len(),
{
    if s.len() > 0 {
        lemma_marked_reminder_not_pending(s.drop_last(), id);
        let m = marked_rows(s, id);
        assert(m.drop_last() =~= marked_rows(s.drop_last(), id));
        assert(m.last() == marked(s.last(), id));
        let p = pending_rows(s.drop_last());
        if is_pending(s.last()) {
            assert(pending_rows(s) == p.push(s.last()));
            p.lemma_filter_push(s.last(), |c: ReminderCandidate| c.reminder_id != id);
        } else {
            assert(pending_rows(s) == p);
        }
    }
}

/// The notifications shown for reminders, in order.
pub open spec fn notifications_of(o: Seq<ReminderCandidate>) -> Seq<PendingNotification> {
    o.map_values(|c: ReminderCandidate| pending_of(c))
}

/// Showing a reminder and marking it keeps it from being shown again:
/// whatever notifications the reminders give once reminder `id` is marked
/// (any order of them that `get_pending_notifications` may return), none
/// is for `id`.
pub proof fn lemma_marked_reminder_not_notified_again(
    rows: Seq<ReminderCandidate>,
    id: i64,
    o: Seq<ReminderCandidate>,
)
    requires
        o.to_multiset() == pending_rows(marked_rows(rows, id)).to_multiset(),
    ensures
        forall|i: int| 0 <= i < o.len() ==> (#[trigger] notifications_of(o)[i]).reminder_id != id,
{
    broadcast use vstd::seq_lib::group_to_multiset_ensures;

    let p = pending_rows(marked_rows(rows, id));
    lemma_marked_reminder_not_pending(rows, id);
    assert forall|i: int| 0 <= i < o.len() implies (#[trigger] notifications_of(o)[i]).reminder_id != id by {
        assert(o.contains(o[i]));
        assert(o.to_multiset().count(o[i]) > 0);
        assert(p.contains(o[i]));
        let j = choose|j: int| 0 <= j < p.len() && p[j] == o[i];
        assert(p[j].reminder_id != id);
    }
}

/// Ordered by reminder time, earliest first.
pub open spec fn by_time(s: Seq<ReminderCandidate>) -> bool {
    forall|i: int, j: int| 0 <= i < j < s.len() ==> !lex_lt(s[j].notify_at@, s[i].notify_at@)
}

/// The notification shown for a reminder.
pub open spec fn pending_of(c: ReminderCandidate) -> PendingNotification {
    PendingNotification { reminder_id: c.reminder_id, title: c.title, description: c.description }
}

/// The text of a notification: the description, or a default.
pub open spec fn body_of(description: Option<String>) -> Seq<char> {
    match description {
        Some(d) => d@,
        None => "待办事项提醒"@,
    }
}

/// A byte that URL encoding keeps as it is: an ASCII letter or digit, or
/// one of `-`, `.`, `_`, `~`.
pub open spec fn url_safe_byte(b: u8) -> bool {
    (48 <= b <= 57) || (65 <= b <= 90) || (97 <= b <= 122) || b == 45 || b == 46 || b == 95 || b == 126
}

/// An upper-case hexadecimal digit.
pub open spec fn upper_hex_digit(n: u8) -> char {
    if n < 10 {
        (n + 48) as char
    } else {
        (n + 55) as char
    }
}

/// One byte URL-encoded: itself when safe, else `%` and two upper-case
/// hexadecimal digits.
pub open spec fn url_encoded_byte(b: u8) -> Seq<char> {
    if url_safe_byte(b) {
        seq![b as char]
    } else {
        seq!['%', upper_hex_digit(b / 16), upper_hex_digit(b % 16)]
    }
}

/// Bytes URL-encoded one after another.
pub open spec fn url_encoded_bytes(b: Seq<u8>) -> Seq<char>
    decreases b.len(),
{
    if b.len() == 0 {
        seq![]
    } else {
        url_encoded_bytes(b.drop_last()) + url_encoded_byte(b.last())
    }
}

/// What `urlencoding::encode` makes of a string: its UTF-8 bytes,
/// URL-encoded.
pub open spec fn url_encoded(s: Seq<char>) -> Seq<char> {
    url_encoded_bytes(vstd::utf8::encode_utf8(s))
}

/// `urlencoding::encode`: percent-encodes every UTF-8 byte but those of
/// ASCII letters, digits and `-`, `_`, `.`, `~`, with upper-case
/// hexadecimal digits. Stated: exactly that, as `url_encoded`.
#[verifier::external_body]
fn url_encode(s: &str) -> (r: String)
    ensures
        r@ == url_encoded(s@),
{
    urlencoding::encode(s).into_owned()
}

/// The label of the notification window numbered `counter`.
pub open spec fn label_of(counter: u32) -> Seq<char> {
    "notification_"@ + nat_decimal(counter as nat)
}

/// The page a notification window opens.
pub open spec fn notification_url_of(title: Seq<char>, body: Seq<char>, label: Seq<char>) -> Seq<char> {
    "index.html#/notification?title="@ + url_encoded(title) + "&description="@ + url_encoded(body)
        + "&label="@ + url_encoded(label)
}

impl NotificationService {
    /// The stored notification type, `system` when none is stored.
    pub fn get_notification_type(table: &Vec<SettingEntry>) -> (r: String)
        ensures
            r@ == stored_text(table_view(table@), "notification_type"@, "system"@),
    {
        read_string(table, "notification_type", "system")
    }

    /// The stored position of in-app notifications.
    pub fn get_app_notification_position(table: &Vec<SettingEntry>) -> (r: AppNotificationPosition)
        ensures
            r == position_of(stored_text(table_view(table@), "app_notification_position"@, "bottom_right"@)),
    {
        let v = read_string(table, "app_notification_position", "bottom_right");
        AppNotificationPosition::from_setting(v.as_str())
    }

    /// The reminders to show now, earliest reminder time first.
    pub fn get_pending_notifications(rows: Vec<ReminderCandidate>) -> (r: Vec<PendingNotification>)
        ensures
            exists|o: Seq<ReminderCandidate>|
                by_time(o) && o.to_multiset() == pending_rows(rows@).to_multiset() && r@ == o.map_values(
                    |c: ReminderCandidate| pending_of(c),
                ),
    {
        let ghost given = rows@;
        let mut rest = rows;
        let mut kept: Vec<ReminderCandidate> = Vec::new();
        let ghost mut seen: Seq<ReminderCandidate> = seq![];
        while rest.len() > 0
            invariant
                given == seen + rest@,
                by_time(kept@),
                kept@.to_multiset() == pending_rows(seen).to_multiset(),
            decreases rest@.len(),
        {
            let c = rest.remove(0);
            let ghost gc = c;
            let ghost old_seen = seen;
            proof {
                assert(pending_rows(seen.push(c)) == if is_pending(c) {
                    pending_rows(seen).push(c)
                } else {
                    pending_rows(seen)
                }) by {
                    assert(seen.push(c).drop_last() =~= seen);
                }
                assert(given =~= seen.push(c) + rest@);
                seen = seen.push(c);
            }
            if !c.todo_completed && !c.notified && c.due {
                insert_by_time(&mut kept, c);
                proof {
                    vstd::seq_lib::to_multiset_build(pending_rows(old_seen), gc);
                }
            }
        }
        assert(seen =~= given);
        let ghost o = kept@;
        let mut out: Vec<PendingNotification> = Vec::new();
        while kept.len() > 0
            invariant
                out@.len() + kept@.len() == o.len(),
                forall|i: int| 0 <= i < out@.len() ==> out@[i] == pending_of(o[i]),
                forall|i: int| 0 <= i < kept@.len() ==> kept@[i] == o[out@.len() + i],
            decreases kept@.len(),
        {
            let c = kept.remove(0);
            out.push(PendingNotification { reminder_id: c.reminder_id, title: c.title, description: c.description });
        }
        assert(out@ =~= o.map_values(|c: ReminderCandidate| pending_of(c)));
        out
    }

    /// How long to wait, as seconds and nanoseconds, from the time `secs`
    /// seconds and `nanos` nanoseconds after the epoch until the next whole
    /// minute; nothing when the time is a whole minute already.
    pub fn time_to_next_minute(secs: u64, nanos: u32) -> (r: (u64, u32))
        requires
            nanos < 1_000_000_000,
        ensures
            secs % 60 == 0 && nanos == 0 ==> r == (0u64, 0u32),
            !(secs % 60 == 0 && nanos == 0) ==> r.1 < 1_000_000_000 && r.0 * 1_000_000_000 + r.1 + (secs % 60)
                * 1_000_000_000 + nanos == 60 * 1_000_000_000,
    {
        let remainder = secs % 60;
        if remainder == 0 && nanos == 0 {
            return (0, 0);
        }
        let mut wait_secs: u64 = 59 - remainder;
        let mut wait_nanos: u32 = 1_000_000_000 - nanos;
        if wait_nanos == 1_000_000_000 {
            wait_secs = wait_secs + 1;
            wait_nanos = 0;
        }
        (wait_secs, wait_nanos)
    }

    /// The reminder rows after reminder `reminder_id` is marked as shown:
    /// that reminder's rows are flagged as notified, all else is kept.
    pub fn mark_as_notified(rows: &mut Vec<ReminderCandidate>, reminder_id: i64)
        ensures
            final(rows)@ == marked_rows(old(rows)@, reminder_id),
    {
        let ghost given = rows@;
        let mut rest: Vec<ReminderCandidate> = Vec::new();
        std::mem::swap(&mut rest, rows);
        let mut out: Vec<ReminderCandidate> = Vec::new();
        while rest.len() > 0
            invariant
                given == given.take(out@.len() as int) + rest@,
                out@ == marked_rows(given.take(out@.len() as int), reminder_id),
                out@.len() <= given.len(),
            decreases rest@.len(),
        {
            let ghost k = out@.len() as int;
            let mut c = rest.remove(0);
            if c.reminder_id == reminder_id {
                c.notified = true;
            }
            proof {
                assert(given[k] == c || given[k].reminder_id == reminder_id);
            }
            out.push(c);
            proof {
                assert(given.take(k + 1).drop_last() =~= given.take(k));
                assert(given =~= given.take(k + 1) + rest@);
                assert(out@ =~= marked_rows(given.take(k + 1), reminder_id));
            }
        }
        assert(given.take(given.len() as int) =~= given);
        *rows = out;
    }

    /// The number of shown notification windows after one closes: one
    /// fewer, never below zero.
    pub fn decrement_active_notifications(current: u32) -> (r: u32)
        ensures
            r == if current == 0 {
                0
            } else {
                current - 1
            },
    {
        if current == 0 {
            0
        } else {
            current - 1
        }
    }

    /// What to show for a reminder: an app window when the notification
    /// type is `app`, numbered `counter`; a system notification otherwise.
    pub fn plan_notification(notification_type: &str, pending: &PendingNotification, counter: u32) -> (r:
        NotificationPlan)
        ensures
            notification_type@ == "app"@ ==> (r matches NotificationPlan::App { label, url } && label@
                == label_of(counter) && url@ == notification_url_of(
                pending.title@,
                body_of(pending.description),
                label_of(counter),
            )),
            notification_type@ != "app"@ ==> (r matches NotificationPlan::System { title, body } && title@
                == pending.title@ && body@ == body_of(pending.description)),
    {
        let body = match &pending.description {
            Some(d) => d.clone(),
            None => "待办事项提醒".to_string(),
        };
        if str_eq(notification_type, "app") {
            let mut lv = chars_of("notification_");
            let digits = u64_digits(counter as u64);
            push_all(&mut lv, digits.as_slice());
            let label = string_from_chars(lv.as_slice());
            proof {
                assert(label@ =~= label_of(counter));
            }
            let t = url_encode(pending.title.as_str());
            let b = url_encode(body.as_str());
            let l = url_encode(label.as_str());
            let mut uv = chars_of("index.html#/notification?title=");
            push_all(&mut uv, chars_of(t.as_str()).as_slice());
            push_all(&mut uv, chars_of("&description=").as_slice());
            push_all(&mut uv, chars_of(b.as_str()).as_slice());
            push_all(&mut uv, chars_of("&label=").as_slice());
            push_all(&mut uv, chars_of(l.as_str()).as_slice());
            let url = string_from_chars(uv.as_slice());
            proof {
                assert(url@ =~= notification_url_of(pending.title@, body@, label@));
            }
            NotificationPlan::App { label, url }
        } else {
            NotificationPlan::System { title: pending.title.clone(), body }
        }
    }
}

/// Inserts `c` after every row whose time is not later than its own.
fn insert_by_time(v: &mut Vec<ReminderCandidate>, c: ReminderCandidate)
    requires
        by_time(old(v)@),
    ensures
        by_time(final(v)@),
        final(v)@.to_multiset() == old(v)@.to_multiset().insert(c),
{
    let ct = chars_of(c.notify_at.as_str());
    let mut p: usize = 0;
    while p < v.len()
        invariant
            p <= v@.len(),
            v@ == old(v)@,
            ct@ == c.notify_at@,
            forall|i: int| 0 <= i < p ==> !lex_lt(c.notify_at@, #[trigger] v@[i].notify_at@),
        ensures
            p <= v@.len(),
            v@ == old(v)@,
            p < v@.len() ==> lex_lt(c.notify_at@, v@[p as int].notify_at@),
            forall|i: int| 0 <= i < p ==> !lex_lt(c.notify_at@, #[trigger] v@[i].notify_at@),
        decreases v@.len() - p,
    {
        let t = chars_of(v[p].notify_at.as_str());
        if chars_lt(ct.as_slice(), t.as_slice()) {
            break;
        }
        p = p + 1;
    }
    let ghost before = v@;
    proof {
        vstd::seq_lib::to_multiset_insert(before, p as int, c);
    }
    v.insert(p, c);
    proof {
        assert forall|i: int, j: int| 0 <= i < j < v@.len() implies !lex_lt(
            v@[j].notify_at@,
            v@[i].notify_at@,
        ) by {
            if j < p {
                assert(v@[i] == before[i] && v@[j] == before[j]);
            } else if j == p {
                assert(v@[i] == before[i]);
                assert(!lex_lt(c.notify_at@, before[i].notify_at@));
            } else if i == p {
                assert(v@[j] == before[j - 1]);
                assert(p < before.len());
                assert(lex_lt(c.notify_at@, before[p as int].notify_at@));
                if lex_lt(before[j - 1].notify_at@, c.notify_at@) {
                    lemma_lex_lt_transitive(before[j - 1].notify_at@, c.notify_at@, before[p as int].notify_at@);
                    if j - 1 == p {
                        lemma_lex_lt_asymmetric(before[j - 1].notify_at@, c.notify_at@);
                    }
                }
            } else if i < p {
                assert(v@[i] == before[i] && v@[j] == before[j - 1]);
            } else {
                assert(v@[i] == before[i - 1] && v@[j] == before[j - 1]);
            }
        }
    }
}

} // verus!
