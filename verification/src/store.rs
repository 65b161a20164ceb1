//! The key/value `settings` table as the library sees it: a sequence of
//! writes in which the latest write of a key is its current value
//! (`INSERT OR REPLACE` semantics).
use crate::text::{owned, str_eq};
use vstd::prelude::*;

verus! {

/// One row of the settings table.
#[derive(Clone, Debug)]
pub struct SettingEntry {
    pub key: String,
    pub value: String,
}

/// The plain view of a row.
pub open spec fn entry_view(e: SettingEntry) -> (Seq<char>, Seq<char>) {
    (e.key@, e.value@)
}

/// The plain view of a table.
pub open spec fn table_view(t: Seq<SettingEntry>) -> Seq<(Seq<char>, Seq<char>)> {
    t.map_values(|e: SettingEntry| entry_view(e))
}

/// The current value of `key`: the value of its latest write, if any.
pub open spec fn lookup(t: Seq<(Seq<char>, Seq<char>)>, key: Seq<char>) -> Option<Seq<char>>
    decreases t.len(),
{
    if t.len() == 0 {
        None
    } else if t.last().0 == key {
        Some(t.last().1)
    } else {
        lookup(t.drop_last(), key)
    }
}

/// Looking up after appending writes: the writes win where they name the key.
pub proof fn lemma_lookup_append(
    t: Seq<(Seq<char>, Seq<char>)>,
    w: Seq<(Seq<char>, Seq<char>)>,
    key: Seq<char>,
)
    ensures
        lookup(t + w, key) == (match lookup(w, key) {
            Some(v) => Some(v),
            None => lookup(t, key),
        }),
    decreases w.len(),
{
    if w.len() == 0 {
        assert(t + w =~= t);
    } else {
        assert((t + w).drop_last() =~= t + w.drop_last());
        assert((t + w).last() == w.last());
        lemma_lookup_append(t, w.drop_last(), key);
    }
}

/// When the rows' keys are pairwise distinct, the key of row `i` looks up
/// the value of row `i`.
pub proof fn lemma_lookup_distinct_keys(
    w: Seq<(Seq<char>, Seq<char>)>,
    keys: Seq<Seq<char>>,
    i: int,
)
    requires
        keys.len() == w.len(),
        0 <= i < w.len(),
        forall|j: int| 0 <= j < w.len() ==> (#[trigger] w[j]).0 == keys[j],
        forall|j: int, k: int| 0 <= j < k < keys.len() ==> keys[j] != keys[k],
    ensures
        lookup(w, keys[i]) == Some(w[i].1),
    decreases w.len(),
{
    if i < w.len() - 1 {
        assert(w.last().0 == keys[w.len() - 1]);
        lemma_lookup_distinct_keys(w.drop_last(), keys.drop_last(), i);
    }
}

/// A new row.
pub fn entry(key: &str, value: &str) -> (e: SettingEntry)
    ensures
        e.key@ == key@,
        e.value@ == value@,
{
    SettingEntry { key: owned(key), value: owned(value) }
}

/// The current value of `key` in the table (`SELECT value ... WHERE key = ?`).
pub fn get_setting(table: &Vec<SettingEntry>, key: &str) -> (r: Option<String>)
    ensures
        r matches Some(v) ==> lookup(table_view(table@), key@) == Some(v@),
        r is None ==> lookup(table_view(table@), key@) is None,
{
    let mut i = table.len();
    assert(table@.take(i as int) =~= table@);
    while i > 0
        invariant
            i <= table@.len(),
            lookup(table_view(table@), key@) == lookup(table_view(table@.take(i as int)), key@),
        decreases i,
    {
        let ghost t = table_view(table@.take(i as int));
        assert(t.last() == entry_view(table@[i - 1]));
        assert(t.drop_last() =~= table_view(table@.take(i - 1)));
        if str_eq(table[i - 1].key.as_str(), key) {
            return Some(table[i - 1].value.clone());
        }
        i = i - 1;
    }
    None
}

/// Writes `value` under `key` (`INSERT OR REPLACE`).
pub fn set_setting(table: &mut Vec<SettingEntry>, key: &str, value: &str)
    ensures
        table_view(final(table)@) == table_view(old(table)@).push((key@, value@)),
{
    table.push(entry(key, value));
    proof {
        assert(table_view(table@) =~= table_view(old(table)@).push((key@, value@)));
    }
}

/// Applies a list of writes, in order.
pub fn apply_writes(table: &mut Vec<SettingEntry>, writes: Vec<SettingEntry>)
    ensures
        table_view(final(table)@) == table_view(old(table)@) + table_view(writes@),
{
    let ghost t0 = table_view(table@);
    let mut k: usize = 0;
    while k < writes.len()
        invariant
            k <= writes@.len(),
            table_view(table@) == t0 + table_view(writes@.take(k as int)),
        decreases writes@.len() - k,
    {
        set_setting(table, writes[k].key.as_str(), writes[k].value.as_str());
        k = k + 1;
        assert(table_view(writes@.take(k as int)) =~= table_view(writes@.take(k - 1)).push(
            entry_view(writes@[k - 1]),
        ));
        assert(table_view(table@) =~= t0 + table_view(writes@.take(k as int)));
    }
    assert(writes@.take(writes@.len() as int) =~= writes@);
}

/// `"true"` or `"false"`, as settings store booleans.
pub open spec fn bool_text(b: bool) -> Seq<char> {
    if b {
        "true"@
    } else {
        "false"@
    }
}

/// The text that stores a boolean reads back as that boolean.
pub proof fn lemma_bool_text_reads_back(b: bool)
    ensures
        (bool_text(b) == "true"@) == b,
{
    reveal_strlit("true");
    reveal_strlit("false");
    assert("false"@[0] != "true"@[0]);
}

/// A stored boolean: `"true"` means true, any other stored text false,
/// and a missing key the default.
pub open spec fn stored_bool(v: Option<Seq<char>>, default: bool) -> bool {
    match v {
        Some(s) => s == "true"@,
        None => default,
    }
}

/// The text that stores a boolean.
pub fn bool_str(b: bool) -> (s: &'static str)
    ensures
        s@ == bool_text(b),
{
    if b {
        "true"
    } else {
        "false"
    }
}

/// Reads a stored boolean.
pub fn read_bool(table: &Vec<SettingEntry>, key: &str, default: bool) -> (b: bool)
    ensures
        b == stored_bool(lookup(table_view(table@), key@), default),
{
    match get_setting(table, key) {
        Some(v) => {
            str_eq(v.as_str(), "true")
        },
        None => default,
    }
}

/// Reads a stored string, or `default` when the key is missing.
pub fn read_string(table: &Vec<SettingEntry>, key: &str, default: &str) -> (s: String)
    ensures
        s@ == (match lookup(table_view(table@), key@) {
            Some(v) => v,
            None => default@,
        }),
{
    match get_setting(table, key) {
        Some(v) => v,
        None => owned(default),
    }
}

} // verus!
