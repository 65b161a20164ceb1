//! Merging two copies of a record set: per key, the copy with the newer
//! stamp wins.
use crate::sync::{SyncTombstone, Versioned};
use crate::timefmt::{is_time_newer, time_newer};
use vstd::prelude::*;

verus! {

// ---------------------------------------------------------------------
// Specifications
// ---------------------------------------------------------------------
/// The position of the last record of `s` with key `k`, or -1.
pub open spec fn key_pos<T: Versioned>(s: Seq<T>, k: Seq<char>) -> int
    decreases s.len(),
{
    if s.len() == 0 {
        -1
    } else if s.last().key_view() == k {
        s.len() - 1
    } else {
        key_pos(s.drop_last(), k)
    }
}

/// The last record of `s` with key `k`.
pub open spec fn find_item<T: Versioned>(s: Seq<T>, k: Seq<char>) -> Option<T> {
    let p = key_pos(s, k);
    if p >= 0 {
        Some(s[p])
    } else {
        None
    }
}

/// Some record of `s` has key `k`.
pub open spec fn has_key<T: Versioned>(s: Seq<T>, k: Seq<char>) -> bool {
    exists|i: int| 0 <= i < s.len() && (#[trigger] s[i]).key_view() == k
}

/// No two records of `s` share a key.
pub open spec fn keys_distinct<T: Versioned>(s: Seq<T>) -> bool {
    forall|i: int, j: int|
        0 <= i < s.len() && 0 <= j < s.len() && i != j ==> (#[trigger] s[i]).key_view() != (
        #[trigger] s[j]).key_view()
}

/// At most one record of `s` has key `k`.
pub open spec fn at_most_one<T: Versioned>(s: Seq<T>, k: Seq<char>) -> bool {
    forall|i: int, j: int|
        0 <= i < s.len() && 0 <= j < s.len() && (#[trigger] s[i]).key_view() == k && (
        #[trigger] s[j]).key_view() == k ==> i == j
}

/// `x` takes the place of `old`: unconditionally, or when its stamp is newer.
pub open spec fn replaces<T: Versioned>(x: T, old: T, always: bool) -> bool {
    always || time_newer(x.stamp_view(), old.stamp_view())
}

/// The record kept when `x` meets the current record `cur` of its key.
pub open spec fn pick<T: Versioned>(cur: Option<T>, x: T, always: bool) -> T {
    match cur {
        None => x,
        Some(o) => if replaces(x, o, always) {
            x
        } else {
            o
        },
    }
}

/// Inserts `x`, or lets it replace the record with its key as `replaces` says.
pub open spec fn upsert<T: Versioned>(acc: Seq<T>, x: T, always: bool) -> Seq<T> {
    let p = key_pos(acc, x.key_view());
    if p < 0 {
        acc.push(x)
    } else if replaces(x, acc[p], always) {
        acc.update(p, x)
    } else {
        acc
    }
}

/// Upserts each record of `items`, in order.
pub open spec fn upsert_all<T: Versioned>(acc: Seq<T>, items: Seq<T>, always: bool) -> Seq<T>
    decreases items.len(),
{
    if items.len() == 0 {
        acc
    } else {
        upsert(upsert_all(acc, items.drop_last(), always), items.last(), always)
    }
}

/// The merge of local and remote records: local records go in (a later
/// local copy replacing an earlier one), then each remote record goes in
/// where its key is new or its stamp is newer.
pub open spec fn merged_by_updated_at<T: Versioned>(local: Seq<T>, remote: Seq<T>) -> Seq<T> {
    upsert_all(upsert_all(Seq::empty(), local, true), remote, false)
}

/// The merge of tombstones: every tombstone, local then remote, goes in
/// where its key is new or its deletion time is newer.
pub open spec fn merged_tombstones(local: Seq<SyncTombstone>, remote: Seq<SyncTombstone>) -> Seq<
    SyncTombstone,
> {
    upsert_all(Seq::empty(), local + remote, false)
}

// ---------------------------------------------------------------------
// Lemmas
// ---------------------------------------------------------------------
/// What `key_pos` finds.
pub proof fn lemma_key_pos<T: Versioned>(s: Seq<T>, k: Seq<char>)
    ensures
        -1 <= key_pos(s, k) < s.len(),
        key_pos(s, k) >= 0 ==> s[key_pos(s, k)].key_view() == k,
        forall|i: int| key_pos(s, k) < i < s.len() ==> (#[trigger] s[i]).key_view() != k,
        key_pos(s, k) >= 0 <==> has_key(s, k),
    decreases s.len(),
{
    if s.len() > 0 {
        lemma_key_pos(s.drop_last(), k);
        if s.last().key_view() != k {
            assert forall|i: int| key_pos(s, k) < i < s.len() implies (#[trigger] s[i]).key_view()
                != k by {
                if i < s.len() - 1 {
                    assert(s.drop_last()[i] == s[i]);
                }
            }
            if has_key(s, k) {
                let i = choose|i: int| 0 <= i < s.len() && (#[trigger] s[i]).key_view() == k;
                assert(s.drop_last()[i] == s[i]);
            }
            if key_pos(s, k) >= 0 {
                assert(s.drop_last()[key_pos(s, k)] == s[key_pos(s, k)]);
            }
        }
    }
}

/// Key positions after pushing a record.
pub proof fn lemma_key_pos_push<T: Versioned>(s: Seq<T>, x: T, k: Seq<char>)
    ensures
        key_pos(s.push(x), k) == (if x.key_view() == k {
            s.len() as int
        } else {
            key_pos(s, k)
        }),
{
    assert(s.push(x).drop_last() =~= s);
}

/// Key positions after replacing a record by one with the same key.
pub proof fn lemma_key_pos_update<T: Versioned>(s: Seq<T>, i: int, x: T, k: Seq<char>)
    requires
        0 <= i < s.len(),
        s[i].key_view() == x.key_view(),
    ensures
        key_pos(s.update(i, x), k) == key_pos(s, k),
    decreases s.len(),
{
    let u = s.update(i, x);
    if i < s.len() - 1 {
        assert(u.drop_last() =~= s.drop_last().update(i, x));
        lemma_key_pos_update(s.drop_last(), i, x, k);
        assert(u.last() == s.last());
    } else {
        assert(u.drop_last() =~= s.drop_last());
    }
}

/// What one upsert does to the record of each key.
pub proof fn lemma_upsert_find<T: Versioned>(acc: Seq<T>, x: T, always: bool, k: Seq<char>)
    ensures
        find_item(upsert(acc, x, always), k) == (if x.key_view() == k {
            Some(pick(find_item(acc, k), x, always))
        } else {
            find_item(acc, k)
        }),
{
    let p = key_pos(acc, x.key_view());
    lemma_key_pos(acc, x.key_view());
    lemma_key_pos(acc, k);
    if p < 0 {
        lemma_key_pos_push(acc, x, k);
    } else if replaces(x, acc[p], always) {
        lemma_key_pos_update(acc, p, x, k);
        if x.key_view() != k && key_pos(acc, k) >= 0 {
            assert(key_pos(acc, k) != p);
        }
    }
}

/// One upsert keeps keys distinct, and adds exactly the key of `x`.
pub proof fn lemma_upsert_keys<T: Versioned>(acc: Seq<T>, x: T, always: bool)
    requires
        keys_distinct(acc),
    ensures
        keys_distinct(upsert(acc, x, always)),
        forall|k: Seq<char>|
            has_key(#[trigger] upsert(acc, x, always), k) <==> (has_key(acc, k) || x.key_view()
                == k),
{
    let p = key_pos(acc, x.key_view());
    let r = upsert(acc, x, always);
    lemma_key_pos(acc, x.key_view());
    if p < 0 {
        assert forall|i: int, j: int|
            0 <= i < r.len() && 0 <= j < r.len() && i != j implies (#[trigger] r[i]).key_view()
            != (#[trigger] r[j]).key_view() by {
            if i < acc.len() && j < acc.len() {
                assert(r[i] == acc[i] && r[j] == acc[j]);
            } else if i < acc.len() {
                assert(r[i] == acc[i]);
            } else if j < acc.len() {
                assert(r[j] == acc[j]);
            }
        }
        assert forall|k: Seq<char>| has_key(#[trigger] upsert(acc, x, always), k) <==> (has_key(
            acc,
            k,
        ) || x.key_view() == k) by {
            if has_key(r, k) {
                let i = choose|i: int| 0 <= i < r.len() && (#[trigger] r[i]).key_view() == k;
                if i < acc.len() {
                    assert(r[i] == acc[i]);
                }
            }
            if has_key(acc, k) {
                let i = choose|i: int| 0 <= i < acc.len() && (#[trigger] acc[i]).key_view() == k;
                assert(r[i] == acc[i]);
            }
            if x.key_view() == k {
                assert(r[acc.len() as int] == x);
            }
        }
    } else if replaces(x, acc[p], always) {
        assert forall|i: int, j: int|
            0 <= i < r.len() && 0 <= j < r.len() && i != j implies (#[trigger] r[i]).key_view()
            != (#[trigger] r[j]).key_view() by {
            assert(r[i].key_view() == acc[i].key_view());
            assert(r[j].key_view() == acc[j].key_view());
        }
        assert forall|k: Seq<char>| has_key(#[trigger] upsert(acc, x, always), k) <==> (has_key(
            acc,
            k,
        ) || x.key_view() == k) by {
            if has_key(r, k) {
                let i = choose|i: int| 0 <= i < r.len() && (#[trigger] r[i]).key_view() == k;
                assert(r[i].key_view() == acc[i].key_view());
            }
            if has_key(acc, k) {
                let i = choose|i: int| 0 <= i < acc.len() && (#[trigger] acc[i]).key_view() == k;
                assert(r[i].key_view() == acc[i].key_view());
            }
            if x.key_view() == k {
                assert(r[p] == x);
            }
        }
    } else {
        assert forall|k: Seq<char>| has_key(#[trigger] upsert(acc, x, always), k) <==> (has_key(
            acc,
            k,
        ) || x.key_view() == k) by {
            if x.key_view() == k {
                assert(acc[p].key_view() == k);
            }
        }
    }
}

/// Upserting many records keeps keys distinct, and the keys present are
/// those of `acc` and of `items`.
pub proof fn lemma_upsert_all_keys<T: Versioned>(acc: Seq<T>, items: Seq<T>, always: bool)
    requires
        keys_distinct(acc),
    ensures
        keys_distinct(upsert_all(acc, items, always)),
        forall|k: Seq<char>|
            has_key(#[trigger] upsert_all(acc, items, always), k) <==> (has_key(acc, k)
                || has_key(items, k)),
    decreases items.len(),
{
    if items.len() > 0 {
        let d = items.drop_last();
        lemma_upsert_all_keys(acc, d, always);
        lemma_upsert_keys(upsert_all(acc, d, always), items.last(), always);
        assert forall|k: Seq<char>| has_key(#[trigger] upsert_all(acc, items, always), k) <==> (
        has_key(acc, k) || has_key(items, k)) by {
            if has_key(d, k) {
                let i = choose|i: int| 0 <= i < d.len() && (#[trigger] d[i]).key_view() == k;
                assert(items[i] == d[i]);
            }
            if has_key(items, k) {
                let i = choose|i: int| 0 <= i < items.len() && (#[trigger] items[i]).key_view()
                    == k;
                if i < d.len() {
                    assert(items[i] == d[i]);
                }
            }
            assert(has_key(upsert_all(acc, d, always), k) <==> (has_key(acc, k) || has_key(
                d,
                k,
            )));
            assert(has_key(upsert(upsert_all(acc, d, always), items.last(), always), k) <==> (
            has_key(upsert_all(acc, d, always), k) || items.last().key_view() == k));
        }
    }
}

/// Records with other keys leave the record of `k` as it was.
pub proof fn lemma_upsert_all_other<T: Versioned>(
    acc: Seq<T>,
    items: Seq<T>,
    always: bool,
    k: Seq<char>,
)
    requires
        forall|i: int| 0 <= i < items.len() ==> (#[trigger] items[i]).key_view() != k,
    ensures
        find_item(upsert_all(acc, items, always), k) == find_item(acc, k),
    decreases items.len(),
{
    if items.len() > 0 {
        let d = items.drop_last();
        assert forall|i: int| 0 <= i < d.len() implies (#[trigger] d[i]).key_view() != k by {
            assert(d[i] == items[i]);
        }
        lemma_upsert_all_other(acc, d, always, k);
        lemma_upsert_find(upsert_all(acc, d, always), items.last(), always, k);
    }
}

/// Where at most one of `items` has key `k`, the record of `k` afterwards is
/// that one record measured against the record `acc` had.
pub proof fn lemma_upsert_all_single<T: Versioned>(
    acc: Seq<T>,
    items: Seq<T>,
    always: bool,
    k: Seq<char>,
)
    requires
        at_most_one(items, k),
    ensures
        find_item(upsert_all(acc, items, always), k) == (match find_item(items, k) {
            None => find_item(acc, k),
            Some(x) => Some(pick(find_item(acc, k), x, always)),
        }),
    decreases items.len(),
{
    if items.len() > 0 {
        let d = items.drop_last();
        let n = items.len() - 1;
        lemma_upsert_find(upsert_all(acc, d, always), items.last(), always, k);
        if items.last().key_view() == k {
            assert forall|i: int| 0 <= i < d.len() implies (#[trigger] d[i]).key_view() != k by {
                assert(d[i] == items[i]);
                assert(items[n].key_view() == k);
            }
            lemma_upsert_all_other(acc, d, always, k);
        } else {
            assert(at_most_one(d, k)) by {
                assert forall|i: int, j: int|
                    0 <= i < d.len() && 0 <= j < d.len() && (#[trigger] d[i]).key_view() == k && (
                    #[trigger] d[j]).key_view() == k implies i == j by {
                    assert(d[i] == items[i] && d[j] == items[j]);
                }
            }
            lemma_upsert_all_single(acc, d, always, k);
            lemma_key_pos(d, k);
            if key_pos(d, k) >= 0 {
                assert(d[key_pos(d, k)] == items[key_pos(d, k)]);
            }
        }
    }
}

/// With every record replacing unconditionally, the last record of each key wins.
pub proof fn lemma_upsert_all_always<T: Versioned>(items: Seq<T>, k: Seq<char>)
    ensures
        find_item(upsert_all(Seq::empty(), items, true), k) == find_item(items, k),
    decreases items.len(),
{
    if items.len() > 0 {
        let d = items.drop_last();
        lemma_upsert_all_always(d, k);
        lemma_upsert_find(upsert_all(Seq::empty(), d, true), items.last(), true, k);
        if items.last().key_view() != k {
            lemma_key_pos(d, k);
            if key_pos(d, k) >= 0 {
                assert(d[key_pos(d, k)] == items[key_pos(d, k)]);
            }
        }
    }
}

/// Upserting `a` then `b` is upserting `a + b`.
pub proof fn lemma_upsert_all_append<T: Versioned>(
    acc: Seq<T>,
    a: Seq<T>,
    b: Seq<T>,
    always: bool,
)
    ensures
        upsert_all(acc, a + b, always) == upsert_all(upsert_all(acc, a, always), b, always),
    decreases b.len(),
{
    if b.len() == 0 {
        assert(a + b =~= a);
    } else {
        assert((a + b).drop_last() =~= a + b.drop_last());
        assert((a + b).last() == b.last());
        lemma_upsert_all_append(acc, a, b.drop_last(), always);
    }
}

/// Last writer wins: after a merge, the record of a key is the last local
/// copy, unless the remote side holds a copy with a newer stamp (or the only
/// copy), which then takes its place.
pub proof fn lemma_merge_last_writer_wins<T: Versioned>(
    local: Seq<T>,
    remote: Seq<T>,
    k: Seq<char>,
)
    requires
        at_most_one(remote, k),
    ensures
        find_item(merged_by_updated_at(local, remote), k) == (match find_item(remote, k) {
            None => find_item(local, k),
            Some(r) => Some(pick(find_item(local, k), r, false)),
        }),
{
    lemma_upsert_all_always(local, k);
    lemma_upsert_all_single(upsert_all(Seq::empty(), local, true), remote, false, k);
}

/// Last writer wins, said of the copies themselves: a key's merged record
/// is the remote copy when only the remote side has one, or when its stamp
/// is newer than the local copy's; otherwise the local copy; and no record
/// when neither side has one.
pub proof fn lemma_merge_keeps_newer_copy<T: Versioned>(local: Seq<T>, remote: Seq<T>, k: Seq<char>)
    requires
        at_most_one(remote, k),
    ensures
        match (find_item(local, k), find_item(remote, k)) {
            (None, None) => find_item(merged_by_updated_at(local, remote), k) is None,
            (Some(l), None) => find_item(merged_by_updated_at(local, remote), k) == Some(l),
            (None, Some(r)) => find_item(merged_by_updated_at(local, remote), k) == Some(r),
            (Some(l), Some(r)) => find_item(merged_by_updated_at(local, remote), k) == (if time_newer(
                r.stamp_view(),
                l.stamp_view(),
            ) {
                Some(r)
            } else {
                Some(l)
            }),
        },
{
    lemma_merge_last_writer_wins(local, remote, k);
}

/// The newer deletion wins, said of the records themselves: a key's merged
/// tombstone is the remote one when only the remote side has one or when
/// it was deleted later than the local one; otherwise the local one.
pub proof fn lemma_merge_tombstones_keeps_later_deletion(
    local: Seq<SyncTombstone>,
    remote: Seq<SyncTombstone>,
    k: Seq<char>,
)
    requires
        at_most_one(local, k),
        at_most_one(remote, k),
    ensures
        match (find_item(local, k), find_item(remote, k)) {
            (None, None) => find_item(merged_tombstones(local, remote), k) is None,
            (Some(l), None) => find_item(merged_tombstones(local, remote), k) == Some(l),
            (None, Some(r)) => find_item(merged_tombstones(local, remote), k) == Some(r),
            (Some(l), Some(r)) => find_item(merged_tombstones(local, remote), k) == (if time_newer(
                r.deleted_at@,
                l.deleted_at@,
            ) {
                Some(r)
            } else {
                Some(l)
            }),
        },
{
    lemma_merge_tombstones_newest(local, remote, k);
}

/// A merge holds each key once, and exactly the keys of both sides.
pub proof fn lemma_merge_keys<T: Versioned>(local: Seq<T>, remote: Seq<T>)
    ensures
        keys_distinct(merged_by_updated_at(local, remote)),
        forall|k: Seq<char>|
            has_key(#[trigger] merged_by_updated_at(local, remote), k) <==> (has_key(local, k)
                || has_key(remote, k)),
{
    lemma_upsert_all_keys(Seq::<T>::empty(), local, true);
    lemma_upsert_all_keys(upsert_all(Seq::empty(), local, true), remote, false);
}

/// The newer of two deletion records of the same key wins a tombstone merge.
pub proof fn lemma_merge_tombstones_newest(
    local: Seq<SyncTombstone>,
    remote: Seq<SyncTombstone>,
    k: Seq<char>,
)
    requires
        at_most_one(local, k),
        at_most_one(remote, k),
    ensures
        find_item(merged_tombstones(local, remote), k) == (match find_item(remote, k) {
            None => find_item(local, k),
            Some(r) => Some(pick(find_item(local, k), r, false)),
        }),
        keys_distinct(merged_tombstones(local, remote)),
        forall|key: Seq<char>|
            has_key(#[trigger] merged_tombstones(local, remote), key) <==> (has_key(local, key)
                || has_key(remote, key)),
{
    lemma_upsert_all_append(Seq::empty(), local, remote, false);
    lemma_upsert_all_single(Seq::empty(), local, false, k);
    lemma_upsert_all_single(upsert_all(Seq::empty(), local, false), remote, false, k);
    lemma_upsert_all_keys(Seq::<SyncTombstone>::empty(), local + remote, false);
    assert forall|key: Seq<char>| has_key(local + remote, key) <==> (has_key(local, key)
        || has_key(remote, key)) by {
        let lr = local + remote;
        if has_key(lr, key) {
            let i = choose|i: int| 0 <= i < lr.len() && (#[trigger] lr[i]).key_view() == key;
            if i < local.len() {
                assert(lr[i] == local[i]);
            } else {
                assert(lr[i] == remote[i - local.len()]);
            }
        }
        if has_key(local, key) {
            let i = choose|i: int| 0 <= i < local.len() && (#[trigger] local[i]).key_view() == key;
            assert(lr[i] == local[i]);
        }
        if has_key(remote, key) {
            let i = choose|i: int| 0 <= i < remote.len() && (#[trigger] remote[i]).key_view()
                == key;
            assert(lr[i + local.len()] == remote[i]);
        }
    }
}

// ---------------------------------------------------------------------
// Executable functions
// ---------------------------------------------------------------------
/// The position of the last record of `acc` with key `key`.
fn find_key<T: Versioned>(acc: &Vec<T>, key: &String) -> (r: Option<usize>)
    ensures
        r matches Some(i) ==> i as int == key_pos(acc@, key@),
        r is None ==> key_pos(acc@, key@) == -1,
{
    let mut i = acc.len();
    assert(acc@.take(i as int) =~= acc@);
    while i > 0
        invariant
            i <= acc@.len(),
            key_pos(acc@, key@) == key_pos(acc@.take(i as int), key@),
        decreases i,
    {
        let ghost t = acc@.take(i as int);
        assert(t.drop_last() =~= acc@.take(i - 1));
        assert(t.last() == acc@[i - 1]);
        let k = acc[i - 1].sync_key();
        if k == *key {
            return Some(i - 1);
        }
        i = i - 1;
    }
    None
}

/// Inserts `x`, or lets it replace the record with its key.
fn upsert_one<T: Versioned>(acc: &mut Vec<T>, x: T, always: bool)
    ensures
        final(acc)@ == upsert(old(acc)@, x, always),
{
    let key = x.sync_key();
    match find_key(acc, &key) {
        None => {
            acc.push(x);
        },
        Some(i) => {
            proof {
                lemma_key_pos(acc@, key@);
            }
            let replace = always || is_time_newer(x.stamp().as_str(), acc[i].stamp().as_str());
            if replace {
                acc[i] = x;
            }
        },
    }
}

/// Upserts each of `items`, in order.
fn upsert_each<T: Versioned>(acc: &mut Vec<T>, items: Vec<T>, always: bool)
    ensures
        final(acc)@ == upsert_all(old(acc)@, items@, always),
{
    let ghost a0 = acc@;
    let ghost all = items@;
    let n = items.len();
    let mut rest = items;
    let mut k: usize = 0;
    assert(all.skip(0) =~= all);
    while rest.len() > 0
        invariant
            k <= all.len(),
            all.len() == n,
            rest@ == all.skip(k as int),
            acc@ == upsert_all(a0, all.take(k as int), always),
        decreases rest@.len(),
    {
        let x = rest.remove(0);
        proof {
            assert(x == all[k as int]);
            assert(all.take(k + 1).drop_last() =~= all.take(k as int));
            assert(all.take(k + 1).last() == all[k as int]);
        }
        upsert_one(acc, x, always);
        k = k + 1;
        assert(rest@ =~= all.skip(k as int));
    }
    assert(all.take(k as int) =~= all);
}

/// Merges local and remote records, the newer copy of each key winning.
pub fn merge_by_updated_at<T: Versioned>(local: Vec<T>, remote: Vec<T>) -> (r: Vec<T>)
    ensures
        r@ == merged_by_updated_at(local@, remote@),
{
    let mut acc: Vec<T> = Vec::new();
    upsert_each(&mut acc, local, true);
    upsert_each(&mut acc, remote, false);
    acc
}

/// Merges local and remote tombstones, the newer deletion of each key winning.
pub fn merge_tombstones(local: Vec<SyncTombstone>, remote: Vec<SyncTombstone>) -> (r: Vec<
    SyncTombstone,
>)
    ensures
        r@ == merged_tombstones(local@, remote@),
{
    let ghost l = local@;
    let ghost rm = remote@;
    let mut acc: Vec<SyncTombstone> = Vec::new();
    upsert_each(&mut acc, local, false);
    upsert_each(&mut acc, remote, false);
    proof {
        lemma_upsert_all_append(Seq::empty(), l, rm, false);
    }
    acc
}

} // verus!
