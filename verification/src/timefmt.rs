//! Date and time text: what `chrono` parses and formats, and the ordering of
//! timestamps that synchronisation uses.
use crate::text::{chars_lt, lex_lt};
use vstd::prelude::*;

verus! {

/// The Unix time (seconds) of an RFC 3339 timestamp, as `chrono` parses it;
/// `None` where `chrono` rejects the text.
pub uninterp spec fn rfc3339_seconds(s: Seq<char>) -> Option<i64>;

/// The Unix time (seconds, the text read as UTC) of a date-time in the
/// `strftime` format `fmt`, as `chrono`'s `NaiveDateTime::parse_from_str`
/// parses it; `None` where `chrono` rejects the text.
pub uninterp spec fn naive_seconds(s: Seq<char>, fmt: Seq<char>) -> Option<i64>;

/// The text of a Unix time (read as UTC) in the `strftime` format `fmt`, as
/// `chrono` formats it; `None` outside the range of dates that `chrono`
/// represents.
pub uninterp spec fn format_seconds_with(secs: i64, fmt: Seq<char>) -> Option<Seq<char>>;

/// The `%Y-%m-%dT%H:%M:%S` text of a Unix time (read as UTC).
pub open spec fn format_iso_seconds(secs: i64) -> Option<Seq<char>> {
    format_seconds_with(secs, "%Y-%m-%dT%H:%M:%S"@)
}

/// The `%Y-%m-%d %H:%M:%S` text of a Unix time (read as UTC), the form the
/// database stores.
pub open spec fn format_spaced_seconds(secs: i64) -> Option<Seq<char>> {
    format_seconds_with(secs, "%Y-%m-%d %H:%M:%S"@)
}

/// Text in the form the database stores date-times: that of some time.
pub open spec fn is_db_time(s: Seq<char>) -> bool {
    exists|t: i64| format_spaced_seconds(t) == Some(s)
}

/// `chrono::DateTime::parse_from_rfc3339`, read as Unix seconds.
#[verifier::external_body]
fn parse_rfc3339_seconds(value: &str) -> (r: Option<i64>)
    ensures
        r == rfc3339_seconds(value@),
{
    chrono::DateTime::parse_from_rfc3339(value).ok().map(|dt| dt.timestamp())
}

/// `chrono::NaiveDateTime::parse_from_str`, read as Unix seconds.
#[verifier::external_body]
fn parse_naive_seconds(value: &str, fmt: &str) -> (r: Option<i64>)
    ensures
        r == naive_seconds(value@, fmt@),
{
    chrono::NaiveDateTime::parse_from_str(value, fmt).ok().map(|dt| dt.and_utc().timestamp())
}

/// `chrono::DateTime::from_timestamp`, formatted with `fmt`. Stated: the
/// outcome is `format_seconds_with` of the arguments. Only the two formats
/// the library uses are admitted (formatting with an invalid format panics).
#[verifier::external_body]
fn format_seconds(secs: i64, fmt: &str) -> (r: Option<String>)
    requires
        fmt@ == "%Y-%m-%dT%H:%M:%S"@ || fmt@ == "%Y-%m-%d %H:%M:%S"@,
    ensures
        r matches Some(s) ==> format_seconds_with(secs, fmt@) == Some(s@),
        r is None ==> format_seconds_with(secs, fmt@) is None,
{
    chrono::DateTime::from_timestamp(secs, 0).map(|dt| dt.naive_utc().format(fmt).to_string())
}

/// The local clock, read once.
#[derive(Clone, Debug)]
pub(crate) struct LocalNow {
    /// Unix time in milliseconds.
    pub millis: i64,
    /// The local wall-clock time in whole seconds, counted as if it were UTC.
    pub local_seconds: i64,
}

/// `chrono::Local::now`. Nothing is stated of the reading, which is the
/// clock, but that `chrono` formats its local time again: that time comes
/// from a date-time `chrono` represents, and `DateTime::from_timestamp`
/// gives such a date-time back from its timestamp.
#[verifier::external_body]
pub(crate) fn local_now() -> (r: LocalNow)
    ensures
        format_spaced_seconds(r.local_seconds) is Some,
{
    let now = chrono::Local::now();
    LocalNow { millis: now.timestamp_millis(), local_seconds: now.naive_local().and_utc().timestamp() }
}

/// The current local time in the form the database stores
/// (`%Y-%m-%d %H:%M:%S`).
pub fn now_db_time() -> (r: String)
    ensures
        is_db_time(r@),
{
    let now = local_now();
    let r = format_seconds(now.local_seconds, "%Y-%m-%d %H:%M:%S").unwrap();
    assert(format_spaced_seconds(now.local_seconds) == Some(r@));
    r
}

/// The ordering score of a timestamp: its RFC 3339 seconds, else its
/// `%Y-%m-%d %H:%M:%S` seconds, else its `%Y-%m-%dT%H:%M:%S` seconds, else 0.
pub open spec fn time_score_of(rfc: Option<i64>, spaced: Option<i64>, tee: Option<i64>) -> i64 {
    match rfc {
        Some(t) => t,
        None => match spaced {
            Some(t) => t,
            None => match tee {
                Some(t) => t,
                None => 0,
            },
        },
    }
}

/// The ordering score of timestamp text.
pub open spec fn time_score(s: Seq<char>) -> i64 {
    time_score_of(
        rfc3339_seconds(s),
        naive_seconds(s, "%Y-%m-%d %H:%M:%S"@),
        naive_seconds(s, "%Y-%m-%dT%H:%M:%S"@),
    )
}

/// `a` is newer than `b`: by score when both parse to a non-zero score,
/// otherwise by text order.
pub open spec fn newer_by_scores(a: Seq<char>, b: Seq<char>, sa: i64, sb: i64) -> bool {
    if sa == 0 || sb == 0 {
        lex_lt(b, a)
    } else {
        sa > sb
    }
}

/// `a` is a newer timestamp than `b`.
pub open spec fn time_newer(a: Seq<char>, b: Seq<char>) -> bool {
    newer_by_scores(a, b, time_score(a), time_score(b))
}

/// The score from the three parse results, in order of preference.
pub fn time_score_from(rfc: Option<i64>, spaced: Option<i64>, tee: Option<i64>) -> (r: i64)
    ensures
        r == time_score_of(rfc, spaced, tee),
{
    match rfc {
        Some(t) => t,
        None => match spaced {
            Some(t) => t,
            None => match tee {
                Some(t) => t,
                None => 0,
            },
        },
    }
}

/// The ordering score of timestamp text.
pub fn parse_time_score(value: &str) -> (r: i64)
    ensures
        r == time_score(value@),
{
    let rfc = parse_rfc3339_seconds(value);
    let spaced = parse_naive_seconds(value, "%Y-%m-%d %H:%M:%S");
    let tee = parse_naive_seconds(value, "%Y-%m-%dT%H:%M:%S");
    time_score_from(rfc, spaced, tee)
}

/// Whether `a` is newer than `b`, given their scores.
pub fn newer_from_scores(a: &[char], b: &[char], sa: i64, sb: i64) -> (r: bool)
    ensures
        r == newer_by_scores(a@, b@, sa, sb),
{
    if sa == 0 || sb == 0 {
        chars_lt(b, a)
    } else {
        sa > sb
    }
}

/// Whether timestamp `a` is newer than timestamp `b`.
pub fn is_time_newer(a: &str, b: &str) -> (r: bool)
    ensures
        r == time_newer(a@, b@),
{
    let sa = parse_time_score(a);
    let sb = parse_time_score(b);
    let va = crate::text::chars_of(a);
    let vb = crate::text::chars_of(b);
    newer_from_scores(va.as_slice(), vb.as_slice(), sa, sb)
}

/// No timestamp is newer than itself.
pub proof fn lemma_time_newer_irreflexive(a: Seq<char>)
    ensures
        !time_newer(a, a),
{
    crate::text::lemma_lex_lt_irreflexive(a);
}

/// Of two timestamps, at most one is newer than the other.
pub proof fn lemma_time_newer_asymmetric(a: Seq<char>, b: Seq<char>)
    ensures
        time_newer(a, b) ==> !time_newer(b, a),
{
    crate::text::lemma_lex_lt_asymmetric(a, b);
    crate::text::lemma_lex_lt_asymmetric(b, a);
}

/// Whether text is a date-time in the form `%Y-%m-%dT%H:%M:%S` that `chrono` accepts.
pub open spec fn is_iso_datetime(s: Seq<char>) -> bool {
    naive_seconds(s, "%Y-%m-%dT%H:%M:%S"@) is Some
}

/// Whether `value` parses as `%Y-%m-%dT%H:%M:%S`.
pub fn parses_as_iso_datetime(value: &str) -> (b: bool)
    ensures
        b == is_iso_datetime(value@),
{
    parse_naive_seconds(value, "%Y-%m-%dT%H:%M:%S").is_some()
}

/// The seconds of a `%Y-%m-%d %H:%M:%S` date-time, if it parses.
pub fn spaced_datetime_seconds(value: &str) -> (r: Option<i64>)
    ensures
        r == naive_seconds(value@, "%Y-%m-%d %H:%M:%S"@),
{
    parse_naive_seconds(value, "%Y-%m-%d %H:%M:%S")
}

/// The `%Y-%m-%dT%H:%M:%S` text of Unix seconds, if `chrono` represents them.
pub fn iso_text_of_seconds(secs: i64) -> (r: Option<String>)
    ensures
        r matches Some(s) ==> format_iso_seconds(secs) == Some(s@),
        r is None ==> format_iso_seconds(secs) is None,
{
    format_seconds(secs, "%Y-%m-%dT%H:%M:%S")
}

} // verus!
