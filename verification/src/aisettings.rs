//! Notification and AI-planning settings, and reading the plan that the AI
//! service answers with.
use crate::models::stored_text;
use crate::snapshot::{sorted_strict, sorted_union};
use crate::store::{
    bool_str, bool_text, entry, get_setting, lemma_lookup_append, lemma_lookup_distinct_keys,
    lookup, read_bool, stored_bool, table_view, SettingEntry,
};
use crate::text::{
    ascii_lower_seq, chars_of, contains_chars, is_whitespace, is_ws, opt_str, owned, push_all,
    slice_range, str_eq, strip_end_char, strip_end_char_vec, strip_end_seq, strip_start_char,
    strip_start_char_vec, strip_start_seq, string_from_chars, strs, to_ascii_lower, trim, trim_seq,
};
use crate::timefmt::{is_iso_datetime, parses_as_iso_datetime};
use vstd::prelude::*;

verus! {

broadcast use vstd::string::group_string_axioms;

// ---------------------------------------------------------------------
// Notification settings
// ---------------------------------------------------------------------
/// A notification position on offer, or `bottom_right`.
pub open spec fn normalized_position(v: Seq<char>) -> Seq<char> {
    if v == "bottom_left"@ || v == "top_right"@ || v == "top_left"@ {
        v
    } else {
        "bottom_right"@
    }
}

/// Keeps `bottom_left`, `top_right` and `top_left`; anything else becomes
/// `bottom_right`.
pub fn normalize_app_notification_position(value: &str) -> (r: String)
    ensures
        r@ == normalized_position(value@),
{
    if str_eq(value, "bottom_left") || str_eq(value, "top_right") || str_eq(value, "top_left") {
        owned(value)
    } else {
        owned("bottom_right")
    }
}

/// A notification type on offer (`system` or `app`), or `system`.
pub open spec fn normalized_type(v: Seq<char>) -> Seq<char> {
    if v == "system"@ || v == "app"@ {
        v
    } else {
        "system"@
    }
}

/// Keeps `system` and `app`; anything else becomes `system`.
pub fn normalize_notification_type(value: &str) -> (r: String)
    ensures
        r@ == normalized_type(value@),
{
    if str_eq(value, "system") || str_eq(value, "app") {
        owned(value)
    } else {
        owned("system")
    }
}

/// The stored notification type, `system` when none is stored.
pub fn get_notification_type(table: &Vec<SettingEntry>) -> (r: String)
    ensures
        r@ == stored_text(table_view(table@), "notification_type"@, "system"@),
{
    crate::store::read_string(table, "notification_type", "system")
}

/// The stored position of in-app notifications, normalized.
pub fn get_app_notification_position(table: &Vec<SettingEntry>) -> (r: String)
    ensures
        r@ == normalized_position(stored_text(table_view(table@), "app_notification_position"@, "bottom_right"@)),
{
    let v = crate::store::read_string(table, "app_notification_position", "bottom_right");
    normalize_app_notification_position(v.as_str())
}

/// Stores the notification type, normalized.
pub fn set_notification_type(table: &mut Vec<SettingEntry>, notification_type: &str)
    ensures
        table_view(final(table)@) == table_view(old(table)@).push(
            ("notification_type"@, normalized_type(notification_type@)),
        ),
{
    let v = normalize_notification_type(notification_type);
    crate::store::set_setting(table, "notification_type", v.as_str());
}

/// Stores the position of in-app notifications, normalized.
pub fn set_app_notification_position(table: &mut Vec<SettingEntry>, app_notification_position: &str)
    ensures
        table_view(final(table)@) == table_view(old(table)@).push(
            ("app_notification_position"@, normalized_position(app_notification_position@)),
        ),
{
    let v = normalize_app_notification_position(app_notification_position);
    crate::store::set_setting(table, "app_notification_position", v.as_str());
}

/// Reading the notification settings after storing them gives back what
/// was stored, normalized: a type on offer, or `system`; a position on
/// offer, or `bottom_right`.
pub proof fn lemma_notification_settings_write_then_read(
    t: Seq<(Seq<char>, Seq<char>)>,
    notification_type: Seq<char>,
    position: Seq<char>,
)
    ensures
        stored_text(t.push(("notification_type"@, normalized_type(notification_type))), "notification_type"@, "system"@)
            == normalized_type(notification_type),
        normalized_position(
            stored_text(
                t.push(("app_notification_position"@, normalized_position(position))),
                "app_notification_position"@,
                "bottom_right"@,
            ),
        ) == normalized_position(position),
{
    lemma_position_idempotent(position);
}

// ---------------------------------------------------------------------
// AI settings
// ---------------------------------------------------------------------
/// The AI service settings.
#[derive(Clone, Debug)]
pub struct AiSettings {
    pub base_url: String,
    pub api_key: String,
    pub model: String,
    pub thinking_enabled: bool,
    /// `high` or `max`.
    pub reasoning_effort: String,
}

/// A schedule suggested for a to-do.
#[derive(Clone, Debug)]
pub struct AiPlanResult {
    pub start_time: Option<String>,
    pub end_time: Option<String>,
    pub reminder_times: Vec<String>,
    pub reason: Option<String>,
}

/// The service used when no base address is set.
pub open spec fn default_base_url() -> Seq<char> {
    "https://api.deepseek.com"@
}

/// The model used when none is set.
pub open spec fn default_model() -> Seq<char> {
    "deepseek-v4-pro"@
}

/// A reasoning effort on offer (`high` or `max`, trimmed), or `high`.
pub open spec fn normalized_effort(v: Seq<char>) -> Seq<char> {
    if trim_seq(v) == "high"@ || trim_seq(v) == "max"@ {
        trim_seq(v)
    } else {
        "high"@
    }
}

/// Keeps `high` and `max` (trimmed); anything else becomes `high`.
pub fn normalize_reasoning_effort(value: &str) -> (r: String)
    ensures
        r@ == normalized_effort(value@),
{
    let t = trim(value);
    if str_eq(t.as_str(), "high") || str_eq(t.as_str(), "max") {
        t
    } else {
        owned("high")
    }
}

/// The base address as saved: the default when blank, else trimmed with
/// its trailing slashes removed.
pub open spec fn normalized_base_url(v: Seq<char>) -> Seq<char> {
    if trim_seq(v).len() == 0 {
        default_base_url()
    } else {
        strip_end_char(trim_seq(v), '/')
    }
}

/// The model as saved: the default when blank, else trimmed.
pub open spec fn normalized_model(v: Seq<char>) -> Seq<char> {
    if trim_seq(v).len() == 0 {
        default_model()
    } else {
        trim_seq(v)
    }
}

/// `r` is `s` normalized.
pub open spec fn ai_settings_normalized(r: AiSettings, s: AiSettings) -> bool {
    &&& r.base_url@ == normalized_base_url(s.base_url@)
    &&& r.api_key@ == trim_seq(s.api_key@)
    &&& r.model@ == normalized_model(s.model@)
    &&& r.thinking_enabled == s.thinking_enabled
    &&& r.reasoning_effort@ == normalized_effort(s.reasoning_effort@)
}

/// Normalizes AI settings: defaults for a blank address or model, fields
/// trimmed, trailing slashes dropped from the address, effort normalized.
pub fn normalize_ai_settings(settings: AiSettings) -> (r: AiSettings)
    ensures
        ai_settings_normalized(r, settings),
{
    let base = trim(settings.base_url.as_str());
    let base_url = if base.as_str().is_empty() {
        owned("https://api.deepseek.com")
    } else {
        let v = chars_of(base.as_str());
        let s = strip_end_char_vec(v.as_slice(), '/');
        string_from_chars(s.as_slice())
    };
    let m = trim(settings.model.as_str());
    let model = if m.as_str().is_empty() {
        owned("deepseek-v4-pro")
    } else {
        m
    };
    AiSettings {
        base_url,
        api_key: trim(settings.api_key.as_str()),
        model,
        thinking_enabled: settings.thinking_enabled,
        reasoning_effort: normalize_reasoning_effort(settings.reasoning_effort.as_str()),
    }
}

/// The address of an endpoint: the base without trailing slashes, a slash,
/// and the path without leading slashes.
pub open spec fn endpoint_of(base: Seq<char>, path: Seq<char>) -> Seq<char> {
    strip_end_char(base, '/') + seq!['/'] + strip_start_char(path, '/')
}

/// The address of an endpoint of the AI service.
pub fn ai_endpoint(base_url: &str, path: &str) -> (r: String)
    ensures
        r@ == endpoint_of(base_url@, path@),
{
    let b = chars_of(base_url);
    let mut v = strip_end_char_vec(b.as_slice(), '/');
    v.push('/');
    let p = chars_of(path);
    let q = strip_start_char_vec(p.as_slice(), '/');
    push_all(&mut v, q.as_slice());
    let r = string_from_chars(v.as_slice());
    assert(r@ =~= endpoint_of(base_url@, path@));
    r
}

/// A stored value unless it is blank, then the default.
pub open spec fn non_blank_or(v: Option<Seq<char>>, d: Seq<char>) -> Seq<char> {
    match v {
        Some(s) => if trim_seq(s).len() > 0 {
            s
        } else {
            d
        },
        None => d,
    }
}

/// The AI settings that a table holds.
pub open spec fn ai_settings_read(t: Seq<(Seq<char>, Seq<char>)>, s: AiSettings) -> bool {
    &&& s.base_url@ == non_blank_or(lookup(t, "ai_base_url"@), default_base_url())
    &&& s.api_key@ == stored_text(t, "ai_api_key"@, Seq::empty())
    &&& s.model@ == non_blank_or(lookup(t, "ai_model"@), default_model())
    &&& s.thinking_enabled == stored_bool(lookup(t, "ai_thinking_enabled"@), false)
    &&& s.reasoning_effort@ == (match lookup(t, "ai_reasoning_effort"@) {
        Some(v) => normalized_effort(v),
        None => "high"@,
    })
}

fn read_non_blank(table: &Vec<SettingEntry>, key: &str, default: &str) -> (r: String)
    ensures
        r@ == non_blank_or(lookup(table_view(table@), key@), default@),
{
    match get_setting(table, key) {
        Some(v) => {
            let t = trim(v.as_str());
            if t.as_str().is_empty() {
                owned(default)
            } else {
                v
            }
        },
        None => owned(default),
    }
}

/// Reads the AI settings.
pub fn read_ai_settings(table: &Vec<SettingEntry>) -> (s: AiSettings)
    ensures
        ai_settings_read(table_view(table@), s),
{
    let effort = match get_setting(table, "ai_reasoning_effort") {
        Some(v) => normalize_reasoning_effort(v.as_str()),
        None => owned("high"),
    };
    let s = AiSettings {
        base_url: read_non_blank(table, "ai_base_url", "https://api.deepseek.com"),
        api_key: crate::store::read_string(table, "ai_api_key", ""),
        model: read_non_blank(table, "ai_model", "deepseek-v4-pro"),
        thinking_enabled: read_bool(table, "ai_thinking_enabled", false),
        reasoning_effort: effort,
    };
    proof {
        reveal_strlit("");
        assert(""@ =~= Seq::<char>::empty());
    }
    s
}

/// The rows that store (already normalized) AI settings.
pub open spec fn ai_settings_rows(s: AiSettings) -> Seq<(Seq<char>, Seq<char>)> {
    seq![
        ("ai_base_url"@, s.base_url@),
        ("ai_api_key"@, s.api_key@),
        ("ai_model"@, s.model@),
        ("ai_thinking_enabled"@, bool_text(s.thinking_enabled)),
        ("ai_reasoning_effort"@, s.reasoning_effort@),
    ]
}

/// Saves the AI settings, normalized first.
pub fn save_ai_settings(table: &mut Vec<SettingEntry>, settings: AiSettings)
    ensures
        exists|n: AiSettings|
            ai_settings_normalized(n, settings) && table_view(final(table)@) == table_view(old(table)@)
                + ai_settings_rows(n),
{
    let s = normalize_ai_settings(settings);
    let mut w: Vec<SettingEntry> = Vec::new();
    w.push(entry("ai_base_url", s.base_url.as_str()));
    w.push(entry("ai_api_key", s.api_key.as_str()));
    w.push(entry("ai_model", s.model.as_str()));
    w.push(entry("ai_thinking_enabled", bool_str(s.thinking_enabled)));
    w.push(entry("ai_reasoning_effort", s.reasoning_effort.as_str()));
    assert(table_view(w@) =~= ai_settings_rows(s));
    crate::store::apply_writes(table, w);
}

/// Text with no whitespace at either end is its own trimmed form.
pub proof fn lemma_trim_of_clean(s: Seq<char>)
    requires
        s.len() > 0,
        !is_ws(s[0]),
        !is_ws(s.last()),
    ensures
        trim_seq(s) == s,
{
    assert(crate::text::trim_start_seq(s) == s);
    assert(crate::text::trim_end_seq(s) == s);
}

/// Normalizing a reasoning effort twice is normalizing it once.
pub proof fn lemma_effort_idempotent(v: Seq<char>)
    ensures
        normalized_effort(normalized_effort(v)) == normalized_effort(v),
{
    reveal_strlit("high");
    reveal_strlit("max");
    lemma_trim_of_clean("high"@);
    lemma_trim_of_clean("max"@);
}

/// Reading the AI settings after saving them gives back the settings as
/// saving normalized them, provided the normalized address is not blank
/// (a blank one reads back as the default address).
pub proof fn lemma_ai_settings_save_then_read(
    t: Seq<(Seq<char>, Seq<char>)>,
    s: AiSettings,
    n: AiSettings,
    r: AiSettings,
)
    requires
        ai_settings_normalized(n, s),
        trim_seq(n.base_url@).len() > 0,
        ai_settings_read(t + ai_settings_rows(n), r),
    ensures
        r.base_url@ == n.base_url@,
        r.api_key@ == n.api_key@,
        r.model@ == n.model@,
        r.thinking_enabled == n.thinking_enabled,
        r.reasoning_effort@ == n.reasoning_effort@,
{
    let w = ai_settings_rows(n);
    reveal_strlit("ai_base_url");
    reveal_strlit("ai_api_key");
    reveal_strlit("ai_model");
    reveal_strlit("ai_thinking_enabled");
    reveal_strlit("ai_reasoning_effort");
    reveal_strlit("true");
    reveal_strlit("false");
    reveal_strlit("deepseek-v4-pro");
    assert("false"@.len() == 5 && "true"@.len() == 4);
    let keys = seq!["ai_base_url"@, "ai_api_key"@, "ai_model"@, "ai_thinking_enabled"@, "ai_reasoning_effort"@];
    assert forall|j: int| 0 <= j < w.len() implies (#[trigger] w[j]).0 == keys[j] by {}
    assert forall|j: int, k: int| 0 <= j < k < keys.len() implies keys[j] != keys[k] by {
        if keys[j] == keys[k] {
            assert(keys[j].len() == keys[k].len());
            assert(keys[j][3] == keys[k][3]);
        }
    }
    assert forall|i: int| 0 <= i < w.len() implies lookup(w, #[trigger] keys[i]) == Some(w[i].1) by {
        lemma_lookup_distinct_keys(w, keys, i);
    }
    lemma_lookup_append(t, w, "ai_base_url"@);
    lemma_lookup_append(t, w, "ai_api_key"@);
    lemma_lookup_append(t, w, "ai_model"@);
    lemma_lookup_append(t, w, "ai_thinking_enabled"@);
    lemma_lookup_append(t, w, "ai_reasoning_effort"@);
    assert(lookup(w, "ai_base_url"@) == Some(n.base_url@));
    assert(lookup(w, "ai_api_key"@) == Some(n.api_key@));
    assert(lookup(w, "ai_model"@) == Some(n.model@));
    assert(lookup(w, "ai_thinking_enabled"@) == Some(bool_text(n.thinking_enabled)));
    assert(lookup(w, "ai_reasoning_effort"@) == Some(n.reasoning_effort@));
    if trim_seq(s.model@).len() == 0 {
        lemma_trim_of_clean("deepseek-v4-pro"@);
    } else {
        crate::text::lemma_trim_idempotent(s.model@);
    }
    lemma_effort_idempotent(s.reasoning_effort@);
}

/// Normalizing a notification position twice is normalizing it once.
pub proof fn lemma_position_idempotent(v: Seq<char>)
    ensures
        normalized_position(normalized_position(v)) == normalized_position(v),
{
    reveal_strlit("bottom_right");
    reveal_strlit("bottom_left");
    reveal_strlit("top_right");
    reveal_strlit("top_left");
    assert("bottom_right"@[7] != "bottom_left"@[7]);
}

// ---------------------------------------------------------------------
// Requests to the AI service
// ---------------------------------------------------------------------
/// Checks a planning request: a key and a model must be set, and a title or
/// a description given. Returns the trimmed title and description.
pub fn validate_plan_request(settings: &AiSettings, title: &str, description: &Option<String>) -> (r:
    Result<(String, String), String>)
    ensures
        ({
            let d = match description {
                Some(x) => x@,
                None => Seq::<char>::empty(),
            };
            if settings.api_key@.len() == 0 {
                r matches Err(e) && e@ == "请先在设置中填写 AI API Key"@
            } else if settings.model@.len() == 0 {
                r matches Err(e) && e@ == "请先在设置中选择 AI 模型"@
            } else if trim_seq(title@).len() == 0 && trim_seq(d).len() == 0 {
                r matches Err(e) && e@ == "请先填写标题或描述"@
            } else {
                r matches Ok((t, ds)) && t@ == trim_seq(title@) && ds@ == trim_seq(d)
            }
        }),
{
    if settings.api_key.as_str().is_empty() {
        return Err(owned("请先在设置中填写 AI API Key"));
    }
    if settings.model.as_str().is_empty() {
        return Err(owned("请先在设置中选择 AI 模型"));
    }
    let t = trim(title);
    let d = match description {
        Some(x) => trim(x.as_str()),
        None => {
            let e = String::new();
            proof {
                assert(trim_seq(Seq::<char>::empty()) == Seq::<char>::empty());
            }
            e
        },
    };
    if t.as_str().is_empty() && d.as_str().is_empty() {
        return Err(owned("请先填写标题或描述"));
    }
    Ok((t, d))
}

/// Whether the request asks for thinking.
#[derive(Clone, Debug)]
pub enum ThinkingMode {
    /// Thinking on, with the reasoning effort.
    Enabled,
    /// Thinking explicitly off (DeepSeek addresses).
    Disabled,
    /// Nothing said about thinking.
    Unspecified,
}

/// Whether the address names DeepSeek (compared in ASCII lower case).
pub open spec fn mentions_deepseek(base_url: Seq<char>) -> bool {
    crate::text::contains_seq(ascii_lower_seq(base_url), "deepseek"@)
}

/// Thinking is requested when enabled; otherwise it is switched off
/// explicitly for DeepSeek and not mentioned for other services.
pub fn thinking_mode(settings: &AiSettings) -> (m: ThinkingMode)
    ensures
        m == (if settings.thinking_enabled {
            ThinkingMode::Enabled
        } else if mentions_deepseek(settings.base_url@) {
            ThinkingMode::Disabled
        } else {
            ThinkingMode::Unspecified
        }),
{
    if settings.thinking_enabled {
        ThinkingMode::Enabled
    } else {
        let v = chars_of(settings.base_url.as_str());
        let l = to_ascii_lower(v.as_slice());
        let p = chars_of("deepseek");
        if contains_chars(l.as_slice(), p.as_slice()) {
            ThinkingMode::Disabled
        } else {
            ThinkingMode::Unspecified
        }
    }
}

/// Checks the settings before models are listed: a key must be set.
pub fn validate_model_listing(settings: &AiSettings) -> (r: Result<(), String>)
    ensures
        settings.api_key@.len() == 0 ==> (r matches Err(e) && e@ == "请先填写 API Key"@),
        settings.api_key@.len() > 0 ==> r is Ok,
{
    if settings.api_key.as_str().is_empty() {
        Err(owned("请先填写 API Key"))
    } else {
        Ok(())
    }
}

/// The model list from the ids the service named: sorted, each once; an
/// empty list is an error.
pub fn finish_model_list(ids: Vec<String>) -> (r: Result<Vec<String>, String>)
    ensures
        ids@.len() == 0 ==> (r matches Err(e) && e@ == "模型列表为空，请检查 Base URL 是否为兼容接口地址"@),
        ids@.len() > 0 ==> (r matches Ok(m) && sorted_strict(strs(m@)) && forall|y: Seq<char>|
            strs(m@).contains(y) <==> strs(ids@).contains(y)),
{
    let ghost i = strs(ids@);
    let n = ids.len();
    let empty: Vec<String> = Vec::new();
    let ghost e = strs(empty@);
    let m = sorted_union(ids, empty);
    if n == 0 {
        return Err(owned("模型列表为空，请检查 Base URL 是否为兼容接口地址"));
    }
    proof {
        let s = strs(m@);
        assert(i.contains(i[0]));
        assert(s.contains(i[0]));
        assert forall|y: Seq<char>| s.contains(y) <==> i.contains(y) by {
            assert(!e.contains(y));
        }
    }
    Ok(m)
}

// ---------------------------------------------------------------------
// Reading the plan
// ---------------------------------------------------------------------
/// Text with each run of whitespace collapsed to one space and no
/// whitespace at either end (`split_whitespace` joined by spaces).
pub open spec fn collapse_ws(s: Seq<char>) -> Seq<char>
    decreases s.len(),
{
    if s.len() == 0 {
        seq![]
    } else {
        let p = collapse_ws(s.drop_last());
        let c = s.last();
        if is_ws(c) {
            p
        } else if s.len() >= 2 && is_ws(s[s.len() - 2]) && p.len() > 0 {
            p + seq![' ', c]
        } else {
            p.push(c)
        }
    }
}

/// A short preview of a response body: whitespace collapsed, at most 240
/// characters.
pub fn response_preview(body: &str) -> (r: String)
    ensures
        r@ == collapse_ws(body@).take(if collapse_ws(body@).len() < 240 {
            collapse_ws(body@).len() as int
        } else {
            240
        }),
{
    let v = chars_of(body);
    let mut out: Vec<char> = Vec::new();
    let mut i: usize = 0;
    while i < v.len()
        invariant
            i <= v@.len(),
            out@ == collapse_ws(v@.take(i as int)),
        decreases v@.len() - i,
    {
        let c = v[i];
        proof {
            let t = v@.take(i + 1);
            assert(t.drop_last() =~= v@.take(i as int));
            assert(t.last() == c);
            if i >= 1 {
                assert(t[i - 1] == v@[i - 1]);
            }
        }
        if is_whitespace(c) {
        } else if i >= 1 && is_whitespace(v[i - 1]) && out.len() > 0 {
            out.push(' ');
            out.push(c);
        } else {
            out.push(c);
        }
        i = i + 1;
        assert(out@ =~= collapse_ws(v@.take(i as int)));
    }
    assert(v@.take(v@.len() as int) =~= v@);
    let n = if out.len() < 240 {
        out.len()
    } else {
        240
    };
    let r = slice_range(out.as_slice(), 0, n);
    assert(r@ =~= out@.take(n as int));
    string_from_chars(r.as_slice())
}

/// Text with code fences removed: when it starts with three backticks,
/// leading ```` ```json ```` and ```` ``` ```` runs and trailing ```` ``` ````
/// runs are stripped and the rest trimmed.
pub open spec fn unfenced(t: Seq<char>) -> Seq<char> {
    if "```"@.is_prefix_of(t) {
        trim_seq(strip_end_seq(strip_start_seq(strip_start_seq(t, "```json"@), "```"@), "```"@))
    } else {
        t
    }
}

/// The first position of `c` in `s`, if any.
pub open spec fn first_index(s: Seq<char>, c: char) -> Option<int> {
    if s.contains(c) {
        Some(choose|i: int| 0 <= i < s.len() && s[i] == c && forall|j: int| 0 <= j < i ==> s[j] != c)
    } else {
        None
    }
}

/// The last position of `c` in `s`, if any.
pub open spec fn last_index(s: Seq<char>, c: char) -> Option<int> {
    if s.contains(c) {
        Some(choose|i: int| 0 <= i < s.len() && s[i] == c && forall|j: int| i < j < s.len() ==> s[j] != c)
    } else {
        None
    }
}

/// The cleaned plan text, as `extract_plan_json` first computes it.
pub open spec fn cleaned_plan(content: Seq<char>) -> Seq<char> {
    unfenced(trim_seq(content))
}

/// The span between the first `{` and the last `}` of text that does not
/// start with `{` would be inverted (the first `{` lies beyond the last `}`
/// by more than one place).
pub open spec fn inverted_span(c: Seq<char>) -> bool {
    !(c.len() > 0 && c[0] == '{') && match (first_index(c, '{'), last_index(c, '}')) {
        (Some(a), Some(b)) => a > b + 1,
        _ => false,
    }
}

/// The cleaned answer's braces are inverted.
pub open spec fn braces_inverted(content: Seq<char>) -> bool {
    inverted_span(cleaned_plan(content))
}

/// The JSON object text in cleaned text: the text itself when it starts
/// with `{`, else the span from the first `{` to the last `}`.
pub open spec fn json_span(c: Seq<char>) -> Result<Seq<char>, Seq<char>> {
    if c.len() > 0 && c[0] == '{' {
        Ok(c)
    } else {
        match first_index(c, '{') {
            None => Err("AI 响应不是 JSON"@),
            Some(a) => match last_index(c, '}') {
                None => Err("AI 响应不是完整 JSON"@),
                Some(b) => Ok(c.subrange(a, b + 1)),
            },
        }
    }
}

/// The JSON object text in an AI answer: fences removed, then `json_span`.
pub open spec fn plan_json_text(content: Seq<char>) -> Result<Seq<char>, Seq<char>> {
    json_span(cleaned_plan(content))
}

fn find_first(v: &[char], c: char) -> (r: Option<usize>)
    ensures
        match r {
            Some(i) => first_index(v@, c) == Some(i as int) && i < v@.len(),
            None => first_index(v@, c) is None,
        },
{
    let mut i: usize = 0;
    while i < v.len()
        invariant
            i <= v@.len(),
            forall|j: int| 0 <= j < i ==> v@[j] != c,
        decreases v@.len() - i,
    {
        if v[i] == c {
            proof {
                assert(v@.contains(c));
                let k = choose|k: int| 0 <= k < v@.len() && v@[k] == c && forall|j: int| 0 <= j < k ==> v@[j] != c;
                if k < i {
                } else if k > i {
                    assert(v@[i as int] != c);
                }
            }
            return Some(i);
        }
        i = i + 1;
    }
    None
}

fn find_last(v: &[char], c: char) -> (r: Option<usize>)
    ensures
        match r {
            Some(i) => last_index(v@, c) == Some(i as int) && i < v@.len(),
            None => last_index(v@, c) is None,
        },
{
    let mut i = v.len();
    while i > 0
        invariant
            i <= v@.len(),
            forall|j: int| i <= j < v@.len() ==> v@[j] != c,
        decreases i,
    {
        if v[i - 1] == c {
            proof {
                assert(v@.contains(c));
                let k = choose|k: int| 0 <= k < v@.len() && v@[k] == c && forall|j: int| k < j < v@.len() ==> v@[j] != c;
                if k < i - 1 {
                    assert(v@[i - 1] == c);
                } else if k > i - 1 {
                }
            }
            return Some(i - 1);
        }
        i = i - 1;
    }
    None
}

fn strip_start_pattern(v: &[char], p: &[char]) -> (r: Vec<char>)
    requires
        p@.len() > 0,
    ensures
        r@ == strip_start_seq(v@, p@),
{
    let mut cur: Vec<char> = slice_range(v, 0, v.len());
    assert(cur@ =~= v@);
    while crate::text::starts_with(cur.as_slice(), p)
        invariant
            p@.len() > 0,
            strip_start_seq(cur@, p@) == strip_start_seq(v@, p@),
        decreases cur@.len(),
    {
        let n = cur.len();
        let ghost before = cur@;
        cur = slice_range(cur.as_slice(), p.len(), n);
        assert(cur@ =~= before.skip(p@.len() as int));
    }
    cur
}

fn strip_end_pattern(v: &[char], p: &[char]) -> (r: Vec<char>)
    requires
        p@.len() > 0,
    ensures
        r@ == strip_end_seq(v@, p@),
{
    let mut cur: Vec<char> = slice_range(v, 0, v.len());
    assert(cur@ =~= v@);
    while crate::text::ends_with(cur.as_slice(), p)
        invariant
            p@.len() > 0,
            strip_end_seq(cur@, p@) == strip_end_seq(v@, p@),
        decreases cur@.len(),
    {
        let n = cur.len();
        let ghost before = cur@;
        cur = slice_range(cur.as_slice(), 0, n - p.len());
        assert(cur@ =~= before.take(before.len() - p@.len()));
    }
    cur
}

/// Whether the answer's braces are inverted (see `braces_inverted`).
pub fn plan_braces_inverted(content: &str) -> (b: bool)
    ensures
        b == braces_inverted(content@),
{
    let c = cleaned_chars(content);
    if c.len() > 0 && c[0] == '{' {
        return false;
    }
    match (find_first(c.as_slice(), '{'), find_last(c.as_slice(), '}')) {
        (Some(a), Some(b)) => a > b + 1,
        _ => false,
    }
}

fn cleaned_chars(content: &str) -> (r: Vec<char>)
    ensures
        r@ == cleaned_plan(content@),
{
    let t = trim(content);
    let v = chars_of(t.as_str());
    let fence = chars_of("```");
    proof {
        reveal_strlit("```");
        reveal_strlit("```json");
    }
    if crate::text::starts_with(v.as_slice(), fence.as_slice()) {
        let json_fence = chars_of("```json");
        let a = strip_start_pattern(v.as_slice(), json_fence.as_slice());
        let b = strip_start_pattern(a.as_slice(), fence.as_slice());
        let c = strip_end_pattern(b.as_slice(), fence.as_slice());
        let s = string_from_chars(c.as_slice());
        let u = trim(s.as_str());
        chars_of(u.as_str())
    } else {
        v
    }
}

fn span_of(c: &Vec<char>) -> (r: Result<String, String>)
    requires
        !inverted_span(c@),
    ensures
        match r {
            Ok(s) => json_span(c@) == Ok::<Seq<char>, Seq<char>>(s@),
            Err(e) => json_span(c@) == Err::<Seq<char>, Seq<char>>(e@),
        },
{
    if c.len() > 0 && c[0] == '{' {
        return Ok(string_from_chars(c.as_slice()));
    }
    match find_first(c.as_slice(), '{') {
        None => Err(owned("AI 响应不是 JSON")),
        Some(a) => match find_last(c.as_slice(), '}') {
            None => Err(owned("AI 响应不是完整 JSON")),
            Some(b) => {
                let s = slice_range(c.as_slice(), a, b + 1);
                Ok(string_from_chars(s.as_slice()))
            },
        },
    }
}

/// Extracts the JSON object text from an AI answer (see `plan_json_text`).
pub fn extract_plan_json(content: &str) -> (r: Result<String, String>)
    requires
        !braces_inverted(content@),
    ensures
        match r {
            Ok(s) => plan_json_text(content@) == Ok::<Seq<char>, Seq<char>>(s@),
            Err(e) => plan_json_text(content@) == Err::<Seq<char>, Seq<char>>(e@),
        },
{
    let c = cleaned_chars(content);
    span_of(&c)
}

/// The fields of the plan object that are strings (or, for the reminder
/// times, the list items that are strings).
#[derive(Clone, Debug)]
pub struct PlanFields {
    pub start_time: Option<String>,
    pub end_time: Option<String>,
    /// Present when `reminderTimes` is a list.
    pub reminder_times: Option<Vec<String>>,
    /// The single `notifyAt` time older answers give.
    pub notify_at: Option<String>,
    pub reason: Option<String>,
}

/// Whether trimmed text reads `null` in any ASCII case.
pub open spec fn is_null_word(s: Seq<char>) -> bool {
    ascii_lower_seq(s) == "null"@
}

/// Spaces replaced by `T`.
pub open spec fn spaces_to_t(s: Seq<char>) -> Seq<char> {
    s.map_values(|c: char| if c == ' ' { 'T' } else { c })
}

/// The date-time a field gives: trimmed; empty or `null` gives none;
/// spaces become `T`; 16 bytes long gets `:00` added; kept only when it
/// then parses as `%Y-%m-%dT%H:%M:%S`.
pub open spec fn datetime_field(v: Option<Seq<char>>) -> Option<Seq<char>> {
    match v {
        None => None,
        Some(raw) => {
            let t = trim_seq(raw);
            if t.len() == 0 || is_null_word(t) {
                None
            } else {
                let n = spaces_to_t(t);
                let w = if vstd::utf8::encode_utf8(n).len() == 16 {
                    n + ":00"@
                } else {
                    n
                };
                if is_iso_datetime(w) {
                    Some(w)
                } else {
                    None
                }
            }
        },
    }
}

/// A UTF-8 encoding takes one to four bytes per character.
proof fn lemma_utf8_len_bounds(s: Seq<char>)
    ensures
        s.len() <= vstd::utf8::encode_utf8(s).len() <= 4 * s.len(),
    decreases s.len(),
{
    if s.len() > 0 {
        lemma_utf8_len_bounds(s.drop_first());
        let e = vstd::utf8::encode_scalar(s[0] as u32);
        assert(1 <= e.len() <= 4);
    }
}

/// Reads a date-time field (see `datetime_field`).
pub fn read_datetime_field(value: &Option<String>) -> (r: Option<String>)
    ensures
        opt_str(r) == datetime_field(opt_str(*value)),
{
    match value {
        None => None,
        Some(raw) => {
            let t = trim(raw.as_str());
            let tv = chars_of(t.as_str());
            let lower = to_ascii_lower(tv.as_slice());
            let null = chars_of("null");
            if t.as_str().is_empty() || crate::text::chars_eq(lower.as_slice(), null.as_slice()) {
                return None;
            }
            let mut n: Vec<char> = Vec::new();
            let mut k: usize = 0;
            while k < tv.len()
                invariant
                    k <= tv@.len(),
                    n@ == spaces_to_t(tv@.take(k as int)),
                decreases tv@.len() - k,
            {
                let c = tv[k];
                n.push(if c == ' ' {
                    'T'
                } else {
                    c
                });
                k = k + 1;
                assert(n@ =~= spaces_to_t(tv@.take(k as int)));
            }
            assert(tv@.take(tv@.len() as int) =~= tv@);
            let ns = string_from_chars(n.as_slice());
            proof {
                lemma_utf8_len_bounds(n@);
            }
            let sixteen_bytes = n.len() <= 16 && ns.as_str().len() == 16;
            let w = if sixteen_bytes {
                let mut m = n;
                let suffix = chars_of(":00");
                push_all(&mut m, suffix.as_slice());
                string_from_chars(m.as_slice())
            } else {
                ns
            };
            proof {
                assert(tv@ == trim_seq(raw@));
                assert(!(tv@.len() == 0 || is_null_word(tv@)));
                assert(n@ == spaces_to_t(tv@));
                assert(w@ == (if vstd::utf8::encode_utf8(n@).len() == 16 {
                    n@ + ":00"@
                } else {
                    n@
                }));
            }
            if parses_as_iso_datetime(w.as_str()) {
                Some(w)
            } else {
                None
            }
        },
    }
}

/// The reminder times a plan gives: the list's readable date-times, each
/// once, sorted; without a list, the `notifyAt` time if it is readable.
pub open spec fn plan_times_ok(r: Seq<Seq<char>>, f: PlanFields) -> bool {
    match f.reminder_times {
        Some(items) => sorted_strict(r) && forall|y: Seq<char>|
            r.contains(y) <==> exists|i: int|
                0 <= i < items@.len() && datetime_field(Some(#[trigger] items@[i]@)) == Some(y),
        None => match datetime_field(opt_str(f.notify_at)) {
            Some(t) => r == seq![t],
            None => r.len() == 0,
        },
    }
}

/// The reason a plan gives: trimmed, none when empty.
pub open spec fn plan_reason(v: Option<Seq<char>>) -> Option<Seq<char>> {
    match v {
        Some(s) => if trim_seq(s).len() > 0 {
            Some(trim_seq(s))
        } else {
            None
        },
        None => None,
    }
}

/// Reads the plan from the fields of the plan object.
pub fn plan_from_fields(fields: &PlanFields) -> (r: AiPlanResult)
    ensures
        opt_str(r.start_time) == datetime_field(opt_str(fields.start_time)),
        opt_str(r.end_time) == datetime_field(opt_str(fields.end_time)),
        plan_times_ok(strs(r.reminder_times@), *fields),
        opt_str(r.reason) == plan_reason(opt_str(fields.reason)),
{
    let reminder_times = match &fields.reminder_times {
        Some(items) => {
            let mut found: Vec<String> = Vec::new();
            let mut k: usize = 0;
            while k < items.len()
                invariant
                    k <= items@.len(),
                    forall|y: Seq<char>| strs(found@).contains(y) <==> exists|i: int|
                        0 <= i < k && datetime_field(Some(#[trigger] items@[i]@)) == Some(y),
                decreases items@.len() - k,
            {
                let ghost before = strs(found@);
                let ghost old_found = found@;
                match read_datetime_field(&Some(items[k].clone())) {
                    Some(t) => {
                        found.push(t);
                    },
                    None => {},
                }
                proof {
                    assert forall|y: Seq<char>| strs(found@).contains(y) <==> exists|i: int|
                        0 <= i < k + 1 && datetime_field(Some(#[trigger] items@[i]@)) == Some(y) by {
                        if strs(found@).contains(y) {
                            let j = choose|j: int| 0 <= j < strs(found@).len() && strs(found@)[j] == y;
                            if j < before.len() {
                                assert(found@[j] == old_found[j]);
                                assert(before[j] == y);
                                assert(before.contains(y));
                            } else {
                                assert(datetime_field(Some(items@[k as int]@)) == Some(y));
                            }
                        }
                        if exists|i: int| 0 <= i < k + 1 && datetime_field(Some(#[trigger] items@[i]@)) == Some(y) {
                            let i = choose|i: int| 0 <= i < k + 1 && datetime_field(Some(#[trigger] items@[i]@)) == Some(y);
                            if i < k {
                                assert(before.contains(y));
                                let j = choose|j: int| 0 <= j < before.len() && before[j] == y;
                                assert(found@[j] == old_found[j]);
                                assert(strs(found@)[j] == y);
                            } else {
                                assert(strs(found@)[before.len() as int] == y);
                            }
                        }
                    }
                }
                k = k + 1;
            }
            sorted_union(found, Vec::new())
        },
        None => match read_datetime_field(&fields.notify_at) {
            Some(t) => {
                let mut v: Vec<String> = Vec::new();
                v.push(t);
                assert(strs(v@) =~= seq![v@[0]@]);
                v
            },
            None => Vec::new(),
        },
    };
    let reason = match &fields.reason {
        Some(s) => {
            let t = trim(s.as_str());
            if t.as_str().is_empty() {
                None
            } else {
                Some(t)
            }
        },
        None => None,
    };
    AiPlanResult {
        start_time: read_datetime_field(&fields.start_time),
        end_time: read_datetime_field(&fields.end_time),
        reminder_times,
        reason,
    }
}

/// Optional text, or `无` where it is missing.
pub open spec fn or_none_text(t: Option<String>) -> Seq<char> {
    match t {
        Some(x) => x@,
        None => "无"@,
    }
}

/// The user prompt of a planning request: the current local time and
/// weekday, the to-do's times so far (`无` where missing; the reminder
/// times as a JSON list), its title and its description (`无` when empty).
pub open spec fn plan_prompt_of(
    now: Seq<char>,
    weekday: Seq<char>,
    start: Option<String>,
    end: Option<String>,
    reminders_json: Seq<char>,
    title: Seq<char>,
    description: Seq<char>,
) -> Seq<char> {
    "当前本地时间："@ + now + "\n当前星期："@ + weekday + "\n已有开始时间："@ + or_none_text(start) + "\n已有截止时间："@
        + or_none_text(end) + "\n已有提醒时间："@ + reminders_json + "\n标题："@ + title + "\n描述："@ + (if description.len()
        == 0 {
        "无"@
    } else {
        description
    }) + "\n请输出合法 json。"@
}

fn push_str(v: &mut Vec<char>, t: &str)
    ensures
        final(v)@ == old(v)@ + t@,
{
    let c = chars_of(t);
    push_all(v, c.as_slice());
}

fn push_or_none(v: &mut Vec<char>, t: &Option<String>)
    ensures
        final(v)@ == old(v)@ + or_none_text(*t),
{
    match t {
        Some(x) => push_str(v, x.as_str()),
        None => push_str(v, "无"),
    }
}

/// Builds the user prompt of a planning request (see `plan_prompt_of`).
pub fn plan_user_prompt(
    now: &str,
    weekday: &str,
    start: &Option<String>,
    end: &Option<String>,
    reminders_json: &str,
    title: &str,
    description: &str,
) -> (r: String)
    ensures
        r@ == plan_prompt_of(now@, weekday@, *start, *end, reminders_json@, title@, description@),
{
    let mut v: Vec<char> = Vec::new();
    push_str(&mut v, "当前本地时间：");
    push_str(&mut v, now);
    push_str(&mut v, "\n当前星期：");
    push_str(&mut v, weekday);
    push_str(&mut v, "\n已有开始时间：");
    push_or_none(&mut v, start);
    push_str(&mut v, "\n已有截止时间：");
    push_or_none(&mut v, end);
    push_str(&mut v, "\n已有提醒时间：");
    push_str(&mut v, reminders_json);
    push_str(&mut v, "\n标题：");
    push_str(&mut v, title);
    push_str(&mut v, "\n描述：");
    if description.is_empty() {
        push_str(&mut v, "无");
    } else {
        push_str(&mut v, description);
    }
    push_str(&mut v, "\n请输出合法 json。");
    let r = string_from_chars(v.as_slice());
    assert(r@ =~= plan_prompt_of(now@, weekday@, *start, *end, reminders_json@, title@, description@));
    r
}

/// The request prompt of a second attempt: the first prompt and a note
/// that the last answer could not be read.
pub open spec fn retry_prompt_of(user_prompt: Seq<char>) -> Seq<char> {
    user_prompt + "\n\n上一次输出无法被解析。请严格只返回一个 json 对象，不能包含任何额外文字。"@
}

/// A response's preview, as the error text of an unreadable answer carries it.
pub open spec fn preview_of(body: Seq<char>) -> Seq<char> {
    collapse_ws(body).take(if collapse_ws(body).len() < 240 {
        collapse_ws(body).len() as int
    } else {
        240
    })
}

/// What to do after an answer of the AI service was read.
#[derive(Clone, Debug)]
pub enum PlanStep {
    /// The answer held a plan.
    Done(AiPlanResult),
    /// Ask again with this prompt.
    Retry { prompt: String },
    /// Give up with this error.
    Fail(String),
}

/// The step after attempt `attempt` (0 for the first request, 1 for the
/// second) whose answer `body` read as `parsed`: a plan ends the requests;
/// an unreadable first answer asks again with the retry prompt; an
/// unreadable second answer fails with its error and a preview of the
/// answer.
pub fn next_plan_step(attempt: u32, user_prompt: &str, parsed: Result<AiPlanResult, String>, body: &str) -> (r:
    PlanStep)
    requires
        attempt < 2,
    ensures
        parsed matches Ok(p) ==> r == PlanStep::Done(p),
        parsed is Err && attempt == 0 ==> (r matches PlanStep::Retry { prompt } && prompt@ == retry_prompt_of(
            user_prompt@,
        )),
        parsed is Err && attempt == 1 ==> (r matches PlanStep::Fail(m) && m@ == parsed->Err_0@ + "；响应摘要："@
            + preview_of(body@)),
{
    match parsed {
        Ok(p) => PlanStep::Done(p),
        Err(e) => {
            if attempt == 0 {
                let mut v = chars_of(user_prompt);
                let note = chars_of("\n\n上一次输出无法被解析。请严格只返回一个 json 对象，不能包含任何额外文字。");
                push_all(&mut v, note.as_slice());
                PlanStep::Retry { prompt: string_from_chars(v.as_slice()) }
            } else {
                let mut v = chars_of(e.as_str());
                let sep = chars_of("；响应摘要：");
                push_all(&mut v, sep.as_slice());
                let preview = response_preview(body);
                let pv = chars_of(preview.as_str());
                push_all(&mut v, pv.as_slice());
                PlanStep::Fail(string_from_chars(v.as_slice()))
            }
        },
    }
}

/// The text a chat answer carries the plan in: the arguments of its first
/// tool call when present, else its message content.
pub fn plan_text_of_answer(tool_arguments: Option<String>, content: Option<String>) -> (r: Result<
    String,
    String,
>)
    ensures
        match (tool_arguments, content) {
            (Some(a), _) => r matches Ok(t) && t@ == a@,
            (None, Some(c)) => r matches Ok(t) && t@ == c@,
            (None, None) => r matches Err(e) && e@ == "AI 响应缺少工具调用和文本内容"@,
        },
{
    match tool_arguments {
        Some(a) => Ok(a),
        None => match content {
            Some(c) => Ok(c),
            None => Err(owned("AI 响应缺少工具调用和文本内容")),
        },
    }
}

} // verus!
