//! Coding agents run as child processes: their events, the health check of
//! an agent's command-line tool, and the summary of a finished run.
use crate::text::{
    chars_lt, chars_of, i64_digits, int_decimal, lex_lt, opt_str, push_all, str_eq, string_from_chars,
};
use vstd::prelude::*;

verus! {

broadcast use vstd::string::group_string_axioms;

/// What a running agent reports.
#[derive(Clone, Debug)]
pub enum AgentEvent {
    Log { content: String, level: String },
    Progress { message: String },
    TokenUsage { input_tokens: u64, output_tokens: u64 },
    Completed { exit_code: i32, result: String },
    Failed { error: String },
}

/// One line of an agent's output, kept for the execution view.
#[derive(Clone, Debug)]
pub struct CachedLog {
    pub content: String,
    pub level: String,
    pub timestamp_ms: u64,
}

/// The health of an agent's command-line tool.
#[derive(Clone, Debug)]
pub struct AgentHealthStatus {
    pub agent_id: i64,
    pub cli_found: bool,
    pub detected_version: Option<String>,
    pub version_compatible: bool,
    /// `unavailable`, `outdated`, `no_key`, `healthy` or `error`.
    pub status: String,
    pub message: Option<String>,
}

/// The agent kinds that have a runner.
pub open spec fn is_supported(agent_type: Seq<char>) -> bool {
    agent_type == "claude_code"@ || agent_type == "codex"@
}

/// Whether an agent kind has a runner.
pub fn is_supported_agent(agent_type: &str) -> (b: bool)
    ensures
        b == is_supported(agent_type@),
{
    str_eq(agent_type, "claude_code") || str_eq(agent_type, "codex")
}

/// The environment variable that carries an agent's API key.
pub open spec fn api_key_var(agent_type: Seq<char>) -> Seq<char> {
    if agent_type == "claude_code"@ {
        "ANTHROPIC_API_KEY"@
    } else if agent_type == "codex"@ {
        "OPENAI_API_KEY"@
    } else {
        "API_KEY"@
    }
}

/// The environment variable that carries an agent's API key.
pub fn api_key_env_var(agent_type: &str) -> (r: &'static str)
    ensures
        r@ == api_key_var(agent_type@),
{
    if str_eq(agent_type, "claude_code") {
        "ANTHROPIC_API_KEY"
    } else if str_eq(agent_type, "codex") {
        "OPENAI_API_KEY"
    } else {
        "API_KEY"
    }
}

/// The environment variable an agent run of kind `agent_type` gets its API
/// key in; an error when no runner exists for that kind.
pub fn agent_key_variable(agent_type: &str) -> (r: Result<&'static str, String>)
    ensures
        is_supported(agent_type@) ==> (r matches Ok(v) && v@ == api_key_var(agent_type@)),
        !is_supported(agent_type@) ==> (r matches Err(e) && e@ == "不支持的 Agent 类型: "@ + agent_type@),
{
    if !is_supported_agent(agent_type) {
        let mut v = chars_of("不支持的 Agent 类型: ");
        let t = chars_of(agent_type);
        push_all(&mut v, t.as_slice());
        let e = string_from_chars(v.as_slice());
        assert(e@ =~= "不支持的 Agent 类型: "@ + agent_type@);
        return Err(e);
    }
    Ok(api_key_env_var(agent_type))
}

/// A found version is compatible when no minimum is set or it is not
/// below the minimum (compared as text).
pub open spec fn compatible(version: Option<Seq<char>>, min: Seq<char>) -> bool {
    match version {
        Some(v) => min.len() == 0 || !lex_lt(v, min),
        None => false,
    }
}

/// The health status word.
pub open spec fn health_word(found: bool, compatible: bool, has_key: bool) -> Seq<char> {
    if !found {
        "unavailable"@
    } else if !compatible {
        "outdated"@
    } else if !has_key {
        "no_key"@
    } else {
        "healthy"@
    }
}

/// The version as shown, `?` when none.
pub open spec fn shown_version(version: Option<Seq<char>>) -> Seq<char> {
    match version {
        Some(v) => v,
        None => "?"@,
    }
}

/// The message that goes with a status word.
pub open spec fn health_message(word: Seq<char>, cli_path: Seq<char>, version: Option<Seq<char>>, min: Seq<char>) -> Seq<char> {
    if word == "unavailable"@ {
        "CLI 未安装或不在 PATH 中: "@ + cli_path
    } else if word == "outdated"@ {
        "版本过低，当前 "@ + shown_version(version) + "，要求 >= "@ + min
    } else if word == "no_key"@ {
        "API Key 未配置"@
    } else {
        "就绪 (v"@ + shown_version(version) + ")"@
    }
}

proof fn lemma_health_words_distinct()
    ensures
        "unavailable"@ != "outdated"@,
        "unavailable"@ != "no_key"@,
        "unavailable"@ != "healthy"@,
        "outdated"@ != "no_key"@,
        "outdated"@ != "healthy"@,
        "no_key"@ != "healthy"@,
{
    reveal_strlit("unavailable");
    reveal_strlit("outdated");
    reveal_strlit("no_key");
    reveal_strlit("healthy");
    assert("unavailable"@.len() == 11);
    assert("outdated"@.len() == 8);
    assert("no_key"@.len() == 6);
    assert("healthy"@.len() == 7);
}

/// The health of an agent's tool, given its settings and the version the
/// tool reported (`None` when it could not be run). An agent kind without
/// a runner is an error.
pub fn check_health(
    agent_id: i64,
    agent_type: &str,
    cli_path: &str,
    min_cli_version: &str,
    api_key_encrypted: &str,
    version: Option<String>,
) -> (h: AgentHealthStatus)
    ensures
        h.agent_id == agent_id,
        !is_supported(agent_type@) ==> {
            &&& !h.cli_found
            &&& h.detected_version is None
            &&& !h.version_compatible
            &&& h.status@ == "error"@
            &&& h.message matches Some(m) && m@ == "不支持的 Agent 类型: "@ + agent_type@
        },
        is_supported(agent_type@) ==> {
            let v = opt_str(version);
            let ok = compatible(v, min_cli_version@);
            let word = health_word(version is Some, ok, api_key_encrypted@.len() > 0);
            &&& h.cli_found == version is Some
            &&& h.detected_version == version
            &&& h.version_compatible == ok
            &&& h.status@ == word
            &&& h.message matches Some(m) && m@ == health_message(word, cli_path@, v, min_cli_version@)
        },
{
    proof {
        lemma_health_words_distinct();
    }
    if !is_supported_agent(agent_type) {
        let mut m = chars_of("不支持的 Agent 类型: ");
        push_all(&mut m, chars_of(agent_type).as_slice());
        let message = string_from_chars(m.as_slice());
        return AgentHealthStatus {
            agent_id,
            cli_found: false,
            detected_version: None,
            version_compatible: false,
            status: "error".to_string(),
            message: Some(message),
        };
    }
    let cli_found = version.is_some();
    let min = chars_of(min_cli_version);
    let version_compatible = match &version {
        Some(v) => min.len() == 0 || !chars_lt(chars_of(v.as_str()).as_slice(), min.as_slice()),
        None => false,
    };
    let has_key = !api_key_encrypted.is_empty();
    let shown = match &version {
        Some(v) => chars_of(v.as_str()),
        None => chars_of("?"),
    };
    let ghost v = opt_str(version);
    let ghost word = health_word(version is Some, compatible(v, min_cli_version@), api_key_encrypted@.len() > 0);
    assert(version_compatible == compatible(v, min_cli_version@));
    assert(shown@ == shown_version(v));
    let mut msg: Vec<char>;
    let status: &str;
    if !cli_found {
        status = "unavailable";
        msg = chars_of("CLI 未安装或不在 PATH 中: ");
        push_all(&mut msg, chars_of(cli_path).as_slice());
        proof {
            assert(msg@ =~= health_message(word, cli_path@, v, min_cli_version@));
        }
    } else if !version_compatible {
        status = "outdated";
        msg = chars_of("版本过低，当前 ");
        push_all(&mut msg, shown.as_slice());
        push_all(&mut msg, chars_of("，要求 >= ").as_slice());
        push_all(&mut msg, min.as_slice());
        proof {
            assert(msg@ =~= health_message(word, cli_path@, v, min_cli_version@));
        }
    } else if !has_key {
        status = "no_key";
        msg = chars_of("API Key 未配置");
        proof {
            assert(msg@ =~= health_message(word, cli_path@, v, min_cli_version@));
        }
    } else {
        status = "healthy";
        msg = chars_of("就绪 (v");
        push_all(&mut msg, shown.as_slice());
        push_all(&mut msg, chars_of(")").as_slice());
        proof {
            assert(msg@ =~= health_message(word, cli_path@, v, min_cli_version@));
        }
    }
    proof {
        assert(status@ == word);
        assert(msg@ =~= health_message(word, cli_path@, v, min_cli_version@));
    }
    let message = string_from_chars(msg.as_slice());
    AgentHealthStatus {
        agent_id,
        cli_found,
        detected_version: version,
        version_compatible,
        status: status.to_string(),
        message: Some(message),
    }
}

/// What the app reads from one JSON line of an agent's standard output.
#[derive(Clone, Debug)]
pub struct StdoutRecord {
    /// The `type` field, empty when missing.
    pub event_type: String,
    /// `usage.input_tokens`, zero when missing.
    pub usage_input: u64,
    /// `usage.output_tokens`, zero when missing.
    pub usage_output: u64,
    /// `item.type`, else `item.item_type`, empty when both are missing.
    pub item_type: String,
    /// `item.text`, when it is a string.
    pub item_text: Option<String>,
    /// `item.command`, when it is a string.
    pub item_command: Option<String>,
    /// `result`, when it is a string.
    pub result_text: Option<String>,
}

/// What a finished run answered and used.
#[derive(Clone, Debug)]
pub struct AgentSummary {
    pub text_response: String,
    pub input_tokens: u64,
    pub output_tokens: u64,
    pub exit_code: i32,
}

/// `text` added to a response, on a line of its own after what is there.
pub open spec fn appended(resp: Seq<char>, text: Seq<char>) -> Seq<char> {
    if resp.len() == 0 {
        text
    } else {
        resp + seq!['\n'] + text
    }
}

/// The response after one output line: message items and commands are
/// added, a `result` line replaces it.
pub open spec fn response_step(resp: Seq<char>, r: StdoutRecord) -> Seq<char> {
    let t = r.event_type@;
    if t == "item.started"@ || t == "item.completed"@ {
        let it = r.item_type@;
        if it == "agent_message"@ || it == "assistant_message"@ {
            match r.item_text {
                Some(x) => appended(resp, x@),
                None => resp,
            }
        } else if it == "command_execution"@ {
            match r.item_command {
                Some(c) => appended(resp, "$ "@ + c@),
                None => resp,
            }
        } else {
            resp
        }
    } else if t == "result"@ {
        match r.result_text {
            Some(x) => x@,
            None => resp,
        }
    } else {
        resp
    }
}

/// The response built from the output lines.
pub open spec fn response_of(rs: Seq<StdoutRecord>) -> Seq<char>
    decreases rs.len(),
{
    if rs.len() == 0 {
        seq![]
    } else {
        response_step(response_of(rs.drop_last()), rs.last())
    }
}

/// Input tokens of the `turn.completed` lines.
pub open spec fn input_sum(rs: Seq<StdoutRecord>) -> int
    decreases rs.len(),
{
    if rs.len() == 0 {
        0
    } else {
        input_sum(rs.drop_last()) + if rs.last().event_type@ == "turn.completed"@ {
            rs.last().usage_input as int
        } else {
            0
        }
    }
}

/// Output tokens of the `turn.completed` lines.
pub open spec fn output_sum(rs: Seq<StdoutRecord>) -> int
    decreases rs.len(),
{
    if rs.len() == 0 {
        0
    } else {
        output_sum(rs.drop_last()) + if rs.last().event_type@ == "turn.completed"@ {
            rs.last().usage_output as int
        } else {
            0
        }
    }
}

/// Lines joined with newlines.
pub open spec fn joined_lines(ls: Seq<Seq<char>>) -> Seq<char>
    decreases ls.len(),
{
    if ls.len() == 0 {
        seq![]
    } else if ls.len() == 1 {
        ls[0]
    } else {
        joined_lines(ls.drop_last()) + seq!['\n'] + ls.last()
    }
}

proof fn lemma_sums_grow(rs: Seq<StdoutRecord>, k: int)
    requires
        0 <= k <= rs.len(),
    ensures
        input_sum(rs.take(k)) <= input_sum(rs),
        output_sum(rs.take(k)) <= output_sum(rs),
        input_sum(rs.take(k)) >= 0,
        output_sum(rs.take(k)) >= 0,
    decreases rs.len() - k,
{
    if k < rs.len() {
        lemma_sums_grow(rs, k + 1);
        assert(rs.take(k + 1).drop_last() =~= rs.take(k));
    } else {
        assert(rs.take(k) =~= rs);
    }
    lemma_sums_nonneg(rs.take(k));
}

proof fn lemma_sums_nonneg(rs: Seq<StdoutRecord>)
    ensures
        input_sum(rs) >= 0,
        output_sum(rs) >= 0,
    decreases rs.len(),
{
    if rs.len() > 0 {
        lemma_sums_nonneg(rs.drop_last());
    }
}

/// The outcome of a run that exited with `exit_code`: an error carrying
/// the error output when it failed without one line of output; otherwise
/// the response and the token counts.
pub fn summarize_agent_run(records: &Vec<StdoutRecord>, exit_code: i32, stderr_lines: &Vec<String>) -> (r:
    Result<AgentSummary, String>)
    requires
        input_sum(records@) <= u64::MAX,
        output_sum(records@) <= u64::MAX,
    ensures
        (exit_code != 0 && records@.len() == 0 && stderr_lines@.len() > 0) ==> (r matches Err(e) && e@
            == "Agent 进程退出码 "@ + int_decimal(exit_code as int) + ":\n"@ + joined_lines(
            stderr_lines@.map_values(|l: String| l@),
        )),
        !(exit_code != 0 && records@.len() == 0 && stderr_lines@.len() > 0) ==> (r matches Ok(s) && s.text_response@
            == response_of(records@) && s.input_tokens == input_sum(records@) && s.output_tokens
            == output_sum(records@) && s.exit_code == exit_code),
{
    if exit_code != 0 && records.len() == 0 && stderr_lines.len() > 0 {
        let mut m = chars_of("Agent 进程退出码 ");
        push_all(&mut m, i64_digits(exit_code as i64).as_slice());
        push_all(&mut m, chars_of(":\n").as_slice());
        let ghost ls = stderr_lines@.map_values(|l: String| l@);
        let mut j: Vec<char> = Vec::new();
        let mut i: usize = 0;
        while i < stderr_lines.len()
            invariant
                i <= stderr_lines@.len(),
                ls == stderr_lines@.map_values(|l: String| l@),
                j@ == joined_lines(ls.take(i as int)),
            decreases stderr_lines@.len() - i,
        {
            proof {
                assert(ls.take(i + 1).drop_last() =~= ls.take(i as int));
                assert(ls.take(i + 1).last() == stderr_lines@[i as int]@);
            }
            if i > 0 {
                j.push('\n');
            } else {
                assert(ls.take(1)[0] == stderr_lines@[0]@);
            }
            push_all(&mut j, chars_of(stderr_lines[i].as_str()).as_slice());
            proof {
                assert(j@ =~= joined_lines(ls.take(i + 1)));
            }
            i = i + 1;
        }
        assert(ls.take(ls.len() as int) =~= ls);
        push_all(&mut m, j.as_slice());
        return Err(string_from_chars(m.as_slice()));
    }
    let mut resp: Vec<char> = Vec::new();
    let mut total_input: u64 = 0;
    let mut total_output: u64 = 0;
    let mut i: usize = 0;
    proof {
        reveal_strlit("item.started");
        reveal_strlit("item.completed");
        reveal_strlit("result");
        reveal_strlit("turn.completed");
    }
    while i < records.len()
        invariant
            i <= records@.len(),
            input_sum(records@) <= u64::MAX,
            output_sum(records@) <= u64::MAX,
            resp@ == response_of(records@.take(i as int)),
            total_input == input_sum(records@.take(i as int)),
            total_output == output_sum(records@.take(i as int)),
        decreases records@.len() - i,
    {
        let rec = &records[i];
        proof {
            assert(records@.take(i + 1).drop_last() =~= records@.take(i as int));
            assert(records@.take(i + 1).last() == *rec);
            lemma_sums_grow(records@, i + 1);
        }
        let t = rec.event_type.as_str();
        if str_eq(t, "turn.completed") {
            total_input = total_input + rec.usage_input;
            total_output = total_output + rec.usage_output;
        }
        if str_eq(t, "item.started") || str_eq(t, "item.completed") {
            let it = rec.item_type.as_str();
            if str_eq(it, "agent_message") || str_eq(it, "assistant_message") {
                match &rec.item_text {
                    Some(x) => {
                        if resp.len() > 0 {
                            resp.push('\n');
                        }
                        push_all(&mut resp, chars_of(x.as_str()).as_slice());
                    },
                    None => {},
                }
            } else if str_eq(it, "command_execution") {
                match &rec.item_command {
                    Some(c) => {
                        if resp.len() > 0 {
                            resp.push('\n');
                        }
                        push_all(&mut resp, chars_of("$ ").as_slice());
                        push_all(&mut resp, chars_of(c.as_str()).as_slice());
                    },
                    None => {},
                }
            }
        } else if str_eq(t, "result") {
            match &rec.result_text {
                Some(x) => {
                    resp = chars_of(x.as_str());
                },
                None => {},
            }
        }
        proof {
            assert(resp@ =~= response_of(records@.take(i + 1)));
        }
        i = i + 1;
    }
    assert(records@.take(records@.len() as int) =~= records@);
    Ok(AgentSummary {
        text_response: string_from_chars(resp.as_slice()),
        input_tokens: total_input,
        output_tokens: total_output,
        exit_code,
    })
}

/// The state of an agent run in the background, as the execution view
/// reads it.
#[derive(Clone, Debug)]
pub struct ExecutionState {
    pub task_id: String,
    /// `running`, then `completed` or `failed`.
    pub status: String,
    pub logs: Vec<CachedLog>,
    pub result: Option<AgentSummary>,
    pub error: Option<String>,
    pub start_time_ms: u64,
    pub duration_ms: Option<u64>,
}

/// The state of a run that has just started: running, with no logs, no
/// result, no error and no duration yet.
pub fn start_execution(task_id: String, start_time_ms: u64) -> (s: ExecutionState)
    ensures
        s.task_id == task_id,
        s.status@ == "running"@,
        s.logs@.len() == 0,
        s.result is None,
        s.error is None,
        s.start_time_ms == start_time_ms,
        s.duration_ms is None,
{
    ExecutionState {
        task_id,
        status: "running".to_string(),
        logs: Vec::new(),
        result: None,
        error: None,
        start_time_ms,
        duration_ms: None,
    }
}

/// Records the end of a run that took `duration_ms`: completed with its
/// summary, or failed with its error. Returns the event that announces it.
pub fn finish_execution(state: &mut ExecutionState, duration_ms: u64, run: Result<AgentSummary, String>) -> (e:
    AgentEvent)
    ensures
        final(state).task_id == old(state).task_id,
        final(state).logs == old(state).logs,
        final(state).start_time_ms == old(state).start_time_ms,
        final(state).duration_ms == Some(duration_ms),
        match run {
            Ok(out) => {
                &&& final(state).status@ == "completed"@
                &&& final(state).result == Some(out)
                &&& final(state).error == old(state).error
                &&& e == AgentEvent::Completed { exit_code: out.exit_code, result: out.text_response }
            },
            Err(err) => {
                &&& final(state).status@ == "failed"@
                &&& final(state).result == old(state).result
                &&& final(state).error == Some(err)
                &&& e == AgentEvent::Failed { error: err }
            },
        },
{
    state.duration_ms = Some(duration_ms);
    match run {
        Ok(out) => {
            state.status = "completed".to_string();
            let event = AgentEvent::Completed { exit_code: out.exit_code, result: out.text_response.clone() };
            state.result = Some(out);
            event
        },
        Err(err) => {
            state.status = "failed".to_string();
            let event = AgentEvent::Failed { error: err.clone() };
            state.error = Some(err);
            event
        },
    }
}

} // verus!
