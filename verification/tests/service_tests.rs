use mini_todo::agent::{
    agent_key_variable, api_key_env_var, check_health, finish_execution, is_supported_agent, start_execution, summarize_agent_run,
    AgentEvent, AgentSummary, StdoutRecord,
};
use mini_todo::aisettings::{
    extract_plan_json, finish_model_list, next_plan_step, plan_user_prompt, PlanStep, plan_braces_inverted, plan_from_fields, plan_text_of_answer,
    read_datetime_field, response_preview, thinking_mode, validate_model_listing, validate_plan_request,
    AiSettings, PlanFields, ThinkingMode,
};
use mini_todo::cmdpath::{
    choose_npm_program, choose_resolved_program, parse_npm_cmd_file, resolve_in_path, NpmCmdCandidates, ResolvedProgram,
};
use mini_todo::legacy::{sync_data_from_legacy, LegacyExport, LegacySubtask, LegacyTodo};
use mini_todo::notify::{
    AppNotificationPosition, NotificationPlan, NotificationService, PendingNotification, ReminderCandidate,
};
use mini_todo::store::{entry, SettingEntry};
use mini_todo::update::{
    ensure_safe_installer_request, parse_tag_from_release_url, release_download_url, release_latest_url,
    windows_installer_asset,
};

fn s(v: &str) -> String {
    v.to_string()
}

fn ai(key: &str, model: &str, base: &str, thinking: bool) -> AiSettings {
    AiSettings {
        base_url: s(base),
        api_key: s(key),
        model: s(model),
        thinking_enabled: thinking,
        reasoning_effort: s("high"),
    }
}

#[test]
fn notification_positions() {
    assert_eq!(AppNotificationPosition::from_setting("top_left"), AppNotificationPosition::TopLeft);
    assert_eq!(AppNotificationPosition::from_setting("bottom_left"), AppNotificationPosition::BottomLeft);
    assert_eq!(AppNotificationPosition::from_setting("top_right"), AppNotificationPosition::TopRight);
    assert_eq!(AppNotificationPosition::from_setting("?"), AppNotificationPosition::BottomRight);
    assert!(AppNotificationPosition::TopLeft.is_top() && AppNotificationPosition::TopLeft.is_left());
    assert!(!AppNotificationPosition::BottomRight.is_top() && !AppNotificationPosition::BottomRight.is_left());
    let t: Vec<SettingEntry> = vec![entry("app_notification_position", "top_right")];
    assert_eq!(NotificationService::get_app_notification_position(&t), AppNotificationPosition::TopRight);
    assert_eq!(NotificationService::get_notification_type(&t), "system");
}

fn cand(id: i64, at: &str, completed: bool, notified: bool, due: bool) -> ReminderCandidate {
    ReminderCandidate {
        reminder_id: id,
        title: format!("t{}", id),
        description: None,
        notify_at: s(at),
        todo_completed: completed,
        notified,
        due,
    }
}

#[test]
fn pending_notifications_are_due_open_and_ordered() {
    let rows = vec![
        cand(1, "2024-01-01T10:00:00", false, false, true),
        cand(2, "2024-01-01T08:00:00", false, false, true),
        cand(3, "2024-01-01T07:00:00", true, false, true),
        cand(4, "2024-01-01T06:00:00", false, true, true),
        cand(5, "2024-01-01T05:00:00", false, false, false),
        cand(6, "2024-01-01T09:00:00", false, false, true),
    ];
    let p = NotificationService::get_pending_notifications(rows);
    let ids: Vec<i64> = p.iter().map(|n| n.reminder_id).collect();
    assert_eq!(ids, vec![2, 6, 1]);
    assert_eq!(p[0].title, "t2");
}

#[test]
fn active_notification_count_never_goes_below_zero() {
    assert_eq!(NotificationService::decrement_active_notifications(0), 0);
    assert_eq!(NotificationService::decrement_active_notifications(3), 2);
}

#[test]
fn notification_plans() {
    let n = PendingNotification { reminder_id: 1, title: s("买菜 & 做饭"), description: None };
    match NotificationService::plan_notification("system", &n, 0) {
        NotificationPlan::System { title, body } => {
            assert_eq!(title, "买菜 & 做饭");
            assert_eq!(body, "待办事项提醒");
        }
        _ => panic!("expected a system notification"),
    }
    match NotificationService::plan_notification("app", &n, 12) {
        NotificationPlan::App { label, url } => {
            assert_eq!(label, "notification_12");
            assert_eq!(
                url,
                "index.html#/notification?title=%E4%B9%B0%E8%8F%9C%20%26%20%E5%81%9A%E9%A5%AD&description=%E5%BE%85%E5%8A%9E%E4%BA%8B%E9%A1%B9%E6%8F%90%E9%86%92&label=notification_12"
            );
        }
        _ => panic!("expected an app notification"),
    }
}

#[test]
fn agent_kinds_and_keys() {
    assert!(is_supported_agent("codex") && is_supported_agent("claude_code"));
    assert!(!is_supported_agent("other"));
    assert_eq!(api_key_env_var("claude_code"), "ANTHROPIC_API_KEY");
    assert_eq!(api_key_env_var("codex"), "OPENAI_API_KEY");
    assert_eq!(api_key_env_var("x"), "API_KEY");
}

#[test]
fn agent_health() {
    let h = check_health(1, "codex", "codex", "1.2.0", "enc", Some(s("1.3.0")));
    assert!(h.cli_found && h.version_compatible);
    assert_eq!(h.status, "healthy");
    assert_eq!(h.message, Some(s("就绪 (v1.3.0)")));
    let h = check_health(1, "codex", "codex", "1.2.0", "enc", Some(s("1.10.0")));
    assert_eq!(h.status, "outdated");
    assert_eq!(h.message, Some(s("版本过低，当前 1.10.0，要求 >= 1.2.0")));
    let h = check_health(1, "codex", "codex", "", "", Some(s("0.1")));
    assert_eq!(h.status, "no_key");
    assert_eq!(h.message, Some(s("API Key 未配置")));
    let h = check_health(2, "codex", "/bin/codex", "", "k", None);
    assert_eq!(h.status, "unavailable");
    assert_eq!(h.message, Some(s("CLI 未安装或不在 PATH 中: /bin/codex")));
    let h = check_health(3, "gemini", "g", "", "k", Some(s("1")));
    assert_eq!(h.status, "error");
    assert!(!h.cli_found && h.detected_version.is_none());
    assert_eq!(h.message, Some(s("不支持的 Agent 类型: gemini")));
}

fn rec(t: &str) -> StdoutRecord {
    StdoutRecord {
        event_type: s(t),
        usage_input: 0,
        usage_output: 0,
        item_type: s(""),
        item_text: None,
        item_command: None,
        result_text: None,
    }
}

#[test]
fn agent_run_summary() {
    let mut a = rec("item.completed");
    a.item_type = s("agent_message");
    a.item_text = Some(s("hello"));
    let mut b = rec("item.started");
    b.item_type = s("command_execution");
    b.item_command = Some(s("ls"));
    let mut u = rec("turn.completed");
    u.usage_input = 10;
    u.usage_output = 4;
    let mut u2 = rec("turn.completed");
    u2.usage_input = 1;
    let r = summarize_agent_run(&vec![a, b, u, u2], 0, &vec![]).unwrap();
    assert_eq!(r.text_response, "hello\n$ ls");
    assert_eq!((r.input_tokens, r.output_tokens, r.exit_code), (11, 4, 0));
    let mut res = rec("result");
    res.result_text = Some(s("final"));
    let mut c = rec("item.completed");
    c.item_type = s("assistant_message");
    c.item_text = Some(s("x"));
    assert_eq!(summarize_agent_run(&vec![c, res], 1, &vec![s("warn")]).unwrap().text_response, "final");
    assert_eq!(
        summarize_agent_run(&vec![], 2, &vec![s("boom"), s("bad")]).err().unwrap(),
        "Agent 进程退出码 2:\nboom\nbad"
    );
    assert_eq!(summarize_agent_run(&vec![], 0, &vec![s("x")]).unwrap().text_response, "");
}

#[test]
fn path_search_probes() {
    let p = resolve_in_path(" C:\\bin ;;D:\\tools;", "codex");
    let v: Vec<(String, String, bool)> = p.into_iter().map(|x| (x.dir, x.file_name, x.is_cmd)).collect();
    assert_eq!(
        v,
        vec![
            (s("C:\\bin"), s("codex.exe"), false),
            (s("C:\\bin"), s("codex.com"), false),
            (s("C:\\bin"), s("codex.cmd"), true),
            (s("D:\\tools"), s("codex.exe"), false),
            (s("D:\\tools"), s("codex.com"), false),
            (s("D:\\tools"), s("codex.cmd"), true),
        ]
    );
    assert!(resolve_in_path("", "codex").is_empty());
}

#[test]
fn npm_wrapper_candidates() {
    let content = "@ECHO off\r\nIF EXIST \"%dp0%\\node.exe\" (\r\n  SET \"_prog=%dp0%\\node.exe\"\r\n) ELSE (\r\n  SET \"_prog=node\"\r\n)\r\n\"%_prog%\"  \"%dp0%\\node_modules\\@openai\\codex\\bin\\codex.js\" %*\r\n";
    let c = parse_npm_cmd_file(content);
    assert_eq!(c.node, vec![s("node.exe"), s("_prog=node.exe")]);
    assert_eq!(c.script, vec![s("node_modules\\@openai\\codex\\bin\\codex.js")]);
    let none = parse_npm_cmd_file("echo hi");
    assert!(none.node.is_empty() && none.script.is_empty());
}

#[test]
fn release_addresses() {
    assert_eq!(release_latest_url(), "https://github.com/YiZhanSuDaShui/mini-todo/releases/latest");
    assert_eq!(
        release_download_url("v1.2.3", "a.exe"),
        "https://github.com/YiZhanSuDaShui/mini-todo/releases/download/v1.2.3/a.exe"
    );
    assert_eq!(
        parse_tag_from_release_url("https://github.com/YiZhanSuDaShui/mini-todo/releases/tag/v1.4.0"),
        Some(s("v1.4.0"))
    );
    assert_eq!(
        parse_tag_from_release_url("https://x/releases/tag/ v2.0.1/?from=app#top"),
        Some(s("v2.0.1"))
    );
    assert_eq!(parse_tag_from_release_url("https://x/releases/tag/"), None);
    assert_eq!(parse_tag_from_release_url("https://x/releases/latest"), None);
}

#[test]
fn installer_asset_passes_the_download_check() {
    let a = windows_installer_asset("v1.4.0").unwrap();
    assert_eq!(a.name, "mini-todo_1.4.0_x64-setup.exe");
    assert_eq!(
        a.download_url,
        "https://github.com/YiZhanSuDaShui/mini-todo/releases/download/v1.4.0/mini-todo_1.4.0_x64-setup.exe"
    );
    assert_eq!(ensure_safe_installer_request(&a.download_url, &a.name), Ok(()));
}

#[test]
fn installer_requests_are_checked() {
    assert_eq!(
        ensure_safe_installer_request("https://evil.example/x.exe", "a_x64-setup.exe"),
        Err(s("安装包下载地址不属于 Mini Todo Release"))
    );
    let base = "https://github.com/YiZhanSuDaShui/mini-todo/releases/download/v1/x";
    assert_eq!(ensure_safe_installer_request(base, "../a_x64-setup.exe"), Err(s("安装包文件名不安全")));
    assert_eq!(ensure_safe_installer_request(base, "a\\b_x64-setup.exe"), Err(s("安装包文件名不安全")));
    assert_eq!(ensure_safe_installer_request(base, "a.msi"), Err(s("当前只支持下载 Windows x64 安装包")));
}

#[test]
fn plan_requests_are_validated() {
    assert_eq!(validate_plan_request(&ai("", "m", "", false), "t", &None), Err(s("请先在设置中填写 AI API Key")));
    assert_eq!(validate_plan_request(&ai("k", "", "", false), "t", &None), Err(s("请先在设置中选择 AI 模型")));
    assert_eq!(validate_plan_request(&ai("k", "m", "", false), "  ", &Some(s(" "))), Err(s("请先填写标题或描述")));
    assert_eq!(validate_plan_request(&ai("k", "m", "", false), " t ", &None), Ok((s("t"), s(""))));
    assert_eq!(validate_model_listing(&ai("", "m", "", false)), Err(s("请先填写 API Key")));
    assert!(matches!(thinking_mode(&ai("k", "m", "https://API.DeepSeek.com", false)), ThinkingMode::Disabled));
    assert!(matches!(thinking_mode(&ai("k", "m", "https://other", false)), ThinkingMode::Unspecified));
    assert!(matches!(thinking_mode(&ai("k", "m", "https://other", true)), ThinkingMode::Enabled));
}

#[test]
fn model_lists() {
    assert_eq!(finish_model_list(vec![s("b"), s("a"), s("b")]), Ok(vec![s("a"), s("b")]));
    assert!(finish_model_list(vec![]).is_err());
}

#[test]
fn plan_answers() {
    assert_eq!(extract_plan_json("```json\n{\"a\":1}\n```"), Ok(s("{\"a\":1}")));
    assert_eq!(extract_plan_json("Here: {\"a\":1} done"), Ok(s("{\"a\":1}")));
    assert_eq!(extract_plan_json("no json"), Err(s("AI 响应不是 JSON")));
    assert_eq!(extract_plan_json("oops {"), Err(s("AI 响应不是完整 JSON")));
    assert!(plan_braces_inverted("} x {"));
    assert!(!plan_braces_inverted("{}"));
    assert_eq!(plan_text_of_answer(Some(s("a")), Some(s("b"))), Ok(s("a")));
    assert_eq!(plan_text_of_answer(None, Some(s("b"))), Ok(s("b")));
    assert_eq!(plan_text_of_answer(None, None), Err(s("AI 响应缺少工具调用和文本内容")));
    assert_eq!(response_preview("  a \n\t b  "), "a b");
    assert_eq!(response_preview(&"x".repeat(300)).len(), 240);
}

#[test]
fn plan_fields_are_read() {
    assert_eq!(read_datetime_field(&Some(s(" 2024-05-01 09:30 "))), Some(s("2024-05-01T09:30:00")));
    assert_eq!(read_datetime_field(&Some(s("NULL"))), None);
    assert_eq!(read_datetime_field(&Some(s("soon"))), None);
    let f = PlanFields {
        start_time: Some(s("2024-05-01T09:00:00")),
        end_time: None,
        reminder_times: Some(vec![s("2024-05-01 08:00"), s("bad"), s("2024-05-01T07:00:00"), s("2024-05-01T08:00:00")]),
        notify_at: Some(s("2024-05-01T06:00:00")),
        reason: Some(s("  because  ")),
    };
    let p = plan_from_fields(&f);
    assert_eq!(p.start_time, Some(s("2024-05-01T09:00:00")));
    assert_eq!(p.end_time, None);
    assert_eq!(p.reminder_times, vec![s("2024-05-01T07:00:00"), s("2024-05-01T08:00:00")]);
    assert_eq!(p.reason, Some(s("because")));
    let g = PlanFields { start_time: None, end_time: None, reminder_times: None, notify_at: Some(s("2024-05-01T06:00:00")), reason: Some(s(" ")) };
    let q = plan_from_fields(&g);
    assert_eq!(q.reminder_times, vec![s("2024-05-01T06:00:00")]);
    assert_eq!(q.reason, None);
}

#[test]
fn legacy_snapshots_are_converted() {
    let legacy = LegacyExport {
        device_id: Some(s("dev_old")),
        updated_at: Some(s("2023-01-01 00:00:00")),
        todos: vec![LegacyTodo {
            id: Some(7),
            title: Some(s("t")),
            description: None,
            color: None,
            quadrant: None,
            completed: None,
            sort_order: None,
            start_time: None,
            end_time: None,
            created_at: None,
            updated_at: None,
            subtasks: Some(vec![LegacySubtask {
                id: Some(3),
                title: Some(s("s")),
                content: None,
                completed: Some(true),
                sort_order: Some(1),
                created_at: None,
                updated_at: None,
            }]),
            reminder_times: Some(vec![s("2023-01-02T09:00:00"), s("2023-01-03T09:00:00")]),
        }],
        images: vec![s("a.png")],
    };
    let d = sync_data_from_legacy(&legacy);
    assert_eq!(d.version, "4.0");
    assert_eq!(d.device_id, "dev_old");
    assert_eq!(d.updated_at, "2023-01-01 00:00:00");
    assert_eq!(d.todos.len(), 1);
    assert_eq!(d.todos[0].sync_id, "todo:dev_old:7");
    assert_eq!(d.todos[0].color, "#10B981");
    assert_eq!(d.todos[0].quadrant, 4);
    assert_eq!(d.todos[0].updated_at, "2023-01-01 00:00:00");
    assert_eq!(d.subtasks.len(), 1);
    assert_eq!(d.subtasks[0].sync_id, "subtask:dev_old:3");
    assert_eq!(d.subtasks[0].parent_todo_sync_id, "todo:dev_old:7");
    assert!(d.subtasks[0].completed);
    assert_eq!(d.reminders.len(), 2);
    assert_eq!(d.reminders[1].sync_id, "reminder:dev_old:7:1");
    assert_eq!(d.reminders[1].sort_order, 1);
    assert_eq!(d.images, vec![s("a.png")]);
}

#[test]
fn wait_until_the_next_whole_minute() {
    assert_eq!(NotificationService::time_to_next_minute(120, 0), (0, 0));
    assert_eq!(NotificationService::time_to_next_minute(121, 0), (59, 0));
    assert_eq!(NotificationService::time_to_next_minute(120, 1), (59, 999_999_999));
    assert_eq!(NotificationService::time_to_next_minute(179, 500_000_000), (0, 500_000_000));
}

#[test]
fn marked_reminder_is_no_longer_pending() {
    let mut rows = vec![cand(1, "2024-01-01 09:00:00", false, false, true), cand(2, "2024-01-01 08:00:00", false, false, true)];
    NotificationService::mark_as_notified(&mut rows, 2);
    assert!(rows[1].notified);
    assert!(!rows[0].notified);
    let p = NotificationService::get_pending_notifications(rows);
    assert_eq!(p.len(), 1);
    assert_eq!(p[0].reminder_id, 1);
}

#[test]
fn background_run_states() {
    let mut st = start_execution(s("task"), 1000);
    assert_eq!(st.status, "running");
    assert!(st.result.is_none() && st.error.is_none() && st.duration_ms.is_none());
    let out = AgentSummary { text_response: s("done"), input_tokens: 1, output_tokens: 2, exit_code: 0 };
    match finish_execution(&mut st, 50, Ok(out)) {
        AgentEvent::Completed { exit_code, result } => {
            assert_eq!(exit_code, 0);
            assert_eq!(result, "done");
        }
        other => panic!("unexpected {:?}", other),
    }
    assert_eq!(st.status, "completed");
    assert_eq!(st.duration_ms, Some(50));
    let mut st2 = start_execution(s("t2"), 0);
    match finish_execution(&mut st2, 7, Err(s("boom"))) {
        AgentEvent::Failed { error } => assert_eq!(error, "boom"),
        other => panic!("unexpected {:?}", other),
    }
    assert_eq!(st2.status, "failed");
    assert_eq!(st2.error, Some(s("boom")));
}

#[test]
fn legacy_snapshot_without_a_time_is_stamped_now() {
    let legacy = LegacyExport { device_id: None, updated_at: None, todos: vec![], images: vec![] };
    let d = sync_data_from_legacy(&legacy);
    assert!(mini_todo::timefmt::spaced_datetime_seconds(&d.updated_at).is_some());
    assert_eq!(d.device_id, "legacy");
}

#[test]
fn plan_requests_retry_once_then_fail() {
    let plan = mini_todo::aisettings::AiPlanResult { start_time: None, end_time: None, reminder_times: vec![], reason: None };
    match next_plan_step(0, "P", Ok(plan), "{}") {
        PlanStep::Done(p) => assert!(p.reminder_times.is_empty()),
        other => panic!("unexpected {:?}", other),
    }
    match next_plan_step(0, "P", Err(s("bad")), "x") {
        PlanStep::Retry { prompt } => {
            assert_eq!(prompt, "P\n\n上一次输出无法被解析。请严格只返回一个 json 对象，不能包含任何额外文字。")
        }
        other => panic!("unexpected {:?}", other),
    }
    match next_plan_step(1, "P", Err(s("bad")), "a   b") {
        PlanStep::Fail(e) => assert_eq!(e, "bad；响应摘要：a b"),
        other => panic!("unexpected {:?}", other),
    }
}

#[test]
fn npm_wrapper_runs_first_existing_candidates() {
    let c = NpmCmdCandidates { node: vec![s("a\\node.exe"), s("node.exe")], script: vec![s("x.js"), s("y.js")] };
    assert_eq!(choose_npm_program(&c, &vec![false, true], &vec![true, true]), Some((s("node.exe"), s("x.js"))));
    assert_eq!(choose_npm_program(&c, &vec![false, false], &vec![true, true]), None);
    assert_eq!(choose_npm_program(&c, &vec![true, true], &vec![false, false]), None);
}

#[test]
fn search_path_takes_first_existing_program_or_readable_wrapper() {
    let probes = resolve_in_path("C:\\a;C:\\b", "codex");
    assert_eq!(probes.len(), 6);
    let none: Vec<Option<(String, String)>> = vec![None; 6];
    match choose_resolved_program(&probes, &vec![false, false, true, false, true, false], &none) {
        ResolvedProgram::Exe { dir, file_name } => {
            assert_eq!(dir, "C:\\b");
            assert_eq!(file_name, "codex.com");
        }
        other => panic!("unexpected {:?}", other),
    }
    let mut w = none.clone();
    w[2] = Some((s("n.exe"), s("c.js")));
    match choose_resolved_program(&probes, &vec![false, false, true, true, false, false], &w) {
        ResolvedProgram::CmdScript { node_exe, script } => {
            assert_eq!(node_exe, "n.exe");
            assert_eq!(script, "c.js");
        }
        other => panic!("unexpected {:?}", other),
    }
    assert!(matches!(
        choose_resolved_program(&probes, &vec![false; 6], &none),
        ResolvedProgram::NotFound
    ));
}

#[test]
fn agent_kinds_and_key_variables() {
    assert_eq!(agent_key_variable("codex"), Ok("OPENAI_API_KEY"));
    assert_eq!(agent_key_variable("claude_code"), Ok("ANTHROPIC_API_KEY"));
    assert_eq!(agent_key_variable("gemini"), Err(s("不支持的 Agent 类型: gemini")));
}

#[test]
fn plan_prompt_lists_what_is_known() {
    let p = plan_user_prompt("2026-04-27T14:30:00", "Monday", &None, &Some(s("2026-05-01T10:00:00")), "[]", "赛", "");
    assert_eq!(
        p,
        "当前本地时间：2026-04-27T14:30:00\n当前星期：Monday\n已有开始时间：无\n已有截止时间：2026-05-01T10:00:00\n已有提醒时间：[]\n标题：赛\n描述：无\n请输出合法 json。"
    );
}
