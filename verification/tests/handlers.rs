use bobaclaw::channel::ChannelPeer;
use bobaclaw::tools::delegation::{
    plan_spawn, plan_spawn_status, plan_subagent, spawn_started, spawn_status_reply,
    subagent_reply, DelegateArgs, SpawnJobInfo, SpawnStatusArgs, SpawnStep, StatusLookup,
    StatusStep, SubagentStep,
};
use bobaclaw::tools::files::{apply_file_edit, edit_reply, file_read_window, write_reply};
use bobaclaw::tools::memory::{
    appended_reply, check_append_fits, extract_snippet, format_memory_search, memory_read_window,
    plan_memory_append, search_limit, search_memory_files, MemoryFileHit, SessionHit,
};
use bobaclaw::tools::router::{mcp_exit_code, route_tool, unknown_tool_message, ToolCallOutcome, ToolRoute};
use bobaclaw::tools::run_view::{
    run_view_output, run_view_reply, run_view_run_id, stored_capsule_dir, stream_choice,
    RunViewStream,
};
use bobaclaw::tools::schedule::{
    cancel_reply, cancel_target, check_one_shot, delivery_target, format_schedule_list,
    one_shot_reply, plan_recurring, recurring_reply, run_at_millis, schedule_when, CancelTarget,
    RecurringArgs, ScheduleArgs, ScheduleEntry,
};
use bobaclaw::tools::skills::{format_skill_list, plan_skill_manage, SkillAction, SkillListing, SkillManageArgs};
use bobaclaw::tools::web::{
    check_content_type, check_fetch_request, check_fetch_url, fetch_reply, ipv4_octets,
};

fn delegate(task: &str) -> DelegateArgs {
    DelegateArgs {
        task: task.to_string(),
        label: None,
        context: None,
        preset: None,
        backend: None,
        wake: None,
    }
}

#[test]
fn subagent_requires_task() {
    match plan_subagent(&Ok(delegate("   ")), &vec![]) {
        SubagentStep::Reply(r) => {
            assert_eq!(r.exit_code, 1);
            assert_eq!(r.body, "subagent: task is required and must be non-empty");
        }
        SubagentStep::Run { .. } => panic!("blank task must be refused"),
    }
}

#[test]
fn subagent_rejects_unknown_preset_and_runs_known() {
    let mut args = delegate(" research x ");
    args.preset = Some("deep".into());
    match plan_subagent(&Ok(args), &vec!["quick".to_string()]) {
        SubagentStep::Reply(r) => assert_eq!(r.body, "unknown subagent preset: deep"),
        SubagentStep::Run { .. } => panic!("unknown preset must be refused"),
    }
    let mut args = delegate(" research x ");
    args.preset = Some("quick".into());
    match plan_subagent(&Ok(args), &vec!["quick".to_string()]) {
        SubagentStep::Run { task } => assert_eq!(task, "research x"),
        SubagentStep::Reply(r) => panic!("unexpected refusal: {}", r.body),
    }
}

#[test]
fn subagent_reports_bad_arguments() {
    match plan_subagent(&Err("missing field `task`".into()), &vec![]) {
        SubagentStep::Reply(r) => assert_eq!(r.body, "invalid subagent arguments: missing field `task`"),
        SubagentStep::Run { .. } => panic!("bad arguments must be refused"),
    }
}

#[test]
fn subagent_reply_layout() {
    let r = subagent_reply("subagent_1", 0, "done");
    assert_eq!(r.body, "subagent_id=subagent_1\nexit_code=0\n\ndone");
    assert_eq!(subagent_reply("s", -2, "x").body, "subagent_id=s\nexit_code=-2\n\nx");
}

#[test]
fn spawn_checks_in_order() {
    match plan_spawn(&Ok(delegate("")), false, true) {
        SpawnStep::Reply(r) => assert_eq!(r.body, "spawn: task is required"),
        _ => panic!("blank task"),
    }
    match plan_spawn(&Ok(delegate("go")), false, true) {
        SpawnStep::Reply(r) => assert_eq!(r.body, "spawn: subagents are disabled in config"),
        _ => panic!("disabled"),
    }
    match plan_spawn(&Err("bad".into()), true, true) {
        SpawnStep::Reply(r) => assert_eq!(r.body, "invalid spawn arguments: bad"),
        _ => panic!("bad args"),
    }
}

#[test]
fn spawn_wake_defaults_to_config() {
    match plan_spawn(&Ok(delegate(" go ")), true, true) {
        SpawnStep::Spawn { task, wake_parent } => {
            assert_eq!(task, "go");
            assert!(wake_parent);
        }
        _ => panic!("should spawn"),
    }
    let mut args = delegate("go");
    args.wake = Some(false);
    match plan_spawn(&Ok(args), true, true) {
        SpawnStep::Spawn { wake_parent, .. } => assert!(!wake_parent),
        _ => panic!("should spawn"),
    }
    let r = spawn_started("Spawned".to_string());
    assert_eq!((r.body.as_str(), r.exit_code), ("Spawned", 0));
}

#[test]
fn spawn_status_lookup_choice() {
    let none = SpawnStatusArgs { task_id: Some("  ".into()), label: None };
    match plan_spawn_status(true, &Ok(none)) {
        StatusStep::Reply(r) => assert_eq!(r.body, "spawn_status: task_id or label is required"),
        _ => panic!("needs id or label"),
    }
    let both = SpawnStatusArgs { task_id: Some(" spawn_1 ".into()), label: Some("x".into()) };
    match plan_spawn_status(true, &Ok(both)) {
        StatusStep::Lookup(StatusLookup::ById(id)) => assert_eq!(id, "spawn_1"),
        _ => panic!("task id wins"),
    }
    let label = SpawnStatusArgs { task_id: None, label: Some(" research ".into()) };
    match plan_spawn_status(true, &Ok(label)) {
        StatusStep::Lookup(StatusLookup::ByLabel(l)) => assert_eq!(l, "research"),
        _ => panic!("label lookup"),
    }
    match plan_spawn_status(false, &Err("bad".into())) {
        StatusStep::Reply(r) => assert_eq!(r.body, "spawn_status: subagents are disabled in config"),
        _ => panic!("disabled first"),
    }
}

fn job(session: &str) -> SpawnJobInfo {
    SpawnJobInfo {
        id: "spawn_1".into(),
        session_id: session.into(),
        status: "completed".into(),
        subagent_id: None,
        exit_code: Some(0),
        finished_at: None,
        result_preview: Some("ok".into()),
    }
}

#[test]
fn spawn_status_wrong_session_denied() {
    let r = spawn_status_reply(true, &Some(job("sess_a")), "sess_b");
    assert_eq!(r.exit_code, 1);
    assert!(r.body.contains("not found in this session"));
}

#[test]
fn spawn_status_report_layout() {
    let r = spawn_status_reply(true, &Some(job("sess_a")), "sess_a");
    assert_eq!(r.exit_code, 0);
    assert_eq!(
        r.body,
        "task_id=spawn_1\nstatus=completed\nsubagent_id=-\nexit_code=0\nfinished_at=-\npreview=ok"
    );
    let none = spawn_status_reply(false, &None, "sess_a");
    assert_eq!((none.body.as_str(), none.exit_code), ("spawn_status: no matching job", 1));
}

#[test]
fn router_order_and_unknown() {
    assert_eq!(route_tool("subagent", true), Some(ToolRoute::Subagent));
    assert_eq!(route_tool("schedule_list", false), Some(ToolRoute::Schedule));
    assert_eq!(route_tool("mcp_x_tool", true), Some(ToolRoute::Mcp));
    assert_eq!(route_tool("exec", false), Some(ToolRoute::Exec));
    assert_eq!(route_tool("exec", true), Some(ToolRoute::Mcp));
    assert_eq!(route_tool("memory_read", false), Some(ToolRoute::Memory));
    assert_eq!(route_tool("skills_list", false), Some(ToolRoute::Skill));
    assert_eq!(route_tool("nope", false), None);
    assert_eq!(unknown_tool_message("nope"), "unknown tool: nope");
    assert_eq!(mcp_exit_code("MCP error: boom"), 1);
    assert_eq!(mcp_exit_code("result"), 0);
}

#[test]
fn outcome_records_exec_run() {
    let mut o = ToolCallOutcome::new();
    o.record(ToolRoute::Memory, "");
    assert!(o.executed);
    assert_eq!(o.last_run_id, None);
    o.record(ToolRoute::Exec, "run_1");
    assert_eq!(o.last_run_id.as_deref(), Some("run_1"));
    o.record(ToolRoute::Exec, "");
    assert_eq!(o.last_run_id.as_deref(), Some("run_1"));
}

fn skill_args(action: &str) -> SkillManageArgs {
    SkillManageArgs {
        action: action.into(),
        name: "t1".into(),
        content: None,
        old_string: None,
        new_string: None,
        file_path: None,
        file_content: None,
        category: None,
    }
}

#[test]
fn skill_manage_argument_errors() {
    assert_eq!(plan_skill_manage(Ok(skill_args("create"))).err().unwrap(), "create requires content");
    assert_eq!(plan_skill_manage(Ok(skill_args("patch"))).err().unwrap(), "patch requires old_string");
    let mut a = skill_args("patch");
    a.old_string = Some("x".into());
    assert_eq!(plan_skill_manage(Ok(a)).err().unwrap(), "patch requires new_string");
    assert_eq!(
        plan_skill_manage(Ok(skill_args("rename"))).err().unwrap(),
        "unknown skill_manage action: rename"
    );
    assert_eq!(
        plan_skill_manage(Err("eof".into())).err().unwrap(),
        "invalid skill_manage arguments: eof"
    );
    assert!(matches!(plan_skill_manage(Ok(skill_args("delete"))), Ok(SkillAction::Delete { name }) if name == "t1"));
}

#[test]
fn skill_list_lines() {
    assert_eq!(format_skill_list(&[]), "No skills installed.");
    let items = vec![
        SkillListing { name: "a".into(), enabled: true, description: "first".into() },
        SkillListing { name: "b".into(), enabled: false, description: "second".into() },
    ];
    assert_eq!(format_skill_list(&items), "- a (enabled) — first\n- b (disabled) — second");
}

#[test]
fn memory_append_checks() {
    let ok = plan_memory_append("append", "memory/notes.txt", "hello").unwrap();
    assert_eq!(ok.rel, "memory/notes.txt");
    assert_eq!(ok.chunk, "hello\n");
    assert_eq!(
        plan_memory_append("replace", "MEMORY.md", "x").err().unwrap(),
        "unknown memory_manage action: replace"
    );
    assert_eq!(
        plan_memory_append("append", "../MEMORY.md", "x").err().unwrap(),
        "path must not contain '..'"
    );
    let big = "x".repeat(4097);
    assert_eq!(
        plan_memory_append("append", "MEMORY.md", &big).err().unwrap(),
        "content exceeds max append size (4096 bytes)"
    );
    assert!(check_append_fits(65_000, 536).is_ok());
    assert_eq!(
        check_append_fits(65_000, 537).err().unwrap(),
        "append would exceed max file size (65536 bytes)"
    );
    assert_eq!(appended_reply("memory/a.md"), "Appended to 'memory/a.md'.");
}

#[test]
fn memory_read_windows() {
    let text = "l1\nl2\nl3\nl4";
    assert_eq!(memory_read_window(text, None, None), text);
    assert_eq!(memory_read_window(text, Some(2), Some(2)), "l2\nl3");
    assert_eq!(memory_read_window(text, Some(0), Some(1)), "l1");
    assert_eq!(memory_read_window(text, Some(3), None), "l3\nl4");
    assert_eq!(memory_read_window(text, Some(9), None), "");
    assert_eq!(file_read_window(text, None, Some(10)), text);
}

#[test]
fn memory_search_snippets_and_hits() {
    assert_eq!(extract_snippet("Hello Tea time", "tea", 120), "Hello Tea time");
    let long = format!("{}TEA here", "a".repeat(50));
    assert_eq!(extract_snippet(&long, "tea", 5), "…aaaaa");
    let files = vec![
        ("MEMORY.md".to_string(), "user likes Tea".to_string()),
        ("memory\\notes.txt".to_string(), "green tea".to_string()),
        ("memory/other.md".to_string(), "coffee".to_string()),
    ];
    let hits = search_memory_files("TEA", &files, 10);
    assert_eq!(hits.len(), 2);
    assert_eq!(hits[1].path, "memory/notes.txt");
    assert_eq!(search_memory_files("tea", &files, 1).len(), 1);
    assert_eq!(search_memory_files("", &files, 10).len(), 0);
    assert_eq!(search_limit(None), 10);
}

#[test]
fn memory_search_reply_layout() {
    assert_eq!(format_memory_search("  tea ", &[], &[]), "No matches for 'tea'.");
    let sessions = vec![SessionHit {
        session_id: "s1".into(),
        role: "user".into(),
        ts: "17".into(),
        snippet: "tea?".into(),
    }];
    let files = vec![MemoryFileHit { path: "MEMORY.md".into(), snippet: "tea".into() }];
    assert_eq!(
        format_memory_search("tea", &sessions, &files),
        "## Session messages\n- session=s1 role=user ts=17: tea?\n## Memory files\n- MEMORY.md: tea"
    );
}

#[test]
fn run_view_parts_and_reply() {
    assert_eq!(stream_choice("stderr"), RunViewStream::Stderr);
    assert_eq!(stream_choice("other"), RunViewStream::Both);
    assert_eq!(run_view_run_id("  ").err().unwrap(), "run_id must not be empty");
    assert_eq!(run_view_run_id(" r1 ").unwrap(), "r1");
    assert_eq!(stored_capsule_dir(&Some("/runs/r1".into())), Some("/runs/r1".to_string()));
    assert_eq!(stored_capsule_dir(&Some("runs/r1".into())), None);
    let body = run_view_output(RunViewStream::Both, &Some("out".into()), &Some("err".into())).unwrap();
    assert_eq!(body, "--- stdout ---\nout\n\n--- stderr ---\nerr");
    assert_eq!(run_view_output(RunViewStream::Stdout, &None, &Some("err".into())), None);
    assert_eq!(run_view_reply("r1", Some(0), Some("x")), "run_id: r1\nexit_code: Some(0)\n\nx");
    assert_eq!(run_view_reply("r1", None, None), "run_id: r1\nexit_code: None\n(no matching output)");
}

#[test]
fn one_shot_schedule_checks() {
    let a = ScheduleArgs { delay_seconds: 0, prompt: "x".into(), deliver_message: None };
    assert_eq!(check_one_shot(&a).err().unwrap(), "delay_seconds must be 1..604800");
    let a = ScheduleArgs { delay_seconds: 604_801, prompt: "x".into(), deliver_message: None };
    assert!(check_one_shot(&a).is_err());
    let a = ScheduleArgs { delay_seconds: 30, prompt: "  ".into(), deliver_message: None };
    assert_eq!(check_one_shot(&a).err().unwrap(), "prompt is empty");
    let a = ScheduleArgs { delay_seconds: 30, prompt: " say beer ".into(), deliver_message: None };
    assert_eq!(check_one_shot(&a).unwrap(), "say beer");
    assert_eq!(run_at_millis(1_000, 30), 31_000);
}

#[test]
fn schedule_times_and_replies() {
    assert_eq!(schedule_when(1_234_567_890_500, "x"), "2009-02-13 23:31:30 UTC");
    assert_eq!(schedule_when(i64::MAX, "fallback"), "fallback");
    let r = one_shot_reply("sched_1", "2009-02-13 23:31:30 UTC", 30, Some("telegram"), Some("123"), "say beer");
    assert_eq!(
        r,
        "scheduled task sched_1 at 2009-02-13 23:31:30 UTC (in 30s); deliver via telegram peer=123; prompt=say beer"
    );
    let r = recurring_reply("cron_a", "0 * * * * *", "home", None, None, "ping");
    assert_eq!(r, "recurring job cron_a cron=\"0 * * * * *\" group=home; deliver via cli peer=-; prompt=ping");
}

#[test]
fn recurring_validates_expression_and_job_id() {
    let mut a = RecurringArgs {
        cron: "not a cron".into(),
        prompt: "ping".into(),
        deliver_message: None,
        job_id: None,
    };
    assert!(plan_recurring(&a).err().unwrap().contains("invalid cron"));
    a.cron = "  ".into();
    assert_eq!(plan_recurring(&a).err().unwrap(), "cron expression is empty");
    a.cron = "0 0 9 * * Mon".into();
    a.job_id = Some("bad id!".into());
    assert_eq!(
        plan_recurring(&a).err().unwrap(),
        "job_id must be alphanumeric, dash, or underscore"
    );
    a.job_id = Some(" daily-9 ".into());
    let p = plan_recurring(&a).unwrap();
    assert_eq!(p.id, "cron_daily-9");
    assert_eq!(p.cron_expr, "0 0 9 * * Mon");
    a.job_id = None;
    let p = plan_recurring(&a).unwrap();
    assert!(p.id.starts_with("cron_"));
    assert_eq!(p.id.len(), 41);
}

#[test]
fn schedule_delivery_and_cancel() {
    let peer = ChannelPeer { channel: "telegram".into(), peer: "42".into(), thread_id: None };
    assert_eq!(delivery_target(&Some(peer), false), ("telegram".to_string(), Some("42".to_string())));
    assert_eq!(delivery_target(&None, true), ("telegram".to_string(), None));
    assert_eq!(delivery_target(&None, false), ("cli".to_string(), None));
    assert!(matches!(cancel_target(" sched_1 "), Ok(CancelTarget::OneShot(id)) if id == "sched_1"));
    assert!(matches!(cancel_target("cron_x"), Ok(CancelTarget::Recurring(id)) if id == "cron_x"));
    assert_eq!(cancel_target("job").err().unwrap(), "id must start with sched_ or cron_; got job");
    assert_eq!(cancel_target(" ").err().unwrap(), "id is empty");
    let t = CancelTarget::Recurring("cron_x".into());
    assert_eq!(cancel_reply(&t, true).unwrap(), "disabled recurring job cron_x");
    assert_eq!(
        cancel_reply(&t, false).err().unwrap(),
        "recurring job not found or already disabled: cron_x"
    );
}

#[test]
fn schedule_list_layout() {
    assert_eq!(format_schedule_list(&[], &[]), "no pending one-shot tasks or active recurring jobs");
    let task = ScheduleEntry {
        id: "sched_1".into(),
        when: "run_at=17".into(),
        agent_group: "home".into(),
        deliver_channel: None,
        deliver_peer: None,
        prompt: "ping".into(),
    };
    assert_eq!(
        format_schedule_list(&[task], &[]),
        "one-shot:\n  sched_1 run_at=17 group=home deliver=cli/- prompt=ping"
    );
}

#[test]
fn file_edit_counts_and_replaces() {
    let (updated, n) = apply_file_edit("hello world", "world", "BobaClaw", false, "notes.txt").unwrap();
    assert_eq!((updated.as_str(), n), ("hello BobaClaw", 1));
    assert_eq!(
        apply_file_edit("a a", "a", "b", false, "f").err().unwrap(),
        "old_string matches 2 times in 'f' — set replace_all=true or use a unique old_string"
    );
    let (updated, n) = apply_file_edit("aaa", "aa", "b", true, "f").unwrap();
    assert_eq!((updated.as_str(), n), ("ba", 1));
    assert_eq!(apply_file_edit("x", "y", "z", true, "f").err().unwrap(), "old_string not found in 'f'");
    assert_eq!(apply_file_edit("x", "", "z", true, "f").err().unwrap(), "old_string must not be empty");
    assert_eq!(edit_reply(2, "f"), "Replaced 2 occurrence(s) in 'f'.");
    assert_eq!(write_reply("héllo", "a.txt"), "Wrote 6 bytes to 'a.txt'.");
}

#[test]
fn blocks_localhost() {
    assert!(check_fetch_url("http://localhost/test").is_err());
}

#[test]
fn blocks_private_ip_literal() {
    assert!(check_fetch_url("http://192.168.1.1/").is_err());
}

#[test]
fn allows_public_https() {
    assert!(check_fetch_url("https://example.com/").is_ok());
}

#[test]
fn fetch_url_policy_messages() {
    assert_eq!(check_fetch_url("ftp://example.com/").err().unwrap(), "only http and https URLs are allowed");
    assert_eq!(check_fetch_url("http://printer.local/").err().unwrap(), "blocked host: printer.local");
    assert_eq!(check_fetch_url("http://127.0.0.1:8080/").err().unwrap(), "blocked IP: 127.0.0.1");
    assert_eq!(check_fetch_url("http://172.20.1.1/").err().unwrap(), "blocked IP: 172.20.1.1");
    assert!(check_fetch_url("http://172.32.1.1/").is_ok());
    assert!(check_fetch_url("not a url").err().unwrap().starts_with("invalid url: "));
    assert_eq!(ipv4_octets("10.0.0.1"), Some(vec![10, 0, 0, 1]));
    assert_eq!(ipv4_octets("10.0.0"), None);
    assert_eq!(ipv4_octets("01.0.0.1"), None);
    assert_eq!(ipv4_octets("256.0.0.1"), None);
}

#[test]
fn fetch_request_checks() {
    assert!(check_fetch_request(false, &Ok("https://example.com".into())).err().unwrap().starts_with("web_fetch is disabled"));
    assert_eq!(check_fetch_request(true, &Ok("  ".into())).err().unwrap(), "url must not be empty");
    let long = format!("https://example.com/{}", "a".repeat(2100));
    assert_eq!(check_fetch_request(true, &Ok(long)).err().unwrap(), "url exceeds max length (2048)");
    let (url, host) = check_fetch_request(true, &Ok(" https://example.com/doc ".into())).unwrap();
    assert_eq!((url.as_str(), host.as_str()), ("https://example.com/doc", "example.com"));
}

#[test]
fn fetch_content_and_reply() {
    assert!(check_content_type("").is_ok());
    assert!(check_content_type("application/json; charset=utf-8").is_ok());
    assert_eq!(check_content_type("image/png").err().unwrap(), "unsupported content-type: image/png");
    let r = fetch_reply("https://e.com", "200 OK", "text/html", "<p>Hi</p>");
    assert_eq!(r, "url: https://e.com\nstatus: 200 OK\ncontent-type: text/html\n\nHi");
    let r = fetch_reply("https://e.com", "200 OK", "text/plain", "<p>Hi</p>");
    assert!(r.ends_with("<p>Hi</p>"));
}

#[test]
fn child_specs_exclude_subagent_memory_schedule() {
    let names = bobaclaw::tools::specs::build_child_tool_names(&vec![], &vec![]);
    assert!(names.iter().any(|n| n == "exec"));
    assert!(names.iter().any(|n| n == "skill_view"));
    assert!(!names.iter().any(|n| n == "subagent" || n == "spawn" || n == "spawn_status"));
    assert!(!names.iter().any(|n| n.starts_with("schedule")));
    assert!(!names.iter().any(|n| n == "memory_manage"));
}

#[test]
fn parent_specs_include_subagent_when_enabled() {
    let names = bobaclaw::tools::specs::build_parent_tool_names(&vec![], true);
    assert!(names.iter().any(|n| n == "subagent"));
    let without = bobaclaw::tools::specs::build_parent_tool_names(&vec!["mcp_a_b".to_string()], false);
    assert!(!without.iter().any(|n| n == "subagent"));
    assert_eq!(without.last().map(String::as_str), Some("mcp_a_b"));
}

#[test]
fn allowlist_filters_tools() {
    let all = bobaclaw::tools::specs::build_child_tool_names(&vec![], &vec![]);
    let filtered = bobaclaw::tools::specs::build_child_tool_names(&vec![], &vec!["exec".to_string()]);
    assert_eq!(filtered.len(), 1);
    assert_eq!(filtered[0], "exec");
    assert!(all.len() > 1);
    let mcp = bobaclaw::tools::specs::build_child_tool_names(
        &vec!["mcp_web_search".to_string(), "mcp_db_query".to_string()],
        &vec!["mcp_web*".to_string(), "skills_list".to_string()],
    );
    assert_eq!(mcp, vec!["skills_list".to_string(), "mcp_web_search".to_string()]);
}
