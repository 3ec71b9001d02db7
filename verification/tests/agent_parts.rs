use bobaclaw::channel_delivery::OutboxChannelDelivery;
use bobaclaw::cli_backends::{
    backend_timeout, build_cli_prompt, print_mode_command, cli_run_body, codex_command,
    cursor_command, export_key_command, new_cli_run_id, shell_escape, timed_out_message,
};
use bobaclaw::conversation::ConversationMessage;
use bobaclaw::prompt::{
    build_system_prompt, context_truncation_hint, memory_dir_sections, needs_context_truncation,
    prepare_context_body, with_matched_skill, workspace_file_section, BOBACLAW_IDENTITY,
};
use bobaclaw::response::agent_response;
use bobaclaw::review::{
    build_review_snapshot, existing_memory_snippet, review_reply, review_system_prompt,
    review_tool_result, review_user_message, saved_by_tool, snapshot_worth_reviewing, PostTurnReviewOutcome,
    PostTurnSave, ReviewKind, ReviewReply, MEMORY_REVIEW_SYSTEM, SKILL_REVIEW_SYSTEM,
};
use bobaclaw::subagent::{
    child_timeout_secs, format_spawn_task_list, new_subagent_id, SpawnTaskSummary,
};
use bobaclaw::tool_loop::ToolLoopOutcome;
use bobaclaw::turn::{finish_turn, interrupted_before_loop, ToolPersistEntry, TurnOutcome};

fn sample_job(id: &str, status: &str) -> SpawnTaskSummary {
    SpawnTaskSummary {
        id: id.into(),
        label: Some("research".into()),
        status: status.into(),
        subagent_id: None,
        finished: None,
        result_preview: None,
    }
}

#[test]
fn format_empty_list() {
    assert!(format_spawn_task_list(&[]).contains("Нет фоновых"));
}

#[test]
fn format_running_and_completed() {
    let mut done = sample_job("spawn_2", "completed");
    done.result_preview = Some("done".into());
    let tasks = vec![sample_job("spawn_1", "running"), done];
    let out = format_spawn_task_list(&tasks);
    assert!(out.contains("spawn_1"));
    assert!(out.contains("research"));
    assert!(out.contains("running"));
    assert!(out.contains("done"));
}

#[test]
fn spawn_list_exact_layout() {
    let mut t = sample_job("spawn_1", "completed");
    t.label = None;
    t.subagent_id = Some("subagent_9".into());
    t.finished = Some("1700000000".into());
    t.result_preview = Some("ok".into());
    assert_eq!(
        format_spawn_task_list(&[t]),
        "Фоновые субагенты (spawn):\n  • spawn_1 [без метки] — completed subagent=subagent_9 finished=1700000000\n    ok"
    );
}

#[test]
fn snapshot_skips_system_and_truncates() {
    let messages = vec![
        ConversationMessage::system("secret system"),
        ConversationMessage::user("run deploy"),
        ConversationMessage::assistant_text("done"),
    ];
    let snap = build_review_snapshot(&messages);
    assert!(!snap.contains("secret system"));
    assert!(snap.contains("[user]"));
    assert!(snap.contains("run deploy"));
}

#[test]
fn snapshot_layout_and_blank_messages() {
    let messages = vec![
        ConversationMessage::user("a"),
        ConversationMessage::assistant_text("   "),
        ConversationMessage::assistant_text("b"),
    ];
    assert_eq!(build_review_snapshot(&messages), "[user] a\n\n[assistant] b");
    let long = vec![ConversationMessage::user(&"x".repeat(2100))];
    let snap = build_review_snapshot(&long);
    assert!(snap.ends_with("\n… (truncated)"));
    assert_eq!(snap.chars().count(), "[user] ".len() + 1980 + "\n… (truncated)".chars().count());
}

fn loop_outcome(text: &str, interrupted: bool) -> ToolLoopOutcome {
    ToolLoopOutcome {
        final_text: text.to_string(),
        executed: true,
        tool_call_count: 2,
        skill_manage_used: false,
        memory_manage_used: true,
        last_run_id: Some("run_1".into()),
        tool_persist: vec![ToolPersistEntry { name: "exec".into(), exit_code: 0, body: "ok\n".into() }],
        hit_iteration_limit: false,
        interrupted,
    }
}

#[test]
fn finished_turn_keeps_tools_in_session_only() {
    let t = finish_turn(loop_outcome("Done.", false), "sess_1", "snap".into());
    assert_eq!(t.text, "Done.");
    assert_eq!(t.persisted_assistant, "Done.\n\n<!-- tool-results -->\n[exec exit=0]\nok\n");
    assert_eq!(t.session_id, "sess_1");
    assert_eq!(t.last_run_id.as_deref(), Some("run_1"));
    assert_eq!(t.tool_call_count, 2);
    assert!(t.memory_manage_used && !t.interrupted);
    assert_eq!(t.review_snapshot, "snap");
}

#[test]
fn interrupted_turn_marks_partial_reply() {
    let t = finish_turn(loop_outcome("partial", true), "sess_1", String::new());
    assert!(t.interrupted);
    assert!(t.text.starts_with("partial"));
    assert!(t.text.contains("[прервано]"));
    let early = interrupted_before_loop("sess_2");
    assert!(early.interrupted && !early.executed);
    assert_eq!(early.tool_call_count, 0);
    assert_eq!(early.review_snapshot, "");
}

fn turn(text: &str, interrupted: bool) -> TurnOutcome {
    TurnOutcome {
        text: text.into(),
        persisted_assistant: text.into(),
        session_id: "sess_1".into(),
        last_run_id: None,
        executed: false,
        tool_call_count: 0,
        skill_manage_used: false,
        memory_manage_used: false,
        interrupted,
        review_snapshot: String::new(),
    }
}

#[test]
fn response_announces_background_saves() {
    let review = PostTurnReviewOutcome {
        memory: Some(PostTurnSave::Memory { path: "MEMORY.md".into() }),
        skill: Some(PostTurnSave::Skill { name: "deploy".into() }),
    };
    let r = agent_response(turn("Ok.", false), &review);
    assert_eq!(
        r.text,
        "Ok.\n\nSaved to memory `MEMORY.md` (background review).\n\nSaved skill `deploy` for reuse (background review)."
    );
    assert_eq!(r.auto_saved_memory.as_deref(), Some("MEMORY.md"));
    assert_eq!(r.auto_saved_skill.as_deref(), Some("deploy"));
    let r = agent_response(turn("Stop.", true), &review);
    assert_eq!(r.text, "Stop.");
    assert!(r.auto_saved_memory.is_none() && r.auto_saved_skill.is_none());
}

#[test]
fn system_prompt_assembly() {
    let p = build_system_prompt("/ws/home", &vec![], &vec![]);
    assert!(p.starts_with(BOBACLAW_IDENTITY));
    assert!(p.contains("Workspace (sandbox cwd): /ws/home"));
    assert!(!p.contains("# Project Context"));
    assert!(!p.contains("Installed skills"));
    let sections = vec![workspace_file_section("BOBACLAW.md", "# Rules\nUse exec.")];
    let p = build_system_prompt("/ws", &vec!["a".to_string(), "b".to_string()], &sections);
    assert!(p.contains("Installed skills (check SKILL.md when relevant): a, b."));
    assert!(p.ends_with(
        "# Project Context\n\nThe following workspace files are loaded and must be followed:\n\n## BOBACLAW.md\n# Rules\nUse exec."
    ));
}

#[test]
fn context_bodies_and_memory_budget() {
    assert_eq!(prepare_context_body("  \n "), None);
    assert_eq!(prepare_context_body("---\ntitle: x\n---\n\nPersona here.\n").unwrap(), "Persona here.");
    assert!(!needs_context_truncation(&"x".repeat(20_000)));
    assert!(needs_context_truncation(&"x".repeat(20_001)));
    assert_eq!(
        context_truncation_hint("SOUL.md"),
        "truncated SOUL.md (20000 char cap). Use exec to read the full file"
    );
    let files = vec![
        ("words.txt".to_string(), "x".repeat(7_999)),
        ("b.md".to_string(), "yy".to_string()),
        ("c.md".to_string(), "zz".to_string()),
    ];
    let s = memory_dir_sections(&files);
    assert_eq!(s.len(), 2);
    assert_eq!(s[1], "## memory/b.md\nyy");
    assert_eq!(
        with_matched_skill("SYS", "deploy", "steps"),
        "SYS\n\nMatched skill `deploy`:\nsteps"
    );
}

#[test]
fn cli_backend_commands() {
    assert_eq!(shell_escape("it's"), "'it'\\''s'");
    assert_eq!(build_cli_prompt("task", Some("  ")), "task");
    assert_eq!(build_cli_prompt("task", Some("ctx")), "task\n\nContext:\nctx");
    assert_eq!(print_mode_command("cc", "p", 8), "cc --bare -p 'p' --output-format json --max-turns 8");
    assert_eq!(codex_command("codex", "workspace-write", "p"), "codex exec --sandbox workspace-write --json 'p'");
    assert_eq!(
        cursor_command("python3", "w.py", "/ws", "m", "p"),
        "python3 'w.py' --workspace '/ws' --model 'm' --task 'p'"
    );
    assert_eq!(export_key_command("KEY", "s'k", "run"), "export KEY='s'\\''k' && run");
    assert_eq!(backend_timeout(0), 1);
    assert_eq!(timed_out_message(5), "subagent backend timed out after 5s");
    assert_eq!(cli_run_body("  ", 2, " boom \n"), "exit_code=2\nstderr:\nboom");
    assert_eq!(cli_run_body("out", 2, "boom"), "out");
    let id = new_cli_run_id();
    assert!(id.starts_with("subagent_cli_") && id.len() == 49);
    let sub = new_subagent_id();
    assert!(sub.starts_with("subagent_") && sub.len() == 45);
    assert_eq!(child_timeout_secs(5), 30);
}

#[test]
fn outbox_notes() {
    let d = OutboxChannelDelivery::new("/home/u/.bobaclaw".into());
    assert_eq!(
        d.completion_text(Some("research"), "spawn_1", "found it"),
        "[Spawn `research` completed]\nfound it\n(task_id=spawn_1)"
    );
    assert_eq!(d.wake_text(None, "spawn_1", "hi"), "[Spawn wake `spawn_1`]\n\nhi");
    assert_eq!(d.outbox_file_name(1_700_000_000), "spawn_1700000000.txt");
}

#[test]
fn background_review_steps() {
    assert_eq!(review_system_prompt(ReviewKind::Memory, ""), MEMORY_REVIEW_SYSTEM);
    assert_eq!(
        review_system_prompt(ReviewKind::Memory, "## MEMORY.md\ntea"),
        format!("{MEMORY_REVIEW_SYSTEM}\n\nExisting workspace memory (reference only):\n## MEMORY.md\ntea")
    );
    assert_eq!(review_system_prompt(ReviewKind::Skill, "ignored"), SKILL_REVIEW_SYSTEM);
    assert_eq!(review_user_message("s"), "Conversation snapshot from the completed turn:\n\ns");
    assert!(!snapshot_worth_reviewing("  \n"));
    assert_eq!(review_reply(ReviewKind::Memory, true, ""), ReviewReply::RunCalls);
    assert_eq!(review_reply(ReviewKind::Memory, false, "NO_MEMORY_NEEDED"), ReviewReply::NothingToSave);
    assert_eq!(review_reply(ReviewKind::Skill, false, "NO_MEMORY_NEEDED"), ReviewReply::Stop);
    assert_eq!(
        saved_by_tool(ReviewKind::Memory, "memory_manage", "Appended to 'memory/notes.txt'."),
        Some("memory/notes.txt".to_string())
    );
    assert_eq!(saved_by_tool(ReviewKind::Memory, "memory_read", "Appended to 'x'."), None);
    assert_eq!(
        saved_by_tool(ReviewKind::Skill, "skill_manage", "Created skill 'deploy-app' at /tmp/x"),
        Some("deploy-app".to_string())
    );
    assert_eq!(review_tool_result(Err("boom".into())), "error: boom");
    let files = vec![("words.txt".to_string(), "codeword".to_string())];
    assert_eq!(
        existing_memory_snippet(Some("user likes tea"), &files),
        "## MEMORY.md\nuser likes tea\n\n## memory/words.txt\ncodeword"
    );
    assert_eq!(existing_memory_snippet(None, &vec![]), "");
}

#[test]
fn compaction_row_has_reference_prefix() {
    let row = bobaclaw::compaction::compaction_row("## Active Task\nDo thing");
    assert!(row.starts_with(bobaclaw::prompt::SUMMARY_PREFIX));
    assert_eq!(bobaclaw::prompt::strip_summary_prefix(&row), "## Active Task\nDo thing");
}
