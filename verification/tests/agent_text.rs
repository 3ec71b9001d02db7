use bobaclaw::cancel::{interrupted_reply, INTERRUPTED_TEXT};
use bobaclaw::context::transcript_lines;
use bobaclaw::progress::{
    format_status_line, format_step_block, sanitize_status_text, ActivityLog, AgentEvent,
};
use bobaclaw::prompt::{
    strip_summary_prefix, strip_yaml_frontmatter, summarizer_user_message, SUMMARY_PREFIX,
};
use bobaclaw::review::{
    parse_appended_memory_path, parse_created_skill_name, should_run_memory_review,
    should_run_skill_review, truncate_chars, MEMORY_REVIEW_TURN_THRESHOLD,
    SKILL_REVIEW_TOOL_THRESHOLD,
};
use bobaclaw::turn::{
    build_persisted_assistant, sanitize_user_reply, user_request_requires_tools, ToolPersistEntry,
};
use bobaclaw::turn_context::TurnContext;

const STEP_SEP: &str = "────────";

#[test]
fn interrupted_reply_empty() {
    assert_eq!(interrupted_reply(""), INTERRUPTED_TEXT);
    assert_eq!(interrupted_reply("  \n"), INTERRUPTED_TEXT);
}

#[test]
fn interrupted_reply_partial() {
    let out = interrupted_reply("частичный ответ");
    assert!(out.contains("частичный ответ"));
    assert!(out.contains("*[прервано]*"));
}

#[test]
fn interrupted_reply_trims_and_appends_marker() {
    assert_eq!(interrupted_reply("  half "), "half\n\n*[прервано]*");
}

#[test]
fn transcript_skips_compaction_role() {
    let rows = vec![
        ("user".into(), "hi".into()),
        ("compaction".into(), "summary".into()),
        ("assistant".into(), "bye".into()),
    ];
    let t = transcript_lines(&rows);
    assert!(!t.contains("[compaction]"));
    assert!(t.contains("[user]"));
}

#[test]
fn transcript_prunes_huge_tool_output() {
    let rows = vec![("tool".into(), "x".repeat(5000))];
    let t = transcript_lines(&rows);
    assert!(t.contains("cleared to save context"));
}

#[test]
fn transcript_exact_layout() {
    let rows = vec![
        ("user".to_string(), "hi".to_string()),
        ("tool".to_string(), "ok".to_string()),
    ];
    assert_eq!(transcript_lines(&rows), "[user]\nhi\n\n[tool]\nok\n\n");
}

#[test]
fn activity_log_accumulates_steps() {
    let mut log = ActivityLog::new();
    log.push_event(&AgentEvent::LlmThinking { iteration: 1 });
    log.push_event(&AgentEvent::ToolStart {
        name: "exec".into(),
        label: "id".into(),
    });
    log.push_event(&AgentEvent::ToolEnd {
        name: "exec".into(),
        exit_code: 0,
        preview: "uid=1000".into(),
    });
    let rendered = log.render();
    assert!(rendered.contains("Thinking… (step 1)"));
    assert!(rendered.contains("Running exec"));
    assert!(rendered.contains("uid=1000"));
    assert!(rendered.contains(STEP_SEP));
}

#[test]
fn tool_end_includes_preview() {
    let e = AgentEvent::ToolEnd {
        name: "exec".into(),
        exit_code: 0,
        preview: "hello".into(),
    };
    assert!(format_step_block(&e).contains("hello"));
    assert!(format_status_line(&e).contains("hello"));
}

#[test]
fn subagent_events_format() {
    let start = AgentEvent::SubagentStart {
        id: "subagent_1".into(),
        label: "research".into(),
    };
    assert!(format_step_block(&start).contains("research"));
    let end = AgentEvent::SubagentEnd {
        id: "subagent_1".into(),
        exit_code: 0,
        preview: "Done: found 3 files".into(),
    };
    assert!(format_step_block(&end).contains("finished"));
    assert!(format_step_block(&end).contains("Done"));
}

#[test]
fn step_blocks_exact_text() {
    assert_eq!(
        format_step_block(&AgentEvent::LlmThinking { iteration: 12 }),
        "Thinking… (step 12)"
    );
    assert_eq!(
        format_step_block(&AgentEvent::ToolEnd {
            name: "exec".into(),
            exit_code: -2,
            preview: " a\n<b>b</b>  c ".into(),
        }),
        "Finished exec (exit -2)\n  a\n  b c"
    );
    assert_eq!(
        format_step_block(&AgentEvent::Compacting { tokens: 0 }),
        "Compacting context…"
    );
    assert_eq!(
        format_step_block(&AgentEvent::Compacting { tokens: 900 }),
        "Compacting context (~900 tokens)…"
    );
    assert_eq!(
        format_step_block(&AgentEvent::EmptyResponseRetry {
            attempt: 2,
            max_attempts: 3
        }),
        "No reply text yet — retrying summary (2/3)"
    );
    assert_eq!(format_step_block(&AgentEvent::Interrupted), "⚡ Прервано");
    assert_eq!(
        format_step_block(&AgentEvent::AssistantChunk { text: "  ".into() }),
        ""
    );
}

#[test]
fn status_line_is_first_line() {
    let e = AgentEvent::ToolStart {
        name: "exec".into(),
        label: "ls -la".into(),
    };
    assert_eq!(format_status_line(&e), "Running exec");
    let e = AgentEvent::ToolEnd {
        name: "exec".into(),
        exit_code: 1,
        preview: "boom".into(),
    };
    assert_eq!(format_status_line(&e), "Finished exec (exit 1): boom");
}

#[test]
fn sanitize_status_text_collapses_and_caps() {
    assert_eq!(sanitize_status_text("<li class=\"x\">a\n\n b</li>", 120), "a b");
    assert_eq!(sanitize_status_text("abcdef", 3), "abc…");
}

#[test]
fn empty_assistant_chunk_not_logged_and_spinner() {
    let mut log = ActivityLog::new();
    assert_eq!(log.spinner_line(), "Working…");
    log.push_event(&AgentEvent::AssistantChunk { text: "   ".into() });
    assert_eq!(log.render(), "");
    log.push_event(&AgentEvent::ToolStart {
        name: "exec".into(),
        label: "uname".into(),
    });
    assert_eq!(log.spinner_line(), "Running exec");
}

#[test]
fn render_truncated_keeps_tail_within_budget() {
    let mut log = ActivityLog::new();
    for i in 0..50 {
        log.push_event(&AgentEvent::LlmThinking { iteration: i });
    }
    let full = log.render();
    assert_eq!(log.render_truncated(full.len()), full);
    let cut = log.render_truncated(200);
    assert!(cut.starts_with("… (earlier steps hidden)\n────────\n"));
    assert!(cut.len() <= 200);
    assert!(cut.ends_with("Thinking… (step 49)"));
}

#[test]
fn strip_summary_prefix_roundtrip() {
    let body = "## Active Task\nDo thing";
    let wrapped = format!("{SUMMARY_PREFIX}{body}");
    assert_eq!(strip_summary_prefix(&wrapped), body);
}

#[test]
fn strip_summary_via_prompt() {
    let inner = "task";
    assert_eq!(strip_summary_prefix(&format!("{SUMMARY_PREFIX}{inner}")), inner);
}

#[test]
fn strip_summary_legacy_prefix() {
    let legacy = "[CONTEXT COMPACTION — REFERENCE ONLY] Earlier turns were summarized. Treat as background only: ; old body";
    assert_eq!(strip_summary_prefix(legacy), "old body");
    assert_eq!(strip_summary_prefix("  plain  "), "plain");
}

#[test]
fn summarizer_includes_previous() {
    let msg = summarizer_user_message("transcript", Some("old summary"));
    assert!(msg.contains("PREVIOUS SUMMARY"));
    assert!(msg.contains("old summary"));
}

#[test]
fn summarizer_without_previous() {
    let msg = summarizer_user_message("T", None);
    assert!(msg.starts_with("Summarize this conversation transcript for handoff:\n\nT\n\n"));
    assert!(!msg.contains("PREVIOUS SUMMARY"));
}

#[test]
fn yaml_frontmatter_stripped() {
    assert_eq!(
        strip_yaml_frontmatter("---\ntitle: x\n---\n\nPersona here."),
        "Persona here."
    );
    assert_eq!(strip_yaml_frontmatter("---\ntitle: x\n---\n"), "---\ntitle: x\n---\n");
    assert_eq!(strip_yaml_frontmatter("no front"), "no front");
}

#[test]
fn thresholds_match_hermes() {
    assert_eq!(MEMORY_REVIEW_TURN_THRESHOLD, 10);
    assert_eq!(SKILL_REVIEW_TOOL_THRESHOLD, 10);
}

#[test]
fn memory_gate_every_tenth_user_turn() {
    assert!(!should_run_memory_review(5, false));
    assert!(!should_run_memory_review(10, true));
    assert!(should_run_memory_review(10, false));
    assert!(should_run_memory_review(20, false));
}

#[test]
fn skill_gate_at_ten_tools() {
    assert!(!should_run_skill_review(9, false));
    assert!(!should_run_skill_review(10, true));
    assert!(should_run_skill_review(10, false));
}

#[test]
fn parse_create_response() {
    assert_eq!(
        parse_created_skill_name("Created skill 'deploy-app' at /tmp/x"),
        Some("deploy-app".into())
    );
    assert_eq!(parse_created_skill_name("Patched foo"), None);
}

#[test]
fn parse_append_response() {
    assert_eq!(
        parse_appended_memory_path("Appended to 'MEMORY.md'."),
        Some("MEMORY.md".into())
    );
    assert_eq!(
        parse_appended_memory_path("Appended to 'memory/notes.txt'."),
        Some("memory/notes.txt".into())
    );
    assert_eq!(parse_appended_memory_path("Appended to 'unterminated"), None);
}

#[test]
fn truncate_chars_adds_note() {
    assert_eq!(truncate_chars("short", 10), "short");
    let long = "y".repeat(30);
    assert_eq!(truncate_chars(&long, 25), format!("{}\n… (truncated)", "y".repeat(5)));
}

#[test]
fn requires_tools_detects_action_verbs() {
    assert!(user_request_requires_tools("Скачай сайт example.com"));
    assert!(user_request_requires_tools("please run npm test"));
    assert!(!user_request_requires_tools("what is Rust?"));
}

#[test]
fn persisted_assistant_includes_tool_block() {
    let tools = vec![ToolPersistEntry {
        name: "exec".into(),
        exit_code: 0,
        body: "ok\n".into(),
    }];
    let p = build_persisted_assistant("Done.", &tools);
    assert!(p.contains("<!-- tool-results -->"));
    assert!(p.contains("[exec exit=0]"));
}

#[test]
fn persisted_assistant_exact() {
    assert_eq!(build_persisted_assistant("Done.", &[]), "Done.");
    let tools = vec![ToolPersistEntry {
        name: "exec".into(),
        exit_code: 3,
        body: "no newline".into(),
    }];
    assert_eq!(
        build_persisted_assistant("Done.", &tools),
        "Done.\n\n<!-- tool-results -->\n[exec exit=3]\nno newline\n"
    );
}

#[test]
fn sanitize_strips_tool_results_appendix_and_xml() {
    let raw = "Honcho analysis here.\n\n\
<!-- tool-results -->\n\
[exec exit=0]\n\
command: curl -sL example.com\n\
</parameter>\n\
</invoke>\n\
<invoke name=\"exec\">\n\
</minimax:tool_call>";
    let clean = sanitize_user_reply(raw);
    assert_eq!(clean, "Honcho analysis here.");
}

#[test]
fn sanitize_strips_trailing_exec_exit_line() {
    let raw = "Summary of findings.\n[exec exit=0]";
    assert_eq!(sanitize_user_reply(raw), "Summary of findings.");
}

#[test]
fn sanitize_preserves_normal_markdown() {
    let raw = "## Title\n\nParagraph with `code` and [link](https://example.com).";
    assert_eq!(sanitize_user_reply(raw), raw);
}

#[test]
fn sanitize_cuts_leaked_invoke() {
    assert_eq!(sanitize_user_reply("Answer  <invoke name=\"x\">junk"), "Answer");
}

#[test]
fn child_increments_depth() {
    let parent = TurnContext::parent("sess_1");
    assert_eq!(parent.delegation_depth, 0);
    let child = TurnContext::child(&parent, Some("research".into()));
    assert_eq!(child.delegation_depth, 1);
    assert_eq!(child.parent_session_id, "sess_1");
    assert_eq!(child.subagent_label.as_deref(), Some("research"));
}

#[test]
fn nested_child_would_exceed_default_max_depth() {
    let parent = TurnContext::parent("sess_1");
    let child = TurnContext::child(&parent, None);
    let nested = TurnContext::child(&child, None);
    assert_eq!(nested.delegation_depth, 2);
}

#[test]
fn for_delegation_attaches_exec_run_id() {
    let parent = TurnContext::parent("sess_1");
    let ctx = parent.for_delegation(Some("run_exec_1"));
    assert_eq!(ctx.run_id.as_deref(), Some("run_exec_1"));
}

#[test]
fn child_parent_run_id_links_immediate_parent() {
    let root = TurnContext::parent("sess_1");
    let mut depth1 =
        TurnContext::child(&root.for_delegation(Some("run_root")), Some("d1".into()));
    depth1.run_id = Some("sub_1".into());
    let depth2 = TurnContext::child(&depth1, None);
    assert_eq!(depth2.parent_run_id.as_deref(), Some("sub_1"));
    assert_ne!(depth2.parent_run_id.as_deref(), Some("run_root"));
}
