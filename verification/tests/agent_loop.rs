use bobaclaw::compaction::{
    effective_history, forced_compaction_plan, history_to_conversation, needs_context_guard,
    plan_compaction, previous_summary_body, rebuild_after_compaction, session_compaction_plan,
    uncovered_rows, CompactionRefusal, StoredMessage,
};
use bobaclaw::context::estimate_tokens;
use bobaclaw::conversation::{ConversationMessage, FunctionCall, ToolCall};
use bobaclaw::prompt::{strip_summary_prefix, SUMMARY_PREFIX};
use bobaclaw::spawn_completer::{
    build_channel_peer, fallback_completion, job_completion, notification_summary,
    result_delivery_message, session_scope, should_notify, should_wake, status_label,
    wake_message, wake_rate_limited,
};
use bobaclaw::subagent::{
    check_delegation, choose_backend_name, finish_run, format_subagent_user_message,
    native_run_result, select_backend, spawned_message, truncate_body, truncate_preview,
    SubagentBackend, SubagentError, SubagentRunResult,
};
use bobaclaw::progress::AgentEvent;
use bobaclaw::tool_loop::{
    closing_reply, parent_turn_offered_tools, truncate_for_persist, LoopAction, Nudge, ToolLoop,
    ACTION_REQUIRED_NUDGE, NO_TEXT_REPLY, SUMMARY_RESPONSE_NUDGE,
};
use bobaclaw::turn::ToolPersistEntry;
use bobaclaw::turn_context::TurnMode;

fn rows(pairs: &[(&str, &str)]) -> Vec<(String, String)> {
    pairs
        .iter()
        .map(|(r, c)| (r.to_string(), c.to_string()))
        .collect()
}

fn stored(pairs: &[(&str, &str)]) -> Vec<StoredMessage> {
    pairs
        .iter()
        .enumerate()
        .map(|(i, (r, c))| StoredMessage {
            id: i as i64 + 1,
            role: r.to_string(),
            content: c.to_string(),
            covers_through_id: None,
        })
        .collect()
}

fn contents(h: &[(String, String)]) -> Vec<&str> {
    h.iter().map(|(_, c)| c.as_str()).collect()
}

#[test]
fn effective_history_legacy_compaction_without_boundary() {
    let all = stored(&[("user", "old"), ("compaction", "sum1"), ("user", "new")]);
    let eff = effective_history(&all);
    assert_eq!(eff.len(), 2);
    assert_eq!(eff[0].0, "compaction");
    assert_eq!(eff[1].1, "new");
}

#[test]
fn effective_history_keeps_tail_before_compaction_row() {
    let mut all = stored(&[
        ("user", "u1"),
        ("assistant", "a1"),
        ("user", "u2"),
        ("assistant", "a2"),
        ("user", "u3"),
        ("compaction", "sum"),
        ("assistant", "a3"),
    ]);
    all[5].covers_through_id = Some(2);
    let eff = effective_history(&all);
    assert_eq!(contents(&eff), ["sum", "u2", "a2", "u3", "a3"]);
    assert_eq!(eff[0].0, "compaction");
}

#[test]
fn plan_keeps_tail_and_latest_user_message() {
    let all = stored(&[
        ("user", "u1"),
        ("assistant", "a1"),
        ("user", "u2"),
        ("assistant", "a2"),
        ("user", "u3"),
    ]);
    let plan = plan_compaction(&all, 2).unwrap();
    assert_eq!(contents(&plan.to_summarize), ["u1", "a1", "u2"]);
    assert_eq!(plan.covers_through_id, 3);
    assert!(plan.previous_summary.is_none());
    // Tail is never empty: the current user message stays verbatim even with tail_keep=0.
    let plan = plan_compaction(&all, 0).unwrap();
    assert_eq!(plan.covers_through_id, 4);
    assert!(plan_compaction(&all, 4).is_none());
}

#[test]
fn plan_after_legacy_compaction_starts_after_row() {
    let all = stored(&[
        ("user", "old"),
        ("compaction", "sum1"),
        ("user", "n1"),
        ("assistant", "n2"),
        ("user", "n3"),
    ]);
    let plan = plan_compaction(&all, 1).unwrap();
    assert_eq!(contents(&plan.to_summarize), ["n1", "n2"]);
    assert_eq!(plan.previous_summary.as_deref(), Some("sum1"));
}

fn apply_plan(all: &mut Vec<StoredMessage>, covers: i64, body: &str) {
    let id = all.last().map(|r| r.id).unwrap_or(0) + 1;
    all.push(StoredMessage {
        id,
        role: "compaction".into(),
        content: format!("{SUMMARY_PREFIX}{body}"),
        covers_through_id: Some(covers),
    });
}

#[test]
fn compaction_keeps_recent_messages_in_memory_two_rounds() {
    let mut all = stored(&[
        ("user", "u1"),
        ("assistant", "a1"),
        ("user", "u2"),
        ("assistant", "a2"),
        ("user", "u3"),
        ("assistant", "a3"),
        ("user", "u4-current"),
    ]);
    let plan = plan_compaction(&all, 3).unwrap();
    assert_eq!(contents(&plan.to_summarize), ["u1", "a1", "u2", "a2"]);
    apply_plan(&mut all, plan.covers_through_id, "S1");
    let eff = effective_history(&all);
    assert_eq!(eff[0].0, "compaction");
    assert!(eff[0].1.ends_with("S1"));
    assert_eq!(&contents(&eff)[1..], ["u3", "a3", "u4-current"]);
    let conv = history_to_conversation(&eff);
    assert_eq!(conv.last().unwrap().role, "user");
    assert_eq!(conv.last().unwrap().text_content(), "u4-current");

    for (role, c) in [("assistant", "a4"), ("user", "u5"), ("assistant", "a5"), ("user", "u6-current")] {
        let id = all.last().unwrap().id + 1;
        all.push(StoredMessage { id, role: role.into(), content: c.into(), covers_through_id: None });
    }
    let plan = plan_compaction(&all, 2).unwrap();
    assert_eq!(contents(&plan.to_summarize), ["u3", "a3", "u4-current", "a4", "u5"]);
    assert_eq!(plan.previous_summary.as_deref(), Some("S1"));
    apply_plan(&mut all, plan.covers_through_id, "S2");
    let eff = effective_history(&all);
    assert!(eff[0].1.ends_with("S2"));
    assert_eq!(&contents(&eff)[1..], ["a5", "u6-current"]);
    assert_eq!(eff.iter().filter(|(r, _)| r == "compaction").count(), 1);
    assert_eq!(uncovered_rows(&all).len(), 2);
    assert_eq!(previous_summary_body(&all).as_deref(), Some("S2"));
}

#[test]
fn history_maps_compaction_to_user() {
    let h = rows(&[("compaction", "x")]);
    let conv = history_to_conversation(&h);
    assert_eq!(conv[0].role, "user");
}

#[test]
fn strip_summary_via_compaction_prefix() {
    let inner = "task";
    assert_eq!(strip_summary_prefix(&format!("{SUMMARY_PREFIX}{inner}")), inner);
}

#[test]
fn compaction_decisions() {
    let all = stored(&[
        ("user", "u1"),
        ("assistant", "a1"),
        ("user", "u2"),
        ("assistant", "a2"),
        ("user", "u3"),
        ("assistant", "a3"),
    ]);
    assert!(session_compaction_plan(&all, false, 1000, 10, 2).is_none());
    assert!(session_compaction_plan(&all, true, 10, 10, 2).is_none());
    let plan = session_compaction_plan(&all, true, 11, 10, 2).unwrap();
    assert_eq!(plan.covers_through_id, 4);
    assert!(session_compaction_plan(&all[..5], true, 11, 10, 2).is_none());
    let short = stored(&[("user", "u1")]);
    assert!(matches!(forced_compaction_plan(&short, 5), Err(CompactionRefusal::TooFewMessages)));
    let three = stored(&[("user", "u1"), ("assistant", "a1"), ("user", "u2")]);
    match forced_compaction_plan(&three, 0) {
        Err(e) => assert_eq!(e.message(), "nothing to compact (history too short)"),
        Ok(_) => panic!("expected refusal"),
    }
    assert_eq!(forced_compaction_plan(&all, 0).ok().unwrap().covers_through_id, 4);
    assert!(needs_context_guard(true, 10, 10));
    assert!(!needs_context_guard(false, 10, 10));
}

#[test]
fn rebuild_keeps_system_and_turn_tail() {
    let mut messages = vec![
        ConversationMessage::system("sys"),
        ConversationMessage::user("old"),
        ConversationMessage::user("current"),
        ConversationMessage::tool_result("c1", "out"),
    ];
    let mut boundary = 2usize;
    let fresh = vec![ConversationMessage::user("summary")];
    rebuild_after_compaction(&mut messages, &mut boundary, fresh);
    let texts: Vec<String> = messages.iter().map(|m| m.text_content()).collect();
    assert_eq!(texts, ["sys", "summary", "current", "out"]);
    assert_eq!(boundary, 2);
    let mut empty: Vec<ConversationMessage> = Vec::new();
    let mut b = 0usize;
    rebuild_after_compaction(&mut empty, &mut b, Vec::new());
    assert_eq!(empty.len(), 1);
    assert_eq!(empty[0].role, "system");
    assert_eq!(b, 1);
}

#[test]
fn estimate_tokens_counts_roles() {
    let msgs = vec![
        ConversationMessage::user("hello world"),
        ConversationMessage::assistant_text("ok"),
    ];
    assert!(estimate_tokens(&msgs) >= 2);
}

#[test]
fn estimate_tokens_exact() {
    let msgs = vec![
        ConversationMessage::user("hello world"),
        ConversationMessage::assistant_text("ok"),
    ];
    assert_eq!(estimate_tokens(&msgs), 6);
    assert_eq!(estimate_tokens(&[]), 1);
    let mut call = ConversationMessage::assistant_text("");
    call.tool_calls = Some(vec![ToolCall {
        id: "1".into(),
        kind: "function".into(),
        function: FunctionCall { name: "exec".into(), arguments: "{\"command\":\"ls\"}".into() },
    }]);
    assert_eq!(estimate_tokens(&[call]), 7);
}

#[test]
fn truncate_for_persist_caps_length() {
    let long = "x".repeat(5000);
    let out = truncate_for_persist(&long, 100);
    assert!(out.chars().count() <= 100);
}

#[test]
fn truncate_for_persist_exact() {
    assert_eq!(truncate_for_persist("short", 100), "short");
    let out = truncate_for_persist(&"y".repeat(101), 100);
    assert_eq!(out, format!("{}\n… (truncated for session storage)", "y".repeat(60)));
}

#[test]
fn parent_turn_offered_tools_structural() {
    assert!(parent_turn_offered_tools(TurnMode::Parent, 1));
    assert!(!parent_turn_offered_tools(TurnMode::Parent, 0));
    assert!(!parent_turn_offered_tools(TurnMode::Child, 1));
}

fn entry(name: &str) -> ToolPersistEntry {
    ToolPersistEntry { name: name.into(), exit_code: 0, body: "ok".into() }
}

#[test]
fn tool_loop_runs_tools_then_answers() {
    let mut lp = ToolLoop::new(TurnMode::Parent, false, 3, 1, 1);
    assert!(matches!(
        lp.start(false),
        LoopAction::CallModel { iteration: 1, offer_tools: true, retry: None }
    ));
    let step = lp.on_reply("looking".into(), vec!["exec".into(), "skill_manage".into()], false);
    assert!(step.emit_chunk);
    assert!(step.nudge.is_none());
    assert!(matches!(step.action, LoopAction::RunTool { index: 0 }));
    assert_eq!(lp.record_tool(entry("exec"), true, Some("run_1".into())), Some(1));
    assert!(lp.skill_manage_used);
    assert_eq!(lp.record_tool(entry("skill_manage"), true, Some("run_1".into())), None);
    assert!(matches!(
        lp.next_iteration(true),
        LoopAction::CallModel { iteration: 2, offer_tools: true, retry: None }
    ));
    let step = lp.on_reply("done".into(), vec![], true);
    match step.action {
        LoopAction::Finish(o) => {
            assert_eq!(o.final_text, "done");
            assert_eq!(o.tool_call_count, 2);
            assert_eq!(o.tool_persist.len(), 2);
            assert!(o.executed);
            assert!(o.skill_manage_used);
            assert!(!o.memory_manage_used);
            assert_eq!(o.last_run_id.as_deref(), Some("run_1"));
            assert!(!o.hit_iteration_limit);
            assert!(!o.interrupted);
        }
        _ => panic!("expected finish"),
    }
}

#[test]
fn tool_loop_hits_iteration_limit_in_child() {
    let mut lp = ToolLoop::new(TurnMode::Child, false, 1, 0, 2);
    lp.start(false);
    let step = lp.on_reply(String::new(), vec!["exec".into()], false);
    assert!(!step.emit_chunk);
    assert_eq!(lp.record_tool(entry("exec"), true, None), None);
    match lp.next_iteration(true) {
        LoopAction::Finish(o) => {
            assert!(o.hit_iteration_limit);
            assert_eq!(
                o.final_text,
                "Reached the tool step limit (1) before producing a final reply. Ask to continue or narrow the task."
            );
        }
        _ => panic!("expected finish"),
    }
}

#[test]
fn tool_loop_retries_empty_parent_reply() {
    let mut lp = ToolLoop::new(TurnMode::Parent, false, 1, 0, 1);
    lp.start(false);
    let step = lp.on_reply(String::new(), vec![], false);
    match step.action {
        LoopAction::CallModel { iteration, offer_tools, retry } => {
            assert_eq!(iteration, 2);
            assert!(!offer_tools);
            assert_eq!(retry, Some((1, Nudge::Summary)));
        }
        _ => panic!("expected retry"),
    }
    let step = lp.on_reply("answer".into(), vec![], false);
    assert!(step.emit_chunk);
    match step.action {
        LoopAction::Finish(o) => assert_eq!(
            o.final_text,
            "answer\n\n(Reached the 1-step tool limit; partial progress may be in tool output above.)"
        ),
        _ => panic!("expected finish"),
    }
}

#[test]
fn tool_loop_blank_reply_is_not_a_step_limit() {
    let mut lp = ToolLoop::new(TurnMode::Parent, false, 1, 0, 1);
    lp.start(false);
    let step = lp.on_reply("  ".into(), vec![], false);
    assert!(matches!(step.action, LoopAction::CallModel { iteration: 2, .. }));
    match lp.on_reply("answer".into(), vec![], false).action {
        LoopAction::Finish(o) => {
            assert_eq!(o.final_text, "answer");
            assert!(!o.hit_iteration_limit);
        }
        _ => panic!("expected finish"),
    }
}

#[test]
fn tool_loop_nudges_when_action_required() {
    let mut lp = ToolLoop::new(TurnMode::Parent, true, 2, 1, 0);
    lp.start(false);
    let step = lp.on_reply("I cannot".into(), vec![], false);
    assert!(!step.emit_chunk);
    assert_eq!(step.nudge, Some(Nudge::ActionRequired));
    assert!(matches!(step.action, LoopAction::CallModel { iteration: 2, .. }));
    let step = lp.on_reply("still no".into(), vec![], false);
    assert!(step.emit_chunk);
    match step.action {
        LoopAction::Finish(o) => {
            assert_eq!(o.final_text, "still no");
            assert!(!o.hit_iteration_limit);
        }
        _ => panic!("expected finish"),
    }
    assert_eq!(Nudge::ActionRequired.text(), ACTION_REQUIRED_NUDGE);
    assert_eq!(Nudge::Summary.text(), SUMMARY_RESPONSE_NUDGE);
}

#[test]
fn tool_loop_interrupt_keeps_progress() {
    let mut lp = ToolLoop::new(TurnMode::Parent, false, 2, 0, 0);
    lp.start(false);
    lp.on_reply("partial".into(), vec!["memory_manage".into()], false);
    let o = lp.interrupted();
    assert!(o.interrupted);
    assert_eq!(o.final_text, "partial");
    assert_eq!(o.tool_call_count, 1);
    assert!(o.memory_manage_used);
    assert!(o.tool_persist.is_empty());
}

#[test]
fn closing_reply_cases() {
    assert_eq!(closing_reply("", false, TurnMode::Parent, 5), NO_TEXT_REPLY);
    assert_eq!(closing_reply("ok", false, TurnMode::Parent, 5), "ok");
    assert_eq!(closing_reply("hit the tool step limit", true, TurnMode::Parent, 5), "hit the tool step limit");
    assert_eq!(closing_reply("ok", true, TurnMode::Child, 5), "ok");
}

#[test]
fn subagent_backend_selection() {
    assert!(matches!(check_delegation(false, 0, 1), Err(SubagentError::Disabled)));
    match check_delegation(true, 2, 2) {
        Err(e) => assert_eq!(e.message(), "nested subagents are not allowed (max_depth=2)"),
        Ok(()) => panic!("expected refusal"),
    }
    assert!(check_delegation(true, 1, 2).is_ok());
    assert_eq!(choose_backend_name(Some("  codex "), "native"), "codex");
    assert_eq!(choose_backend_name(Some("  "), "native"), "native");
    assert_eq!(choose_backend_name(None, "native"), "native");
    assert!(matches!(select_backend("claude_code", true, false, false), Ok(SubagentBackend::ClaudeCode)));
    match select_backend("cursor", true, true, false) {
        Err(e) => assert_eq!(e.message(), "cursor subagent backend is disabled in config"),
        Ok(_) => panic!("expected disabled"),
    }
    match select_backend("gpt", true, true, true) {
        Err(e) => assert_eq!(e.message(), "unknown subagent backend: gpt"),
        Ok(_) => panic!("expected unknown"),
    }
}

#[test]
fn subagent_results() {
    let body = truncate_body(&"x".repeat(200), 100);
    assert_eq!(
        body,
        format!("{}\n… (subagent result truncated; full output in run ledger capsule)", "x".repeat(20))
    );
    assert_eq!(truncate_preview("abcdef", 3), "abc…");
    assert_eq!(native_run_result("", false, false, 10).ok().unwrap().exit_code, 1);
    assert_eq!(native_run_result("ok", false, false, 10).ok().unwrap().exit_code, 0);
    assert_eq!(native_run_result("", true, false, 10).ok().unwrap().exit_code, 0);
    match native_run_result("ok", true, true, 10) {
        Err(e) => assert_eq!(e.message(), "subagent interrupted"),
        Ok(_) => panic!("expected interrupted"),
    }
    let (res, ev) = finish_run(Err("boom".into()), "sa_1");
    assert_eq!(res.body, "subagent failed: boom");
    assert_eq!(res.exit_code, 1);
    assert_eq!(res.subagent_id, "sa_1");
    assert!(matches!(ev, AgentEvent::SubagentEnd { exit_code: 1, .. }));
    let ok = SubagentRunResult { body: "fine".into(), exit_code: 0, subagent_id: String::new() };
    let (res, _) = finish_run(Ok(ok), "sa_2");
    assert_eq!(res.subagent_id, "sa_2");
    assert_eq!(
        format_subagent_user_message(
            "PREFIX",
            "do it",
            Some("ctx"),
            Some("extra"),
            &vec![("s1".to_string(), "body1".to_string())]
        ),
        "PREFIX\ndo it\n\nAdditional context from parent:\nctx\n\nPreset instructions:\nextra\n\nSkill `s1`:\nbody1"
    );
    assert_eq!(format_subagent_user_message("P", "t", Some("  "), Some(""), &vec![]), "P\nt");
    assert_eq!(
        spawned_message(None, "spawn_1"),
        "Spawned background subagent `unnamed` (id: spawn_1). Use spawn_status to check progress; result will be delivered when complete."
    );
}

#[test]
fn spawn_completion_decisions() {
    let ok: Result<SubagentRunResult, String> =
        Ok(SubagentRunResult { body: "done".into(), exit_code: 0, subagent_id: "s".into() });
    let c = job_completion(&ok, false, 100);
    assert_eq!(c.status, "completed");
    assert_eq!(c.preview.as_deref(), Some("done"));
    assert!(c.deliver_result);
    assert_eq!(notification_summary(&c), "done");
    let c = job_completion(&ok, true, 100);
    assert_eq!(c.status, "cancelled");
    assert!(!c.deliver_result);
    let err: Result<SubagentRunResult, String> = Err("e".into());
    let c = job_completion(&err, false, 100);
    assert_eq!(c.status, "failed");
    assert_eq!(c.exit_code, None);
    assert_eq!(fallback_completion(&err).0, "failed");
    assert_eq!(status_label(3), "failed");
    assert!(should_notify(true, false));
    assert!(!should_notify(true, true));
    assert!(!should_wake(true, true, false, "failed"));
    assert!(should_wake(true, true, true, "failed"));
    assert!(should_wake(true, true, false, "completed"));
    assert!(!should_wake(false, true, true, "completed"));
    assert!(wake_rate_limited(3, 3));
    assert!(!wake_rate_limited(2, 3));
    assert_eq!(session_scope("abc"), "session:abc");
    assert_eq!(
        wake_message(Some("l"), "j", None),
        "[Background subagent `l` (j) completed]\n\n(no preview)\n\nIntegrate this result for the user. Do not spawn another background agent unless clearly needed."
    );
    assert_eq!(result_delivery_message(None, "j", "b"), "[Subagent `j` completed]\n\nb");
    let peer = build_channel_peer(Some("42"), None, Some("7")).unwrap();
    assert_eq!(peer.channel, "telegram");
    assert_eq!(peer.peer, "42");
    assert_eq!(peer.thread_id.as_deref(), Some("7"));
    assert!(build_channel_peer(Some("42"), Some("web"), None).is_none());
    assert!(build_channel_peer(None, Some("telegram"), None).is_none());
}
