use bobaclaw::progress::{format_step_block, sanitize_status_text, ActivityLog, AgentEvent};
use bobaclaw::prompt::{strip_summary_prefix, SUMMARY_PREFIX};
use bobaclaw::spawn_completer::{
    completion_plan, job_completion, next_completion_action, CompletionAction, CompletionEvent,
};
use bobaclaw::subagent::SubagentRunResult;
use bobaclaw::sources::{append_sources_if_missing, is_http_parsed, source_label, TurnSource};
use bobaclaw::telegram::api::{Chat, Message, Update, User};
use bobaclaw::telegram::ingress::ChatKind;
use bobaclaw::telegram::runtime::{route_update, UpdateRoute};
use bobaclaw::tool_loop::{LoopAction, ToolLoop};
use bobaclaw::tools::paths::validate_memory_path;
use bobaclaw::tools::run_view::check_run_access;
use bobaclaw::tools::schedule::{recurring_plan_given, when_from, RecurringArgs};
use bobaclaw::tools::web::check_parsed_url;
use bobaclaw::turn::{build_persisted_assistant, sanitize_user_reply, ToolPersistEntry};
use bobaclaw::turn_context::TurnMode;

fn entry(name: &str) -> ToolPersistEntry {
    ToolPersistEntry { name: name.into(), exit_code: 0, body: "ok".into() }
}

fn message(text: &str) -> Message {
    Message {
        message_id: 77,
        chat: Chat { id: -100123, chat_type: "supergroup".into(), title: Some("team".into()) },
        from: Some(User { id: 9, username: None, is_bot: false }),
        text: Some(text.into()),
        caption: None,
        document: None,
        photo: None,
        voice: None,
        audio: None,
        video: None,
        entities: None,
        reply_to_message: Some(Box::new(Message {
            message_id: 70,
            chat: Chat { id: -100123, chat_type: "supergroup".into(), title: None },
            from: Some(User { id: 555, username: Some("boba_bot".into()), is_bot: true }),
            text: Some("earlier".into()),
            caption: None,
            document: None,
            photo: None,
            voice: None,
            audio: None,
            video: None,
            entities: None,
            reply_to_message: None,
            message_thread_id: None,
        })),
        message_thread_id: Some(5),
    }
}

#[test]
fn routed_message_keeps_sender_chat_and_ids() {
    let update = Update { update_id: 1, message: Some(message("  hello  ")), edited_message: None };
    match route_update(&update, 555, Some("boba_bot")) {
        UpdateRoute::Inbound(i) => {
            assert_eq!(i.text, "hello");
            assert_eq!(i.user_id, 9);
            assert_eq!(i.message_id, 77);
            assert_eq!(i.reply_to_message_id, Some(70));
            assert_eq!(i.peer.channel, "telegram");
            assert_eq!(i.peer.peer, "-100123");
            assert_eq!(i.peer.thread_id.as_deref(), Some("5"));
            assert_eq!(i.chat_kind, ChatKind::Supergroup);
            assert_eq!(i.user_name.as_deref(), Some("team"));
            assert!(i.is_reply_to_bot);
        }
        _ => panic!("expected an inbound message"),
    }
    let pair = Update { update_id: 2, message: None, edited_message: Some(message("/pair")) };
    assert!(matches!(route_update(&pair, 555, None), UpdateRoute::Pairing(i) if i.user_id == 9 && i.message_id == 77));
}

#[test]
fn executed_and_run_id_stay_once_set() {
    let mut lp = ToolLoop::new(TurnMode::Parent, false, 3, 1, 1);
    lp.start(false);
    let step = lp.on_reply("working".into(), vec!["exec".into(), "web_fetch".into()], false);
    assert!(matches!(step.action, LoopAction::RunTool { index: 0 }));
    assert_eq!(lp.record_tool(entry("exec"), true, Some("run_7".into())), Some(1));
    assert_eq!(lp.record_tool(entry("web_fetch"), false, None), None);
    assert!(lp.executed);
    assert_eq!(lp.last_run_id.as_deref(), Some("run_7"));
}

#[test]
fn cancelled_loop_hands_back_partial_work() {
    let mut lp = ToolLoop::new(TurnMode::Parent, false, 3, 1, 1);
    lp.start(false);
    lp.on_reply("partial".into(), vec!["exec".into()], false);
    lp.record_tool(entry("exec"), true, Some("run_1".into()));
    let o = lp.on_cancel();
    assert!(o.interrupted);
    assert!(!o.hit_iteration_limit);
    assert_eq!(o.final_text, "partial");
    assert_eq!(o.tool_persist.len(), 1);
    assert_eq!(o.last_run_id.as_deref(), Some("run_1"));
}

#[test]
fn push_event_appends_after_separator() {
    let mut log = ActivityLog::new();
    log.push_event(&AgentEvent::AssistantChunk { text: "   ".into() });
    assert_eq!(log.render(), "");
    let first = AgentEvent::LlmThinking { iteration: 1 };
    log.push_event(&first);
    let before = log.render();
    assert_eq!(before, format_step_block(&first));
    let second = AgentEvent::ToolStart { name: "exec".into(), label: "ls".into() };
    log.push_event(&second);
    assert_eq!(log.render(), format!("{before}\n────────\n{}", format_step_block(&second)));
}

#[test]
fn summary_prefix_round_trips() {
    let body = "## Active Task\nDo thing";
    assert_eq!(strip_summary_prefix(&format!("{SUMMARY_PREFIX}{body}")), body);
    assert_eq!(strip_summary_prefix(&format!("{SUMMARY_PREFIX}  {body}\n\n")), body);
}

#[test]
fn sources_footer_is_added_once() {
    let sources = vec![
        TurnSource::Url("https://example.com/a".into()),
        TurnSource::WorkspacePath("memory/notes.md".into()),
    ];
    let once = append_sources_if_missing("Done.  ", &sources);
    assert_eq!(
        once,
        "Done.\n\n## Sources\n\n- [example.com](https://example.com/a)\n- [memory/notes.md](memory/notes.md)"
    );
    assert_eq!(append_sources_if_missing(&once, &sources), once);
}

#[test]
fn validated_memory_path_validates_to_itself() {
    for p in ["MEMORY.md", "memory\\a.md", "  memory/b.txt ", "MEMORY.md/"] {
        let r = validate_memory_path(p).unwrap();
        assert_eq!(validate_memory_path(&r).unwrap(), r);
    }
}

#[test]
fn parsed_url_policy_and_labels() {
    let ok: Result<(String, Option<String>), String> = Ok(("https".into(), Some("example.com".into())));
    assert_eq!(check_parsed_url(ok.clone()).unwrap(), "example.com");
    assert!(is_http_parsed(&ok));
    assert_eq!(source_label("https://example.com/x", &ok), "example.com");
    let ftp: Result<(String, Option<String>), String> = Ok(("ftp".into(), Some("example.com".into())));
    assert_eq!(check_parsed_url(ftp.clone()).unwrap_err(), "only http and https URLs are allowed");
    assert!(!is_http_parsed(&ftp));
    let local: Result<(String, Option<String>), String> = Ok(("http".into(), Some("10.1.2.3".into())));
    assert_eq!(check_parsed_url(local).unwrap_err(), "blocked IP: 10.1.2.3");
    let bad: Result<(String, Option<String>), String> = Err("relative URL without a base".into());
    assert_eq!(check_parsed_url(bad.clone()).unwrap_err(), "invalid url: relative URL without a base");
    assert_eq!(source_label("not a url", &bad), "not a url");
}

#[test]
fn recurring_plan_from_parser_outcome() {
    let args = RecurringArgs {
        cron: " 0 0 9 * * * ".into(),
        prompt: " standup ".into(),
        deliver_message: None,
        job_id: None,
    };
    let p = recurring_plan_given(&args, None, "abc").unwrap();
    assert_eq!(p.id, "cron_abc");
    assert_eq!(p.cron_expr, "0 0 9 * * *");
    assert_eq!(p.prompt, "standup");
    let e = recurring_plan_given(&args, Some("bad field".into()), "abc").err().unwrap();
    assert_eq!(e, "invalid cron expression: bad field");
    let custom = RecurringArgs { job_id: Some(" daily ".into()), ..args };
    assert_eq!(recurring_plan_given(&custom, None, "abc").unwrap().id, "cron_daily");
}

#[test]
fn when_text_falls_back() {
    assert_eq!(when_from(Some("2024-01-01 00:00:00 UTC".into()), "123"), "2024-01-01 00:00:00 UTC");
    assert_eq!(when_from(None, "123"), "123");
}

#[test]
fn sanitized_status_is_stable() {
    let r = sanitize_status_text("<b>hello</b>   world", 5);
    assert_eq!(r, "hello…");
    assert_eq!(sanitize_status_text(&r, 5), r);
    let long = sanitize_status_text("line one\n\n<i>line</i>\ttwo  ", 80);
    assert_eq!(long, "line one line two");
    assert_eq!(sanitize_status_text(&long, 80), long);
    let cut = sanitize_status_text("ab cd ef", 3);
    assert_eq!(cut, "ab …");
    assert_eq!(sanitize_status_text(&cut, 3), cut);
}

#[test]
fn run_access_refusals_in_order() {
    assert_eq!(check_run_access("r1", false, false).unwrap_err(), "run not found: r1");
    assert_eq!(
        check_run_access("r1", true, false).unwrap_err(),
        "run r1 is not accessible for this agent group"
    );
    assert!(check_run_access("r1", true, true).is_ok());
}

#[test]
fn completion_delivers_notifies_then_wakes() {
    let ok: Result<SubagentRunResult, String> = Ok(SubagentRunResult {
        subagent_id: "s1".into(),
        exit_code: 0,
        body: "all done".into(),
    });
    let c = job_completion(&ok, false, 1000);
    let plan = completion_plan(&c, true, false, true, true, true, false, 3);
    assert_eq!(next_completion_action(&plan, &CompletionEvent::Finalized), CompletionAction::AppendDelivery);
    assert_eq!(next_completion_action(&plan, &CompletionEvent::Delivered), CompletionAction::Notify);
    assert_eq!(next_completion_action(&plan, &CompletionEvent::Notified), CompletionAction::CheckBusy);
    assert_eq!(next_completion_action(&plan, &CompletionEvent::Busy(true)), CompletionAction::Done);
    assert_eq!(
        next_completion_action(&plan, &CompletionEvent::Busy(false)),
        CompletionAction::CountRecentWakes
    );
    assert_eq!(next_completion_action(&plan, &CompletionEvent::RecentWakes(3)), CompletionAction::Done);
    assert_eq!(next_completion_action(&plan, &CompletionEvent::RecentWakes(2)), CompletionAction::Wake);

    let failed: Result<SubagentRunResult, String> = Err("boom".into());
    let c = job_completion(&failed, false, 1000);
    let plan = completion_plan(&c, true, true, true, true, true, false, 3);
    assert_eq!(next_completion_action(&plan, &CompletionEvent::Finalized), CompletionAction::Done);
}

#[test]
fn stored_row_shows_the_same_reply() {
    let tools = vec![entry("exec")];
    for t in ["Done.", "Done.\n\n", "cut <invoke name=x> here", "a <!-- tool-results --> b", ""] {
        let stored = build_persisted_assistant(t, &tools);
        assert_eq!(sanitize_user_reply(&stored), sanitize_user_reply(t));
        let shown = sanitize_user_reply(&stored);
        assert!(!shown.contains("<!-- tool-results -->"));
        assert!(!shown.contains("<invoke"));
    }
}

#[test]
fn shown_reply_is_stable() {
    for t in ["Done.\n[exec exit=0]\n\n", "hi <tool_call>x", "a\n\n  b  \n", "x <!-- tool-results -->\n[t exit=1]"] {
        let once = sanitize_user_reply(t);
        assert_eq!(sanitize_user_reply(&once), once);
    }
    let once = sanitize_user_reply("a\r\r\nb");
    assert_eq!(once, "a\r\nb");
    assert_eq!(sanitize_user_reply(&once), "a\nb");
}

#[test]
fn memory_paths_outside_memory_are_refused() {
    for p in ["../MEMORY.md", "memory/../MEMORY.md", "/MEMORY.md", "notes.md", "memory/x.json"] {
        assert!(validate_memory_path(p).is_err(), "{p}");
    }
}

#[test]
fn footer_added_once_with_key_in_trailing_space() {
    let sources = vec![
        TurnSource::WorkspacePath("memory/a ".into()),
        TurnSource::WorkspacePath("memory/b".into()),
    ];
    let once = append_sources_if_missing("x memory/a ", &sources);
    assert_eq!(once, "x memory/a\n\n## Sources\n\n- [memory/b](memory/b)");
    assert_eq!(append_sources_if_missing(&once, &sources), once);
}

#[test]
fn book_counts_outstanding_entries() {
    let mut book = bobaclaw::scope_gate::ScopeBook::new();
    let (a, _) = book.register("session:1", true);
    let (b, cancelled) = book.register("session:1", false);
    assert_eq!(cancelled, Vec::<u64>::new());
    assert_eq!(book.users("session:1"), 2);
    book.release("session:1", a);
    assert!(book.is_busy("session:1"));
    book.release("session:1", b);
    assert_eq!(book.users("session:1"), 0);
    assert!(!book.is_busy("session:1"));
    assert_eq!(book.tracked_scopes(), 0);
}
