use bobaclaw::progress::{format_step_block, ActivityLog, AgentEvent};
use bobaclaw::telegram::api::{
    ensure_telegram_limit, file_download_url, is_telegram_parse_error, method_url, plan_part, Chat,
    Document, Message, MessageEntity, PartPlan, PhotoSize, User,
};
use bobaclaw::telegram::commands::{parse_slash_command, telegram_help_text};
use bobaclaw::telegram::format::{
    escape_html_text, format_for_telegram, markdown_to_telegram_html, render_telegram_html, MdEvent,
    MdTag, MdTagEnd, TelegramFormatMode,
};
use bobaclaw::telegram::ingress::{
    display_user, message_has_attachments, message_mentions_bot, parse_message, ChatKind,
};
use bobaclaw::telegram::runtime::{
    chat_id_of, completion_notice, delivery_chat_id, is_pairing_command, is_poll_conflict,
    parse_i64, poll_retry_secs, reset_reply, should_allow_user, slash_action,
    telegram_progress_event, turn_error_reply, wake_reply_text, DeliveryError, IntError,
    SlashAction,
};
use bobaclaw::telegram::split::{
    split_for_telegram, utf16_len, TELEGRAM_MAX_UTF16, TELEGRAM_SPLIT_UTF16,
};
use bobaclaw::telegram::status::{initial_activity, render_activity_log, stream_message};

#[test]
fn parse_new_command() {
    assert_eq!(
        parse_slash_command("/new", Some("bobaClawBot")),
        Some(("new", ""))
    );
    assert_eq!(
        parse_slash_command("/new@bobaClawBot", Some("bobaClawBot")),
        Some(("new", ""))
    );
    assert_eq!(parse_slash_command("/new@otherBot", Some("bobaClawBot")), None);
}

#[test]
fn parse_help_with_bot_suffix() {
    assert_eq!(
        parse_slash_command("/help@MyBot extra", Some("MyBot")),
        Some(("help", "extra"))
    );
}

#[test]
fn slash_command_edge_cases() {
    assert_eq!(parse_slash_command("hello", None), None);
    assert_eq!(parse_slash_command("/", None), None);
    assert_eq!(parse_slash_command("  //reset  now  please ", None), Some(("reset", "now  please")));
    assert_eq!(parse_slash_command("/new@BOBACLAWBOT", Some("bobaclawbot")), Some(("new", "")));
    assert_eq!(parse_slash_command("/stop@x", None), Some(("stop", "")));
    assert!(telegram_help_text().starts_with("Команды BobaClaw:\n/new"));
}

#[test]
fn short_text_is_single_chunk() {
    let parts = split_for_telegram("hello", TELEGRAM_SPLIT_UTF16);
    assert_eq!(parts, vec!["hello"]);
}

#[test]
fn splits_on_paragraph_boundary() {
    let head = "a".repeat(2000);
    let tail = "b".repeat(2000);
    let text = format!("{head}\n\n{tail}");
    let parts = split_for_telegram(&text, TELEGRAM_SPLIT_UTF16);
    assert_eq!(parts.len(), 2);
    assert!(utf16_len(&parts[0]) <= TELEGRAM_SPLIT_UTF16);
    assert!(utf16_len(&parts[1]) <= TELEGRAM_SPLIT_UTF16);
    assert_eq!(parts.join(""), text);
}

#[test]
fn counts_utf16_for_emoji() {
    assert_eq!(utf16_len("a"), 1);
    assert_eq!(utf16_len("😀"), 2);
}

#[test]
fn split_prefers_line_then_space_then_hard_cut() {
    assert_eq!(split_for_telegram("", 10), vec![""]);
    assert_eq!(split_for_telegram("ab\ncd ef", 5), vec!["ab\n", "cd ef"]);
    assert_eq!(split_for_telegram("abcdefgh", 3), vec!["abc", "def", "gh"]);
    assert_eq!(split_for_telegram("ab", 0), vec!["a", "b"]);
    let parts = split_for_telegram("😀😀😀", 3);
    assert_eq!(parts, vec!["😀", "😀", "😀"]);
}

#[test]
fn tool_end_no_html_dump() {
    let e = AgentEvent::ToolEnd {
        name: "exec".into(),
        exit_code: 0,
        preview: "<li class=\"x\">".into(),
    };
    let block = format_step_block(&e);
    assert!(block.contains("Finished exec (ok)"));
    assert!(!block.contains("<li"));
}

#[test]
fn stream_has_header() {
    let m = stream_message("Thinking… (step 1)");
    assert!(m.starts_with("BobaClaw"));
    assert!(m.contains("Thinking"));
}

#[test]
fn stream_message_exact() {
    assert_eq!(stream_message("  "), "BobaClaw\n────────\nWorking…");
    assert_eq!(stream_message(" x "), "BobaClaw\n────────\nx");
    assert_eq!(initial_activity(), "Working…");
}

#[test]
fn log_renders_multiple_steps() {
    let mut log = ActivityLog::new();
    log.push_event(&AgentEvent::LlmThinking { iteration: 1 });
    log.push_event(&AgentEvent::ToolStart {
        name: "exec".into(),
        label: "uname -a".into(),
    });
    let body = render_activity_log(&log);
    assert!(body.contains("step 1"));
    assert!(body.contains("uname -a"));
}

#[test]
fn progress_skips_assistant_chunks() {
    assert!(telegram_progress_event(&AgentEvent::LlmThinking { iteration: 1 }));
    assert!(telegram_progress_event(&AgentEvent::ToolStart {
        name: "exec".into(),
        label: "ls".into(),
    }));
    assert!(!telegram_progress_event(&AgentEvent::AssistantChunk {
        text: "partial answer".into(),
    }));
}

#[test]
fn bold_and_link() {
    let html = markdown_to_telegram_html("**Hi** [GramIO](https://gramio.dev)").unwrap();
    assert!(html.contains("<b>Hi</b>"));
    assert!(html.contains(r#"<a href="https://gramio.dev">GramIO</a>"#));
}

#[test]
fn code_block() {
    let html = markdown_to_telegram_html("```rust\nlet x = 1;\n```").unwrap();
    assert!(html.contains("<pre><code"));
    assert!(html.contains("let x = 1;"));
}

#[test]
fn escapes_raw_html() {
    let html = markdown_to_telegram_html("a < b & c").unwrap();
    assert!(html.contains("&lt;"));
    assert!(html.contains("&amp;"));
}

#[test]
fn renders_lists_and_code_exactly() {
    let html = markdown_to_telegram_html("1. one\n2. two").unwrap();
    assert_eq!(html, "1. one\n2. two");
    let html = markdown_to_telegram_html("- a\n- b").unwrap();
    assert_eq!(html, "• a\n• b");
    let html = markdown_to_telegram_html("```py\nx<1\n```").unwrap();
    assert_eq!(html, "<pre><code class=\"language-py\">x&lt;1\n</code></pre>");
    let html = markdown_to_telegram_html("# Title\ntext `c`").unwrap();
    assert_eq!(html, "<b>Title</b>text <code>c</code>");
}

#[test]
fn renderer_refuses_orphan_item_and_closes_tags() {
    assert!(render_telegram_html(&[MdEvent::Start(MdTag::Item)]).is_none());
    let events = vec![
        MdEvent::Start(MdTag::Strong),
        MdEvent::Start(MdTag::Emphasis),
        MdEvent::Text("x".into()),
        MdEvent::End(MdTagEnd::Strong),
    ];
    assert_eq!(render_telegram_html(&events).unwrap(), "<b><i>x</i></b>");
    assert_eq!(escape_html_text("a&<>\""), "a&amp;&lt;&gt;\"");
}

#[test]
fn format_modes() {
    let plain = format_for_telegram("**x**", TelegramFormatMode::Plain);
    assert_eq!(plain.text, "**x**");
    assert_eq!(plain.parse_mode, None);
    let html = format_for_telegram("**x**", TelegramFormatMode::Html);
    assert_eq!(html.text, "<b>x</b>");
    assert_eq!(html.parse_mode, Some("HTML"));
}

fn test_msg(text: Option<&str>, caption: Option<&str>, doc: bool) -> Message {
    Message {
        message_id: 1,
        chat: Chat {
            id: 42,
            chat_type: "private".into(),
            title: None,
        },
        from: Some(User {
            id: 99,
            username: Some("alice".into()),
            is_bot: false,
        }),
        text: text.map(str::to_string),
        caption: caption.map(str::to_string),
        document: if doc {
            Some(Document {
                file_id: "fid".into(),
                file_name: Some("notes.txt".into()),
                mime_type: Some("text/plain".into()),
            })
        } else {
            None
        },
        photo: None,
        voice: None,
        audio: None,
        video: None,
        entities: None,
        reply_to_message: None,
        message_thread_id: None,
    }
}

#[test]
fn parse_document_without_caption() {
    let msg = test_msg(None, None, true);
    let inbound = parse_message(&msg, 1, None).expect("document only");
    assert!(inbound.text.is_empty());
}

#[test]
fn parse_photo_with_caption() {
    let mut msg = test_msg(None, Some("look"), false);
    msg.photo = Some(vec![PhotoSize {
        file_id: "p1".into(),
        width: 100,
        height: 100,
    }]);
    let inbound = parse_message(&msg, 1, None).unwrap();
    assert_eq!(inbound.text, "look");
}

#[test]
fn skip_empty_message() {
    let msg = test_msg(None, None, false);
    assert!(parse_message(&msg, 1, None).is_none());
}

#[test]
fn parse_message_fields_and_mentions() {
    let mut msg = test_msg(Some("  hi @MyBot  "), None, false);
    msg.chat.chat_type = "supergroup".into();
    msg.message_thread_id = Some(7);
    msg.entities = Some(vec![MessageEntity {
        entity_type: "mention".into(),
        offset: 5,
        length: 6,
        user: None,
    }]);
    assert!(message_mentions_bot(&msg, 1, Some("mybot")));
    assert!(!message_mentions_bot(&msg, 1, Some("other")));
    let inbound = parse_message(&msg, 1, Some("mybot")).unwrap();
    assert_eq!(inbound.text, "hi @MyBot");
    assert_eq!(inbound.chat_kind, ChatKind::Supergroup);
    assert_eq!(inbound.peer.channel, "telegram");
    assert_eq!(inbound.peer.peer, "42");
    assert_eq!(inbound.peer.thread_id.as_deref(), Some("7"));
    assert_eq!(inbound.user_id, 99);
    assert_eq!(inbound.user_name.as_deref(), Some("alice"));
    assert!(inbound.is_bot_mentioned);
    assert!(!inbound.is_reply_to_bot);
    let mut bot_msg = test_msg(Some("x"), None, false);
    bot_msg.from.as_mut().unwrap().is_bot = true;
    assert!(parse_message(&bot_msg, 1, None).is_none());
    assert!(!message_has_attachments(&test_msg(Some("x"), None, false)));
    assert!(message_has_attachments(&test_msg(None, None, true)));
}

#[test]
fn display_user_prefers_username() {
    let u = User { id: 5, username: Some("bob".into()), is_bot: false };
    assert_eq!(display_user(&u), "@bob");
    let u = User { id: -5, username: None, is_bot: false };
    assert_eq!(display_user(&u), "-5");
}

#[test]
fn api_urls_and_parse_errors() {
    assert_eq!(method_url("T", "getMe"), "https://api.telegram.org/botT/getMe");
    assert_eq!(file_download_url("T", "a/b.jpg"), "https://api.telegram.org/file/botT/a/b.jpg");
    assert!(is_telegram_parse_error("Bad Request: can't PARSE entities"));
    assert!(is_telegram_parse_error("Can't find end of the entity"));
    assert!(!is_telegram_parse_error("Forbidden: bot was blocked"));
}

#[test]
fn limit_guard_and_part_plan() {
    let short = "hello";
    assert_eq!(ensure_telegram_limit(short), vec![short.to_string()]);
    let long = "x".repeat(TELEGRAM_MAX_UTF16 + 10);
    let parts = ensure_telegram_limit(&long);
    assert_eq!(parts.len(), 2);
    assert_eq!(utf16_len(&parts[0]), TELEGRAM_MAX_UTF16);
    assert_eq!(parts.concat(), long);
    assert!(matches!(plan_part("hi", TelegramFormatMode::Html), PartPlan::Formatted));
    let big = "a".repeat(TELEGRAM_MAX_UTF16 + 1);
    match plan_part(&big, TelegramFormatMode::Plain) {
        PartPlan::Pieces(p) => assert_eq!(p.len(), 3),
        _ => panic!("expected pieces"),
    }
}

#[test]
fn runtime_decisions() {
    assert!(is_poll_conflict("HTTP 409 Conflict"));
    assert_eq!(poll_retry_secs("Conflict: terminated"), 10);
    assert_eq!(poll_retry_secs("timeout"), 3);
    assert!(is_pairing_command("/pair now"));
    assert!(is_pairing_command("/start"));
    assert!(!is_pairing_command("/start x"));
    assert_eq!(slash_action("clear"), Some(SlashAction::Reset));
    assert_eq!(slash_action("h"), Some(SlashAction::Help));
    assert_eq!(slash_action("stop"), Some(SlashAction::Stop));
    assert_eq!(slash_action("subagents"), None);
    assert_eq!(reset_reply(2, "s1"), "История сброшена.\nsession=s1");
    assert_eq!(reset_reply(0, "s2"), "Новая сессия.\nsession=s2");
    assert_eq!(turn_error_reply("boom"), "Error: boom");
    assert!(turn_error_reply("Validation of the message failed: x").contains("/new"));
}

#[test]
fn integer_parsing_matches_std() {
    for s in ["0", "-17", "+42", "9223372036854775807", "-9223372036854775808"] {
        assert_eq!(parse_i64(s), Ok(s.parse::<i64>().unwrap()));
    }
    assert_eq!(parse_i64(""), Err(IntError::Empty));
    assert_eq!(parse_i64("-"), Err(IntError::InvalidDigit));
    assert_eq!(parse_i64("12a"), Err(IntError::InvalidDigit));
    assert_eq!(parse_i64("9223372036854775808"), Err(IntError::PosOverflow));
    assert_eq!(parse_i64("-9223372036854775809"), Err(IntError::NegOverflow));
    assert_eq!(chat_id_of("-100123"), -100123);
    assert_eq!(chat_id_of("abc"), 0);
}

#[test]
fn delivery_texts() {
    assert_eq!(
        completion_notice(Some("lbl"), "spawn_1", "completed", "done"),
        "✅ Subagent `lbl` finished (completed)\ndone\n(id: spawn_1)"
    );
    assert_eq!(wake_reply_text(None, "spawn_2", "hi"), "[Spawn wake `spawn_2`]\n\nhi");
    assert!(matches!(delivery_chat_id(None), Err(DeliveryError::MissingPeer)));
    assert_eq!(delivery_chat_id(Some("77")).ok(), Some(77));
    assert!(matches!(
        delivery_chat_id(Some("x")),
        Err(DeliveryError::InvalidChatId { error: IntError::InvalidDigit, .. })
    ));
    assert!(should_allow_user(5, &[1, 2]));
    assert!(!should_allow_user(2, &[1, 2]));
    assert!(!should_allow_user(0, &[]));
}
