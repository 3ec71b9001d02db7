use bobaclaw::progress::AgentEvent;
use bobaclaw::response::AgentResponse;
use bobaclaw::web::api::{is_web_session, listen_address, turn_final_event};
use bobaclaw::web::api::{
    csp_for_nonce, history_for_display, html_escape, validate_message_text, MessageRefusal,
    MAX_MESSAGE_BYTES,
};
use bobaclaw::web::auth::{bearer_token, check_bind_policy, constant_time_eq, WebAuth};
use bobaclaw::web::events::{WebEvent, PREVIEW_MAX_CHARS};

#[test]
fn constant_time_eq_basics() {
    assert!(constant_time_eq(b"abc", b"abc"));
    assert!(!constant_time_eq(b"abc", b"abd"));
    assert!(!constant_time_eq(b"abc", b"abcd"));
    assert!(constant_time_eq(b"", b""));
}

#[test]
fn token_required_when_configured() {
    let auth = WebAuth::new(Some("s3cret".into()));
    assert!(!auth.authorize(None));
    assert!(!auth.authorize(Some("Bearer wrong")));
    assert!(!auth.authorize(Some("Basic s3cret")));
    assert!(!auth.authorize(Some("Bearer")));
    assert!(auth.authorize(Some("Bearer s3cret")));
    assert!(auth.authorize(Some("bearer  s3cret ")));
}

#[test]
fn open_when_no_token() {
    let auth = WebAuth::new(None);
    assert!(auth.authorize(None));
    let empty = WebAuth::new(Some(String::new()));
    assert!(!empty.token_configured());
}

#[test]
fn bind_policy() {
    let none = WebAuth::new(None);
    let tok = WebAuth::new(Some("t".into()));
    assert!(check_bind_policy("127.0.0.1", true, &none).is_ok());
    assert!(check_bind_policy("::1", true, &none).is_ok());
    assert!(check_bind_policy("0.0.0.0", false, &none).is_err());
    assert!(check_bind_policy("192.168.0.2", false, &none).is_err());
    assert!(check_bind_policy("0.0.0.0", false, &tok).is_ok());
    match check_bind_policy("0.0.0.0:8080", false, &none) {
        Err(e) => assert!(e.message().contains("non-loopback bind 0.0.0.0:8080 without a token")),
        Ok(()) => panic!("expected refusal"),
    }
}

#[test]
fn bearer_parsing() {
    assert_eq!(bearer_token("  BEARER   abc  ").as_deref(), Some("abc"));
    assert_eq!(bearer_token("Bearer").as_deref(), None);
    assert_eq!(bearer_token("Bearer   ").as_deref(), None);
    assert_eq!(bearer_token("Token abc").as_deref(), None);
}

#[test]
fn maps_agent_events_and_sanitizes() {
    let e = WebEvent::from_agent(AgentEvent::AssistantChunk {
        text: "Answer\n\n<!-- tool-results -->\n[exec exit=0]\nsecret".into(),
    });
    assert!(matches!(e, WebEvent::AssistantChunk { ref text } if text == "Answer"));
    let e = WebEvent::from_agent(AgentEvent::ToolEnd {
        name: "exec".into(),
        exit_code: 0,
        preview: "x".repeat(PREVIEW_MAX_CHARS + 10),
    });
    let WebEvent::ToolEnd { preview, .. } = e else {
        panic!("expected tool_end");
    };
    assert_eq!(preview.chars().count(), PREVIEW_MAX_CHARS + 1);
    assert!(matches!(
        WebEvent::from_agent(AgentEvent::LlmThinking { iteration: 2 }),
        WebEvent::Thinking { iteration: 2 }
    ));
}

#[test]
fn event_names_match_type_tag() {
    let all = [
        (WebEvent::Start { session_id: "s".into() }, "start"),
        (WebEvent::Thinking { iteration: 1 }, "thinking"),
        (WebEvent::ToolStart { name: "n".into(), label: "l".into() }, "tool_start"),
        (WebEvent::Compacting { tokens: 3 }, "compacting"),
        (WebEvent::AssistantChunk { text: "t".into() }, "assistant_chunk"),
        (WebEvent::Retry { attempt: 1, max_attempts: 2 }, "retry"),
        (WebEvent::SubagentStart { id: "i".into(), label: "l".into() }, "subagent_start"),
        (WebEvent::SubagentEnd { id: "i".into(), exit_code: 0, preview: String::new() }, "subagent_end"),
        (WebEvent::Error { message: "m".into() }, "error"),
        (WebEvent::Interrupted, "interrupted"),
    ];
    for (e, name) in all {
        assert_eq!(e.name(), name);
    }
    let done = WebEvent::done("hi\n\n<!-- tool-results -->\nx", "sess_1".into(), None, false);
    assert_eq!(done.name(), "done");
    assert!(matches!(done, WebEvent::Done { ref reply, .. } if reply == "hi"));
}

fn row(id: i64, role: &str, content: &str) -> (i64, String, String) {
    (id, role.into(), content.into())
}

#[test]
fn history_hides_tool_results_and_marks_compaction() {
    let out = history_for_display(&[
        row(1, "user", "hi"),
        row(2, "assistant", "Hello!\n\n<!-- tool-results -->\n[exec exit=0]\nuid=0"),
        row(3, "compaction", "summary of earlier"),
        row(4, "system", "internal"),
        row(5, "assistant", "<!-- tool-results -->\n[exec exit=0]"),
    ]);
    assert_eq!(out.len(), 3);
    assert_eq!(out[0].role, "user");
    assert_eq!(out[1].role, "assistant");
    assert_eq!(out[1].text, "Hello!");
    assert_eq!(out[2].role, "summary");
    assert_eq!(out[2].id, 3);
}

#[test]
fn escapes_html() {
    assert_eq!(
        html_escape(r#"<a href="x">&'"#),
        "&lt;a href=&quot;x&quot;&gt;&amp;&#39;"
    );
}

#[test]
fn message_validation_and_csp() {
    assert_eq!(validate_message_text("  hi  "), Ok("hi".to_string()));
    assert_eq!(validate_message_text(" \n "), Err(MessageRefusal::Empty));
    assert_eq!(validate_message_text(&"é".repeat(MAX_MESSAGE_BYTES / 2)).map(|s| s.len()), Ok(MAX_MESSAGE_BYTES));
    assert_eq!(
        validate_message_text(&"é".repeat(MAX_MESSAGE_BYTES / 2 + 1)),
        Err(MessageRefusal::TooLarge)
    );
    assert_eq!(MessageRefusal::TooLarge.status(), 413);
    assert_eq!(MessageRefusal::Empty.message(), "empty message");
    assert_eq!(
        csp_for_nonce("N"),
        "default-src 'none'; script-src 'nonce-N'; style-src 'nonce-N'; connect-src 'self'; img-src 'self' data:; base-uri 'none'; form-action 'none'; frame-ancestors 'none'"
    );
}

#[test]
fn ui_page_fills_title_and_nonce() {
    let page = bobaclaw::web::api::render_ui_index(
        "<title>__BOBACLAW_TITLE__</title><script nonce=\"__CSP_NONCE__\"></script><style nonce=\"__CSP_NONCE__\">",
        "Boba <UI>",
        "abc",
    );
    assert_eq!(
        page,
        "<title>Boba &lt;UI&gt;</title><script nonce=\"abc\"></script><style nonce=\"abc\">"
    );
    assert_eq!(bobaclaw::web::api::fresh_nonce().len(), 32);
}

#[test]
fn web_sessions_and_listen_address() {
    assert!(is_web_session("web", "home", "home"));
    assert!(!is_web_session("cli", "home", "home"));
    assert!(!is_web_session("web", "work", "home"));
    assert_eq!(listen_address("127.0.0.1", 8080), "127.0.0.1:8080");
    assert_eq!(listen_address("::1", 8080), "[::1]:8080");
    assert_eq!(listen_address("[::1]", 80), "[::1]:80");
}

#[test]
fn final_frame_of_a_turn() {
    let resp = AgentResponse {
        text: "Here <b>you</b> go\n\n<!-- tool-results -->\n[exec exit=0]".into(),
        session_id: "sess_1".into(),
        run_id: Some("run_1".into()),
        executed: true,
        interrupted: false,
        auto_saved_skill: None,
        auto_saved_memory: None,
    };
    match turn_final_event(Ok(resp)) {
        WebEvent::Done { reply, session_id, run_id, interrupted } => {
            assert_eq!(reply, "Here <b>you</b> go");
            assert_eq!(session_id, "sess_1");
            assert_eq!(run_id.as_deref(), Some("run_1"));
            assert!(!interrupted);
        }
        _ => panic!("expected done"),
    }
    assert!(matches!(turn_final_event(Err("provider unreachable".into())), WebEvent::Error { message } if message == "provider unreachable"));
}
