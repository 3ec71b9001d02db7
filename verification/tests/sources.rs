use bobaclaw::conversation::{FunctionCall, ToolCall};
use bobaclaw::sources::{
    append_sources_if_missing, collect_turn_sources, dedupe_sources, TurnSource,
};
use bobaclaw::tools::names::{MEMORY_READ, WEB_FETCH};

fn tool_call(name: &str, args: &str) -> ToolCall {
    ToolCall {
        id: "call_1".to_string(),
        kind: "function".to_string(),
        function: FunctionCall { name: name.to_string(), arguments: args.to_string() },
    }
}

#[test]
fn collects_web_fetch_url() {
    let call = tool_call(WEB_FETCH, r#"{"url":"https://example.com/doc"}"#);
    let sources = collect_turn_sources(&call, "url: https://example.com/doc\n\nbody", 0);
    assert!(sources
        .iter()
        .any(|s| matches!(s, TurnSource::Url(u) if u.contains("example.com"))));
}

#[test]
fn collects_browser_navigate_url() {
    let call = tool_call(
        "mcp_obscura_browser_navigate",
        r#"{"url":"https://news.ycombinator.com"}"#,
    );
    let sources = collect_turn_sources(&call, "ok", 0);
    assert_eq!(sources.len(), 1);
}

#[test]
fn collects_memory_read_path() {
    let call = tool_call(MEMORY_READ, r#"{"path":"MEMORY.md"}"#);
    let sources = collect_turn_sources(&call, "fact", 0);
    assert!(matches!(&sources[0], TurnSource::WorkspacePath(p) if p == "MEMORY.md"));
}

#[test]
fn append_sources_when_missing() {
    let sources = vec![TurnSource::Url("https://example.com".into())];
    let out = append_sources_if_missing("Answer text.", &sources);
    assert!(out.contains("## Sources"));
    assert!(out.contains("[example.com](https://example.com)"));
}

#[test]
fn skip_append_when_model_cited() {
    let sources = vec![TurnSource::Url("https://example.com".into())];
    let text = "Done.\n\n## Sources\n\n- [example.com](https://example.com)";
    assert_eq!(append_sources_if_missing(text, &sources), text);
}

#[test]
fn skips_failed_tool_calls() {
    let call = tool_call(WEB_FETCH, r#"{"url":"https://example.com"}"#);
    assert!(collect_turn_sources(&call, "error", 1).is_empty());
}

#[test]
fn fetch_url_in_args_and_body_is_listed_once() {
    let call = tool_call(WEB_FETCH, r#"{"url":"https://example.com/doc"}"#);
    let sources = collect_turn_sources(&call, "url: https://example.com/doc\n\nbody", 0);
    assert_eq!(sources, vec![TurnSource::Url("https://example.com/doc".into())]);
}

#[test]
fn non_http_url_argument_is_ignored() {
    let call = tool_call(WEB_FETCH, r#"{"url":"ftp://example.com/file"}"#);
    assert!(collect_turn_sources(&call, "ok", 0).is_empty());
}

#[test]
fn unrelated_tool_has_no_sources() {
    let call = tool_call("exec", r#"{"command":"ls"}"#);
    assert!(collect_turn_sources(&call, "url: https://example.com", 0).is_empty());
}

#[test]
fn memory_search_result_paths_are_collected() {
    let call = tool_call("memory_search", r#"{"query":"tea"}"#);
    let body = "## Memory files\n- MEMORY.md: user likes tea\n- memory/notes.txt: green tea\n## Sessions\n- old.md: not a file hit";
    let sources = collect_turn_sources(&call, body, 0);
    assert_eq!(
        sources,
        vec![
            TurnSource::WorkspacePath("MEMORY.md".into()),
            TurnSource::WorkspacePath("memory/notes.txt".into()),
        ]
    );
}

#[test]
fn footer_lists_only_uncited_sources() {
    let sources = vec![
        TurnSource::Url("https://example.com".into()),
        TurnSource::WorkspacePath("MEMORY.md".into()),
    ];
    let out = append_sources_if_missing("See https://example.com for details.  ", &sources);
    assert_eq!(
        out,
        "See https://example.com for details.\n\n## Sources\n\n- [MEMORY.md](MEMORY.md)"
    );
}

#[test]
fn no_sources_leaves_text_unchanged() {
    assert_eq!(append_sources_if_missing("Answer.", &[]), "Answer.");
}

#[test]
fn all_cited_leaves_text_unchanged() {
    let sources = vec![TurnSource::WorkspacePath("MEMORY.md".into())];
    assert_eq!(append_sources_if_missing("From MEMORY.md.", &sources), "From MEMORY.md.");
}

#[test]
fn dedupe_keeps_first_occurrences() {
    let sources = vec![
        TurnSource::Url("https://a.example".into()),
        TurnSource::WorkspacePath("MEMORY.md".into()),
        TurnSource::Url("https://a.example".into()),
    ];
    assert_eq!(
        dedupe_sources(&sources),
        vec![
            TurnSource::Url("https://a.example".into()),
            TurnSource::WorkspacePath("MEMORY.md".into()),
        ]
    );
}
