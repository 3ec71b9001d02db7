use bobaclaw::tools::exec::{
    format_tool_result, full_command, plan_exec, preview_output, summary_needs_excerpt,
    truncate_label, ExecStep,
};
use bobaclaw::tools::names::{
    is_file_tool, is_memory_tool, is_spawn_status_tool, is_subagent_tool, is_web_fetch_tool,
    tool_matches_pattern,
};
use bobaclaw::tools::paths::{
    normalize_workdir, sanitize_relative_workdir, validate_memory_path, validate_relative_path,
    workdir_error_message, WorkdirError,
};
use bobaclaw::tools::run_view::filter_stream;
use bobaclaw::tools::web::{collapse_blank_lines, html_to_text, looks_like_html};

#[test]
fn sanitize_workdir_rejects_parent() {
    assert!(sanitize_relative_workdir("../etc").is_err());
}

#[test]
fn sanitize_workdir_allows_relative() {
    assert_eq!(sanitize_relative_workdir("src").unwrap(), "src");
}

#[test]
fn normalize_workdir_maps_sandbox_root() {
    assert_eq!(normalize_workdir("/workspace", None).unwrap(), ".");
    assert_eq!(normalize_workdir("/workspace/src", None).unwrap(), "src");
}

#[test]
fn normalize_workdir_host_paths() {
    assert_eq!(normalize_workdir("/home/u/ws/pkg", Some("pkg")).unwrap(), "pkg");
    assert_eq!(normalize_workdir("/home/u/ws", Some("")).unwrap(), ".");
    assert_eq!(normalize_workdir("/etc", None), Err(WorkdirError::OutsideWorkspace));
    assert_eq!(
        workdir_error_message(WorkdirError::OutsideWorkspace, "/etc"),
        "workdir must be relative to the workspace (got \"/etc\"); use \".\" for workspace root"
    );
}

#[test]
fn format_tool_result_includes_exit_code() {
    let out = format_tool_result("echo hi", "/ws", "/runs/r1", 0, "hi\n");
    assert!(out.contains("exit_code: 0"));
    assert!(out.contains("run_dir:"));
    assert_eq!(out, "command: echo hi\nworkspace: /ws\nrun_dir: /runs/r1\nexit_code: 0\n\nhi\n");
    assert!(!summary_needs_excerpt("hi"));
    assert!(summary_needs_excerpt(&"z".repeat(24_001)));
}

#[test]
fn exec_plan_decisions() {
    assert!(matches!(plan_exec("file_read", Ok(("ls".into(), None)), None), ExecStep::UnknownTool));
    match plan_exec("exec", Err("missing field `command`".into()), None) {
        ExecStep::Rejected(m) => assert_eq!(m, "invalid exec arguments: missing field `command`"),
        _ => panic!("expected rejection"),
    }
    match plan_exec("exec", Ok(("   ".into(), None)), None) {
        ExecStep::Rejected(m) => assert_eq!(m, "exec: command is empty"),
        _ => panic!("expected rejection"),
    }
    match plan_exec("exec", Ok(("ls".into(), Some("../x".into()))), None) {
        ExecStep::Rejected(m) => assert_eq!(m, "workdir cannot contain .."),
        _ => panic!("expected rejection"),
    }
    match plan_exec("exec", Ok((" cargo test ".into(), Some("/workspace/src".into()))), None) {
        ExecStep::Run { full_command, label } => {
            assert_eq!(full_command, "cd src && cargo test");
            assert_eq!(label, "cd src && cargo test");
        }
        _ => panic!("expected run"),
    }
    match plan_exec("exec", Ok(("ls".into(), Some("  ".into()))), None) {
        ExecStep::Run { full_command, .. } => assert_eq!(full_command, "ls"),
        _ => panic!("expected run"),
    }
    assert_eq!(full_command("a", "b"), "cd a && b");
    assert_eq!(truncate_label("line1\nline2", 8), "line1 l…");
    assert_eq!(preview_output("  \n"), "ok");
}

#[test]
fn validate_accepts_memory_md_and_memory_dir() {
    assert_eq!(validate_memory_path("MEMORY.md").unwrap(), "MEMORY.md");
    assert_eq!(
        validate_memory_path("memory/words.txt").unwrap(),
        "memory/words.txt"
    );
}

#[test]
fn validate_rejects_traversal() {
    assert!(validate_memory_path("../MEMORY.md").is_err());
    assert!(validate_memory_path("memory/../MEMORY.md").is_err());
    assert!(validate_memory_path("/MEMORY.md").is_err());
}

#[test]
fn is_spawn_status_tool_matches() {
    assert!(is_spawn_status_tool("spawn_status"));
    assert!(!is_spawn_status_tool("spawn"));
}

#[test]
fn is_subagent_tool_matches() {
    assert!(is_subagent_tool("subagent"));
    assert!(!is_subagent_tool("spawn"));
}

#[test]
fn tool_name_families() {
    assert!(is_file_tool("file_edit"));
    assert!(!is_file_tool("file_delete"));
    assert!(is_memory_tool("memory_search"));
    assert!(is_web_fetch_tool("web_fetch"));
    assert!(tool_matches_pattern("mcp__github__list", "mcp__github__*"));
    assert!(!tool_matches_pattern("exec2", "exec"));
}

#[test]
fn html_strips_tags() {
    let text = html_to_text("<p>Hello <b>world</b></p>");
    assert!(text.contains("Hello"));
    assert!(text.contains("world"));
    assert!(!text.contains('<'));
}

#[test]
fn html_text_exact() {
    assert_eq!(html_to_text("<p>a</p>\n\n\n<p>b</p>"), "a\n\nb");
    assert_eq!(collapse_blank_lines(" x \n\n\n y"), "x\n\ny");
    assert!(looks_like_html("<!DOCTYPE html><html>"));
    assert!(!looks_like_html("{\"a\": 1}"));
}

#[test]
fn rejects_traversal() {
    assert!(validate_relative_path("../etc/passwd").is_err());
    assert!(validate_relative_path("/etc/passwd").is_err());
}

#[test]
fn rejects_urls() {
    let err = validate_relative_path("https://www.youtube.com/watch?v=abc").unwrap_err();
    assert!(err.message().contains("web_fetch"));
}

#[test]
fn relative_path_normalizes_backslashes() {
    assert_eq!(validate_relative_path(" a\\b.txt ").unwrap(), "a/b.txt");
    assert!(validate_relative_path("   ").is_err());
}

#[test]
fn run_view_filters_lines() {
    assert_eq!(filter_stream("a1\nb2\na3", Some("a")).as_deref(), Some("a1\na3"));
    assert_eq!(filter_stream("x", None).as_deref(), Some("x"));
}
