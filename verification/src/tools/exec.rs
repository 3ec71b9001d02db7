//! Shaping of the `exec` tool: labels, previews, rejected calls, the shell
//! command line.

use vstd::prelude::*;

use crate::progress::{
    AgentEvent, AgentProgress, emit, sanitize_status_chars, sanitized,
};
use crate::tools::paths::{normalize_workdir, workdir_error_message, workdir_error_message_text, workdir_result};
use crate::text::{
    i64_decimal, int_decimal,
    append_slice, append_str, ellipsize, ellipsize_chars, eq_str, from_chars, join, join_chars, lemma_views_push, lines, replace_char, replace_char_chars, slice_of, split_lines, to_chars, trim, trim_chars, views,
};

verus! {

/// Result of one `exec` tool call.
pub struct ExecToolResult {
    pub body: String,
    pub run_id: String,
    pub exit_code: i32,
}

/// One-line label: newlines become spaces; longer than `max` characters keeps
/// `max - 1` characters and an ellipsis.
pub open spec fn label(s: Seq<char>, max: nat) -> Seq<char> {
    let one = replace_char(s, '\n', ' ');
    if one.len() <= max {
        one
    } else {
        one.take(if max >= 1 { max - 1 } else { 0 }).push('…')
    }
}

pub fn truncate_label(s: &str, max: usize) -> (r: String)
    ensures
        r@ == label(s@, max as nat),
{
    let c = to_chars(s);
    let one = replace_char_chars(&c, '\n', ' ');
    if one.len() <= max {
        return from_chars(&one);
    }
    let keep = if max >= 1 {
        max - 1
    } else {
        0
    };
    let mut t = slice_of(&one, 0, keep);
    assert(t@ =~= one@.take(keep as int));
    t.push('…');
    from_chars(&t)
}

/// Non-empty trimmed lines of `ls`, in order.
pub open spec fn nonblank_trimmed(ls: Seq<Seq<char>>) -> Seq<Seq<char>>
    decreases ls.len(),
{
    if ls.len() == 0 {
        Seq::empty()
    } else {
        let prev = nonblank_trimmed(ls.drop_last());
        let t = trim(ls.last());
        if t.len() == 0 {
            prev
        } else {
            prev.push(t)
        }
    }
}

/// The preview shown when an exec call ends: up to six non-blank lines, each
/// sanitized to 120 characters, the whole capped at 280; `ok` when empty.
pub open spec fn exec_preview(summary: Seq<char>) -> Seq<char> {
    let ls = nonblank_trimmed(lines(summary));
    let first = if ls.len() <= 6 {
        ls
    } else {
        ls.take(6)
    };
    if first.len() == 0 {
        "ok"@
    } else {
        ellipsize(join(first.map_values(|l: Seq<char>| sanitized(l, 120)), "\n"@), 280)
    }
}

fn nonblank_trimmed_lines(s: &[char]) -> (r: Vec<Vec<char>>)
    ensures
        views(r@) == nonblank_trimmed(lines(s@)),
{
    let ls = split_lines(s);
    let mut out: Vec<Vec<char>> = Vec::new();
    let mut i: usize = 0;
    assert(views(ls@).take(0) =~= Seq::<Seq<char>>::empty());
    while i < ls.len()
        invariant
            i <= ls.len(),
            views(ls@) == lines(s@),
            views(out@) == nonblank_trimmed(views(ls@).take(i as int)),
        decreases ls.len() - i,
    {
        let t = trim_chars(&ls[i]);
        proof {
            assert(views(ls@).take(i + 1).drop_last() =~= views(ls@).take(i as int));
            assert(views(ls@).take(i + 1).last() == ls@[i as int]@);
        }
        if t.len() > 0 {
            proof {
                lemma_views_push(out@, t);
            }
            out.push(t);
        }
        i += 1;
    }
    assert(views(ls@).take(ls.len() as int) =~= views(ls@));
    out
}

pub fn preview_output(summary: &str) -> (r: String)
    ensures
        r@ == exec_preview(summary@),
{
    let c = to_chars(summary);
    let mut ls = nonblank_trimmed_lines(&c);
    if ls.len() > 6 {
        ls.truncate(6);
        assert(views(ls@) =~= nonblank_trimmed(lines(summary@)).take(6));
    }
    if ls.len() == 0 {
        return String::from_str("ok");
    }
    let ghost first = views(ls@);
    let mut out: Vec<Vec<char>> = Vec::new();
    let mut i: usize = 0;
    while i < ls.len()
        invariant
            i <= ls.len(),
            first == views(ls@),
            views(out@) =~= first.take(i as int).map_values(|l: Seq<char>| sanitized(l, 120)),
        decreases ls.len() - i,
    {
        let s = sanitize_status_chars(&ls[i], 120);
        proof {
            lemma_views_push(out@, s);
            assert(first[i as int] == ls@[i as int]@);
            assert(first.take(i + 1).map_values(|l: Seq<char>| sanitized(l, 120)) =~= first.take(
                i as int,
            ).map_values(|l: Seq<char>| sanitized(l, 120)).push(s@));
        }
        out.push(s);
        i += 1;
    }
    assert(first.take(ls.len() as int) =~= first);
    let nl = to_chars("\n");
    let joined = join_chars(&out, &nl);
    let r = ellipsize_chars(&joined, 280);
    from_chars(&r)
}

/// The reply to a rejected exec call.
pub open spec fn rejected_body(message: Seq<char>) -> Seq<char> {
    "exec rejected: "@ + message
}

/// Report a rejected exec call (tool end with exit 1) and build its result.
pub fn validation_error(progress: Option<&dyn AgentProgress>, message: &str) -> (r: ExecToolResult)
    ensures
        r.body@ == rejected_body(message@),
        r.run_id@ == Seq::<char>::empty(),
        r.exit_code == 1,
{
    let preview = truncate_label(message, 60);
    emit(
        progress,
        AgentEvent::ToolEnd { name: String::from_str("exec"), exit_code: 1, preview },
    );
    let mut body = to_chars("exec rejected: ");
    append_str(&mut body, message);
    ExecToolResult { body: from_chars(&body), run_id: String::new(), exit_code: 1 }
}

/// The shell line run for `command` in workspace-relative directory `wd`.
pub open spec fn exec_command_line(wd: Seq<char>, command: Seq<char>) -> Seq<char> {
    if wd == "."@ {
        command
    } else {
        "cd "@ + wd + " && "@ + command
    }
}

pub fn full_command(wd: &str, command: &str) -> (r: String)
    ensures
        r@ == exec_command_line(wd@, command@),
{
    let w = to_chars(wd);
    if eq_str(&w, ".") {
        return String::from_str(command);
    }
    let mut r = to_chars("cd ");
    append_slice(&mut r, &w);
    append_str(&mut r, " && ");
    append_str(&mut r, command);
    from_chars(&r)
}

/// The reply to an exec call that the sandbox refused.
pub fn exec_failed_body(error: &str) -> (r: String)
    ensures
        r@ == "exec failed: "@ + error@,
{
    let mut r = to_chars("exec failed: ");
    append_str(&mut r, error);
    from_chars(&r)
}

/// Above this many characters the tool body carries a head-and-tail excerpt of
/// the output; the full output stays in the run capsule.
pub const MAX_TOOL_BODY_CHARS: usize = 24_000;

/// Whether an output summary is replaced by an excerpt in the tool body.
pub fn summary_needs_excerpt(summary: &str) -> (r: bool)
    ensures
        r == (summary@.len() > MAX_TOOL_BODY_CHARS),
{
    let c = to_chars(summary);
    c.len() > MAX_TOOL_BODY_CHARS
}

/// The body of a finished exec call.
pub open spec fn tool_result_text(
    command: Seq<char>,
    workspace: Seq<char>,
    run_dir: Seq<char>,
    exit_code: i32,
    output: Seq<char>,
) -> Seq<char> {
    "command: "@ + command + "\nworkspace: "@ + workspace + "\nrun_dir: "@ + run_dir + "\nexit_code: "@
        + int_decimal(exit_code as int) + "\n\n"@ + output
}

/// Formats the body of a finished exec call. `output` is the run's summary, or
/// its head-and-tail excerpt when [`summary_needs_excerpt`] holds.
pub fn format_tool_result(command: &str, workspace: &str, run_dir: &str, exit_code: i32, output: &str) -> (r: String)
    ensures
        r@ == tool_result_text(command@, workspace@, run_dir@, exit_code, output@),
{
    let mut r = to_chars("command: ");
    append_str(&mut r, command);
    append_str(&mut r, "\nworkspace: ");
    append_str(&mut r, workspace);
    append_str(&mut r, "\nrun_dir: ");
    append_str(&mut r, run_dir);
    append_str(&mut r, "\nexit_code: ");
    let d = i64_decimal(exit_code as i64);
    append_slice(&mut r, &d);
    append_str(&mut r, "\n\n");
    append_str(&mut r, output);
    from_chars(&r)
}

/// What an exec call does.
pub enum ExecStep {
    /// The call names another tool.
    UnknownTool,
    /// The call is refused with this message.
    Rejected(String),
    /// Run `full_command`; report it with `label`.
    Run { full_command: String, label: String },
}

/// The workdir asked for: trimmed, `"."` when missing or blank.
pub open spec fn requested_workdir(workdir: Option<Seq<char>>) -> Seq<char> {
    match workdir {
        Some(w) => if trim(w).len() > 0 {
            trim(w)
        } else {
            "."@
        },
        None => "."@,
    }
}

/// Decides an exec call from the tool name and its parsed arguments
/// (`Err` holds the argument parser's message). `host_rel` is the absolute
/// workdir resolved relative to the workspace, when it lies inside it.
pub fn plan_exec(
    tool_name: &str,
    args: Result<(String, Option<String>), String>,
    host_rel: Option<&str>,
) -> (r: ExecStep)
    ensures
        tool_name@ != "exec"@ ==> r is UnknownTool,
        tool_name@ == "exec"@ ==> match args {
            Err(e) => r matches ExecStep::Rejected(m) && m@ == "invalid exec arguments: "@ + e@,
            Ok((command, workdir)) => {
                let cmd = trim(command@);
                let w = requested_workdir(
                    match workdir {
                        Some(w) => Some(w@),
                        None => None,
                    },
                );
                let hr = match host_rel {
                    Some(h) => Some(h@),
                    None => None,
                };
                if cmd.len() == 0 {
                    r matches ExecStep::Rejected(m) && m@ == "exec: command is empty"@
                } else {
                    match workdir_result(w, hr) {
                        Err(e) => r matches ExecStep::Rejected(m) && m@ == workdir_error_message_text(e, trim(w)),
                        Ok(wd) => r matches ExecStep::Run { full_command, label: l } && {
                            &&& full_command@ == exec_command_line(wd, cmd)
                            &&& l@ == label(exec_command_line(wd, cmd), 72)
                        },
                    }
                }
            },
        },
{
    let name = to_chars(tool_name);
    if !eq_str(&name, "exec") {
        return ExecStep::UnknownTool;
    }
    match args {
        Err(e) => {
            let mut m = to_chars("invalid exec arguments: ");
            append_str(&mut m, e.as_str());
            ExecStep::Rejected(from_chars(&m))
        },
        Ok((command, workdir)) => {
            let cc = to_chars(command.as_str());
            let cmd = trim_chars(&cc);
            if cmd.len() == 0 {
                return ExecStep::Rejected("exec: command is empty".to_owned());
            }
            let w: String = match &workdir {
                Some(wd) => {
                    let wc = to_chars(wd.as_str());
                    let t = trim_chars(&wc);
                    if t.len() > 0 {
                        from_chars(&t)
                    } else {
                        ".".to_owned()
                    }
                },
                None => ".".to_owned(),
            };
            match normalize_workdir(w.as_str(), host_rel) {
                Err(e) => {
                    let wc = to_chars(w.as_str());
                    let wt = trim_chars(&wc);
                    let ws = from_chars(&wt);
                    ExecStep::Rejected(workdir_error_message(e, ws.as_str()))
                },
                Ok(wd) => {
                    let cmd_s = from_chars(&cmd);
                    let full = full_command(wd.as_str(), cmd_s.as_str());
                    let l = truncate_label(full.as_str(), 72);
                    ExecStep::Run { full_command: full, label: l }
                },
            }
        },
    }
}

} // verus!
