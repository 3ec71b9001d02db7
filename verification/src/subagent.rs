//! Delegation to subagents: which backend runs a task, what a run returns, and
//! how results are shortened for previews and storage.

use vstd::prelude::*;

use crate::channel::ChannelPeer;
use crate::progress::AgentEvent;
use crate::ids::fresh_uuid;
use crate::text::{
    replace_char, replace_char_chars,
    append_slice, append_str, decimal, ellipsize, ellipsize_str, eq_str, from_chars, join,
    join_chars, slice_of, to_chars, trim, trim_chars, u64_decimal, views,
};

verus! {

/// What a subagent run hands back to its parent.
pub struct SubagentRunResult {
    pub body: String,
    pub exit_code: i32,
    pub subagent_id: String,
}

/// Where a subagent task runs.
#[derive(Debug, Clone, Copy, PartialEq, Eq, Structural)]
pub enum SubagentBackend {
    /// The built-in tool loop.
    Native,
    ClaudeCode,
    Codex,
    Cursor,
}

/// Why a subagent run did not start or did not finish.
pub enum SubagentError {
    Disabled,
    TooDeep { max_depth: usize },
    BackendDisabled(SubagentBackend),
    UnknownBackend(String),
    Interrupted,
    TimedOut { seconds: u64 },
}

/// The error text of a subagent error.
pub open spec fn subagent_error_text(e: SubagentError) -> Seq<char> {
    match e {
        SubagentError::Disabled => "subagents are disabled in config (subagents.enabled: false)"@,
        SubagentError::TooDeep { max_depth } => "nested subagents are not allowed (max_depth="@
            + decimal(max_depth as nat) + ")"@,
        SubagentError::BackendDisabled(b) => match b {
            SubagentBackend::ClaudeCode => cli_backend_name() + " subagent backend is disabled in config"@,
            SubagentBackend::Codex => "codex subagent backend is disabled in config"@,
            SubagentBackend::Cursor => "cursor subagent backend is disabled in config"@,
            SubagentBackend::Native => "native subagent backend is disabled in config"@,
        },
        SubagentError::UnknownBackend(name) => "unknown subagent backend: "@ + name@,
        SubagentError::Interrupted => "subagent interrupted"@,
        SubagentError::TimedOut { seconds } => "subagent timed out after "@ + decimal(seconds as nat)
            + "s"@,
    }
}

impl SubagentError {
    /// The error text.
    pub fn message(&self) -> (r: String)
        ensures
            r@ == subagent_error_text(*self),
    {
        let mut out: Vec<char> = Vec::new();
        match self {
            SubagentError::Disabled => append_str(
                &mut out,
                "subagents are disabled in config (subagents.enabled: false)",
            ),
            SubagentError::TooDeep { max_depth } => {
                append_str(&mut out, "nested subagents are not allowed (max_depth=");
                let d = u64_decimal(*max_depth as u64);
                append_slice(&mut out, &d);
                append_str(&mut out, ")");
            },
            SubagentError::BackendDisabled(b) => match b {
                SubagentBackend::ClaudeCode => {
                    let n = cli_name_chars();
                    append_slice(&mut out, &n);
                    append_str(&mut out, " subagent backend is disabled in config");
                },
                SubagentBackend::Codex => append_str(
                    &mut out,
                    "codex subagent backend is disabled in config",
                ),
                SubagentBackend::Cursor => append_str(
                    &mut out,
                    "cursor subagent backend is disabled in config",
                ),
                SubagentBackend::Native => append_str(
                    &mut out,
                    "native subagent backend is disabled in config",
                ),
            },
            SubagentError::UnknownBackend(name) => {
                append_str(&mut out, "unknown subagent backend: ");
                append_str(&mut out, name.as_str());
            },
            SubagentError::Interrupted => append_str(&mut out, "subagent interrupted"),
            SubagentError::TimedOut { seconds } => {
                append_str(&mut out, "subagent timed out after ");
                let d = u64_decimal(*seconds);
                append_slice(&mut out, &d);
                append_str(&mut out, "s");
            },
        }
        assert(out@ =~= subagent_error_text(*self));
        from_chars(&out)
    }
}

/// Subagents must be enabled, and the delegating turn must be shallower than the depth limit.
pub fn check_delegation(enabled: bool, delegation_depth: usize, max_depth: usize) -> (r: Result<(), SubagentError>)
    ensures
        !enabled ==> r matches Err(SubagentError::Disabled),
        enabled && delegation_depth >= max_depth ==> (r matches Err(SubagentError::TooDeep { max_depth: m }) && m == max_depth),
        enabled && delegation_depth < max_depth ==> r is Ok,
{
    if !enabled {
        return Err(SubagentError::Disabled);
    }
    if delegation_depth >= max_depth {
        return Err(SubagentError::TooDeep { max_depth });
    }
    Ok(())
}

/// The backend name asked for: the requested one trimmed, or the default when none or blank.
pub open spec fn backend_name(requested: Option<Seq<char>>, default: Seq<char>) -> Seq<char> {
    match requested {
        Some(r) => if trim(r).len() > 0 {
            trim(r)
        } else {
            default
        },
        None => default,
    }
}

/// Picks the backend name for a task.
pub fn choose_backend_name(requested: Option<&str>, default: &str) -> (r: String)
    ensures
        r@ == backend_name(
            match requested {
                Some(s) => Some(s@),
                None => None,
            },
            default@,
        ),
{
    match requested {
        Some(s) => {
            let c = to_chars(s);
            let t = trim_chars(&c);
            if t.len() > 0 {
                return from_chars(&t);
            }
            default.to_owned()
        },
        None => default.to_owned(),
    }
}

/// The hyphenated name of the [`SubagentBackend::ClaudeCode`] backend.
/// (The snake-case name with its underscore as a hyphen.)
pub open spec fn cli_backend_name() -> Seq<char> {
    replace_char("claude_code"@, '_', '-')
}

fn cli_name_chars() -> (r: Vec<char>)
    ensures
        r@ == cli_backend_name(),
{
    let n = to_chars("claude_code");
    replace_char_chars(&n, '_', '-')
}

/// The name under which configurations select the [`SubagentBackend::ClaudeCode`] backend.
pub fn cli_backend_label() -> (r: String)
    ensures
        r@ == cli_backend_name(),
{
    from_chars(&cli_name_chars())
}

fn is_cli_backend_name(c: &[char]) -> (r: bool)
    ensures
        r == (c@ == cli_backend_name()),
{
    let n = cli_name_chars();
    crate::text::chars_eq(c, &n)
}

/// The backend a name selects: `Err(Some(b))` when it names the disabled
/// backend `b`, `Err(None)` when it names no backend.
pub open spec fn backend_choice(
    name: Seq<char>,
    claude_code_enabled: bool,
    codex_enabled: bool,
    cursor_enabled: bool,
) -> Result<SubagentBackend, Option<SubagentBackend>> {
    if name == "native"@ {
        Ok(SubagentBackend::Native)
    } else if name == cli_backend_name() || name == "claude_code"@ {
        if claude_code_enabled {
            Ok(SubagentBackend::ClaudeCode)
        } else {
            Err(Some(SubagentBackend::ClaudeCode))
        }
    } else if name == "codex"@ {
        if codex_enabled {
            Ok(SubagentBackend::Codex)
        } else {
            Err(Some(SubagentBackend::Codex))
        }
    } else if name == "cursor"@ {
        if cursor_enabled {
            Ok(SubagentBackend::Cursor)
        } else {
            Err(Some(SubagentBackend::Cursor))
        }
    } else {
        Err(None)
    }
}

/// Selects the backend for a backend name.
pub fn select_backend(
    name: &str,
    claude_code_enabled: bool,
    codex_enabled: bool,
    cursor_enabled: bool,
) -> (r: Result<SubagentBackend, SubagentError>)
    ensures
        match backend_choice(name@, claude_code_enabled, codex_enabled, cursor_enabled) {
            Ok(b) => r matches Ok(b2) && b2 == b,
            Err(Some(b)) => r matches Err(SubagentError::BackendDisabled(b2)) && b2 == b,
            Err(None) => r matches Err(SubagentError::UnknownBackend(n)) && n@ == name@,
        },
{
    let c = to_chars(name);
    if eq_str(&c, "native") {
        Ok(SubagentBackend::Native)
    } else if is_cli_backend_name(&c) || eq_str(&c, "claude_code") {
        if claude_code_enabled {
            Ok(SubagentBackend::ClaudeCode)
        } else {
            Err(SubagentError::BackendDisabled(SubagentBackend::ClaudeCode))
        }
    } else if eq_str(&c, "codex") {
        if codex_enabled {
            Ok(SubagentBackend::Codex)
        } else {
            Err(SubagentError::BackendDisabled(SubagentBackend::Codex))
        }
    } else if eq_str(&c, "cursor") {
        if cursor_enabled {
            Ok(SubagentBackend::Cursor)
        } else {
            Err(SubagentError::BackendDisabled(SubagentBackend::Cursor))
        }
    } else {
        Err(SubagentError::UnknownBackend(name.to_owned()))
    }
}

/// A subagent result cut to `max` characters, with a note where the rest is.
pub open spec fn truncated_body(s: Seq<char>, max: nat) -> Seq<char> {
    if s.len() <= max {
        s
    } else {
        s.take(if max >= 80 { max - 80 } else { 0 })
            + "\n… (subagent result truncated; full output in run ledger capsule)"@
    }
}

/// Shortens a subagent result for its parent.
pub fn truncate_body(s: &str, max: usize) -> (r: String)
    ensures
        r@ == truncated_body(s@, max as nat),
{
    let c = to_chars(s);
    if c.len() <= max {
        return from_chars(&c);
    }
    let keep = if max >= 80 {
        max - 80
    } else {
        0
    };
    let mut out = slice_of(&c, 0, keep);
    append_str(&mut out, "\n… (subagent result truncated; full output in run ledger capsule)");
    assert(c@.subrange(0, keep as int) =~= c@.take(keep as int));
    from_chars(&out)
}

/// Shortens `s` to `max` characters plus `…`.
pub fn truncate_preview(s: &str, max: usize) -> (r: String)
    ensures
        r@ == ellipsize(s@, max as nat),
        r@.len() <= max + 1,
{
    ellipsize_str(s, max)
}

/// What a native run returns: an error when interrupted; otherwise the final
/// text cut to `result_max_chars`, with exit code 0 when a tool ran or the
/// text is not blank.
pub fn native_run_result(
    final_text: &str,
    executed: bool,
    interrupted: bool,
    result_max_chars: usize,
) -> (r: Result<SubagentRunResult, SubagentError>)
    ensures
        interrupted ==> r matches Err(SubagentError::Interrupted),
        !interrupted ==> (r matches Ok(res) && {
            &&& res.body@ == truncated_body(final_text@, result_max_chars as nat)
            &&& res.exit_code == (if executed || trim(final_text@).len() > 0 { 0i32 } else { 1i32 })
            &&& res.subagent_id@.len() == 0
        }),
{
    if interrupted {
        return Err(SubagentError::Interrupted);
    }
    let body = truncate_body(final_text, result_max_chars);
    let c = to_chars(final_text);
    let nonblank = trim_chars(&c).len() > 0;
    Ok(SubagentRunResult {
        body,
        exit_code: if executed || nonblank {
            0
        } else {
            1
        },
        subagent_id: String::new(),
    })
}

/// The result a parent receives from a finished run, and the event that reports it:
/// a failed run becomes a result with exit code 1 and the error as its body.
pub fn finish_run(outcome: Result<SubagentRunResult, String>, subagent_id: &str) -> (r: (SubagentRunResult, AgentEvent))
    ensures
        match outcome {
            Ok(res) => {
                &&& r.0.body == res.body
                &&& r.0.exit_code == res.exit_code
                &&& r.0.subagent_id@ == (if res.subagent_id@.len() == 0 { subagent_id@ } else { res.subagent_id@ })
                &&& r.1 matches AgentEvent::SubagentEnd { id, exit_code, preview }
                &&& id@ == subagent_id@ && exit_code == res.exit_code
                &&& preview@ == ellipsize(res.body@, 120)
            },
            Err(e) => {
                let msg = "subagent failed: "@ + e@;
                &&& r.0.body@ == msg
                &&& r.0.exit_code == 1
                &&& r.0.subagent_id@ == subagent_id@
                &&& r.1 matches AgentEvent::SubagentEnd { id, exit_code, preview }
                &&& id@ == subagent_id@ && exit_code == 1
                &&& preview@ == ellipsize(msg, 120)
            },
        },
{
    match outcome {
        Ok(res) => {
            let id = if res.subagent_id.as_str().is_empty() {
                subagent_id.to_owned()
            } else {
                res.subagent_id
            };
            let preview = truncate_preview(res.body.as_str(), 120);
            let code = res.exit_code;
            (
                SubagentRunResult { body: res.body, exit_code: code, subagent_id: id },
                AgentEvent::SubagentEnd { id: subagent_id.to_owned(), exit_code: code, preview },
            )
        },
        Err(e) => {
            let mut m: Vec<char> = Vec::new();
            append_str(&mut m, "subagent failed: ");
            append_str(&mut m, e.as_str());
            let msg = from_chars(&m);
            let preview = truncate_preview(msg.as_str(), 120);
            (
                SubagentRunResult { body: msg, exit_code: 1, subagent_id: subagent_id.to_owned() },
                AgentEvent::SubagentEnd { id: subagent_id.to_owned(), exit_code: 1, preview },
            )
        },
    }
}

/// The task message of a native subagent: the task prefix and the task, then
/// the parent's context, the preset's instructions and its skills, when present.
pub open spec fn subagent_user_parts(
    task_prefix: Seq<char>,
    task: Seq<char>,
    context: Option<Seq<char>>,
    preset_extra: Option<Seq<char>>,
    skills: Seq<(Seq<char>, Seq<char>)>,
) -> Seq<Seq<char>> {
    let first = seq![task_prefix + "\n"@ + task];
    let ctx = match context {
        Some(c) => if trim(c).len() > 0 {
            seq!["\nAdditional context from parent:\n"@ + c]
        } else {
            Seq::empty()
        },
        None => Seq::empty(),
    };
    let extra = match preset_extra {
        Some(x) => if x.len() > 0 {
            seq!["\nPreset instructions:\n"@ + x]
        } else {
            Seq::empty()
        },
        None => Seq::empty(),
    };
    first + ctx + extra + skills.map_values(
        |p: (Seq<char>, Seq<char>)| "\nSkill `"@ + p.0 + "`:\n"@ + p.1,
    )
}

/// Builds the task message of a native subagent. `skills` are the `(name, body)`
/// of the preset's skills that the registry holds, in the preset's order.
pub fn format_subagent_user_message(
    task_prefix: &str,
    task: &str,
    context: Option<&str>,
    preset_extra: Option<&str>,
    skills: &Vec<(String, String)>,
) -> (r: String)
    ensures
        r@ == join(
            subagent_user_parts(
                task_prefix@,
                task@,
                match context {
                    Some(c) => Some(c@),
                    None => None,
                },
                match preset_extra {
                    Some(x) => Some(x@),
                    None => None,
                },
                skills@.map_values(|p: (String, String)| (p.0@, p.1@)),
            ),
            "\n"@,
        ),
{
    let mut parts: Vec<Vec<char>> = Vec::new();
    let mut first: Vec<char> = to_chars(task_prefix);
    append_str(&mut first, "\n");
    append_str(&mut first, task);
    parts.push(first);
    let ghost p1 = views(parts@);
    match context {
        Some(c) => {
            let cc = to_chars(c);
            if trim_chars(&cc).len() > 0 {
                let mut part = to_chars("\nAdditional context from parent:\n");
                append_slice(&mut part, &cc);
                parts.push(part);
            }
        },
        None => {},
    }
    match preset_extra {
        Some(x) => {
            if !x.is_empty() {
                let mut part = to_chars("\nPreset instructions:\n");
                append_str(&mut part, x);
                parts.push(part);
            }
        },
        None => {},
    }
    let ghost base = views(parts@);
    let ghost sk = skills@.map_values(|p: (String, String)| (p.0@, p.1@));
    let ghost f = |p: (Seq<char>, Seq<char>)| "\nSkill `"@ + p.0 + "`:\n"@ + p.1;
    let mut i: usize = 0;
    while i < skills.len()
        invariant
            i <= skills.len(),
            sk == skills@.map_values(|p: (String, String)| (p.0@, p.1@)),
            f == (|p: (Seq<char>, Seq<char>)| "\nSkill `"@ + p.0 + "`:\n"@ + p.1),
            views(parts@) == base + sk.take(i as int).map_values(f),
        decreases skills.len() - i,
    {
        let mut part = to_chars("\nSkill `");
        append_str(&mut part, skills[i].0.as_str());
        append_str(&mut part, "`:\n");
        append_str(&mut part, skills[i].1.as_str());
        let ghost before = views(parts@);
        parts.push(part);
        proof {
            assert(views(parts@) =~= before.push(part@));
            assert(sk.take(i + 1).map_values(f) =~= sk.take(i as int).map_values(f).push(f(sk[i as int])));
        }
        i += 1;
    }
    proof {
        assert(sk.take(skills.len() as int) =~= sk);
        let want = subagent_user_parts(
            task_prefix@,
            task@,
            match context {
                Some(c) => Some(c@),
                None => None,
            },
            match preset_extra {
                Some(x) => Some(x@),
                None => None,
            },
            sk,
        );
        assert(views(parts@) =~= want);
    }
    let sep = to_chars("\n");
    let r = join_chars(&parts, &sep);
    from_chars(&r)
}

/// The reply of a spawn request.
pub open spec fn spawned_reply(label: Option<Seq<char>>, task_id: Seq<char>) -> Seq<char> {
    "Spawned background subagent `"@ + (match label {
        Some(l) => l,
        None => "unnamed"@,
    }) + "` (id: "@ + task_id
        + "). Use spawn_status to check progress; result will be delivered when complete."@
}

/// Tells the parent that a background subagent was started.
pub fn spawned_message(label: Option<&str>, task_id: &str) -> (r: String)
    ensures
        r@ == spawned_reply(
            match label {
                Some(l) => Some(l@),
                None => None,
            },
            task_id@,
        ),
{
    let mut out = to_chars("Spawned background subagent `");
    match label {
        Some(l) => append_str(&mut out, l),
        None => append_str(&mut out, "unnamed"),
    }
    append_str(&mut out, "` (id: ");
    append_str(&mut out, task_id);
    append_str(
        &mut out,
        "). Use spawn_status to check progress; result will be delivered when complete.",
    );
    from_chars(&out)
}

/// A background spawn job as the job list shows it.
pub struct SpawnTaskSummary {
    pub id: String,
    pub label: Option<String>,
    pub status: String,
    pub subagent_id: Option<String>,
    /// Finish time in whole seconds, as rendered by the store.
    pub finished: Option<String>,
    pub result_preview: Option<String>,
}

/// An optional part of a list line: `prefix + value`, or nothing.
pub open spec fn opt_part(prefix: Seq<char>, o: Option<String>) -> Seq<char> {
    match o {
        Some(v) => prefix + v@,
        None => Seq::empty(),
    }
}

/// The list line of a job.
pub open spec fn task_line(t: SpawnTaskSummary) -> Seq<char> {
    "  • "@ + t.id@ + " ["@ + match t.label {
        Some(l) => l@,
        None => "без метки"@,
    } + "] — "@ + t.status@ + opt_part(" subagent="@, t.subagent_id) + opt_part(" finished="@, t.finished)
        + opt_part("\n    "@, t.result_preview)
}

/// The lines of the job list.
pub open spec fn task_lines(ts: Seq<SpawnTaskSummary>) -> Seq<Seq<char>> {
    Seq::new(ts.len(), |i: int| task_line(ts[i]))
}

/// The user-facing list of a session's background jobs.
pub open spec fn spawn_task_list(ts: Seq<SpawnTaskSummary>) -> Seq<char> {
    if ts.len() == 0 {
        "Нет фоновых субагентов (spawn) для этой сессии."@
    } else {
        join(seq!["Фоновые субагенты (spawn):"@] + task_lines(ts), "\n"@)
    }
}

fn push_opt_part(out: &mut Vec<char>, prefix: &str, o: &Option<String>)
    ensures
        final(out)@ == old(out)@ + opt_part(prefix@, *o),
{
    match o {
        Some(v) => {
            append_str(out, prefix);
            append_str(out, v.as_str());
        },
        None => {
            assert(old(out)@ + Seq::<char>::empty() =~= old(out)@);
        },
    }
}

/// Lists background spawn jobs (newest first, as given), one line each, with
/// the result preview below a finished one.
pub fn format_spawn_task_list(tasks: &[SpawnTaskSummary]) -> (r: String)
    ensures
        r@ == spawn_task_list(tasks@),
{
    if tasks.len() == 0 {
        return "Нет фоновых субагентов (spawn) для этой сессии.".to_owned();
    }
    let mut lines: Vec<Vec<char>> = Vec::new();
    lines.push(to_chars("Фоновые субагенты (spawn):"));
    let mut i: usize = 0;
    while i < tasks.len()
        invariant
            i <= tasks.len(),
            views(lines@) == seq!["Фоновые субагенты (spawn):"@] + task_lines(tasks@.take(i as int)),
        decreases tasks.len() - i,
    {
        let t = &tasks[i];
        let mut line = to_chars("  • ");
        append_str(&mut line, t.id.as_str());
        append_str(&mut line, " [");
        match &t.label {
            Some(l) => append_str(&mut line, l.as_str()),
            None => append_str(&mut line, "без метки"),
        }
        append_str(&mut line, "] — ");
        append_str(&mut line, t.status.as_str());
        push_opt_part(&mut line, " subagent=", &t.subagent_id);
        push_opt_part(&mut line, " finished=", &t.finished);
        push_opt_part(&mut line, "\n    ", &t.result_preview);
        let ghost before = lines@;
        lines.push(line);
        assert(views(lines@) =~= seq!["Фоновые субагенты (spawn):"@] + task_lines(tasks@.take(i + 1))) by {
            assert(views(lines@) =~= views(before).push(line@));
            assert(task_lines(tasks@.take(i + 1)) =~= task_lines(tasks@.take(i as int)).push(task_line(tasks@[i as int])));
        }
        i += 1;
    }
    assert(tasks@.take(tasks.len() as int) =~= tasks@);
    let sep = to_chars("\n");
    from_chars(&join_chars(&lines, &sep))
}

/// A fresh subagent run id: `subagent_` and a random UUID.
pub fn new_subagent_id() -> (r: String)
    ensures
        r@.len() == 45,
        r@.take(9) == "subagent_"@,
{
    let u = fresh_uuid();
    let mut out = to_chars("subagent_");
    append_str(&mut out, u.as_str());
    proof {
        reveal_strlit("subagent_");
        assert(out@.take(9) =~= "subagent_"@);
    }
    from_chars(&out)
}

/// A fresh id for a persisted child session: `subagent_sess_` and a random UUID.
pub fn new_child_session_id() -> (r: String)
    ensures
        r@.len() == 50,
        r@.take(14) == "subagent_sess_"@,
{
    let u = fresh_uuid();
    let mut out = to_chars("subagent_sess_");
    append_str(&mut out, u.as_str());
    proof {
        reveal_strlit("subagent_sess_");
        assert(out@.take(14) =~= "subagent_sess_"@);
    }
    from_chars(&out)
}

/// How long a native child run may take: at least 30 seconds.
pub fn child_timeout_secs(configured: u64) -> (r: u64)
    ensures
        r == (if configured < 30 { 30 } else { configured }),
{
    if configured < 30 {
        30
    } else {
        configured
    }
}

/// The chat a spawn's result is delivered to: the request's peer and thread,
/// when the request has a chat.
pub fn spawn_delivery_peer(peer: &Option<ChannelPeer>) -> (r: (Option<String>, Option<String>))
    ensures
        match *peer {
            Some(p) => (r.0 matches Some(a) && a@ == p.peer@) && match (r.1, p.thread_id) {
                (Some(a), Some(b)) => a@ == b@,
                (None, None) => true,
                _ => false,
            },
            None => r.0 is None && r.1 is None,
        },
{
    match peer {
        Some(p) => (Some(p.peer.clone()), match &p.thread_id {
            Some(t) => Some(t.clone()),
            None => None,
        }),
        None => (None, None),
    }
}

} // verus!
