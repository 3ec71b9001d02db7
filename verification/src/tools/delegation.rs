//! The delegation tools (`subagent`, `spawn`, `spawn_status`): which calls are
//! refused before any work, with what message, and the text of their replies.

use vstd::prelude::*;

use crate::text::{
    all_ws, append_slice, append_str, from_chars, i64_decimal, int_decimal, to_chars, trim,
    trim_chars,
};

verus! {

/// Reply of the `subagent` tool.
pub struct SubagentToolResult {
    pub body: String,
    pub exit_code: i32,
}

/// Reply of the `spawn` tool.
pub struct SpawnToolResult {
    pub body: String,
    pub exit_code: i32,
}

/// Reply of the `spawn_status` tool.
pub struct SpawnStatusToolResult {
    pub body: String,
    pub exit_code: i32,
}

/// Arguments of `subagent` and `spawn` as decoded from the call's JSON
/// (`wake` is read by `spawn` only).
pub struct DelegateArgs {
    pub task: String,
    pub label: Option<String>,
    pub context: Option<String>,
    pub preset: Option<String>,
    pub backend: Option<String>,
    pub wake: Option<bool>,
}

/// Arguments of `spawn_status` as decoded from the call's JSON.
pub struct SpawnStatusArgs {
    pub task_id: Option<String>,
    pub label: Option<String>,
}

/// What a `subagent` call leads to.
pub enum SubagentStep {
    /// Run the subagent on the trimmed task.
    Run { task: String },
    /// Answer at once (the call is refused).
    Reply(SubagentToolResult),
}

/// What a `spawn` call leads to.
pub enum SpawnStep {
    /// Start the background job on the trimmed task.
    Spawn { task: String, wake_parent: bool },
    /// Answer at once (the call is refused).
    Reply(SpawnToolResult),
}

/// How `spawn_status` looks the job up.
pub enum StatusLookup {
    /// By task id (trimmed).
    ById(String),
    /// By label (trimmed), latest match in the session.
    ByLabel(String),
}

/// What a `spawn_status` call leads to.
pub enum StatusStep {
    Lookup(StatusLookup),
    Reply(SpawnStatusToolResult),
}

/// A stored background job, as `spawn_status` reports it.
pub struct SpawnJobInfo {
    pub id: String,
    pub session_id: String,
    pub status: String,
    pub subagent_id: Option<String>,
    pub exit_code: Option<i32>,
    /// The finish time as the store renders it.
    pub finished_at: Option<String>,
    pub result_preview: Option<String>,
}

/// Whether an optional argument holds something besides whitespace.
pub open spec fn given(o: Option<String>) -> bool {
    o matches Some(s) && !all_ws(s@)
}

/// Whether `name` is one of the configured presets.
pub open spec fn preset_listed(presets: Seq<String>, name: Seq<char>) -> bool {
    exists|i: int| 0 <= i < presets.len() && presets[i]@ == name
}

fn is_given(o: &Option<String>) -> (r: bool)
    ensures
        r == given(*o),
{
    match o {
        Some(s) => {
            let t = trim_chars(&to_chars(s.as_str()));
            proof {
                crate::text::lemma_trim_empty_iff_all_ws(s@);
            }
            t.len() > 0
        },
        None => false,
    }
}

fn message(prefix: &str, detail: &str) -> (r: String)
    ensures
        r@ == prefix@ + detail@,
{
    let mut out = to_chars(prefix);
    append_str(&mut out, detail);
    from_chars(&out)
}

fn is_listed(presets: &Vec<String>, name: &str) -> (r: bool)
    ensures
        r == preset_listed(presets@, name@),
{
    let nc = to_chars(name);
    let mut i: usize = 0;
    while i < presets.len()
        invariant
            i <= presets.len(),
            nc@ == name@,
            forall|j: int| 0 <= j < i ==> presets@[j]@ != name@,
        decreases presets.len() - i,
    {
        let pc = to_chars(presets[i].as_str());
        if crate::text::chars_eq(&pc, &nc) {
            return true;
        }
        i += 1;
    }
    false
}

/// The reply of a refused `subagent` call, if it is refused: undecodable
/// arguments, a blank task, or a preset that is not configured.
pub open spec fn subagent_refusal(args: Result<DelegateArgs, String>, presets: Seq<String>) -> Option<Seq<char>> {
    match args {
        Err(e) => Some("invalid subagent arguments: "@ + e@),
        Ok(a) => if all_ws(a.task@) {
            Some("subagent: task is required and must be non-empty"@)
        } else if given(a.preset) && !preset_listed(presets, a.preset->Some_0@) {
            Some("unknown subagent preset: "@ + a.preset->Some_0@)
        } else {
            None
        },
    }
}

/// Checks a `subagent` call: refused with exit code 1 and a message, or run on
/// the trimmed task.
pub fn plan_subagent(args: &Result<DelegateArgs, String>, presets: &Vec<String>) -> (r: SubagentStep)
    ensures
        match subagent_refusal(*args, presets@) {
            Some(m) => r matches SubagentStep::Reply(res) && res.body@ == m && res.exit_code == 1,
            None => r matches SubagentStep::Run { task } && task@ == trim(args->Ok_0.task@),
        },
{
    match args {
        Err(e) => SubagentStep::Reply(SubagentToolResult {
            body: message("invalid subagent arguments: ", e.as_str()),
            exit_code: 1,
        }),
        Ok(a) => {
            let t = trim_chars(&to_chars(a.task.as_str()));
            proof {
                crate::text::lemma_trim_empty_iff_all_ws(a.task@);
            }
            if t.len() == 0 {
                return SubagentStep::Reply(SubagentToolResult {
                    body: "subagent: task is required and must be non-empty".to_owned(),
                    exit_code: 1,
                });
            }
            if is_given(&a.preset) {
                let p = a.preset.as_ref().unwrap();
                if !is_listed(presets, p.as_str()) {
                    return SubagentStep::Reply(SubagentToolResult {
                        body: message("unknown subagent preset: ", p.as_str()),
                        exit_code: 1,
                    });
                }
            }
            SubagentStep::Run { task: from_chars(&t) }
        },
    }
}

/// The text of a finished subagent run.
pub open spec fn subagent_reply_text(subagent_id: Seq<char>, exit_code: i32, body: Seq<char>) -> Seq<char> {
    "subagent_id="@ + subagent_id + "\nexit_code="@ + int_decimal(exit_code as int) + "\n\n"@ + body
}

/// The reply of a finished subagent run: its id, exit code and output.
pub fn subagent_reply(subagent_id: &str, exit_code: i32, body: &str) -> (r: SubagentToolResult)
    ensures
        r.body@ == subagent_reply_text(subagent_id@, exit_code, body@),
        r.exit_code == exit_code,
{
    let mut out = to_chars("subagent_id=");
    append_str(&mut out, subagent_id);
    append_str(&mut out, "\nexit_code=");
    let code = i64_decimal(exit_code as i64);
    append_slice(&mut out, &code);
    append_str(&mut out, "\n\n");
    append_str(&mut out, body);
    SubagentToolResult { body: from_chars(&out), exit_code }
}

/// The reply of a refused `spawn` call, if it is refused: undecodable
/// arguments, a blank task, or subagents switched off.
pub open spec fn spawn_refusal(args: Result<DelegateArgs, String>, enabled: bool) -> Option<Seq<char>> {
    match args {
        Err(e) => Some("invalid spawn arguments: "@ + e@),
        Ok(a) => if all_ws(a.task@) {
            Some("spawn: task is required"@)
        } else if !enabled {
            Some("spawn: subagents are disabled in config"@)
        } else {
            None
        },
    }
}

/// Checks a `spawn` call: refused with exit code 1 and a message, or started on
/// the trimmed task, waking the parent as asked or by the configured default.
pub fn plan_spawn(args: &Result<DelegateArgs, String>, enabled: bool, default_wake: bool) -> (r: SpawnStep)
    ensures
        match spawn_refusal(*args, enabled) {
            Some(m) => r matches SpawnStep::Reply(res) && res.body@ == m && res.exit_code == 1,
            None => r matches SpawnStep::Spawn { task, wake_parent } && task@ == trim(args->Ok_0.task@)
                && wake_parent == match args->Ok_0.wake {
                    Some(w) => w,
                    None => default_wake,
                },
        },
{
    match args {
        Err(e) => SpawnStep::Reply(SpawnToolResult {
            body: message("invalid spawn arguments: ", e.as_str()),
            exit_code: 1,
        }),
        Ok(a) => {
            let t = trim_chars(&to_chars(a.task.as_str()));
            proof {
                crate::text::lemma_trim_empty_iff_all_ws(a.task@);
            }
            if t.len() == 0 {
                return SpawnStep::Reply(SpawnToolResult {
                    body: "spawn: task is required".to_owned(),
                    exit_code: 1,
                });
            }
            if !enabled {
                return SpawnStep::Reply(SpawnToolResult {
                    body: "spawn: subagents are disabled in config".to_owned(),
                    exit_code: 1,
                });
            }
            let wake_parent = match a.wake {
                Some(w) => w,
                None => default_wake,
            };
            SpawnStep::Spawn { task: from_chars(&t), wake_parent }
        },
    }
}

/// The reply of a started background job: the manager's message, exit code 0.
pub fn spawn_started(message: String) -> (r: SpawnToolResult)
    ensures
        r.body@ == message@,
        r.exit_code == 0,
{
    SpawnToolResult { body: message, exit_code: 0 }
}

/// The reply of a refused `spawn_status` call, if it is refused: subagents
/// switched off, undecodable arguments, or neither a task id nor a label.
pub open spec fn status_refusal(enabled: bool, args: Result<SpawnStatusArgs, String>) -> Option<Seq<char>> {
    if !enabled {
        Some("spawn_status: subagents are disabled in config"@)
    } else {
        match args {
            Err(e) => Some("invalid spawn_status arguments: "@ + e@),
            Ok(a) => if !given(a.task_id) && !given(a.label) {
                Some("spawn_status: task_id or label is required"@)
            } else {
                None
            },
        }
    }
}

/// Checks a `spawn_status` call: refused with exit code 1 and a message, or a
/// lookup by the trimmed task id when one is given, else by the trimmed label.
pub fn plan_spawn_status(enabled: bool, args: &Result<SpawnStatusArgs, String>) -> (r: StatusStep)
    ensures
        match status_refusal(enabled, *args) {
            Some(m) => r matches StatusStep::Reply(res) && res.body@ == m && res.exit_code == 1,
            None => {
                let a = args->Ok_0;
                if given(a.task_id) {
                    r matches StatusStep::Lookup(StatusLookup::ById(id)) && id@ == trim(a.task_id->Some_0@)
                } else {
                    r matches StatusStep::Lookup(StatusLookup::ByLabel(l)) && l@ == trim(a.label->Some_0@)
                }
            },
        },
{
    if !enabled {
        return StatusStep::Reply(SpawnStatusToolResult {
            body: "spawn_status: subagents are disabled in config".to_owned(),
            exit_code: 1,
        });
    }
    match args {
        Err(e) => StatusStep::Reply(SpawnStatusToolResult {
            body: message("invalid spawn_status arguments: ", e.as_str()),
            exit_code: 1,
        }),
        Ok(a) => {
            if is_given(&a.task_id) {
                let id = a.task_id.as_ref().unwrap();
                let t = trim_chars(&to_chars(id.as_str()));
                return StatusStep::Lookup(StatusLookup::ById(from_chars(&t)));
            }
            if is_given(&a.label) {
                let l = a.label.as_ref().unwrap();
                let t = trim_chars(&to_chars(l.as_str()));
                return StatusStep::Lookup(StatusLookup::ByLabel(from_chars(&t)));
            }
            StatusStep::Reply(SpawnStatusToolResult {
                body: "spawn_status: task_id or label is required".to_owned(),
                exit_code: 1,
            })
        },
    }
}

/// An optional text, `-` when absent.
pub open spec fn or_dash(o: Option<Seq<char>>) -> Seq<char> {
    match o {
        Some(s) => s,
        None => "-"@,
    }
}

/// The report of a job.
pub open spec fn status_report(j: SpawnJobInfo) -> Seq<char> {
    "task_id="@ + j.id@ + "\nstatus="@ + j.status@
        + "\nsubagent_id="@ + or_dash(match j.subagent_id { Some(s) => Some(s@), None => None })
        + "\nexit_code="@ + or_dash(match j.exit_code { Some(c) => Some(int_decimal(c as int)), None => None })
        + "\nfinished_at="@ + or_dash(match j.finished_at { Some(s) => Some(s@), None => None })
        + "\npreview="@ + or_dash(match j.result_preview { Some(s) => Some(s@), None => None })
}

/// The answer to a lookup: a job found by id belongs to another session (not
/// found in this session), no job matched, or the job's report with exit code 0.
pub open spec fn status_answer(by_id: bool, job: Option<SpawnJobInfo>, session_id: Seq<char>) -> (Seq<char>, i32) {
    match job {
        None => ("spawn_status: no matching job"@, 1),
        Some(j) => if by_id && j.session_id@ != session_id {
            ("spawn_status: task not found in this session"@, 1)
        } else {
            (status_report(j), 0)
        },
    }
}

fn push_opt(out: &mut Vec<char>, o: &Option<String>)
    ensures
        final(out)@ == old(out)@ + or_dash(match *o { Some(s) => Some(s@), None => None }),
{
    match o {
        Some(s) => append_str(out, s.as_str()),
        None => append_str(out, "-"),
    }
}

/// The reply of `spawn_status` once the store was asked (`by_id` tells how).
pub fn spawn_status_reply(by_id: bool, job: &Option<SpawnJobInfo>, session_id: &str) -> (r: SpawnStatusToolResult)
    ensures
        (r.body@, r.exit_code) == status_answer(by_id, *job, session_id@),
{
    match job {
        None => SpawnStatusToolResult { body: "spawn_status: no matching job".to_owned(), exit_code: 1 },
        Some(j) => {
            let sc = to_chars(session_id);
            let jc = to_chars(j.session_id.as_str());
            if by_id && !crate::text::chars_eq(&jc, &sc) {
                return SpawnStatusToolResult {
                    body: "spawn_status: task not found in this session".to_owned(),
                    exit_code: 1,
                };
            }
            let mut out = to_chars("task_id=");
            append_str(&mut out, j.id.as_str());
            append_str(&mut out, "\nstatus=");
            append_str(&mut out, j.status.as_str());
            append_str(&mut out, "\nsubagent_id=");
            push_opt(&mut out, &j.subagent_id);
            append_str(&mut out, "\nexit_code=");
            match j.exit_code {
                Some(c) => {
                    let d = i64_decimal(c as i64);
                    append_slice(&mut out, &d);
                },
                None => append_str(&mut out, "-"),
            }
            append_str(&mut out, "\nfinished_at=");
            push_opt(&mut out, &j.finished_at);
            append_str(&mut out, "\npreview=");
            push_opt(&mut out, &j.result_preview);
            SpawnStatusToolResult { body: from_chars(&out), exit_code: 0 }
        },
    }
}

} // verus!
