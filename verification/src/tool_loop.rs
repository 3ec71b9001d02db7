//! The decisions of the tool loop: when to call the model again, which tool
//! calls to run, when to nudge the model, and the reply the loop ends with.
//!
//! The loop itself (model calls, tool execution, cancellation checks) is run
//! by the caller; [`ToolLoop`] tells it what to do next after each event.

use vstd::prelude::*;

use crate::text::{
    append_slice, append_str, contains, contains_str, decimal, eq_str, from_chars, to_chars, trim,
    trim_chars, u64_decimal,
};
use crate::tools::names::{MEMORY_MANAGE, SKILL_MANAGE};
use crate::turn::ToolPersistEntry;
use crate::turn_context::TurnMode;

verus! {

/// Sent when the user's request needs tool output but the model answered without tools.
pub const ACTION_REQUIRED_NUDGE: &'static str = "The user's request requires real tool output. You replied without calling exec, schedule, or a configured MCP tool. Call the appropriate tool now, then answer using only that output.";

/// Sent when the model ended without user-visible text after using tools.
pub const SUMMARY_RESPONSE_NUDGE: &'static str = "Reply to the user in plain language. Summarize what you accomplished using tool output already in this conversation. Include concrete results, errors, and next steps. Call a tool only if something is still missing.";

/// The reply when the model ended without text and without hitting the step limit.
pub const NO_TEXT_REPLY: &'static str = "(model finished without a text response)";

/// Result of a tool loop.
pub struct ToolLoopOutcome {
    pub final_text: String,
    pub executed: bool,
    pub tool_call_count: usize,
    pub skill_manage_used: bool,
    pub memory_manage_used: bool,
    pub last_run_id: Option<String>,
    pub tool_persist: Vec<ToolPersistEntry>,
    pub hit_iteration_limit: bool,
    pub interrupted: bool,
}

/// Which user message the loop pushes to steer the model.
#[derive(Debug, Clone, Copy, PartialEq, Eq, Structural)]
pub enum Nudge {
    /// [`ACTION_REQUIRED_NUDGE`].
    ActionRequired,
    /// [`SUMMARY_RESPONSE_NUDGE`].
    Summary,
}

impl Nudge {
    /// The message text of the nudge.
    pub fn text(&self) -> (r: &'static str)
        ensures
            r@ == match self {
                Nudge::ActionRequired => ACTION_REQUIRED_NUDGE@,
                Nudge::Summary => SUMMARY_RESPONSE_NUDGE@,
            },
    {
        match self {
            Nudge::ActionRequired => ACTION_REQUIRED_NUDGE,
            Nudge::Summary => SUMMARY_RESPONSE_NUDGE,
        }
    }
}

/// What the caller does next.
pub enum LoopAction {
    /// Ask the model. For an empty-response retry (`retry` is `Some((attempt, nudge))`)
    /// the caller first reports the attempt and pushes the nudge as a user message.
    CallModel { iteration: u32, offer_tools: bool, retry: Option<(u32, Nudge)> },
    /// Run the tool call with this index in the model's last reply.
    RunTool { index: usize },
    /// The loop is over.
    Finish(ToolLoopOutcome),
}

/// What to do with a model reply.
pub struct ReplyStep {
    /// Forward the reply text to the channel as an assistant chunk.
    pub emit_chunk: bool,
    /// Push this nudge as a user message right after the reply.
    pub nudge: Option<Nudge>,
    /// The next action.
    pub action: LoopAction,
}

/// Where the loop stands.
#[derive(Debug, Clone, Copy, PartialEq, Eq, Structural)]
pub enum LoopPhase {
    /// Not started.
    Idle,
    /// Waiting for the model's reply in a regular iteration.
    AwaitingReply,
    /// Running the tool calls of the last reply.
    RunningTools,
    /// Every tool call of the last reply has been recorded.
    ToolsFinished,
    /// Waiting for the model's reply to an empty-response retry.
    AwaitingRetry,
    /// Finished.
    Done,
}

/// Parent turn offered tools but the model may reply without calling them.
pub fn parent_turn_offered_tools(mode: TurnMode, tool_count: usize) -> (r: bool)
    ensures
        r == (mode == TurnMode::Parent && tool_count > 0),
{
    match mode {
        TurnMode::Parent => tool_count > 0,
        TurnMode::Child => false,
    }
}

/// The reply the loop ends with.
pub open spec fn closing_text(final_text: Seq<char>, hit_limit: bool, mode: TurnMode, max_iterations: nat) -> Seq<char> {
    if trim(final_text).len() == 0 {
        if hit_limit {
            "Reached the tool step limit ("@ + decimal(max_iterations)
                + ") before producing a final reply. Ask to continue or narrow the task."@
        } else {
            NO_TEXT_REPLY@
        }
    } else if hit_limit && mode == TurnMode::Parent && !contains(final_text, "tool step limit"@) {
        final_text + "\n\n(Reached the "@ + decimal(max_iterations)
            + "-step tool limit; partial progress may be in tool output above.)"@
    } else {
        final_text
    }
}

/// Builds the reply the loop ends with.
pub fn closing_reply(final_text: &str, hit_limit: bool, mode: TurnMode, max_iterations: usize) -> (r: String)
    ensures
        r@ == closing_text(final_text@, hit_limit, mode, max_iterations as nat),
        trim(r@).len() > 0,
{
    let t = to_chars(final_text);
    let trimmed = trim_chars(&t);
    let n = u64_decimal(max_iterations as u64);
    let mut out: Vec<char> = Vec::new();
    if trimmed.len() == 0 {
        if hit_limit {
            append_str(&mut out, "Reached the tool step limit (");
            append_slice(&mut out, &n);
            append_str(
                &mut out,
                ") before producing a final reply. Ask to continue or narrow the task.",
            );
            proof {
                reveal_strlit("Reached the tool step limit (");
                assert(out@[0] == 'R');
                lemma_nonblank_start(out@);
            }
        } else {
            append_str(&mut out, NO_TEXT_REPLY);
            proof {
                reveal_strlit("(model finished without a text response)");
                assert(out@[0] == '(');
                lemma_nonblank_start(out@);
            }
        }
    } else {
        append_slice(&mut out, &t);
        let is_parent = match mode {
            TurnMode::Parent => true,
            TurnMode::Child => false,
        };
        if hit_limit && is_parent && !contains_str(&t, "tool step limit") {
            append_str(&mut out, "\n\n(Reached the ");
            append_slice(&mut out, &n);
            append_str(&mut out, "-step tool limit; partial progress may be in tool output above.)");
            proof {
                assert(out@.take(t@.len() as int) =~= t@);
                lemma_nonblank_extend(t@, out@);
            }
        }
    }
    assert(out@ =~= closing_text(final_text@, hit_limit, mode, max_iterations as nat));
    from_chars(&out)
}

/// A text whose first character is not whitespace is not blank.
proof fn lemma_nonblank_start(s: Seq<char>)
    requires
        s.len() > 0,
        !crate::text::is_ws(s[0]),
    ensures
        trim(s).len() > 0,
{
    crate::text::lemma_trim_empty_iff_all_ws(s);
}

/// Appending to a non-blank text keeps it non-blank.
proof fn lemma_nonblank_extend(a: Seq<char>, s: Seq<char>)
    requires
        trim(a).len() > 0,
        a.len() <= s.len(),
        s.take(a.len() as int) == a,
    ensures
        trim(s).len() > 0,
{
    crate::text::lemma_trim_empty_iff_all_ws(a);
    crate::text::lemma_trim_empty_iff_all_ws(s);
    if crate::text::all_ws(s) {
        assert forall|i: int| 0 <= i < a.len() implies crate::text::is_ws(#[trigger] a[i]) by {
            assert(a[i] == s[i]);
        }
    }
}

/// Truncate `s` to at most `max_chars` characters for session storage.
pub open spec fn truncated_for_persist(s: Seq<char>, max_chars: nat) -> Seq<char> {
    if s.len() <= max_chars {
        s
    } else {
        s.take(if max_chars >= 40 { max_chars - 40 } else { 0 }) + "\n… (truncated for session storage)"@
    }
}

/// Caps a tool body before it is stored with the session.
pub fn truncate_for_persist(s: &str, max_chars: usize) -> (r: String)
    ensures
        r@ == truncated_for_persist(s@, max_chars as nat),
{
    let c = to_chars(s);
    if c.len() <= max_chars {
        return from_chars(&c);
    }
    let keep = if max_chars >= 40 {
        max_chars - 40
    } else {
        0
    };
    let mut out = crate::text::slice_of(&c, 0, keep);
    append_str(&mut out, "\n… (truncated for session storage)");
    assert(c@.subrange(0, keep as int) =~= c@.take(keep as int));
    from_chars(&out)
}

/// The tool-loop state machine.
pub struct ToolLoop {
    pub mode: TurnMode,
    pub requires_action: bool,
    pub max_iterations: usize,
    pub max_action_retries: usize,
    pub max_empty_retries: u32,
    pub phase: LoopPhase,
    /// Number of the current (or last) regular iteration, from 1.
    pub iteration: usize,
    /// Empty-response retries made so far.
    pub empty_attempt: u32,
    pub action_retries: usize,
    pub final_text: String,
    pub executed: bool,
    pub tool_call_count: usize,
    pub skill_manage_used: bool,
    pub memory_manage_used: bool,
    pub last_run_id: Option<String>,
    pub tool_persist: Vec<ToolPersistEntry>,
    pub hit_iteration_limit: bool,
    /// Names of the tool calls of the last reply.
    pub pending: Vec<String>,
    /// Index of the tool call being run.
    pub next_tool: usize,
}

/// Whether the reply needs an action-required retry.
pub open spec fn will_action_retry(lp: ToolLoop, tool_calls: nat) -> bool {
    lp.requires_action && tool_calls == 0 && !lp.executed && lp.action_retries < lp.max_action_retries
}

/// The nudge of an empty-response retry.
pub open spec fn retry_nudge(lp: ToolLoop) -> Nudge {
    if lp.requires_action && !lp.executed {
        Nudge::ActionRequired
    } else {
        Nudge::Summary
    }
}

impl ToolLoop {
    /// Consistency of the counters with the phase.
    pub open spec fn wf(&self) -> bool {
        &&& self.iteration <= self.max_iterations
        &&& self.max_iterations + self.max_empty_retries <= u32::MAX
        &&& self.empty_attempt <= self.max_empty_retries
        &&& self.phase == LoopPhase::RunningTools ==> {
            &&& self.next_tool < self.pending.len()
            &&& self.tool_call_count == self.tool_persist.len() + 1
            &&& self.iteration >= 1
        }
        &&& self.phase != LoopPhase::RunningTools && self.phase != LoopPhase::Done ==> self.tool_call_count
            == self.tool_persist.len()
        &&& self.phase == LoopPhase::AwaitingReply ==> self.iteration >= 1
        &&& self.phase == LoopPhase::ToolsFinished ==> self.iteration >= 1
        &&& self.phase == LoopPhase::AwaitingRetry ==> self.mode == TurnMode::Parent && self.empty_attempt >= 1
    }

    /// A loop that has not started.
    pub fn new(
        mode: TurnMode,
        requires_action: bool,
        max_iterations: usize,
        max_action_retries: usize,
        max_empty_retries: u32,
    ) -> (r: Self)
        requires
            max_iterations + max_empty_retries <= u32::MAX,
        ensures
            r.wf(),
            r.phase == LoopPhase::Idle,
            r.mode == mode,
            r.requires_action == requires_action,
            r.max_iterations == max_iterations,
            r.max_action_retries == max_action_retries,
            r.max_empty_retries == max_empty_retries,
            r.iteration == 0,
            r.empty_attempt == 0,
            r.action_retries == 0,
            r.final_text@.len() == 0,
            !r.executed,
            r.tool_call_count == 0,
            !r.skill_manage_used,
            !r.memory_manage_used,
            r.last_run_id is None,
            r.tool_persist@.len() == 0,
            !r.hit_iteration_limit,
    {
        ToolLoop {
            mode,
            requires_action,
            max_iterations,
            max_action_retries,
            max_empty_retries,
            phase: LoopPhase::Idle,
            iteration: 0,
            empty_attempt: 0,
            action_retries: 0,
            final_text: String::new(),
            executed: false,
            tool_call_count: 0,
            skill_manage_used: false,
            memory_manage_used: false,
            last_run_id: None,
            tool_persist: Vec::new(),
            hit_iteration_limit: false,
            pending: Vec::new(),
            next_tool: 0,
        }
    }

    /// The outcome of a loop stopped by cancellation: everything done so far, marked interrupted.
    pub fn interrupted(self) -> (r: ToolLoopOutcome)
        ensures
            r.final_text == self.final_text,
            r.executed == self.executed,
            r.tool_call_count == self.tool_call_count,
            r.skill_manage_used == self.skill_manage_used,
            r.memory_manage_used == self.memory_manage_used,
            r.last_run_id == self.last_run_id,
            r.tool_persist == self.tool_persist,
            !r.hit_iteration_limit,
            r.interrupted,
    {
        ToolLoopOutcome {
            final_text: self.final_text,
            executed: self.executed,
            tool_call_count: self.tool_call_count,
            skill_manage_used: self.skill_manage_used,
            memory_manage_used: self.memory_manage_used,
            last_run_id: self.last_run_id,
            tool_persist: self.tool_persist,
            hit_iteration_limit: false,
            interrupted: true,
        }
    }

    /// Begins the loop.
    pub fn start(&mut self, messages_have_tool_result: bool) -> (r: LoopAction)
        requires
            old(self).wf(),
            old(self).phase == LoopPhase::Idle,
        ensures
            final(self).wf(),
            old(self).max_iterations > 0 ==> {
                &&& r matches LoopAction::CallModel { iteration, offer_tools, retry }
                &&& iteration == 1 && offer_tools && retry is None
                &&& final(self).phase == LoopPhase::AwaitingReply
                &&& final(self).iteration == 1
            },
            old(self).max_iterations == 0 ==> old(self).after_iterations_spec(
                *final(self),
                r,
                messages_have_tool_result,
            ),
            r matches LoopAction::Finish(o) ==> Self::finished_well(o),
    {
        if self.max_iterations > 0 {
            self.iteration = 1;
            self.phase = LoopPhase::AwaitingReply;
            LoopAction::CallModel { iteration: 1, offer_tools: true, retry: None }
        } else {
            self.after_iterations(messages_have_tool_result)
        }
    }

    /// A completed outcome: non-blank reply and one stored entry per tool call.
    pub open spec fn finished_well(o: ToolLoopOutcome) -> bool {
        &&& trim(o.final_text@).len() > 0
        &&& o.tool_call_count == o.tool_persist@.len()
        &&& !o.interrupted
    }

    /// What happens once the regular iterations are over: the iteration limit is
    /// noted, then a parent turn retries for an empty reply, or the loop finishes.
    pub open spec fn after_iterations_spec(self, post: ToolLoop, r: LoopAction, have_tool: bool) -> bool {
        let hit = self.final_text@.len() == 0;
        &&& post.hit_iteration_limit == hit
        &&& self.retry_or_finish_spec(post, r, have_tool, hit)
    }

    /// Either the next empty-response retry or the end of the loop.
    pub open spec fn retry_or_finish_spec(self, post: ToolLoop, r: LoopAction, have_tool: bool, hit: bool) -> bool {
        if self.mode == TurnMode::Parent && trim(self.final_text@).len() == 0
            && self.empty_attempt < self.max_empty_retries {
            &&& post.phase == LoopPhase::AwaitingRetry
            &&& post.empty_attempt == self.empty_attempt + 1
            &&& r matches LoopAction::CallModel { iteration, offer_tools, retry }
            &&& iteration == self.max_iterations + self.empty_attempt + 1
            &&& offer_tools == ((self.requires_action && !self.executed) || have_tool)
            &&& retry == Some(((self.empty_attempt + 1) as u32, retry_nudge(self)))
        } else {
            &&& post.phase == LoopPhase::Done
            &&& r matches LoopAction::Finish(o)
            &&& o.final_text@ == closing_text(self.final_text@, hit, self.mode, self.max_iterations as nat)
            &&& o.executed == self.executed
            &&& o.tool_call_count == self.tool_call_count
            &&& o.skill_manage_used == self.skill_manage_used
            &&& o.memory_manage_used == self.memory_manage_used
            &&& o.last_run_id == self.last_run_id
            &&& o.tool_persist == self.tool_persist
            &&& o.hit_iteration_limit == hit
            &&& !o.interrupted
        }
    }


    /// Whether a tool name counts as a use of `skill_manage` / `memory_manage`.
    fn note_tool_call(&mut self, index: usize)
        requires
            index < old(self).pending.len(),
            old(self).tool_call_count < usize::MAX,
        ensures
            *final(self) == (ToolLoop {
                tool_call_count: (old(self).tool_call_count + 1) as usize,
                skill_manage_used: old(self).skill_manage_used || old(self).pending@[index as int]@
                    == SKILL_MANAGE@,
                memory_manage_used: old(self).memory_manage_used || old(self).pending@[index as int]@
                    == MEMORY_MANAGE@,
                ..*old(self)
            }),
    {
        let name = to_chars(self.pending[index].as_str());
        self.tool_call_count = self.tool_call_count + 1;
        if eq_str(&name, SKILL_MANAGE) {
            self.skill_manage_used = true;
        }
        if eq_str(&name, MEMORY_MANAGE) {
            self.memory_manage_used = true;
        }
    }

    /// The final text after a regular reply.
    pub open spec fn reply_final_text(self, text: String, tool_calls: nat) -> String {
        if !will_action_retry(self, tool_calls) && (tool_calls == 0 || trim(text@).len() > 0) {
            text
        } else {
            self.final_text
        }
    }

    /// Handles a model reply: its text and the names of the tool calls it makes.
    pub fn on_reply(&mut self, text: String, tool_names: Vec<String>, messages_have_tool_result: bool) -> (r: ReplyStep)
        requires
            old(self).wf(),
            old(self).phase == LoopPhase::AwaitingReply || old(self).phase == LoopPhase::AwaitingRetry,
            old(self).tool_call_count < usize::MAX,
        ensures
            final(self).wf(),
            r.action matches LoopAction::Finish(o) ==> Self::finished_well(o),
            old(self).phase == LoopPhase::AwaitingRetry ==> {
                let blank = trim(text@).len() == 0;
                let mid = ToolLoop {
                    final_text: if blank { old(self).final_text } else { text },
                    ..*old(self)
                };
                &&& r.emit_chunk == !blank
                &&& r.nudge is None
                &&& final(self).hit_iteration_limit == old(self).hit_iteration_limit
                &&& mid.retry_or_finish_spec(
                    *final(self),
                    r.action,
                    messages_have_tool_result,
                    old(self).hit_iteration_limit,
                )
            },
            old(self).phase == LoopPhase::AwaitingReply ==> {
                let n = tool_names@.len();
                let wr = will_action_retry(*old(self), n);
                let ft = old(self).reply_final_text(text, n);
                &&& r.emit_chunk == (old(self).mode == TurnMode::Parent && trim(text@).len() > 0 && !wr)
                &&& r.nudge == (if n == 0 && wr { Some(Nudge::ActionRequired) } else { None })
                &&& n > 0 ==> {
                    &&& r.action matches LoopAction::RunTool { index }
                    &&& index == 0
                    &&& *final(self) == (ToolLoop {
                        phase: LoopPhase::RunningTools,
                        final_text: ft,
                        pending: tool_names,
                        next_tool: 0,
                        tool_call_count: (old(self).tool_call_count + 1) as usize,
                        skill_manage_used: old(self).skill_manage_used || tool_names@[0]@
                            == SKILL_MANAGE@,
                        memory_manage_used: old(self).memory_manage_used || tool_names@[0]@
                            == MEMORY_MANAGE@,
                        ..*old(self)
                    })
                }
                &&& n == 0 && wr && old(self).iteration < old(self).max_iterations ==> {
                    &&& r.action matches LoopAction::CallModel { iteration, offer_tools, retry }
                    &&& iteration == old(self).iteration + 1 && offer_tools && retry is None
                    &&& *final(self) == (ToolLoop {
                        iteration: (old(self).iteration + 1) as usize,
                        action_retries: (old(self).action_retries + 1) as usize,
                        final_text: ft,
                        ..*old(self)
                    })
                }
                &&& n == 0 && (!wr || old(self).iteration == old(self).max_iterations) ==> {
                    let mid = ToolLoop {
                        final_text: ft,
                        action_retries: if wr {
                            (old(self).action_retries + 1) as usize
                        } else {
                            old(self).action_retries
                        },
                        ..*old(self)
                    };
                    mid.after_iterations_spec(*final(self), r.action, messages_have_tool_result)
                }
            },
    {
        let tc = to_chars(text.as_str());
        let blank = trim_chars(&tc).len() == 0;
        let is_parent = match self.mode {
            TurnMode::Parent => true,
            TurnMode::Child => false,
        };
        if self.phase == LoopPhase::AwaitingRetry {
            if !blank {
                self.final_text = text;
            }
            let action = self.retry_or_finish(messages_have_tool_result);
            return ReplyStep { emit_chunk: !blank, nudge: None, action };
        }
        let n = tool_names.len();
        let wr = self.requires_action && n == 0 && !self.executed && self.action_retries
            < self.max_action_retries;
        let emit = is_parent && !blank && !wr;
        if !wr && (n == 0 || !blank) {
            self.final_text = text;
        }
        if n > 0 {
            self.pending = tool_names;
            self.next_tool = 0;
            self.phase = LoopPhase::RunningTools;
            self.note_tool_call(0);
            return ReplyStep { emit_chunk: emit, nudge: None, action: LoopAction::RunTool { index: 0 } };
        }
        if wr {
            self.action_retries = self.action_retries + 1;
            if self.iteration < self.max_iterations {
                self.iteration = self.iteration + 1;
                let it = self.iteration as u32;
                return ReplyStep {
                    emit_chunk: emit,
                    nudge: Some(Nudge::ActionRequired),
                    action: LoopAction::CallModel { iteration: it, offer_tools: true, retry: None },
                };
            }
            let action = self.after_iterations(messages_have_tool_result);
            return ReplyStep { emit_chunk: emit, nudge: Some(Nudge::ActionRequired), action };
        }
        let action = self.after_iterations(messages_have_tool_result);
        ReplyStep { emit_chunk: emit, nudge: None, action }
    }

    /// Records the result of the tool call being run; returns the index of the
    /// next call of the same reply to run, if there is one. Once a tool has run
    /// the turn stays executed, and a call without a run id keeps the last one.
    pub fn record_tool(&mut self, entry: ToolPersistEntry, executed: bool, last_run_id: Option<String>) -> (r: Option<usize>)
        requires
            old(self).wf(),
            old(self).phase == LoopPhase::RunningTools,
            old(self).tool_call_count < usize::MAX,
        ensures
            final(self).wf(),
            final(self).tool_persist@ == old(self).tool_persist@.push(entry),
            final(self).executed == (old(self).executed || executed),
            final(self).last_run_id == (if last_run_id is Some {
                last_run_id
            } else {
                old(self).last_run_id
            }),
            final(self).final_text == old(self).final_text,
            final(self).iteration == old(self).iteration,
            final(self).pending == old(self).pending,
            final(self).mode == old(self).mode,
            final(self).requires_action == old(self).requires_action,
            final(self).max_iterations == old(self).max_iterations,
            final(self).max_action_retries == old(self).max_action_retries,
            final(self).max_empty_retries == old(self).max_empty_retries,
            final(self).empty_attempt == old(self).empty_attempt,
            final(self).action_retries == old(self).action_retries,
            final(self).hit_iteration_limit == old(self).hit_iteration_limit,
            old(self).next_tool + 1 < old(self).pending@.len() ==> {
                let name = old(self).pending@[old(self).next_tool + 1]@;
                &&& r == Some((old(self).next_tool + 1) as usize)
                &&& final(self).phase == LoopPhase::RunningTools
                &&& final(self).next_tool == old(self).next_tool + 1
                &&& final(self).tool_call_count == old(self).tool_call_count + 1
                &&& final(self).skill_manage_used == (old(self).skill_manage_used || name
                    == SKILL_MANAGE@)
                &&& final(self).memory_manage_used == (old(self).memory_manage_used || name
                    == MEMORY_MANAGE@)
            },
            old(self).next_tool + 1 >= old(self).pending@.len() ==> {
                &&& r is None
                &&& final(self).phase == LoopPhase::ToolsFinished
                &&& final(self).next_tool == old(self).next_tool
                &&& final(self).tool_call_count == old(self).tool_call_count
                &&& final(self).skill_manage_used == old(self).skill_manage_used
                &&& final(self).memory_manage_used == old(self).memory_manage_used
            },
    {
        self.tool_persist.push(entry);
        if executed {
            self.executed = true;
        }
        if last_run_id.is_some() {
            self.last_run_id = last_run_id;
        }
        if self.next_tool + 1 < self.pending.len() {
            self.next_tool = self.next_tool + 1;
            let i = self.next_tool;
            self.note_tool_call(i);
            Some(i)
        } else {
            self.phase = LoopPhase::ToolsFinished;
            None
        }
    }

    /// After the tool calls of a reply: the next iteration, or the end of the iterations.
    pub fn next_iteration(&mut self, messages_have_tool_result: bool) -> (r: LoopAction)
        requires
            old(self).wf(),
            old(self).phase == LoopPhase::ToolsFinished,
        ensures
            final(self).wf(),
            r matches LoopAction::Finish(o) ==> Self::finished_well(o),
            old(self).iteration < old(self).max_iterations ==> {
                &&& r matches LoopAction::CallModel { iteration, offer_tools, retry }
                &&& iteration == old(self).iteration + 1 && offer_tools && retry is None
                &&& *final(self) == (ToolLoop {
                    iteration: (old(self).iteration + 1) as usize,
                    phase: LoopPhase::AwaitingReply,
                    ..*old(self)
                })
            },
            old(self).iteration == old(self).max_iterations ==> old(self).after_iterations_spec(
                *final(self),
                r,
                messages_have_tool_result,
            ),
    {
        if self.iteration < self.max_iterations {
            self.iteration = self.iteration + 1;
            self.phase = LoopPhase::AwaitingReply;
            LoopAction::CallModel { iteration: self.iteration as u32, offer_tools: true, retry: None }
        } else {
            self.after_iterations(messages_have_tool_result)
        }
    }

    fn after_iterations(&mut self, have_tool: bool) -> (r: LoopAction)
        requires
            old(self).wf(),
            old(self).phase != LoopPhase::RunningTools,
            old(self).phase != LoopPhase::Done,
        ensures
            final(self).wf(),
            old(self).after_iterations_spec(*final(self), r, have_tool),
            r matches LoopAction::Finish(o) ==> Self::finished_well(o),
    {
        let hit = self.final_text.as_str().is_empty();
        self.hit_iteration_limit = hit;
        self.retry_or_finish(have_tool)
    }

    /// The turn was cancelled: the loop is over and hands back what it has, marked
    /// interrupted.
    pub fn on_cancel(&mut self) -> (r: ToolLoopOutcome)
        requires
            old(self).wf(),
        ensures
            final(self).wf(),
            final(self).phase == LoopPhase::Done,
            r.final_text == old(self).final_text,
            r.executed == old(self).executed,
            r.tool_call_count == old(self).tool_call_count,
            r.skill_manage_used == old(self).skill_manage_used,
            r.memory_manage_used == old(self).memory_manage_used,
            r.last_run_id == old(self).last_run_id,
            r.tool_persist == old(self).tool_persist,
            !r.hit_iteration_limit,
            r.interrupted,
    {
        self.phase = LoopPhase::Done;
        let mut text = String::new();
        std::mem::swap(&mut text, &mut self.final_text);
        let mut persist: Vec<ToolPersistEntry> = Vec::new();
        std::mem::swap(&mut persist, &mut self.tool_persist);
        let mut run_id: Option<String> = None;
        std::mem::swap(&mut run_id, &mut self.last_run_id);
        ToolLoopOutcome {
            final_text: text,
            executed: self.executed,
            tool_call_count: self.tool_call_count,
            skill_manage_used: self.skill_manage_used,
            memory_manage_used: self.memory_manage_used,
            last_run_id: run_id,
            tool_persist: persist,
            hit_iteration_limit: false,
            interrupted: true,
        }
    }

    fn retry_or_finish(&mut self, have_tool: bool) -> (r: LoopAction)
        requires
            old(self).wf(),
            old(self).phase != LoopPhase::RunningTools,
            old(self).phase != LoopPhase::Done,
        ensures
            final(self).wf(),
            final(self).hit_iteration_limit == old(self).hit_iteration_limit,
            old(self).retry_or_finish_spec(*final(self), r, have_tool, old(self).hit_iteration_limit),
            r matches LoopAction::Finish(o) ==> Self::finished_well(o),
    {
        let is_parent = match self.mode {
            TurnMode::Parent => true,
            TurnMode::Child => false,
        };
        let fc = to_chars(self.final_text.as_str());
        let blank = trim_chars(&fc).len() == 0;
        if is_parent && blank && self.empty_attempt < self.max_empty_retries {
            self.empty_attempt = self.empty_attempt + 1;
            self.phase = LoopPhase::AwaitingRetry;
            let nudge = if self.requires_action && !self.executed {
                Nudge::ActionRequired
            } else {
                Nudge::Summary
            };
            let offer = (self.requires_action && !self.executed) || have_tool;
            let iteration = self.max_iterations as u32 + self.empty_attempt;
            LoopAction::CallModel {
                iteration,
                offer_tools: offer,
                retry: Some((self.empty_attempt, nudge)),
            }
        } else {
            self.phase = LoopPhase::Done;
            let text = closing_reply(
                self.final_text.as_str(),
                self.hit_iteration_limit,
                self.mode,
                self.max_iterations,
            );
            let mut persist: Vec<ToolPersistEntry> = Vec::new();
            std::mem::swap(&mut persist, &mut self.tool_persist);
            let mut run_id: Option<String> = None;
            std::mem::swap(&mut run_id, &mut self.last_run_id);
            let outcome = ToolLoopOutcome {
                final_text: text,
                executed: self.executed,
                tool_call_count: self.tool_call_count,
                skill_manage_used: self.skill_manage_used,
                memory_manage_used: self.memory_manage_used,
                last_run_id: run_id,
                tool_persist: persist,
                hit_iteration_limit: self.hit_iteration_limit,
                interrupted: false,
            };
            LoopAction::Finish(outcome)
        }
    }
}

/// A cancelled or finished loop makes no further model call: once it is `Done`,
/// no step that asks the model (`start`, `on_reply`, `next_iteration`) nor
/// `record_tool` accepts it, and cancelling leaves it `Done`.
pub proof fn lemma_no_model_call_after_done(lp: ToolLoop)
    requires
        lp.phase == LoopPhase::Done,
    ensures
        lp.phase != LoopPhase::Idle,
        lp.phase != LoopPhase::AwaitingReply,
        lp.phase != LoopPhase::AwaitingRetry,
        lp.phase != LoopPhase::ToolsFinished,
        lp.phase != LoopPhase::RunningTools,
{
}

} // verus!
