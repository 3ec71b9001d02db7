//! Server-Sent Event payloads of a web UI turn.

use vstd::prelude::*;

use crate::progress::AgentEvent;
use crate::text::{ellipsize, ellipsize_str};
use crate::turn::{sanitize_user_reply, sanitized_reply};

verus! {

/// Longest label forwarded to the browser, in characters.
pub const LABEL_MAX_CHARS: usize = 500;

/// Longest preview forwarded to the browser, in characters.
pub const PREVIEW_MAX_CHARS: usize = 4000;

/// One SSE frame; its event name is [`WebEvent::name`].
pub enum WebEvent {
    /// Turn accepted for this session.
    Start { session_id: String },
    /// LLM call in progress (tool-loop iteration).
    Thinking { iteration: u32 },
    ToolStart { name: String, label: String },
    ToolEnd { name: String, exit_code: i32, preview: String },
    Compacting { tokens: u32 },
    /// Intermediate assistant text (may be superseded by `Done.reply`).
    AssistantChunk { text: String },
    Retry { attempt: u32, max_attempts: u32 },
    Interrupted,
    SubagentStart { id: String, label: String },
    SubagentEnd { id: String, exit_code: i32, preview: String },
    /// Final, sanitized reply: the last frame of a successful turn.
    Done { reply: String, session_id: String, run_id: Option<String>, interrupted: bool },
    /// The turn failed: the last frame of a failed turn.
    Error { message: String },
}

/// The SSE event name (the `type` tag) of each frame.
pub open spec fn event_name(e: WebEvent) -> Seq<char> {
    match e {
        WebEvent::Start { .. } => "start"@,
        WebEvent::Thinking { .. } => "thinking"@,
        WebEvent::ToolStart { .. } => "tool_start"@,
        WebEvent::ToolEnd { .. } => "tool_end"@,
        WebEvent::Compacting { .. } => "compacting"@,
        WebEvent::AssistantChunk { .. } => "assistant_chunk"@,
        WebEvent::Retry { .. } => "retry"@,
        WebEvent::Interrupted => "interrupted"@,
        WebEvent::SubagentStart { .. } => "subagent_start"@,
        WebEvent::SubagentEnd { .. } => "subagent_end"@,
        WebEvent::Done { .. } => "done"@,
        WebEvent::Error { .. } => "error"@,
    }
}

/// The web frame of an agent event: labels and previews shortened, assistant text sanitized.
pub open spec fn web_event_of(e: AgentEvent, r: WebEvent) -> bool {
    match e {
        AgentEvent::LlmThinking { iteration } => r == WebEvent::Thinking { iteration },
        AgentEvent::ToolStart { name, label } => r matches WebEvent::ToolStart { name: n, label: l }
            && n == name && l@ == ellipsize(label@, LABEL_MAX_CHARS as nat),
        AgentEvent::ToolEnd { name, exit_code, preview } => r matches WebEvent::ToolEnd {
            name: n,
            exit_code: c,
            preview: p,
        } && n == name && c == exit_code && p@ == ellipsize(preview@, PREVIEW_MAX_CHARS as nat),
        AgentEvent::Compacting { tokens } => r == WebEvent::Compacting { tokens },
        AgentEvent::AssistantChunk { text } => r matches WebEvent::AssistantChunk { text: t } && t@
            == sanitized_reply(text@),
        AgentEvent::EmptyResponseRetry { attempt, max_attempts } => r == WebEvent::Retry {
            attempt,
            max_attempts,
        },
        AgentEvent::Interrupted => r is Interrupted,
        AgentEvent::SubagentStart { id, label } => r matches WebEvent::SubagentStart { id: i, label: l }
            && i == id && l@ == ellipsize(label@, LABEL_MAX_CHARS as nat),
        AgentEvent::SubagentEnd { id, exit_code, preview } => r matches WebEvent::SubagentEnd {
            id: i,
            exit_code: c,
            preview: p,
        } && i == id && c == exit_code && p@ == ellipsize(preview@, PREVIEW_MAX_CHARS as nat),
    }
}

impl WebEvent {
    /// The SSE event name.
    pub fn name(&self) -> (r: &'static str)
        ensures
            r@ == event_name(*self),
    {
        match self {
            WebEvent::Start { .. } => "start",
            WebEvent::Thinking { .. } => "thinking",
            WebEvent::ToolStart { .. } => "tool_start",
            WebEvent::ToolEnd { .. } => "tool_end",
            WebEvent::Compacting { .. } => "compacting",
            WebEvent::AssistantChunk { .. } => "assistant_chunk",
            WebEvent::Retry { .. } => "retry",
            WebEvent::Interrupted => "interrupted",
            WebEvent::SubagentStart { .. } => "subagent_start",
            WebEvent::SubagentEnd { .. } => "subagent_end",
            WebEvent::Done { .. } => "done",
            WebEvent::Error { .. } => "error",
        }
    }

    /// Maps an agent progress event to its web frame.
    pub fn from_agent(event: AgentEvent) -> (r: Self)
        ensures
            web_event_of(event, r),
    {
        match event {
            AgentEvent::LlmThinking { iteration } => WebEvent::Thinking { iteration },
            AgentEvent::ToolStart { name, label } => WebEvent::ToolStart {
                name,
                label: ellipsize_str(label.as_str(), LABEL_MAX_CHARS),
            },
            AgentEvent::ToolEnd { name, exit_code, preview } => WebEvent::ToolEnd {
                name,
                exit_code,
                preview: ellipsize_str(preview.as_str(), PREVIEW_MAX_CHARS),
            },
            AgentEvent::Compacting { tokens } => WebEvent::Compacting { tokens },
            AgentEvent::AssistantChunk { text } => WebEvent::AssistantChunk {
                text: sanitize_user_reply(text.as_str()),
            },
            AgentEvent::EmptyResponseRetry { attempt, max_attempts } => WebEvent::Retry {
                attempt,
                max_attempts,
            },
            AgentEvent::Interrupted => WebEvent::Interrupted,
            AgentEvent::SubagentStart { id, label } => WebEvent::SubagentStart {
                id,
                label: ellipsize_str(label.as_str(), LABEL_MAX_CHARS),
            },
            AgentEvent::SubagentEnd { id, exit_code, preview } => WebEvent::SubagentEnd {
                id,
                exit_code,
                preview: ellipsize_str(preview.as_str(), PREVIEW_MAX_CHARS),
            },
        }
    }

    /// The final frame of a successful turn: the reply sanitized.
    pub fn done(reply: &str, session_id: String, run_id: Option<String>, interrupted: bool) -> (r: Self)
        ensures
            r matches WebEvent::Done { reply: rp, session_id: s, run_id: ri, interrupted: i } && rp@
                == sanitized_reply(reply@) && s == session_id && ri == run_id && i == interrupted,
    {
        WebEvent::Done { reply: sanitize_user_reply(reply), session_id, run_id, interrupted }
    }
}

} // verus!
