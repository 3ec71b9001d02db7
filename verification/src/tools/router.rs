//! Which handler takes a tool call, and what a handled call records for the turn.

use vstd::prelude::*;

use crate::text::{append_str, from_chars, starts_with, to_chars};
use crate::tools::names::{
    is_memory_tool, is_schedule_name, is_schedule_tool, is_skill_tool, is_spawn_status_tool,
    is_spawn_tool, is_subagent_tool, EXEC, MEMORY_MANAGE, MEMORY_READ, MEMORY_SEARCH, SKILLS_LIST,
    SKILL_MANAGE, SKILL_VIEW, SPAWN, SPAWN_STATUS, SUBAGENT,
};

verus! {

/// The body and exit code of a handled tool call.
pub struct ToolCallResult {
    pub body: String,
    pub exit_code: i32,
}

/// What the handled calls of a turn record: the last exec run and whether any
/// tool ran.
pub struct ToolCallOutcome {
    pub last_run_id: Option<String>,
    pub executed: bool,
}

/// The handlers, in the order in which they are asked.
#[derive(PartialEq, Eq, Structural, Clone, Copy, Debug)]
pub enum ToolRoute {
    Subagent,
    Spawn,
    SpawnStatus,
    Schedule,
    Mcp,
    Exec,
    Skill,
    Memory,
}

/// The first handler that takes `name`; `is_mcp` tells whether the MCP hub
/// knows a tool of that name.
pub open spec fn route_of(name: Seq<char>, is_mcp: bool) -> Option<ToolRoute> {
    if name == SUBAGENT@ {
        Some(ToolRoute::Subagent)
    } else if name == SPAWN@ {
        Some(ToolRoute::Spawn)
    } else if name == SPAWN_STATUS@ {
        Some(ToolRoute::SpawnStatus)
    } else if is_schedule_name(name) {
        Some(ToolRoute::Schedule)
    } else if is_mcp {
        Some(ToolRoute::Mcp)
    } else if name == EXEC@ {
        Some(ToolRoute::Exec)
    } else if name == SKILL_MANAGE@ || name == SKILL_VIEW@ || name == SKILLS_LIST@ {
        Some(ToolRoute::Skill)
    } else if name == MEMORY_MANAGE@ || name == MEMORY_SEARCH@ || name == MEMORY_READ@ {
        Some(ToolRoute::Memory)
    } else {
        None
    }
}

/// The handler of a tool call, `None` for an unknown tool.
pub fn route_tool(name: &str, is_mcp: bool) -> (r: Option<ToolRoute>)
    ensures
        r == route_of(name@, is_mcp),
{
    if is_subagent_tool(name) {
        Some(ToolRoute::Subagent)
    } else if is_spawn_tool(name) {
        Some(ToolRoute::Spawn)
    } else if is_spawn_status_tool(name) {
        Some(ToolRoute::SpawnStatus)
    } else if is_schedule_tool(name) {
        Some(ToolRoute::Schedule)
    } else if is_mcp {
        Some(ToolRoute::Mcp)
    } else if crate::text::eq_str(&to_chars(name), EXEC) {
        Some(ToolRoute::Exec)
    } else if is_skill_tool(name) {
        Some(ToolRoute::Skill)
    } else if is_memory_tool(name) {
        Some(ToolRoute::Memory)
    } else {
        None
    }
}

/// The error of a call that no handler takes.
pub fn unknown_tool_message(name: &str) -> (r: String)
    ensures
        r@ == "unknown tool: "@ + name@,
{
    let mut out = to_chars("unknown tool: ");
    append_str(&mut out, name);
    from_chars(&out)
}

/// Exit code of an MCP reply: 1 when it reports an MCP error.
pub fn mcp_exit_code(body: &str) -> (r: i32)
    ensures
        r == (if starts_with(body@, "MCP error:"@) { 1i32 } else { 0i32 }),
{
    if crate::text::starts_with_str(&to_chars(body), "MCP error:") {
        1
    } else {
        0
    }
}

impl ToolCallOutcome {
    /// Nothing ran yet.
    pub fn new() -> (r: Self)
        ensures
            r.last_run_id is None,
            !r.executed,
    {
        ToolCallOutcome { last_run_id: None, executed: false }
    }

    /// Records a handled call: a tool ran, and an exec call with a run id
    /// becomes the last run.
    pub fn record(&mut self, route: ToolRoute, run_id: &str)
        ensures
            final(self).executed,
            route == ToolRoute::Exec && run_id@.len() > 0 ==> (final(self).last_run_id matches Some(id)
                && id@ == run_id@),
            !(route == ToolRoute::Exec && run_id@.len() > 0) ==> final(self).last_run_id == old(
                self,
            ).last_run_id,
    {
        self.executed = true;
        if route == ToolRoute::Exec && !run_id.is_empty() {
            self.last_run_id = Some(run_id.to_owned());
        }
    }
}

} // verus!
