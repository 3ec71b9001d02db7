//! Tool names and the name tests used by the dispatcher.

use vstd::prelude::*;

use crate::text::{
    chars_eq, eq_str, slice_of, starts_with, starts_with_chars, to_chars,
};

verus! {

pub const FILE_READ: &'static str = "file_read";
pub const FILE_WRITE: &'static str = "file_write";
pub const FILE_EDIT: &'static str = "file_edit";
pub const MEMORY_MANAGE: &'static str = "memory_manage";
pub const MEMORY_SEARCH: &'static str = "memory_search";
pub const MEMORY_READ: &'static str = "memory_read";
pub const RUN_VIEW: &'static str = "run_view";
pub const SKILL_MANAGE: &'static str = "skill_manage";
pub const SKILL_VIEW: &'static str = "skill_view";
pub const SKILLS_LIST: &'static str = "skills_list";
pub const SPAWN: &'static str = "spawn";
pub const SPAWN_STATUS: &'static str = "spawn_status";
pub const SUBAGENT: &'static str = "subagent";
pub const WEB_FETCH: &'static str = "web_fetch";
pub const EXEC: &'static str = "exec";

pub fn is_file_tool(name: &str) -> (r: bool)
    ensures
        r == (name@ == FILE_READ@ || name@ == FILE_WRITE@ || name@ == FILE_EDIT@),
{
    let n = to_chars(name);
    eq_str(&n, FILE_READ) || eq_str(&n, FILE_WRITE) || eq_str(&n, FILE_EDIT)
}

pub fn is_memory_tool(name: &str) -> (r: bool)
    ensures
        r == (name@ == MEMORY_MANAGE@ || name@ == MEMORY_SEARCH@ || name@ == MEMORY_READ@),
{
    let n = to_chars(name);
    eq_str(&n, MEMORY_MANAGE) || eq_str(&n, MEMORY_SEARCH) || eq_str(&n, MEMORY_READ)
}

pub fn is_run_view_tool(name: &str) -> (r: bool)
    ensures
        r == (name@ == RUN_VIEW@),
{
    let n = to_chars(name);
    eq_str(&n, RUN_VIEW)
}

pub fn is_skill_tool(name: &str) -> (r: bool)
    ensures
        r == (name@ == SKILL_MANAGE@ || name@ == SKILL_VIEW@ || name@ == SKILLS_LIST@),
{
    let n = to_chars(name);
    eq_str(&n, SKILL_MANAGE) || eq_str(&n, SKILL_VIEW) || eq_str(&n, SKILLS_LIST)
}

pub fn is_spawn_tool(name: &str) -> (r: bool)
    ensures
        r == (name@ == SPAWN@),
{
    let n = to_chars(name);
    eq_str(&n, SPAWN)
}

pub fn is_spawn_status_tool(name: &str) -> (r: bool)
    ensures
        r == (name@ == SPAWN_STATUS@),
{
    let n = to_chars(name);
    eq_str(&n, SPAWN_STATUS)
}

pub fn is_subagent_tool(name: &str) -> (r: bool)
    ensures
        r == (name@ == SUBAGENT@),
{
    let n = to_chars(name);
    eq_str(&n, SUBAGENT)
}

pub fn is_web_fetch_tool(name: &str) -> (r: bool)
    ensures
        r == (name@ == WEB_FETCH@),
{
    let n = to_chars(name);
    eq_str(&n, WEB_FETCH)
}

/// The names handled by the schedule tool.
pub open spec fn is_schedule_name(name: Seq<char>) -> bool {
    name == "schedule"@ || name == "schedule_recurring"@ || name == "schedule_list"@ || name
        == "schedule_cancel"@
}

pub fn is_schedule_tool(name: &str) -> (r: bool)
    ensures
        r == is_schedule_name(name@),
{
    let n = to_chars(name);
    eq_str(&n, "schedule") || eq_str(&n, "schedule_recurring") || eq_str(&n, "schedule_list")
        || eq_str(&n, "schedule_cancel")
}

/// Allowlist pattern: `prefix*` matches by prefix, anything else exactly.
pub open spec fn matches_pattern(name: Seq<char>, pattern: Seq<char>) -> bool {
    if pattern.len() > 0 && pattern.last() == '*' {
        starts_with(name, trim_end_stars(pattern))
    } else {
        name == pattern
    }
}

/// `pattern` without its trailing `*` characters.
pub open spec fn trim_end_stars(p: Seq<char>) -> Seq<char>
    decreases p.len(),
{
    if p.len() > 0 && p.last() == '*' {
        trim_end_stars(p.drop_last())
    } else {
        p
    }
}

pub fn tool_matches_pattern(name: &str, pattern: &str) -> (r: bool)
    ensures
        r == matches_pattern(name@, pattern@),
{
    let n = to_chars(name);
    let p = to_chars(pattern);
    if p.len() > 0 && p[p.len() - 1] == '*' {
        let mut k = p.len();
        assert(p@.take(k as int) =~= p@);
        while k > 0 && p[k - 1] == '*'
            invariant
                k <= p.len(),
                trim_end_stars(p@) == trim_end_stars(p@.take(k as int)),
            decreases k,
        {
            assert(p@.take(k as int).drop_last() =~= p@.take(k - 1));
            k -= 1;
        }
        let prefix = slice_of(&p, 0, k);
        assert(prefix@ =~= p@.take(k as int));
        starts_with_chars(&n, &prefix)
    } else {
        chars_eq(&n, &p)
    }
}

} // verus!
