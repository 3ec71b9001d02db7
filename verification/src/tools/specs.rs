//! Which tools a turn offers the model: the parent agent's set, and the
//! smaller set of a subagent, narrowed by a preset's allowlist.

use vstd::prelude::*;

use crate::tools::names::{
    matches_pattern, tool_matches_pattern, EXEC, MEMORY_MANAGE, SKILLS_LIST, SKILL_MANAGE,
    SKILL_VIEW, SPAWN, SPAWN_STATUS, SUBAGENT,
};

verus! {

/// The views of a vector of names.
pub open spec fn name_views(v: Seq<String>) -> Seq<Seq<char>> {
    v.map_values(|s: String| s@)
}

/// The tools of a parent turn: exec, the schedule tools, the skill tools and
/// memory_manage; the delegation tools when subagents are on; then the MCP tools.
pub open spec fn parent_tools(mcp: Seq<Seq<char>>, subagents_enabled: bool) -> Seq<Seq<char>> {
    seq![
        EXEC@,
        "schedule"@,
        "schedule_recurring"@,
        "schedule_list"@,
        "schedule_cancel"@,
        SKILL_MANAGE@,
        SKILL_VIEW@,
        SKILLS_LIST@,
        MEMORY_MANAGE@,
    ] + (if subagents_enabled { seq![SUBAGENT@, SPAWN@, SPAWN_STATUS@] } else { Seq::empty() }) + mcp
}

/// The tools of a subagent before any allowlist: exec, the read-only skill
/// tools, then the MCP tools.
pub open spec fn child_base_tools(mcp: Seq<Seq<char>>) -> Seq<Seq<char>> {
    seq![EXEC@, SKILL_VIEW@, SKILLS_LIST@] + mcp
}

/// Whether some allowlist pattern admits `name`.
pub open spec fn allowed(name: Seq<char>, allowlist: Seq<Seq<char>>) -> bool {
    exists|i: int| 0 <= i < allowlist.len() && matches_pattern(name, allowlist[i])
}

/// The tools of a subagent: with a non-empty allowlist, only those it admits.
pub open spec fn child_tools(mcp: Seq<Seq<char>>, allowlist: Seq<Seq<char>>) -> Seq<Seq<char>> {
    let base = child_base_tools(mcp);
    if allowlist.len() == 0 {
        base
    } else {
        base.filter(|n: Seq<char>| allowed(n, allowlist))
    }
}

fn push_name(out: &mut Vec<String>, name: &str)
    ensures
        name_views(final(out)@) == name_views(old(out)@).push(name@),
{
    let ghost before = out@;
    out.push(name.to_owned());
    assert(name_views(out@) =~= name_views(before).push(name@));
}

fn append_names(out: &mut Vec<String>, names: &Vec<String>)
    ensures
        name_views(final(out)@) == name_views(old(out)@) + name_views(names@),
{
    let ghost base = name_views(out@);
    let mut i: usize = 0;
    while i < names.len()
        invariant
            i <= names.len(),
            name_views(out@) == base + name_views(names@.take(i as int)),
        decreases names.len() - i,
    {
        push_name(out, names[i].as_str());
        assert(name_views(names@.take(i + 1)) =~= name_views(names@.take(i as int)).push(names@[i as int]@));
        i += 1;
    }
    assert(names@.take(names.len() as int) =~= names@);
}

/// The names of the tools offered to a parent turn (`mcp_names`: the MCP hub's tools).
pub fn build_parent_tool_names(mcp_names: &Vec<String>, subagents_enabled: bool) -> (r: Vec<String>)
    ensures
        name_views(r@) == parent_tools(name_views(mcp_names@), subagents_enabled),
{
    let mut t: Vec<String> = Vec::new();
    assert(name_views(t@) =~= Seq::<Seq<char>>::empty());
    push_name(&mut t, EXEC);
    push_name(&mut t, "schedule");
    push_name(&mut t, "schedule_recurring");
    push_name(&mut t, "schedule_list");
    push_name(&mut t, "schedule_cancel");
    push_name(&mut t, SKILL_MANAGE);
    push_name(&mut t, SKILL_VIEW);
    push_name(&mut t, SKILLS_LIST);
    push_name(&mut t, MEMORY_MANAGE);
    if subagents_enabled {
        push_name(&mut t, SUBAGENT);
        push_name(&mut t, SPAWN);
        push_name(&mut t, SPAWN_STATUS);
    }
    append_names(&mut t, mcp_names);
    assert(name_views(t@) =~= parent_tools(name_views(mcp_names@), subagents_enabled));
    t
}

fn is_allowed(name: &str, allowlist: &Vec<String>) -> (r: bool)
    ensures
        r == allowed(name@, name_views(allowlist@)),
{
    let mut i: usize = 0;
    while i < allowlist.len()
        invariant
            i <= allowlist.len(),
            forall|k: int| 0 <= k < i ==> !matches_pattern(name@, #[trigger] name_views(allowlist@)[k]),
        decreases allowlist.len() - i,
    {
        if tool_matches_pattern(name, allowlist[i].as_str()) {
            assert(matches_pattern(name@, name_views(allowlist@)[i as int]));
            return true;
        }
        i += 1;
    }
    false
}

/// The names of the tools offered to a subagent, narrowed by the preset's
/// allowlist when it has a non-empty one.
pub fn build_child_tool_names(mcp_names: &Vec<String>, allowlist: &Vec<String>) -> (r: Vec<String>)
    ensures
        name_views(r@) == child_tools(name_views(mcp_names@), name_views(allowlist@)),
{
    let mut t: Vec<String> = Vec::new();
    assert(name_views(t@) =~= Seq::<Seq<char>>::empty());
    push_name(&mut t, EXEC);
    push_name(&mut t, SKILL_VIEW);
    push_name(&mut t, SKILLS_LIST);
    append_names(&mut t, mcp_names);
    let ghost base = child_base_tools(name_views(mcp_names@));
    assert(name_views(t@) =~= base);
    if allowlist.len() == 0 {
        return t;
    }
    let ghost al = name_views(allowlist@);
    let ghost pred = |n: Seq<char>| allowed(n, al);
    let mut out: Vec<String> = Vec::new();
    let mut i: usize = 0;
    assert(name_views(out@) =~= base.take(0).filter(pred));
    while i < t.len()
        invariant
            i <= t.len(),
            name_views(t@) == base,
            al == name_views(allowlist@),
            pred == (|n: Seq<char>| allowed(n, al)),
            name_views(out@) == base.take(i as int).filter(pred),
        decreases t.len() - i,
    {
        proof {
            assert(base.take(i + 1) =~= base.take(i as int).push(base[i as int]));
            base.take(i as int).lemma_filter_push(base[i as int], pred);
            assert(base[i as int] == t@[i as int]@);
        }
        if is_allowed(t[i].as_str(), allowlist) {
            push_name(&mut out, t[i].as_str());
        }
        i += 1;
    }
    assert(base.take(t.len() as int) =~= base);
    out
}

/// A parent turn always offers exec, the four schedule tools, the three skill
/// tools and memory_manage, first and in that order, whatever the MCP tools and
/// the subagent switch; the delegation tools exactly when subagents are on; and
/// every MCP tool.
pub proof fn lemma_parent_tools_offered(mcp: Seq<Seq<char>>, subagents_enabled: bool)
    ensures
        parent_tools(mcp, subagents_enabled).take(9) == seq![
            "exec"@,
            "schedule"@,
            "schedule_recurring"@,
            "schedule_list"@,
            "schedule_cancel"@,
            "skill_manage"@,
            "skill_view"@,
            "skills_list"@,
            "memory_manage"@,
        ],
        parent_tools(mcp, subagents_enabled).contains("memory_manage"@),
        parent_tools(mcp, subagents_enabled).contains("exec"@),
        parent_tools(mcp, subagents_enabled).len() == 9 + (if subagents_enabled { 3int } else { 0int }) + mcp.len(),
        subagents_enabled ==> parent_tools(mcp, subagents_enabled).subrange(9, 12) == seq![
            "subagent"@,
            "spawn"@,
            "spawn_status"@,
        ],
        parent_tools(mcp, subagents_enabled).skip(parent_tools(mcp, subagents_enabled).len() - mcp.len()) == mcp,
{
    let t = parent_tools(mcp, subagents_enabled);
    let d: Seq<Seq<char>> = if subagents_enabled { seq![SUBAGENT@, SPAWN@, SPAWN_STATUS@] } else { Seq::empty() };
    let base = seq![
        EXEC@,
        "schedule"@,
        "schedule_recurring"@,
        "schedule_list"@,
        "schedule_cancel"@,
        SKILL_MANAGE@,
        SKILL_VIEW@,
        SKILLS_LIST@,
        MEMORY_MANAGE@,
    ];
    assert(t == base + d + mcp);
    assert(t.take(9) =~= base);
    assert(t[8] == base[8]);
    assert(t[0] == base[0]);
    if subagents_enabled {
        assert(t.subrange(9, 12) =~= d);
    }
    assert(t.skip(t.len() - mcp.len()) =~= mcp);
}

} // verus!
