//! Post-turn background review gates and tool-reply parsing.

use vstd::prelude::*;

use crate::conversation::{text_of, ConversationMessage};
use crate::text::{
    contains, contains_str, all_ws, append_str, find, find_chars, from_chars, index_of, join, join_chars, lemma_index_of_at,
    lemma_trim_empty_iff_all_ws, lemma_views_push, occurs_at, slice_of, to_chars, trim, trim_chars,
    views,
};

verus! {

/// Background memory review every N user turns.
pub const MEMORY_REVIEW_TURN_THRESHOLD: usize = 10;

/// Background skill review after this many tool calls in one turn.
pub const SKILL_REVIEW_TOOL_THRESHOLD: usize = 10;

/// Per-turn counters used by the review gates.
pub struct TurnReviewMetrics {
    pub tool_call_count: usize,
    pub skill_manage_used: bool,
    pub memory_manage_used: bool,
    pub user_message_count: usize,
}

/// What a background review saved.
#[derive(Debug, Clone, PartialEq, Eq)]
pub enum PostTurnSave {
    Memory { path: String },
    Skill { name: String },
}

/// Outcome of the post-turn review (memory track, then skill track).
#[derive(Debug, Clone)]
pub struct PostTurnReviewOutcome {
    pub memory: Option<PostTurnSave>,
    pub skill: Option<PostTurnSave>,
}

impl Default for PostTurnReviewOutcome {
    fn default() -> (r: Self)
        ensures
            r.memory is None,
            r.skill is None,
    {
        PostTurnReviewOutcome { memory: None, skill: None }
    }
}

/// Memory review runs on every tenth user message unless memory was already written.
pub fn should_run_memory_review(user_message_count: usize, memory_manage_used: bool) -> (r: bool)
    ensures
        r == (!memory_manage_used && user_message_count > 0 && user_message_count
            % MEMORY_REVIEW_TURN_THRESHOLD == 0),
{
    !memory_manage_used && user_message_count > 0 && user_message_count
        % MEMORY_REVIEW_TURN_THRESHOLD == 0
}

/// Skill review runs after a tool-heavy turn unless a skill was already managed.
pub fn should_run_skill_review(tool_call_count: usize, skill_manage_used: bool) -> (r: bool)
    ensures
        r == (!skill_manage_used && tool_call_count >= SKILL_REVIEW_TOOL_THRESHOLD),
{
    !skill_manage_used && tool_call_count >= SKILL_REVIEW_TOOL_THRESHOLD
}

/// Which review tracks a finished turn starts: `(memory, skill)`.
pub fn review_plan(metrics: &TurnReviewMetrics, snapshot: &str) -> (r: (bool, bool))
    ensures
        trim(snapshot@).len() == 0 ==> r == (false, false),
        trim(snapshot@).len() > 0 ==> r == (
            !metrics.memory_manage_used && metrics.user_message_count > 0
                && metrics.user_message_count % MEMORY_REVIEW_TURN_THRESHOLD == 0,
            !metrics.skill_manage_used && metrics.tool_call_count >= SKILL_REVIEW_TOOL_THRESHOLD,
        ),
{
    let sc = to_chars(snapshot);
    let t = trim_chars(&sc);
    if t.len() == 0 {
        return (false, false);
    }
    (
        should_run_memory_review(metrics.user_message_count, metrics.memory_manage_used),
        should_run_skill_review(metrics.tool_call_count, metrics.skill_manage_used),
    )
}

/// The text between `prefix` and the next `'` after its first occurrence.
pub open spec fn quoted_after(body: Seq<char>, prefix: Seq<char>) -> Option<Seq<char>> {
    match find(body, prefix) {
        None => None,
        Some(i) => {
            let rest = body.skip(i + prefix.len());
            let e = index_of(rest, '\'');
            if e < rest.len() {
                Some(rest.take(e))
            } else {
                None
            }
        },
    }
}

fn quoted_after_chars(body: &[char], prefix: &[char]) -> (r: Option<Vec<char>>)
    ensures
        match r {
            Some(v) => quoted_after(body@, prefix@) == Some(v@),
            None => quoted_after(body@, prefix@) is None,
        },
{
    match find_chars(body, prefix) {
        None => None,
        Some(i) => {
            assert(occurs_at(body@, prefix@, i as int));
            let blen = body.len();
            let rest = slice_of(body, i + prefix.len(), blen);
            assert(rest@ =~= body@.skip(i + prefix@.len()));
            let mut e: usize = 0;
            while e < rest.len() && rest[e] != '\''
                invariant
                    e <= rest.len(),
                    forall|j: int| 0 <= j < e ==> rest@[j] != '\'',
                decreases rest.len() - e,
            {
                e += 1;
            }
            proof {
                lemma_index_of_at(rest@, '\'', e as int);
            }
            if e < rest.len() {
                let v = slice_of(&rest, 0, e);
                assert(v@ =~= rest@.take(e as int));
                Some(v)
            } else {
                None
            }
        },
    }
}

/// Skill name from a `skill_manage` create reply (`Created skill '<name>' ...`).
pub fn parse_created_skill_name(body: &str) -> (r: Option<String>)
    ensures
        match r {
            Some(s) => quoted_after(body@, "Created skill '"@) == Some(s@),
            None => quoted_after(body@, "Created skill '"@) is None,
        },
{
    let b = to_chars(body);
    let p = to_chars("Created skill '");
    match quoted_after_chars(&b, &p) {
        Some(v) => Some(from_chars(&v)),
        None => None,
    }
}

/// Memory path from a `memory_manage` append reply (`Appended to '<path>'.`).
pub fn parse_appended_memory_path(body: &str) -> (r: Option<String>)
    ensures
        match r {
            Some(s) => quoted_after(body@, "Appended to '"@) == Some(s@),
            None => quoted_after(body@, "Appended to '"@) is None,
        },
{
    let b = to_chars(body);
    let p = to_chars("Appended to '");
    match quoted_after_chars(&b, &p) {
        Some(v) => Some(from_chars(&v)),
        None => None,
    }
}

/// At most `max` characters: longer text keeps `max - 20` characters and a
/// truncation note.
pub open spec fn truncated_note(s: Seq<char>, max: nat) -> Seq<char> {
    if s.len() <= max {
        s
    } else {
        s.take(if max >= 20 { max - 20 } else { 0 }) + "\n… (truncated)"@
    }
}

pub fn truncate_chars(s: &str, max: usize) -> (r: String)
    ensures
        r@ == truncated_note(s@, max as nat),
{
    let c = to_chars(s);
    if c.len() <= max {
        return from_chars(&c);
    }
    let keep = if max >= 20 {
        max - 20
    } else {
        0
    };
    let mut r = slice_of(&c, 0, keep);
    assert(r@ =~= c@.take(keep as int));
    append_str(&mut r, "\n… (truncated)");
    from_chars(&r)
}

/// The reply text after background saves are announced.
pub open spec fn reply_with_saves(reply: Seq<char>, outcome: PostTurnReviewOutcome) -> Seq<char> {
    let with_memory = match outcome.memory {
        Some(PostTurnSave::Memory { path }) => reply + "\n\nSaved to memory `"@ + path@
            + "` (background review)."@,
        _ => reply,
    };
    match outcome.skill {
        Some(PostTurnSave::Skill { name }) => with_memory + "\n\nSaved skill `"@ + name@
            + "` for reuse (background review)."@,
        _ => with_memory,
    }
}

/// Append the background-review notes to the user reply.
pub fn announce_saves(reply: &str, outcome: &PostTurnReviewOutcome) -> (r: String)
    ensures
        r@ == reply_with_saves(reply@, *outcome),
{
    let mut r = to_chars(reply);
    match &outcome.memory {
        Some(PostTurnSave::Memory { path }) => {
            append_str(&mut r, "\n\nSaved to memory `");
            append_str(&mut r, path.as_str());
            append_str(&mut r, "` (background review).");
        },
        _ => {},
    }
    match &outcome.skill {
        Some(PostTurnSave::Skill { name }) => {
            append_str(&mut r, "\n\nSaved skill `");
            append_str(&mut r, name.as_str());
            append_str(&mut r, "` for reuse (background review).");
        },
        _ => {},
    }
    from_chars(&r)
}

/// Longest review snapshot, in characters.
pub const SNAPSHOT_MAX_CHARS: usize = 12000;

/// Longest message excerpt in a review snapshot, in characters.
pub const MESSAGE_SNIPPET_MAX: usize = 2000;

/// `[role] text` lines of the non-system messages with non-blank (truncated) text.
pub open spec fn snapshot_lines(ms: Seq<ConversationMessage>) -> Seq<Seq<char>>
    decreases ms.len(),
{
    if ms.len() == 0 {
        Seq::empty()
    } else {
        let prev = snapshot_lines(ms.drop_last());
        let m = ms.last();
        let t = truncated_note(text_of(m), MESSAGE_SNIPPET_MAX as nat);
        if m.role@ == "system"@ || all_ws(t) {
            prev
        } else {
            prev.push("["@ + m.role@ + "] "@ + t)
        }
    }
}

/// The conversation as the background review sees it.
pub open spec fn review_snapshot(ms: Seq<ConversationMessage>) -> Seq<char> {
    truncated_note(join(snapshot_lines(ms), "\n\n"@), SNAPSHOT_MAX_CHARS as nat)
}

/// The conversation without the system prompt, each message truncated, the whole truncated.
pub fn build_review_snapshot(messages: &[ConversationMessage]) -> (r: String)
    ensures
        r@ == review_snapshot(messages@),
{
    let mut lines: Vec<Vec<char>> = Vec::new();
    let mut i: usize = 0;
    assert(messages@.take(0) =~= Seq::<ConversationMessage>::empty());
    while i < messages.len()
        invariant
            i <= messages.len(),
            views(lines@) == snapshot_lines(messages@.take(i as int)),
        decreases messages.len() - i,
    {
        let m = &messages[i];
        proof {
            assert(messages@.take(i + 1).drop_last() =~= messages@.take(i as int));
            assert(messages@.take(i + 1).last() == messages@[i as int]);
        }
        let role = to_chars(m.role.as_str());
        let body = m.text_content();
        let t = truncate_chars(body.as_str(), MESSAGE_SNIPPET_MAX);
        let tc = to_chars(t.as_str());
        let tt = trim_chars(&tc);
        proof {
            lemma_trim_empty_iff_all_ws(t@);
        }
        if !crate::text::eq_str(&role, "system") && tt.len() > 0 {
            let mut line = to_chars("[");
            append_str(&mut line, m.role.as_str());
            append_str(&mut line, "] ");
            append_str(&mut line, t.as_str());
            proof {
                lemma_views_push(lines@, line);
            }
            lines.push(line);
        }
        i += 1;
    }
    assert(messages@.take(messages.len() as int) =~= messages@);
    let sep = to_chars("\n\n");
    let joined = from_chars(&join_chars(&lines, &sep));
    truncate_chars(joined.as_str(), SNAPSHOT_MAX_CHARS)
}

/// Model calls a background review makes at most.
pub const MAX_REVIEW_ITERATIONS: usize = 4;

/// Longest existing-memory excerpt shown to the memory review, in characters.
pub const EXISTING_MEMORY_MAX_CHARS: usize = 4000;

/// Instructions of the background memory review.
pub const MEMORY_REVIEW_SYSTEM: &'static str = "You are a background memory review agent for BobaClaw. \
The main agent completed a turn. Read the conversation snapshot and existing memory (if any). \
Extract durable facts, preferences, or user-specific context worth persisting across sessions. \
If worth saving, call memory_manage(action=append) exactly once with path MEMORY.md or memory/<file>.md|.txt. \
Do not save repeatable multi-step tool workflows here — those belong in skills, not memory. \
If nothing is worth saving, reply with exactly: NO_MEMORY_NEEDED. \
Do not invent tool output; only use memory_manage.";

/// Instructions of the background skill review.
pub const SKILL_REVIEW_SYSTEM: &'static str = "You are a background skill review agent for BobaClaw. \
The main agent finished a tool-heavy turn without saving procedural knowledge. \
Read the conversation snapshot. Save a skill only when the workflow is repeatable, multi-step, and tool-specific. \
User facts, preferences, and one-off answers are NOT skills — reply NO_SKILL_NEEDED for those. \
If a skill is warranted, create exactly one via skill_manage(action=create) with valid SKILL.md YAML frontmatter \
(name, description) and actionable steps. \
You may use skill_view and skills_list to avoid duplicates. \
If nothing is worth saving, reply with exactly: NO_SKILL_NEEDED. \
Do not invent tool output; only use skill tools.";

/// Which background review runs.
#[derive(PartialEq, Eq, Structural, Clone, Copy, Debug)]
pub enum ReviewKind {
    Memory,
    Skill,
}

/// The tool whose reply tells what a review saved.
pub open spec fn save_tool(kind: ReviewKind) -> Seq<char> {
    match kind {
        ReviewKind::Memory => "memory_manage"@,
        ReviewKind::Skill => "skill_manage"@,
    }
}

/// The reply with which the model declines to save anything.
pub open spec fn nothing_sentinel(kind: ReviewKind) -> Seq<char> {
    match kind {
        ReviewKind::Memory => "NO_MEMORY_NEEDED"@,
        ReviewKind::Skill => "NO_SKILL_NEEDED"@,
    }
}

/// The instructions of a review; the memory review also sees the existing memory.
pub open spec fn review_system_text(kind: ReviewKind, existing: Seq<char>) -> Seq<char> {
    match kind {
        ReviewKind::Memory => if existing.len() == 0 {
            MEMORY_REVIEW_SYSTEM@
        } else {
            MEMORY_REVIEW_SYSTEM@ + "\n\nExisting workspace memory (reference only):\n"@ + existing
        },
        ReviewKind::Skill => SKILL_REVIEW_SYSTEM@,
    }
}

/// The system message of a review.
pub fn review_system_prompt(kind: ReviewKind, existing_memory: &str) -> (r: String)
    ensures
        r@ == review_system_text(kind, existing_memory@),
{
    match kind {
        ReviewKind::Memory => {
            if existing_memory.is_empty() {
                MEMORY_REVIEW_SYSTEM.to_owned()
            } else {
                let mut out = to_chars(MEMORY_REVIEW_SYSTEM);
                append_str(&mut out, "\n\nExisting workspace memory (reference only):\n");
                append_str(&mut out, existing_memory);
                from_chars(&out)
            }
        },
        ReviewKind::Skill => SKILL_REVIEW_SYSTEM.to_owned(),
    }
}

/// The user message of a review: the conversation snapshot.
pub fn review_user_message(snapshot: &str) -> (r: String)
    ensures
        r@ == "Conversation snapshot from the completed turn:\n\n"@ + snapshot@,
{
    let mut out = to_chars("Conversation snapshot from the completed turn:\n\n");
    append_str(&mut out, snapshot);
    from_chars(&out)
}

/// Whether a turn is reviewed at all: its snapshot is not blank.
pub fn snapshot_worth_reviewing(snapshot: &str) -> (r: bool)
    ensures
        r == (trim(snapshot@).len() > 0),
{
    trim_chars(&to_chars(snapshot)).len() > 0
}

/// What a review does with a model reply.
#[derive(PartialEq, Eq, Structural, Clone, Copy, Debug)]
pub enum ReviewReply {
    /// Run the reply's tool calls.
    RunCalls,
    /// Nothing is worth saving.
    NothingToSave,
    /// The model stopped without saving.
    Stop,
}

/// A reply with tool calls runs them; otherwise the review ends.
pub open spec fn review_reply_kind(kind: ReviewKind, has_tool_calls: bool, text: Seq<char>) -> ReviewReply {
    if has_tool_calls {
        ReviewReply::RunCalls
    } else if contains(text, nothing_sentinel(kind)) {
        ReviewReply::NothingToSave
    } else {
        ReviewReply::Stop
    }
}

/// Classifies a model reply of a review.
pub fn review_reply(kind: ReviewKind, has_tool_calls: bool, text: &str) -> (r: ReviewReply)
    ensures
        r == review_reply_kind(kind, has_tool_calls, text@),
{
    if has_tool_calls {
        return ReviewReply::RunCalls;
    }
    let t = to_chars(text);
    let found = match kind {
        ReviewKind::Memory => contains_str(&t, "NO_MEMORY_NEEDED"),
        ReviewKind::Skill => contains_str(&t, "NO_SKILL_NEEDED"),
    };
    if found {
        ReviewReply::NothingToSave
    } else {
        ReviewReply::Stop
    }
}

/// What a review saved through a tool call: for its save tool, the path or
/// skill name its reply names.
pub open spec fn saved_by_call(kind: ReviewKind, call_name: Seq<char>, body: Seq<char>) -> Option<Seq<char>> {
    if call_name != save_tool(kind) {
        None
    } else {
        match kind {
            ReviewKind::Memory => quoted_after(body, "Appended to '"@),
            ReviewKind::Skill => quoted_after(body, "Created skill '"@),
        }
    }
}

/// Reads what a successful tool call of a review saved, if anything.
pub fn saved_by_tool(kind: ReviewKind, call_name: &str, body: &str) -> (r: Option<String>)
    ensures
        match r {
            Some(s) => saved_by_call(kind, call_name@, body@) == Some(s@),
            None => saved_by_call(kind, call_name@, body@) is None,
        },
{
    let n = to_chars(call_name);
    match kind {
        ReviewKind::Memory => {
            if !crate::text::eq_str(&n, "memory_manage") {
                return None;
            }
            parse_appended_memory_path(body)
        },
        ReviewKind::Skill => {
            if !crate::text::eq_str(&n, "skill_manage") {
                return None;
            }
            parse_created_skill_name(body)
        },
    }
}

/// The tool-result text of a review's tool call: the reply, or `error: ` and the error.
pub fn review_tool_result(result: Result<String, String>) -> (r: String)
    ensures
        r@ == match result {
            Ok(b) => b@,
            Err(e) => "error: "@ + e@,
        },
{
    match result {
        Ok(b) => b,
        Err(e) => {
            let mut out = to_chars("error: ");
            append_str(&mut out, e.as_str());
            from_chars(&out)
        },
    }
}

/// The existing memory shown to the memory review: `MEMORY.md` and the
/// `memory/` files (name and text), each excerpted, the whole excerpted.
pub open spec fn memory_snippet(memory_md: Option<Seq<char>>, files: Seq<(Seq<char>, Seq<char>)>) -> Seq<char> {
    let head = match memory_md {
        Some(t) => seq!["## MEMORY.md\n"@ + truncated_note(t, EXISTING_MEMORY_MAX_CHARS as nat)],
        None => Seq::empty(),
    };
    let rest = Seq::new(
        files.len(),
        |i: int| "## memory/"@ + files[i].0 + "\n"@ + truncated_note(files[i].1, (EXISTING_MEMORY_MAX_CHARS / 2) as nat),
    );
    truncated_note(join(head + rest, "\n\n"@), EXISTING_MEMORY_MAX_CHARS as nat)
}

/// Assembles the existing-memory excerpt of the memory review.
pub fn existing_memory_snippet(memory_md: Option<&str>, files: &Vec<(String, String)>) -> (r: String)
    ensures
        r@ == memory_snippet(
            match memory_md {
                Some(t) => Some(t@),
                None => None,
            },
            files@.map_values(|f: (String, String)| (f.0@, f.1@)),
        ),
{
    let ghost fs = files@.map_values(|f: (String, String)| (f.0@, f.1@));
    let ghost mm = match memory_md {
        Some(t) => Some(t@),
        None => None,
    };
    let mut parts: Vec<Vec<char>> = Vec::new();
    match memory_md {
        Some(t) => {
            let mut p = to_chars("## MEMORY.md\n");
            append_str(&mut p, truncate_chars(t, EXISTING_MEMORY_MAX_CHARS).as_str());
            parts.push(p);
        },
        None => {},
    }
    let ghost head = views(parts@);
    assert(head =~= match mm {
        Some(t) => seq!["## MEMORY.md\n"@ + truncated_note(t, EXISTING_MEMORY_MAX_CHARS as nat)],
        None => Seq::<Seq<char>>::empty(),
    });
    let mut i: usize = 0;
    while i < files.len()
        invariant
            i <= files.len(),
            fs == files@.map_values(|f: (String, String)| (f.0@, f.1@)),
            views(parts@) == head + Seq::new(
                i as nat,
                |k: int| "## memory/"@ + fs[k].0 + "\n"@ + truncated_note(fs[k].1, (EXISTING_MEMORY_MAX_CHARS / 2) as nat),
            ),
        decreases files.len() - i,
    {
        let mut p = to_chars("## memory/");
        append_str(&mut p, files[i].0.as_str());
        append_str(&mut p, "\n");
        append_str(&mut p, truncate_chars(files[i].1.as_str(), EXISTING_MEMORY_MAX_CHARS / 2).as_str());
        proof {
            lemma_views_push(parts@, p);
        }
        parts.push(p);
        assert(views(parts@) =~= head + Seq::new(
            (i + 1) as nat,
            |k: int| "## memory/"@ + fs[k].0 + "\n"@ + truncated_note(fs[k].1, (EXISTING_MEMORY_MAX_CHARS / 2) as nat),
        ));
        i += 1;
    }
    let sep = to_chars("\n\n");
    let joined = from_chars(&join_chars(&parts, &sep));
    truncate_chars(joined.as_str(), EXISTING_MEMORY_MAX_CHARS)
}

} // verus!
