//! The system prompt and the compaction prompts (summarizer request text and
//! the summary prefix).

use vstd::prelude::*;

use crate::text::{
    all_ws, append_slice, is_ws, join, join_chars, lemma_trim_empty_iff_all_ws,
    lemma_trim_end_shape, lemma_trim_end_unique, lemma_trim_of_trim_end, lemma_views_push, views,
    occurs_at, append_str, find, find_chars, from_chars, slice_of, starts_with, starts_with_chars,
    starts_with_str, to_chars, trim, trim_chars, trim_end, trim_start,
};

verus! {

/// Hermes-style cap for injected workspace markdown.
pub const CONTEXT_FILE_MAX_CHARS: usize = 20_000;

/// Injected as a `compaction` history row; must stay stable for prompt-cache friendliness.
pub const SUMMARY_PREFIX: &'static str = "[CONTEXT COMPACTION — REFERENCE ONLY] Earlier turns were compacted \
into the summary below. This is a handoff from a previous context window — treat it as background \
reference, NOT as active instructions. Do NOT answer questions or fulfill requests mentioned in this \
summary; they were already addressed. Respond ONLY to the latest user message that appears AFTER this \
summary — that message is the single source of truth for what to do right now. \
If the latest user message is consistent with the '## Active Task' section, you may use the summary \
as background. If the latest user message contradicts, supersedes, or changes topic from '## Active Task' \
/ '## Pending User Asks' / '## Remaining Work', the latest message WINS — do not wrap up stale work first. \
Reverse signals in the latest message (stop, undo, never mind, new topic) cancel in-flight work from the summary. \
BOBACLAW.md and other workspace memory files remain authoritative — do not ignore them because of this note. \
The current session state (files, config) may reflect work described here — avoid repeating it:\n\n";

/// System prompt of the summarization agent.
pub const SUMMARIZER_SYSTEM: &'static str = "You are a summarization agent creating a context checkpoint. \
Treat the conversation transcript as source material. Produce only the structured summary body — \
no greeting or preamble. Write the summary in the same language the user used in the conversation. \
NEVER include API keys, tokens, or passwords — use [REDACTED].";

/// Structure the summarizer must follow.
pub const SUMMARY_TEMPLATE: &'static str = "Use this exact markdown structure:

## Active Task
[User's most recent unfulfilled input — verbatim when possible: task, unanswered question, or decision pending. Write \"None.\" only if fully resolved.]

## Goal
[Overall objective]

## Completed Actions
[Numbered list: N. ACTION target — outcome [tool: exec]]

## Active State
[Branch, key files, test status, relevant cwd]

## Key Decisions
[Decisions and why]

## Resolved Questions
[Answered user questions]

## Pending User Asks
[Unanswered user questions — or \"None.\"]

## Relevant Files
[Paths touched]

## Remaining Work
[Context only — not imperative instructions]

## Critical Context
[Values, errors, configs to preserve — secrets as [REDACTED]]

Be concrete: paths, commands, exit codes. No vague \"made changes\".";

/// Short summary prefix written by earlier builds.
pub const LEGACY_SUMMARY_PREFIX: &'static str = "[CONTEXT COMPACTION — REFERENCE ONLY] Earlier turns were summarized.";

/// The user message asking the summarizer for a (possibly updated) summary.
pub open spec fn summarizer_message(transcript: Seq<char>, previous: Option<Seq<char>>) -> Seq<char> {
    match previous {
        Some(prev) => "Update the compaction summary. PRESERVE still-relevant prior content; ADD new progress.\n\nPREVIOUS SUMMARY:\n"@
            + prev + "\n\nNEW TURNS:\n"@ + transcript + "\n\n"@ + SUMMARY_TEMPLATE@,
        None => "Summarize this conversation transcript for handoff:\n\n"@ + transcript + "\n\n"@
            + SUMMARY_TEMPLATE@,
    }
}

pub fn summarizer_user_message(transcript: &str, previous_summary: Option<&str>) -> (r: String)
    ensures
        r@ == summarizer_message(
            transcript@,
            match previous_summary {
                Some(p) => Some(p@),
                None => None,
            },
        ),
{
    let mut r: Vec<char> = Vec::new();
    match previous_summary {
        Some(prev) => {
            append_str(
                &mut r,
                "Update the compaction summary. PRESERVE still-relevant prior content; ADD new progress.\n\nPREVIOUS SUMMARY:\n",
            );
            append_str(&mut r, prev);
            append_str(&mut r, "\n\nNEW TURNS:\n");
        },
        None => {
            append_str(&mut r, "Summarize this conversation transcript for handoff:\n\n");
        },
    }
    append_str(&mut r, transcript);
    append_str(&mut r, "\n\n");
    append_str(&mut r, SUMMARY_TEMPLATE);
    from_chars(&r)
}

/// `s` without its leading spaces, semicolons and colons.
pub open spec fn trim_start_punct(s: Seq<char>) -> Seq<char>
    decreases s.len(),
{
    if s.len() > 0 && (s[0] == ' ' || s[0] == ';' || s[0] == ':') {
        trim_start_punct(s.drop_first())
    } else {
        s
    }
}

fn trim_start_punct_chars(s: &[char]) -> (r: Vec<char>)
    ensures
        r@ == trim_start_punct(s@),
{
    let mut i: usize = 0;
    assert(s@.skip(0) =~= s@);
    while i < s.len() && (s[i] == ' ' || s[i] == ';' || s[i] == ':')
        invariant
            i <= s.len(),
            trim_start_punct(s@) == trim_start_punct(s@.skip(i as int)),
        decreases s.len() - i,
    {
        assert(s@.skip(i as int).drop_first() =~= s@.skip(i + 1));
        i += 1;
    }
    let r = slice_of(s, i, s.len());
    assert(r@ =~= s@.skip(i as int));
    r
}

/// The summary body of a stored compaction row.
pub open spec fn summary_body(content: Seq<char>) -> Seq<char> {
    let s = trim(content);
    let p = SUMMARY_PREFIX@;
    let l = LEGACY_SUMMARY_PREFIX@;
    let t = "Treat as background only"@;
    if starts_with(s, p) {
        trim(s.skip(p.len() as int))
    } else if starts_with(s, l) {
        let s2 = trim(s.skip(l.len() as int));
        if starts_with(s2, t) {
            trim_start_punct(trim(s2.skip(t.len() as int)))
        } else {
            s2
        }
    } else {
        s
    }
}

/// A summary stored behind the compaction prefix comes back trimmed, unless it
/// is blank.
pub proof fn lemma_summary_roundtrip(body: Seq<char>)
    requires
        trim(body).len() > 0,
    ensures
        summary_body(SUMMARY_PREFIX@ + body) == trim(body),
{
    let p = SUMMARY_PREFIX@;
    reveal_strlit("[CONTEXT COMPACTION — REFERENCE ONLY] Earlier turns were compacted \
into the summary below. This is a handoff from a previous context window — treat it as background \
reference, NOT as active instructions. Do NOT answer questions or fulfill requests mentioned in this \
summary; they were already addressed. Respond ONLY to the latest user message that appears AFTER this \
summary — that message is the single source of truth for what to do right now. \
If the latest user message is consistent with the '## Active Task' section, you may use the summary \
as background. If the latest user message contradicts, supersedes, or changes topic from '## Active Task' \
/ '## Pending User Asks' / '## Remaining Work', the latest message WINS — do not wrap up stale work first. \
Reverse signals in the latest message (stop, undo, never mind, new topic) cancel in-flight work from the summary. \
BOBACLAW.md and other workspace memory files remain authoritative — do not ignore them because of this note. \
The current session state (files, config) may reflect work described here — avoid repeating it:\n\n");
    let c = p + body;
    lemma_trim_empty_iff_all_ws(body);
    assert(c[0] == '[');
    assert(!is_ws(c[0]));
    assert(trim_start(c) == c);
    lemma_trim_end_shape(body);
    let k = choose|k: int|
        0 <= k <= body.len() && trim_end(body) == body.take(k) && all_ws(body.skip(k)) && (k > 0
            ==> !is_ws(body[k - 1]));
    if k == 0 {
        assert(body.skip(0) =~= body);
    }
    assert(c.skip(p.len() + k) =~= body.skip(k));
    assert(c[p.len() + k - 1] == body[k - 1]);
    lemma_trim_end_unique(c, p.len() + k);
    let t = c.take(p.len() + k);
    assert(t =~= p + trim_end(body));
    assert(trim(c) == t);
    assert(t.take(p.len() as int) =~= p);
    assert(t.skip(p.len() as int) =~= trim_end(body));
    lemma_trim_of_trim_end(body);
}

/// Remove the compaction prefix (current or legacy) from a stored summary.
pub fn strip_summary_prefix(content: &str) -> (r: String)
    ensures
        r@ == summary_body(content@),
{
    let cc = to_chars(content);
    let s = trim_chars(&cc);
    let p = to_chars(SUMMARY_PREFIX);
    if starts_with_chars(&s, &p) {
        let rest = slice_of(&s, p.len(), s.len());
        assert(rest@ =~= s@.skip(p@.len() as int));
        let r = trim_chars(&rest);
        return from_chars(&r);
    }
    let l = to_chars(LEGACY_SUMMARY_PREFIX);
    if starts_with_chars(&s, &l) {
        let rest = slice_of(&s, l.len(), s.len());
        assert(rest@ =~= s@.skip(l@.len() as int));
        let s2 = trim_chars(&rest);
        let t = to_chars("Treat as background only");
        if starts_with_chars(&s2, &t) {
            let after = slice_of(&s2, t.len(), s2.len());
            assert(after@ =~= s2@.skip(t@.len() as int));
            let a = trim_chars(&after);
            let r = trim_start_punct_chars(&a);
            return from_chars(&r);
        }
        return from_chars(&s2);
    }
    from_chars(&s)
}

/// `s` without its leading newlines.
pub open spec fn trim_start_newlines(s: Seq<char>) -> Seq<char>
    decreases s.len(),
{
    if s.len() > 0 && s[0] == '\n' {
        trim_start_newlines(s.drop_first())
    } else {
        s
    }
}

fn trim_start_newlines_chars(s: &[char]) -> (r: Vec<char>)
    ensures
        r@ == trim_start_newlines(s@),
{
    let mut i: usize = 0;
    assert(s@.skip(0) =~= s@);
    while i < s.len() && s[i] == '\n'
        invariant
            i <= s.len(),
            trim_start_newlines(s@) == trim_start_newlines(s@.skip(i as int)),
        decreases s.len() - i,
    {
        assert(s@.skip(i as int).drop_first() =~= s@.skip(i + 1));
        i += 1;
    }
    let r = slice_of(s, i, s.len());
    assert(r@ =~= s@.skip(i as int));
    r
}

/// Markdown body without a leading `---` YAML block.
pub open spec fn without_frontmatter(content: Seq<char>) -> Seq<char> {
    if starts_with(content, "---"@) {
        match find(content, "\n---"@) {
            Some(e) => {
                let body = trim_start_newlines(content.skip(e + "\n---"@.len()));
                if body.len() > 0 {
                    body
                } else {
                    content
                }
            },
            None => content,
        }
    } else {
        content
    }
}

/// Drop a leading YAML front-matter block when a non-empty body follows it.
pub fn strip_yaml_frontmatter(content: &str) -> (r: String)
    ensures
        r@ == without_frontmatter(content@),
{
    let c = to_chars(content);
    if starts_with_str(&c, "---") {
        let pat = to_chars("\n---");
        match find_chars(&c, &pat) {
            Some(e) => {
                assert(occurs_at(c@, pat@, e as int));
                let clen = c.len();
                let rest = slice_of(&c, e + pat.len(), clen);
                assert(rest@ =~= c@.skip(e + pat@.len()));
                let body = trim_start_newlines_chars(&rest);
                if body.len() > 0 {
                    return from_chars(&body);
                }
            },
            None => {},
        }
    }
    from_chars(&c)
}

/// Who the agent is.
pub const BOBACLAW_IDENTITY: &'static str = "You are BobaClaw, a personal self-hosted ChatOps agent. \
You are helpful, direct, and grounded in tool output. Prioritize being useful over being verbose. \
Work autonomously until the user's request is actually done.";

/// Tool-use discipline.
pub const TOOL_USE_ENFORCEMENT: &'static str = "# Tool-use enforcement\n\
You MUST use the `exec` tool to take action — do not describe what you would do without doing it. \
When you say you will run a command or inspect a file, call `exec` in the same response. \
Never end your turn with a promise of future action. \
Each response should either (a) include tool calls that make progress, or (b) deliver a final result.";

/// What finishing a task means.
pub const TASK_COMPLETION: &'static str = "# Finishing the job\n\
When the user asks you to build, run, or verify something, the deliverable is a working artifact \
backed by real `exec` output — not a plan. Do not stop after one command if more work is needed. \
If a command fails, say so and try an alternative. NEVER invent stdout, exit codes, or file contents.";

/// How workspace memory files are used.
pub const MEMORY_HINT: &'static str = "# User memory (workspace files)\n\
`MEMORY.md` and files under `memory/` are injected below when present. They persist across CLI sessions. \
When the user asks what you remembered, what \"codeword\" / \"code word\" / «кодовое слово» they meant, \
or refers to something they asked to save — answer from these files first, then session history. \
For new facts to remember: append to `MEMORY.md` or `memory/` (e.g. `memory/words.txt`), not chat-only.";

/// Execution discipline.
pub const EXEC_DISCIPLINE: &'static str = "# Execution discipline\n\
- Use `exec` for arithmetic, hashes, current time/date, system state, and git state — \
not guesswork.\n\
- Injected memory files and prior `exec` output in this session are authoritative for stored user facts.\n\
- Check prerequisites before destructive or wide-reaching changes.\n\
- Verify results before claiming done.\n\
- If required context is missing, use `exec` to discover it; ask the user only when tools cannot.";

/// How to schedule work.
pub const SCHEDULING_HINT: &'static str = "# Scheduling\n\
Use the `schedule` tool for one-shot delayed work (reminders, \"message me in 5 minutes\", run a prompt later). \
`delay_seconds` + `prompt`; optional `deliver_message` for the exact text to send. \
Recurring jobs are in `config.yaml` under `cron.jobs`; run `bobaclaw scheduler start` as a daemon. \
Do not tell the user you lack a scheduler — use `schedule` or explain cron config.";

/// How skills are used.
pub const SKILLS_HINT: &'static str = "# Skills\n\
When a skill matches the request, follow its SKILL.md. \
After a non-trivial success, consider capturing the workflow as a skill for reuse.";

/// Reply language.
pub const LANGUAGE_HINT: &'static str = "# Language\n\
System instructions are in English. Reply in the same language the user writes in unless they ask otherwise.";

/// Reply tone.
pub const TONE_HINT: &'static str = "# Tone\n\
Plain professional prose. Do not use emoji or emoticons unless the user explicitly asks for them. \
No filler praise, no capability ads, no \"As an AI…\".";

/// Where shell commands run.
pub const EXEC_SANDBOX_HINT: &'static str = "Use the `exec` tool for shell in the bubblewrap sandbox.";

/// Most characters injected from `memory/*` (besides `MEMORY.md`).
pub const MEMORY_DIR_MAX_CHARS: usize = 8_000;

/// The stable parts of the system prompt, before the workspace files.
pub open spec fn stable_parts(workspace: Seq<char>, skill_names: Seq<Seq<char>>) -> Seq<Seq<char>> {
    let base = seq![
        BOBACLAW_IDENTITY@ + "\n\nWorkspace (sandbox cwd): "@ + workspace,
        LANGUAGE_HINT@,
        TONE_HINT@,
        TOOL_USE_ENFORCEMENT@,
        TASK_COMPLETION@,
        EXEC_DISCIPLINE@,
        MEMORY_HINT@,
        SCHEDULING_HINT@,
        SKILLS_HINT@,
        EXEC_SANDBOX_HINT@,
    ];
    if skill_names.len() > 0 {
        base.push("Installed skills (check SKILL.md when relevant): "@ + join(skill_names, ", "@) + "."@)
    } else {
        base
    }
}

/// The system prompt: the stable parts, then the loaded workspace files under
/// a `# Project Context` heading when there are any.
pub open spec fn system_prompt(workspace: Seq<char>, skill_names: Seq<Seq<char>>, sections: Seq<Seq<char>>) -> Seq<char> {
    let stable = join(stable_parts(workspace, skill_names), "\n\n"@);
    if sections.len() > 0 {
        stable + "\n\n# Project Context\n\n"@ + "The following workspace files are loaded and must be followed:\n\n"@
            + join(sections, "\n\n"@)
    } else {
        stable
    }
}

fn string_views(v: &Vec<String>) -> (r: Vec<Vec<char>>)
    ensures
        views(r@) == v@.map_values(|s: String| s@),
{
    let mut out: Vec<Vec<char>> = Vec::new();
    let mut i: usize = 0;
    while i < v.len()
        invariant
            i <= v.len(),
            views(out@) == v@.take(i as int).map_values(|s: String| s@),
        decreases v.len() - i,
    {
        let c = to_chars(v[i].as_str());
        proof {
            lemma_views_push(out@, c);
            assert(v@.take(i + 1).map_values(|s: String| s@) =~= v@.take(i as int).map_values(
                |s: String| s@,
            ).push(c@));
        }
        out.push(c);
        i += 1;
    }
    assert(v@.take(v.len() as int) =~= v@);
    out
}

/// Assembles the system prompt from the workspace path, the installed skills
/// and the workspace file sections (see [`workspace_file_section`]).
pub fn build_system_prompt(workspace: &str, skill_names: &Vec<String>, sections: &Vec<String>) -> (r: String)
    ensures
        r@ == system_prompt(
            workspace@,
            skill_names@.map_values(|s: String| s@),
            sections@.map_values(|s: String| s@),
        ),
{
    let mut first = to_chars(BOBACLAW_IDENTITY);
    append_str(&mut first, "\n\nWorkspace (sandbox cwd): ");
    append_str(&mut first, workspace);
    let mut stable: Vec<Vec<char>> = Vec::new();
    stable.push(first);
    stable.push(to_chars(LANGUAGE_HINT));
    stable.push(to_chars(TONE_HINT));
    stable.push(to_chars(TOOL_USE_ENFORCEMENT));
    stable.push(to_chars(TASK_COMPLETION));
    stable.push(to_chars(EXEC_DISCIPLINE));
    stable.push(to_chars(MEMORY_HINT));
    stable.push(to_chars(SCHEDULING_HINT));
    stable.push(to_chars(SKILLS_HINT));
    stable.push(to_chars(EXEC_SANDBOX_HINT));
    let ghost names = skill_names@.map_values(|s: String| s@);
    if skill_names.len() > 0 {
        let nv = string_views(skill_names);
        let sep = to_chars(", ");
        let mut line = to_chars("Installed skills (check SKILL.md when relevant): ");
        let joined = join_chars(&nv, &sep);
        append_slice(&mut line, &joined);
        append_str(&mut line, ".");
        stable.push(line);
    }
    assert(views(stable@) =~= stable_parts(workspace@, names));
    let sep2 = to_chars("\n\n");
    let mut out = join_chars(&stable, &sep2);
    if sections.len() > 0 {
        append_str(&mut out, "\n\n# Project Context\n\n");
        append_str(&mut out, "The following workspace files are loaded and must be followed:\n\n");
        let sv = string_views(sections);
        let joined = join_chars(&sv, &sep2);
        append_slice(&mut out, &joined);
    }
    from_chars(&out)
}

/// A loaded workspace file under its own heading.
pub open spec fn file_section(name: Seq<char>, body: Seq<char>) -> Seq<char> {
    "## "@ + name + "\n"@ + body
}

/// `## name` followed by the file's (prepared) body.
pub fn workspace_file_section(name: &str, body: &str) -> (r: String)
    ensures
        r@ == file_section(name@, body@),
{
    let mut out = to_chars("## ");
    append_str(&mut out, name);
    append_str(&mut out, "\n");
    append_str(&mut out, body);
    from_chars(&out)
}

/// A workspace file's body as injected: trimmed, front matter dropped; `None`
/// when nothing is left.
pub open spec fn prepared_body(raw: Seq<char>) -> Option<Seq<char>> {
    let b = without_frontmatter(trim(raw));
    if b.len() == 0 {
        None
    } else {
        Some(b)
    }
}

/// Trims a workspace file and drops its front matter; `None` for an empty result.
pub fn prepare_context_body(raw: &str) -> (r: Option<String>)
    ensures
        match r {
            Some(b) => prepared_body(raw@) == Some(b@),
            None => prepared_body(raw@) is None,
        },
{
    let t = from_chars(&trim_chars(&to_chars(raw)));
    let b = strip_yaml_frontmatter(t.as_str());
    if b.as_str().is_empty() {
        None
    } else {
        Some(b)
    }
}

/// Whether a context file is longer than the injection cap.
pub fn needs_context_truncation(content: &str) -> (r: bool)
    ensures
        r == (content@.len() > CONTEXT_FILE_MAX_CHARS),
{
    to_chars(content).len() > CONTEXT_FILE_MAX_CHARS
}

/// The hint that replaces the middle of a truncated context file.
pub fn context_truncation_hint(filename: &str) -> (r: String)
    ensures
        r@ == "truncated "@ + filename@ + " (20000 char cap). Use exec to read the full file"@,
{
    let mut out = to_chars("truncated ");
    append_str(&mut out, filename);
    append_str(&mut out, " (20000 char cap). Use exec to read the full file");
    from_chars(&out)
}

/// Sections of the `memory/` files (name and injected body, newest first):
/// files are taken while the character budget lasts; each taken file spends
/// its body's length.
pub open spec fn memory_sections(files: Seq<(Seq<char>, Seq<char>)>, budget: nat) -> Seq<Seq<char>>
    decreases files.len(),
{
    if files.len() == 0 || budget == 0 {
        Seq::empty()
    } else {
        let (name, body) = files[0];
        let left = if body.len() >= budget { 0 } else { (budget - body.len()) as nat };
        seq![file_section("memory/"@ + name, body)] + memory_sections(files.drop_first(), left)
    }
}

/// The sections of the `memory/` directory files, given each file's name and
/// its injected (prepared, truncated) body, newest first.
pub fn memory_dir_sections(files: &Vec<(String, String)>) -> (r: Vec<String>)
    ensures
        r@.map_values(|s: String| s@) == memory_sections(
            files@.map_values(|f: (String, String)| (f.0@, f.1@)),
            MEMORY_DIR_MAX_CHARS as nat,
        ),
{
    let ghost fs = files@.map_values(|f: (String, String)| (f.0@, f.1@));
    let mut out: Vec<String> = Vec::new();
    let mut budget: usize = MEMORY_DIR_MAX_CHARS;
    let mut i: usize = 0;
    assert(fs.skip(0) =~= fs);
    assert(out@.map_values(|s: String| s@) =~= Seq::<Seq<char>>::empty());
    while i < files.len() && budget > 0
        invariant
            i <= files.len(),
            fs == files@.map_values(|f: (String, String)| (f.0@, f.1@)),
            out@.map_values(|s: String| s@) + memory_sections(fs.skip(i as int), budget as nat)
                == memory_sections(fs, MEMORY_DIR_MAX_CHARS as nat),
        decreases files.len() - i,
    {
        let mut rel = to_chars("memory/");
        append_str(&mut rel, files[i].0.as_str());
        let n = to_chars(files[i].1.as_str()).len();
        let section = workspace_file_section(from_chars(&rel).as_str(), files[i].1.as_str());
        let ghost before = out@;
        proof {
            assert(fs.skip(i as int)[0] == fs[i as int]);
            assert(fs.skip(i as int).drop_first() =~= fs.skip(i + 1));
        }
        out.push(section);
        budget = if n >= budget { 0 } else { budget - n };
        assert(out@.map_values(|s: String| s@) =~= before.map_values(|s: String| s@).push(section@));
        i += 1;
    }
    proof {
        if i == files.len() {
            assert(fs.skip(i as int) =~= Seq::<(Seq<char>, Seq<char>)>::empty());
        }
        assert(memory_sections(fs.skip(i as int), budget as nat) =~= Seq::<Seq<char>>::empty());
    }
    assert(out@.map_values(|s: String| s@) + Seq::<Seq<char>>::empty() =~= out@.map_values(|s: String| s@));
    out
}

/// The system prompt with a matched skill appended.
pub open spec fn with_skill(system: Seq<char>, name: Seq<char>, body: Seq<char>) -> Seq<char> {
    system + "\n\nMatched skill `"@ + name + "`:\n"@ + body
}

/// Appends the skill that matches the request to the system prompt text.
pub fn with_matched_skill(system: &str, name: &str, body: &str) -> (r: String)
    ensures
        r@ == with_skill(system@, name@, body@),
{
    let mut out = to_chars(system);
    append_str(&mut out, "\n\nMatched skill `");
    append_str(&mut out, name);
    append_str(&mut out, "`:\n");
    append_str(&mut out, body);
    from_chars(&out)
}

} // verus!
