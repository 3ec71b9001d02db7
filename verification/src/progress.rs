//! Agent progress events and their human-readable rendering (CLI spinner,
//! Telegram activity log).

use vstd::prelude::*;

use crate::text::{
    append_slice, append_str, char_utf8_width, first_ws, is_ws, lemma_first_ws_at, lemma_join_prepend,
    lemma_first_ws_bounds, decimal, ellipsize, ellipsize_chars, from_chars, i64_decimal, int_decimal, join, join_chars, lemma_views_push, lines, slice_of, split_lines, split_words, to_chars, trim, trim_chars, u64_decimal, utf8_len, utf8_len_chars, views, words,
};

verus! {

/// Live status for CLI / TUI (thinking, tool calls).
#[derive(Debug, Clone)]
pub enum AgentEvent {
    /// Calling the LLM (tool-loop iteration).
    LlmThinking { iteration: u32 },
    /// About to run a tool.
    ToolStart { name: String, label: String },
    /// Tool finished.
    ToolEnd { name: String, exit_code: i32, preview: String },
    /// Context compaction (LLM summary).
    Compacting { tokens: u32 },
    /// Partial assistant text (channel streaming).
    AssistantChunk { text: String },
    /// Model ended the tool loop without user-visible text; asking again.
    EmptyResponseRetry { attempt: u32, max_attempts: u32 },
    /// User or operator cancelled the in-flight turn.
    Interrupted,
    /// Subagent delegation started.
    SubagentStart { id: String, label: String },
    /// Subagent delegation finished.
    SubagentEnd { id: String, exit_code: i32, preview: String },
}

/// Receiver of agent progress events (implemented by channels).
pub trait AgentProgress {
    fn on_event(&self, event: AgentEvent);
}

/// Forward `event` to the progress sink, if there is one.
pub fn emit(progress: Option<&dyn AgentProgress>, event: AgentEvent) {
    if let Some(p) = progress {
        p.on_event(event);
    }
}

/// Separator between steps of the activity log.
pub open spec fn step_sep() -> Seq<char> {
    "────────"@
}

/// Retry budget shown in the "retrying summary" step.
pub const MAX_EMPTY_RESPONSE_RETRIES: u32 = 3;

// ---------------------------------------------------------------------------
// Tag stripping and previews
// ---------------------------------------------------------------------------

/// After reading `s`, whether the scanner is inside a `<...>` tag.
pub open spec fn in_tag_after(s: Seq<char>) -> bool
    decreases s.len(),
{
    if s.len() == 0 {
        false
    } else if s.last() == '<' {
        true
    } else if s.last() == '>' {
        false
    } else {
        in_tag_after(s.drop_last())
    }
}

/// `s` with `<` and `>` removed and every character between a `<` and the
/// next `>` dropped.
pub open spec fn strip_tags(s: Seq<char>) -> Seq<char>
    decreases s.len(),
{
    if s.len() == 0 {
        Seq::empty()
    } else {
        let prev = strip_tags(s.drop_last());
        let c = s.last();
        if c == '<' || c == '>' || in_tag_after(s.drop_last()) {
            prev
        } else {
            prev.push(c)
        }
    }
}

/// Executable [`strip_tags`].
pub fn strip_html_tags_chars(s: &[char]) -> (r: Vec<char>)
    ensures
        r@ == strip_tags(s@),
{
    let mut out: Vec<char> = Vec::new();
    let mut in_tag = false;
    let mut i: usize = 0;
    assert(s@.take(0) =~= Seq::<char>::empty());
    while i < s.len()
        invariant
            i <= s.len(),
            out@ == strip_tags(s@.take(i as int)),
            in_tag == in_tag_after(s@.take(i as int)),
        decreases s.len() - i,
    {
        let c = s[i];
        proof {
            assert(s@.take(i + 1).drop_last() =~= s@.take(i as int));
            assert(s@.take(i + 1).last() == c);
        }
        if c == '<' {
            in_tag = true;
        } else if c == '>' {
            in_tag = false;
        } else if !in_tag {
            out.push(c);
        }
        i += 1;
    }
    assert(s@.take(s.len() as int) =~= s@);
    out
}

/// Strip HTML-ish noise, collapse whitespace to single spaces, and cap at
/// `max` characters (the `sanitize_status_text` model).
pub open spec fn sanitized(s: Seq<char>, max: nat) -> Seq<char> {
    ellipsize(join(words(strip_tags(s)), " "@), max)
}

/// No `<` or `>` in `x`.
pub open spec fn no_angle(x: Seq<char>) -> bool {
    forall|i: int| 0 <= i < x.len() ==> x[i] != '<' && x[i] != '>'
}

/// No whitespace in `x`.
pub open spec fn no_ws(x: Seq<char>) -> bool {
    forall|i: int| 0 <= i < x.len() ==> !is_ws(x[i])
}

/// Words separated by single spaces, nothing around them.
pub open spec fn single_spaced(x: Seq<char>) -> bool {
    x.len() > 0 ==> {
        &&& !is_ws(x[0])
        &&& !is_ws(x.last())
        &&& forall|i: int| 0 <= i < x.len() && is_ws(#[trigger] x[i]) ==> x[i] == ' ' && i + 1 < x.len()
            && !is_ws(x[i + 1])
    }
}

proof fn lemma_not_in_tag(x: Seq<char>)
    requires
        no_angle(x),
    ensures
        !in_tag_after(x),
    decreases x.len(),
{
    if x.len() > 0 {
        lemma_not_in_tag(x.drop_last());
    }
}

proof fn lemma_strip_plain(x: Seq<char>)
    requires
        no_angle(x),
    ensures
        strip_tags(x) == x,
    decreases x.len(),
{
    if x.len() > 0 {
        lemma_strip_plain(x.drop_last());
        lemma_not_in_tag(x.drop_last());
        assert(x.drop_last().push(x.last()) =~= x);
    }
}

proof fn lemma_strip_no_angle(x: Seq<char>)
    ensures
        no_angle(strip_tags(x)),
    decreases x.len(),
{
    if x.len() > 0 {
        lemma_strip_no_angle(x.drop_last());
    }
}

proof fn lemma_words_plain(x: Seq<char>)
    requires
        no_angle(x),
    ensures
        forall|i: int| 0 <= i < words(x).len() ==> #[trigger] words(x)[i].len() > 0 && no_ws(words(x)[i])
            && no_angle(words(x)[i]),
    decreases x.len(),
{
    if x.len() > 0 {
        if is_ws(x[0]) {
            assert forall|i: int| 0 <= i < x.drop_first().len() implies x.drop_first()[i] != '<'
                && x.drop_first()[i] != '>' by {
                assert(x.drop_first()[i] == x[i + 1]);
            }
            lemma_words_plain(x.drop_first());
            assert(words(x) == words(x.drop_first()));
        } else {
            lemma_first_ws_bounds(x);
            let k = first_ws(x);
            assert forall|i: int| 0 <= i < x.skip(k).len() implies x.skip(k)[i] != '<' && x.skip(k)[i]
                != '>' by {
                assert(x.skip(k)[i] == x[i + k]);
            }
            lemma_words_plain(x.skip(k));
            let w = words(x);
            assert(w == seq![x.take(k)] + words(x.skip(k)));
            assert forall|i: int| 0 <= i < w.len() implies #[trigger] w[i].len() > 0 && no_ws(w[i]) && no_angle(
                w[i],
            ) by {
                if i > 0 {
                    assert(w[i] == words(x.skip(k))[i - 1]);
                } else {
                    assert(w[0] == x.take(k));
                    assert forall|j: int| 0 <= j < k implies !is_ws(x.take(k)[j]) by {
                        lemma_first_ws_prefix(x, j);
                    }
                    assert forall|j: int| 0 <= j < k implies x.take(k)[j] != '<' && x.take(k)[j] != '>' by {
                        assert(x.take(k)[j] == x[j]);
                    }
                }
            }
        }
    }
}

proof fn lemma_first_ws_prefix(x: Seq<char>, j: int)
    requires
        0 <= j < first_ws(x),
    ensures
        !is_ws(x[j]),
    decreases x.len(),
{
    lemma_first_ws_bounds(x);
    if j > 0 {
        lemma_first_ws_prefix(x.drop_first(), j - 1);
    }
}

proof fn lemma_join_single_spaced(ws: Seq<Seq<char>>)
    requires
        forall|i: int| 0 <= i < ws.len() ==> #[trigger] ws[i].len() > 0 && no_ws(ws[i]) && no_angle(ws[i]),
    ensures
        single_spaced(join(ws, " "@)),
        no_angle(join(ws, " "@)),
        ws.len() > 0 ==> join(ws, " "@).len() > 0,
    decreases ws.len(),
{
    reveal_strlit(" ");
    if ws.len() == 1 {
        assert(ws[0].len() > 0);
    } else if ws.len() > 1 {
        let p = ws.drop_last();
        lemma_join_single_spaced(p);
        let a = join(p, " "@);
        let l = ws.last();
        assert(ws[ws.len() - 1].len() > 0 && no_ws(l) && no_angle(l));
        let j = a + " "@ + l;
        assert(join(ws, " "@) == j);
        assert forall|i: int| 0 <= i < j.len() && is_ws(#[trigger] j[i]) implies j[i] == ' ' && i + 1 < j.len()
            && !is_ws(j[i + 1]) by {
            if i < a.len() {
                assert(j[i] == a[i]);
                if i + 1 < a.len() {
                    assert(j[i + 1] == a[i + 1]);
                }
            } else if i > a.len() {
                assert(j[i] == l[i - a.len() - 1]);
            } else {
                assert(j[i + 1] == l[0]);
            }
        }
        assert(j[0] == a[0]);
        assert(j.last() == l.last());
        assert forall|i: int| 0 <= i < j.len() implies j[i] != '<' && j[i] != '>' by {
            if i < a.len() {
                assert(j[i] == a[i]);
            } else if i > a.len() {
                assert(j[i] == l[i - a.len() - 1]);
            }
        }
    }
}

proof fn lemma_words_of_single_spaced(x: Seq<char>)
    requires
        single_spaced(x),
    ensures
        join(words(x), " "@) == x,
        x.len() > 0 ==> words(x).len() > 0,
    decreases x.len(),
{
    reveal_strlit(" ");
    if x.len() > 0 {
        lemma_first_ws_bounds(x);
        let k = first_ws(x);
        if k < x.len() {
            assert(is_ws(x[k])) by {
                if !is_ws(x[k]) {
                    lemma_first_ws_not_ws(x);
                }
            }
            let rest = x.skip(k + 1);
            assert(x[k] == ' ');
            assert(x.skip(k).drop_first() =~= rest);
            assert forall|i: int| 0 <= i < rest.len() && is_ws(#[trigger] rest[i]) implies rest[i] == ' ' && i
                + 1 < rest.len() && !is_ws(rest[i + 1]) by {
                assert(rest[i] == x[i + k + 1]);
                assert(is_ws(x[i + k + 1]));
            }
            assert(rest[0] == x[k + 1]);
            assert(rest.last() == x.last());
            lemma_words_of_single_spaced(rest);
            assert(x.skip(k)[0] == x[k]);
            assert(words(x.skip(k)) == words(x.skip(k).drop_first()));
            assert(words(x) == seq![x.take(k)] + words(x.skip(k)));
            assert(words(x) == seq![x.take(k)] + words(rest));
            lemma_join_prepend(x.take(k), words(rest), " "@);
            assert(x.take(k) + " "@ + rest =~= x);
        } else {
            assert(x.skip(k) =~= Seq::<char>::empty());
            assert(words(x.skip(k)) =~= Seq::<Seq<char>>::empty());
            assert(x.take(k) =~= x);
            assert(words(x) == seq![x.take(k)] + words(x.skip(k)));
            assert(words(x) =~= seq![x]);
            assert(join(seq![x], " "@) == x);
        }
    }
}

proof fn lemma_first_ws_not_ws(x: Seq<char>)
    requires
        first_ws(x) < x.len(),
    ensures
        is_ws(x[first_ws(x)]),
    decreases x.len(),
{
    lemma_first_ws_bounds(x);
    if x.len() > 0 && !is_ws(x[0]) {
        lemma_first_ws_bounds(x.drop_first());
        lemma_first_ws_not_ws(x.drop_first());
        assert(x[first_ws(x)] == x.drop_first()[first_ws(x.drop_first())]);
    }
}

/// A sanitized status text is its own sanitized form: it holds no `<`, `>`
/// or line break, and at most `max` characters and an ellipsis.
pub proof fn lemma_sanitized_stable(s: Seq<char>, max: nat)
    ensures
        sanitized(sanitized(s, max), max) == sanitized(s, max),
        no_angle(sanitized(s, max)),
        !sanitized(s, max).contains('\n'),
        sanitized(s, max).len() <= max + 1,
{
    let y = strip_tags(s);
    lemma_strip_no_angle(s);
    lemma_words_plain(y);
    let jj = join(words(y), " "@);
    lemma_join_single_spaced(words(y));
    let r = sanitized(s, max);
    assert(r == ellipsize(jj, max));
    assert('…' != '<' && '…' != '>' && !is_ws('…'));
    if jj.len() <= max {
        lemma_strip_plain(jj);
        lemma_words_of_single_spaced(jj);
    } else {
        assert(r == jj.take(max as int).push('…'));
        assert(single_spaced(r)) by {
            assert forall|i: int| 0 <= i < r.len() && is_ws(#[trigger] r[i]) implies r[i] == ' ' && i + 1 < r.len()
                && !is_ws(r[i + 1]) by {
                assert(r[i] == jj[i]);
                if i + 1 < max {
                    assert(r[i + 1] == jj[i + 1]);
                }
            }
            if max > 0 {
                assert(r[0] == jj[0]);
            }
        }
        assert(no_angle(r)) by {
            assert forall|i: int| 0 <= i < r.len() implies r[i] != '<' && r[i] != '>' by {
                if i < max {
                    assert(r[i] == jj[i]);
                }
            }
        }
        lemma_strip_plain(r);
        lemma_words_of_single_spaced(r);
        assert(r.take(max as int) =~= jj.take(max as int));
    }
    assert(!r.contains('\n')) by {
        if r.contains('\n') {
            let i = choose|i: int| 0 <= i < r.len() && r[i] == '\n';
            assert(is_ws(r[i]));
        }
    }
}

/// Strip HTML-ish noise from tool output before optional previews.
pub fn sanitize_status_text(s: &str, max: usize) -> (r: String)
    ensures
        r@ == sanitized(s@, max as nat),
{
    let cs = to_chars(s);
    let r = sanitize_status_chars(&cs, max);
    from_chars(&r)
}

/// [`sanitize_status_text`] over characters.
pub fn sanitize_status_chars(s: &[char], max: usize) -> (r: Vec<char>)
    ensures
        r@ == sanitized(s@, max as nat),
{
    let stripped = strip_html_tags_chars(s);
    let ws = split_words(&stripped);
    let sp = to_chars(" ");
    let flat = join_chars(&ws, &sp);
    ellipsize_chars(&flat, max)
}

/// The shortest suffix of `s` (dropping whole characters from the front)
/// whose UTF-8 length is at most `max_bytes`.
pub open spec fn tail_bytes(s: Seq<char>, max_bytes: nat) -> Seq<char>
    decreases s.len(),
{
    if utf8_len(s) <= max_bytes || s.len() == 0 {
        s
    } else {
        tail_bytes(s.drop_first(), max_bytes)
    }
}

/// Keep the last `max_bytes` bytes of `s`, starting at a character boundary.
pub fn truncate_tail_bytes(s: &[char], max_bytes: usize) -> (r: Vec<char>)
    requires
        s.len() <= usize::MAX / 4,
    ensures
        r@ == tail_bytes(s@, max_bytes as nat),
        utf8_len(r@) <= max_bytes,
{
    let mut remaining = utf8_len_chars(s);
    let mut start: usize = 0;
    assert(s@.skip(0) =~= s@);
    while remaining > max_bytes && start < s.len()
        invariant
            start <= s.len() <= usize::MAX / 4,
            remaining == utf8_len(s@.skip(start as int)),
            tail_bytes(s@, max_bytes as nat) == tail_bytes(s@.skip(start as int), max_bytes as nat),
        decreases s.len() - start,
    {
        proof {
            let t = s@.skip(start as int);
            assert(t.drop_first() =~= s@.skip(start + 1));
            assert(t[0] == s@[start as int]);
        }
        remaining = remaining - char_utf8_width(s[start]);
        start += 1;
    }
    proof {
        let t = s@.skip(start as int);
        if start == s.len() {
            assert(t.len() == 0);
            assert(utf8_len(t) == 0);
        }
    }
    let r = slice_of(s, start, s.len());
    assert(r@ =~= s@.skip(start as int));
    r
}

// ---------------------------------------------------------------------------
// Step blocks
// ---------------------------------------------------------------------------

/// "Finished {name} (ok)" or "Finished {name} (exit {code})".
pub open spec fn finished_status(name: Seq<char>, exit_code: i32) -> Seq<char> {
    if exit_code == 0 {
        "Finished "@ + name + " (ok)"@
    } else {
        "Finished "@ + name + " (exit "@ + int_decimal(exit_code as int) + ")"@
    }
}

/// One indented preview line of a tool-end block.
pub open spec fn indented_line(l: Seq<char>) -> Seq<char> {
    "  "@ + sanitized(l, 120)
}

/// The multi-line block for the assistant text of a step: at most twelve
/// lines, at most 600 characters.
pub open spec fn assistant_block(text: Seq<char>) -> Seq<char> {
    let t = trim(text);
    if t.len() == 0 {
        Seq::empty()
    } else {
        let ls = lines(t);
        ellipsize(join(if ls.len() <= 12 { ls } else { ls.take(12) }, "\n"@), 600)
    }
}

/// The activity-log block of one event (`format_step_block`).
pub open spec fn step_block(e: AgentEvent) -> Seq<char> {
    match e {
        AgentEvent::LlmThinking { iteration } => "Thinking… (step "@ + decimal(iteration as nat)
            + ")"@,
        AgentEvent::ToolStart { name, label } => "Running "@ + name@ + "\n  $ "@ + sanitized(
            label@,
            120,
        ),
        AgentEvent::ToolEnd { name, exit_code, preview } => {
            let status = finished_status(name@, exit_code);
            let p = trim(preview@);
            if p.len() == 0 {
                status
            } else {
                status + "\n"@ + join(lines(p).map_values(|l: Seq<char>| indented_line(l)), "\n"@)
            }
        },
        AgentEvent::Compacting { tokens } => if tokens > 0 {
            "Compacting context (~"@ + decimal(tokens as nat) + " tokens)…"@
        } else {
            "Compacting context…"@
        },
        AgentEvent::AssistantChunk { text } => assistant_block(text@),
        AgentEvent::EmptyResponseRetry { attempt, max_attempts } => "No reply text yet — retrying summary ("@
            + decimal(attempt as nat) + "/"@ + decimal(MAX_EMPTY_RESPONSE_RETRIES as nat) + ")"@,
        AgentEvent::Interrupted => "⚡ Прервано"@,
        AgentEvent::SubagentStart { id, label } => "Subagent `"@ + label@ + "` starting…"@,
        AgentEvent::SubagentEnd { id, exit_code, preview } => {
            let status = if exit_code == 0 {
                "Subagent `"@ + id@ + "` finished (ok)"@
            } else {
                "Subagent `"@ + id@ + "` failed (exit "@ + int_decimal(exit_code as int) + ")"@
            };
            let p = trim(preview@);
            if p.len() == 0 {
                status
            } else {
                status + "\n  "@ + sanitized(p, 120)
            }
        },
    }
}

fn finished_status_chars(name: &String, exit_code: i32) -> (r: Vec<char>)
    ensures
        r@ == finished_status(name@, exit_code),
{
    let mut r: Vec<char> = Vec::new();
    append_str(&mut r, "Finished ");
    append_str(&mut r, name.as_str());
    if exit_code == 0 {
        append_str(&mut r, " (ok)");
    } else {
        append_str(&mut r, " (exit ");
        let d = i64_decimal(exit_code as i64);
        append_slice(&mut r, &d);
        append_str(&mut r, ")");
    }
    r
}

fn indented_preview(p: &[char]) -> (r: Vec<char>)
    ensures
        r@ == join(lines(p@).map_values(|l: Seq<char>| indented_line(l)), "\n"@),
{
    let ls = split_lines(p);
    let mut out: Vec<Vec<char>> = Vec::new();
    let mut i: usize = 0;
    while i < ls.len()
        invariant
            i <= ls.len(),
            views(ls@) == lines(p@),
            views(out@) =~= lines(p@).take(i as int).map_values(|l: Seq<char>| indented_line(l)),
        decreases ls.len() - i,
    {
        let mut line: Vec<char> = Vec::new();
        append_str(&mut line, "  ");
        let s = sanitize_status_chars(&ls[i], 120);
        append_slice(&mut line, &s);
        proof {
            lemma_views_push(out@, line);
            assert(views(ls@)[i as int] == ls@[i as int]@);
            assert(lines(p@).take(i + 1).map_values(|l: Seq<char>| indented_line(l)) =~= lines(
                p@,
            ).take(i as int).map_values(|l: Seq<char>| indented_line(l)).push(line@));
        }
        out.push(line);
        i += 1;
    }
    let nl = to_chars("\n");
    assert(lines(p@).take(ls.len() as int) =~= lines(p@));
    join_chars(&out, &nl)
}

fn assistant_block_chars(text: &String) -> (r: Vec<char>)
    ensures
        r@ == assistant_block(text@),
{
    let tc = to_chars(text.as_str());
    let t = trim_chars(&tc);
    if t.len() == 0 {
        return Vec::new();
    }
    let mut ls = split_lines(&t);
    if ls.len() > 12 {
        ls.truncate(12);
        assert(views(ls@) =~= lines(trim(text@)).take(12));
    }
    let nl = to_chars("\n");
    let joined = join_chars(&ls, &nl);
    ellipsize_chars(&joined, 600)
}

/// [`format_step_block`] over characters.
pub fn step_block_chars(event: &AgentEvent) -> (r: Vec<char>)
    ensures
        r@ == step_block(*event),
{
    let mut r: Vec<char> = Vec::new();
    match event {
        AgentEvent::LlmThinking { iteration } => {
            append_str(&mut r, "Thinking… (step ");
            let d = u64_decimal(*iteration as u64);
            append_slice(&mut r, &d);
            append_str(&mut r, ")");
        },
        AgentEvent::ToolStart { name, label } => {
            append_str(&mut r, "Running ");
            append_str(&mut r, name.as_str());
            append_str(&mut r, "\n  $ ");
            let lc = to_chars(label.as_str());
            let s = sanitize_status_chars(&lc, 120);
            append_slice(&mut r, &s);
        },
        AgentEvent::ToolEnd { name, exit_code, preview } => {
            r = finished_status_chars(name, *exit_code);
            let pc = to_chars(preview.as_str());
            let p = trim_chars(&pc);
            if p.len() > 0 {
                append_str(&mut r, "\n");
                let ind = indented_preview(&p);
                append_slice(&mut r, &ind);
            }
        },
        AgentEvent::Compacting { tokens } => {
            if *tokens > 0 {
                append_str(&mut r, "Compacting context (~");
                let d = u64_decimal(*tokens as u64);
                append_slice(&mut r, &d);
                append_str(&mut r, " tokens)…");
            } else {
                append_str(&mut r, "Compacting context…");
            }
        },
        AgentEvent::AssistantChunk { text } => {
            r = assistant_block_chars(text);
        },
        AgentEvent::EmptyResponseRetry { attempt, max_attempts } => {
            append_str(&mut r, "No reply text yet — retrying summary (");
            let d = u64_decimal(*attempt as u64);
            append_slice(&mut r, &d);
            append_str(&mut r, "/");
            let m = u64_decimal(MAX_EMPTY_RESPONSE_RETRIES as u64);
            append_slice(&mut r, &m);
            append_str(&mut r, ")");
        },
        AgentEvent::Interrupted => {
            append_str(&mut r, "⚡ Прервано");
        },
        AgentEvent::SubagentStart { id, label } => {
            append_str(&mut r, "Subagent `");
            append_str(&mut r, label.as_str());
            append_str(&mut r, "` starting…");
        },
        AgentEvent::SubagentEnd { id, exit_code, preview } => {
            append_str(&mut r, "Subagent `");
            append_str(&mut r, id.as_str());
            if *exit_code == 0 {
                append_str(&mut r, "` finished (ok)");
            } else {
                append_str(&mut r, "` failed (exit ");
                let d = i64_decimal(*exit_code as i64);
                append_slice(&mut r, &d);
                append_str(&mut r, ")");
            }
            let pc = to_chars(preview.as_str());
            let p = trim_chars(&pc);
            if p.len() > 0 {
                append_str(&mut r, "\n  ");
                let s = sanitize_status_chars(&p, 120);
                append_slice(&mut r, &s);
            }
        },
    }
    r
}

/// Multi-line block for one agent step (appended to the activity log).
pub fn format_step_block(event: &AgentEvent) -> (r: String)
    ensures
        r@ == step_block(*event),
{
    let cs = step_block_chars(event);
    from_chars(&cs)
}

/// One-line status of an event (`format_status_line`).
pub open spec fn status_line(e: AgentEvent) -> Seq<char> {
    match e {
        AgentEvent::ToolEnd { name, exit_code, preview } => {
            let status = finished_status(name@, exit_code);
            let p = trim(preview@);
            if p.len() == 0 {
                status
            } else {
                status + ": "@ + sanitized(p, 56)
            }
        },
        _ => {
            let ls = lines(step_block(e));
            if ls.len() == 0 {
                "Working…"@
            } else {
                ls[0]
            }
        },
    }
}

/// One-line status for CLI / logs.
pub fn format_status_line(event: &AgentEvent) -> (r: String)
    ensures
        r@ == status_line(*event),
{
    match event {
        AgentEvent::ToolEnd { name, exit_code, preview } => {
            let mut r = finished_status_chars(name, *exit_code);
            let pc = to_chars(preview.as_str());
            let p = trim_chars(&pc);
            if p.len() > 0 {
                append_str(&mut r, ": ");
                let s = sanitize_status_chars(&p, 56);
                append_slice(&mut r, &s);
            }
            from_chars(&r)
        },
        _ => {
            let block = step_block_chars(event);
            let ls = split_lines(&block);
            if ls.len() == 0 {
                String::from_str("Working…")
            } else {
                assert(views(ls@)[0] == ls@[0]@);
                from_chars(&ls[0])
            }
        },
    }
}

// ---------------------------------------------------------------------------
// Activity log
// ---------------------------------------------------------------------------

/// Accumulates multi-step agent activity for interactive display (CLI / Telegram).
#[derive(Debug, Default)]
pub struct ActivityLog {
    blocks: Vec<String>,
}

/// The blocks of an activity log as character sequences.
pub open spec fn string_views(v: Seq<String>) -> Seq<Seq<char>> {
    Seq::new(v.len(), |i: int| v[i]@)
}

impl View for ActivityLog {
    type V = Seq<Seq<char>>;

    closed spec fn view(&self) -> Seq<Seq<char>> {
        string_views(self.blocks@)
    }
}

/// The rendered activity log: blocks joined by the step separator.
pub open spec fn rendered(blocks: Seq<Seq<char>>) -> Seq<char> {
    join(blocks, "\n"@ + step_sep() + "\n"@)
}

/// The rendered log after a block `b` is recorded, from the rendered log
/// before: the block alone in an empty log, else after a separator.
pub open spec fn rendered_after(before: Seq<char>, b: Seq<char>) -> Seq<char> {
    if b.len() == 0 {
        before
    } else if before.len() == 0 {
        b
    } else {
        before + "\n"@ + step_sep() + "\n"@ + b
    }
}

proof fn lemma_join_len(parts: Seq<Seq<char>>, sep: Seq<char>)
    requires
        parts.len() > 0,
    ensures
        join(parts, sep).len() >= parts[0].len(),
    decreases parts.len(),
{
    if parts.len() > 1 {
        lemma_join_len(parts.drop_last(), sep);
    }
}

/// Recording a block never changes the earlier ones: the rendered log gains
/// the block, after a separator unless the log was empty. A log of non-empty
/// blocks renders empty exactly when it has none.
pub proof fn lemma_push_render(blocks: Seq<Seq<char>>, b: Seq<char>)
    requires
        forall|i: int| 0 <= i < blocks.len() ==> #[trigger] blocks[i].len() > 0,
        b.len() > 0,
    ensures
        (rendered(blocks).len() == 0) == (blocks.len() == 0),
        rendered(blocks.push(b)) == rendered_after(rendered(blocks), b),
{
    if blocks.len() > 0 {
        lemma_join_len(blocks, "\n"@ + step_sep() + "\n"@);
        assert(blocks.push(b).drop_last() =~= blocks);
    } else {
        assert(blocks.push(b) =~= seq![b]);
    }
}

/// The first non-empty trimmed line of `s`, if any.
pub open spec fn first_nonempty_trimmed_line(ls: Seq<Seq<char>>) -> Option<Seq<char>>
    decreases ls.len(),
{
    if ls.len() == 0 {
        None
    } else if trim(ls[0]).len() > 0 {
        Some(trim(ls[0]))
    } else {
        first_nonempty_trimmed_line(ls.drop_first())
    }
}

/// The marker placed in front of a truncated activity log.
pub open spec fn hidden_marker() -> Seq<char> {
    "… (earlier steps hidden)"@
}

/// The activity log kept to a byte budget (`render_truncated`).
pub open spec fn rendered_truncated(blocks: Seq<Seq<char>>, max_bytes: nat) -> Seq<char> {
    let full = rendered(blocks);
    if full.len() == 0 || utf8_len(full) <= max_bytes {
        full
    } else {
        let overhead = utf8_len(hidden_marker()) + utf8_len(step_sep()) + 2;
        let budget: nat = if max_bytes >= overhead {
            (max_bytes - overhead) as nat
        } else {
            0
        };
        hidden_marker() + "\n"@ + step_sep() + "\n"@ + tail_bytes(full, budget)
    }
}

fn strings_to_chars(v: &Vec<String>) -> (r: Vec<Vec<char>>)
    ensures
        views(r@) == string_views(v@),
{
    let mut r: Vec<Vec<char>> = Vec::new();
    let mut i: usize = 0;
    while i < v.len()
        invariant
            i <= v.len(),
            views(r@) =~= string_views(v@).take(i as int),
        decreases v.len() - i,
    {
        let c = to_chars(v[i].as_str());
        proof {
            lemma_views_push(r@, c);
        }
        r.push(c);
        i += 1;
    }
    assert(string_views(v@).take(v.len() as int) =~= string_views(v@));
    r
}

fn sep_chars() -> (r: Vec<char>)
    ensures
        r@ == "\n"@ + step_sep() + "\n"@,
{
    let mut r: Vec<char> = Vec::new();
    append_str(&mut r, "\n");
    append_str(&mut r, "────────");
    append_str(&mut r, "\n");
    r
}

impl ActivityLog {
    /// No recorded block is empty.
    #[verifier::type_invariant]
    spec fn blocks_nonempty(self) -> bool {
        forall|i: int| 0 <= i < self.blocks@.len() ==> #[trigger] self.blocks@[i]@.len() > 0
    }

    pub fn new() -> (r: Self)
        ensures
            r@ == Seq::<Seq<char>>::empty(),
    {
        let r = ActivityLog { blocks: Vec::new() };
        assert(r@ =~= Seq::<Seq<char>>::empty());
        r
    }

    /// Append the block of `event`, unless it renders to nothing.
    pub fn push_event(&mut self, event: &AgentEvent)
        ensures
            step_block(*event).len() == 0 ==> final(self)@ == old(self)@,
            step_block(*event).len() > 0 ==> final(self)@ == old(self)@.push(step_block(*event)),
            rendered(final(self)@) == rendered_after(rendered(old(self)@), step_block(*event)),
    {
        proof {
            use_type_invariant(&*self);
            assert forall|i: int| 0 <= i < old(self)@.len() implies #[trigger] old(self)@[i].len() > 0 by {
                assert(old(self)@[i] == old(self).blocks@[i]@);
            }
            if step_block(*event).len() > 0 {
                lemma_push_render(old(self)@, step_block(*event));
            }
        }
        let block = format_step_block(event);
        if block.as_str().is_empty() {
            return;
        }
        let mut blocks: Vec<String> = Vec::new();
        std::mem::swap(&mut blocks, &mut self.blocks);
        blocks.push(block);
        self.blocks = blocks;
        assert(string_views(self.blocks@) =~= string_views(old(self).blocks@).push(
            step_block(*event),
        ));
    }

    fn blocks_chars(&self) -> (r: Vec<Vec<char>>)
        ensures
            views(r@) == self@,
    {
        strings_to_chars(&self.blocks)
    }

    fn render_chars(&self) -> (r: Vec<char>)
        ensures
            r@ == rendered(self@),
    {
        let bs = self.blocks_chars();
        let sep = sep_chars();
        join_chars(&bs, &sep)
    }

    /// All blocks joined by the step separator.
    pub fn render(&self) -> (r: String)
        ensures
            r@ == rendered(self@),
    {
        let r = self.render_chars();
        from_chars(&r)
    }

    /// Compact one-liner for CLI spinner (last meaningful line).
    pub fn spinner_line(&self) -> (r: String)
        ensures
            self@.len() == 0 ==> r@ == "Working…"@,
            self@.len() > 0 ==> r@ == (match first_nonempty_trimmed_line(lines(self@.last())) {
                Some(l) => l,
                None => "Working…"@,
            }),
    {
        assert(self@.len() == self.blocks@.len());
        if self.blocks.len() == 0 {
            return String::from_str("Working…");
        }
        assert(self@.last() == self.blocks@[self.blocks.len() - 1]@);
        let last = to_chars(self.blocks[self.blocks.len() - 1].as_str());
        let ls = split_lines(&last);
        let mut i: usize = 0;
        assert(views(ls@).skip(0) =~= views(ls@));
        while i < ls.len()
            invariant
                i <= ls.len(),
                first_nonempty_trimmed_line(lines(self@.last())) == first_nonempty_trimmed_line(
                    views(ls@).skip(i as int),
                ),
                views(ls@) == lines(self@.last()),
                self@.len() > 0,
            decreases ls.len() - i,
        {
            let t = trim_chars(&ls[i]);
            proof {
                assert(views(ls@).skip(i as int)[0] == ls@[i as int]@);
                assert(views(ls@).skip(i as int).drop_first() =~= views(ls@).skip(i + 1));
            }
            if t.len() > 0 {
                return from_chars(&t);
            }
            i += 1;
        }
        String::from_str("Working…")
    }

    /// Keep the tail when the rendered log exceeds a byte budget.
    pub fn render_truncated(&self, max_bytes: usize) -> (r: String)
        requires
            rendered(self@).len() <= usize::MAX / 4,
        ensures
            r@ == rendered_truncated(self@, max_bytes as nat),
    {
        let full = self.render_chars();
        if full.len() == 0 {
            return from_chars(&full);
        }
        let total = utf8_len_chars(&full);
        if total <= max_bytes {
            return from_chars(&full);
        }
        let marker = to_chars("… (earlier steps hidden)");
        let sep = to_chars("────────");
        proof {
            reveal_strlit("… (earlier steps hidden)");
            reveal_strlit("────────");
        }
        let mlen = utf8_len_chars(&marker);
        let slen = utf8_len_chars(&sep);
        let overhead = mlen + slen + 2;
        let budget = if max_bytes >= overhead {
            max_bytes - overhead
        } else {
            0
        };
        let tail = truncate_tail_bytes(&full, budget);
        let mut r = marker;
        append_str(&mut r, "\n");
        append_slice(&mut r, &sep);
        append_str(&mut r, "\n");
        append_slice(&mut r, &tail);
        from_chars(&r)
    }
}

} // verus!
