//! Transcripts of stored history for the compaction summarizer.

use vstd::prelude::*;

use crate::conversation::{calls_bytes, text_of, ConversationMessage, ToolCall};
use crate::text::{
    append_slice, append_str, eq_str, from_chars, slice_of, to_chars, utf8_len, utf8_len_chars,
    utf8_len_fitting,
};

verus! {

/// Longest tool output (in bytes of UTF-8) kept verbatim in transcripts and
/// session storage.
pub const TOOL_BODY_PERSIST_MAX_CHARS: usize = 4_000;

/// Rough size of one token in bytes.
pub const CHARS_PER_TOKEN: usize = 4;

/// UTF-8 bytes a message contributes to the token estimate: text, tool-call
/// names and arguments, and role.
pub open spec fn message_bytes(m: ConversationMessage) -> nat {
    utf8_len(text_of(m)) + match m.tool_calls {
        Some(v) => calls_bytes(v@),
        None => 0,
    } + utf8_len(m.role@)
}

/// UTF-8 bytes of a sequence of messages.
pub open spec fn total_bytes(ms: Seq<ConversationMessage>) -> nat
    decreases ms.len(),
{
    if ms.len() == 0 {
        0
    } else {
        total_bytes(ms.drop_last()) + message_bytes(ms.last())
    }
}

/// A quarter of the bytes, at least one (as `u32`).
pub open spec fn token_estimate(bytes: nat) -> u32 {
    let t = bytes / CHARS_PER_TOKEN as nat;
    if t < 1 {
        1
    } else {
        t as u32
    }
}

proof fn lemma_total_bytes_prefix(ms: Seq<ConversationMessage>, i: int)
    requires
        0 <= i <= ms.len(),
    ensures
        total_bytes(ms.take(i)) <= total_bytes(ms),
    decreases ms.len(),
{
    if i < ms.len() {
        assert(ms.drop_last().take(i) =~= ms.take(i));
        lemma_total_bytes_prefix(ms.drop_last(), i);
    } else {
        assert(ms.take(i) =~= ms);
    }
}

proof fn lemma_calls_bytes_prefix(cs: Seq<ToolCall>, i: int)
    requires
        0 <= i <= cs.len(),
    ensures
        calls_bytes(cs.take(i)) <= calls_bytes(cs),
    decreases cs.len(),
{
    if i < cs.len() {
        assert(cs.drop_last().take(i) =~= cs.take(i));
        lemma_calls_bytes_prefix(cs.drop_last(), i);
    } else {
        assert(cs.take(i) =~= cs);
    }
}

fn calls_len(calls: &Vec<ToolCall>, budget: usize) -> (n: usize)
    requires
        calls_bytes(calls@) <= budget,
    ensures
        n == calls_bytes(calls@),
{
    let mut n: usize = 0;
    let mut i: usize = 0;
    assert(calls@.take(0) =~= Seq::<ToolCall>::empty());
    while i < calls.len()
        invariant
            i <= calls.len(),
            calls_bytes(calls@) <= budget,
            n == calls_bytes(calls@.take(i as int)),
        decreases calls.len() - i,
    {
        proof {
            assert(calls@.take(i + 1).drop_last() =~= calls@.take(i as int));
            lemma_calls_bytes_prefix(calls@, i + 1);
        }
        let name = to_chars(calls[i].function.name.as_str());
        let args = to_chars(calls[i].function.arguments.as_str());
        let a = utf8_len_fitting(&name);
        let b = utf8_len_fitting(&args);
        n = n + a + b;
        i += 1;
    }
    assert(calls@.take(calls.len() as int) =~= calls@);
    n
}

/// Rough token count of a conversation: UTF-8 bytes of text, tool calls and
/// roles, divided by four, at least one.
pub fn estimate_tokens(messages: &[ConversationMessage]) -> (r: u32)
    requires
        total_bytes(messages@) <= usize::MAX,
    ensures
        r == token_estimate(total_bytes(messages@)),
{
    let mut chars: usize = 0;
    let mut i: usize = 0;
    assert(messages@.take(0) =~= Seq::<ConversationMessage>::empty());
    while i < messages.len()
        invariant
            i <= messages.len(),
            total_bytes(messages@) <= usize::MAX,
            chars == total_bytes(messages@.take(i as int)),
        decreases messages.len() - i,
    {
        proof {
            assert(messages@.take(i + 1).drop_last() =~= messages@.take(i as int));
            lemma_total_bytes_prefix(messages@, i + 1);
        }
        let m = &messages[i];
        let text = m.text_content();
        let tc = to_chars(text.as_str());
        let mut c = utf8_len_fitting(&tc);
        match &m.tool_calls {
            Some(calls) => {
                let k = calls_len(calls, usize::MAX - c);
                c = c + k;
            },
            None => {},
        }
        let rc = to_chars(m.role.as_str());
        let rl = utf8_len_fitting(&rc);
        chars = chars + c + rl;
        i += 1;
    }
    assert(messages@.take(messages.len() as int) =~= messages@);
    let t = chars / CHARS_PER_TOKEN;
    let t = if t < 1 {
        1
    } else {
        t
    };
    t as u32
}

/// Placeholder for a tool body that is too long to replay.
pub open spec fn pruned_tool_body() -> Seq<char> {
    "[Old tool output cleared to save context — full log in run_dir/result.json if needed]"@
}

/// A tool body as it appears in a transcript.
pub open spec fn pruned(body: Seq<char>) -> Seq<char> {
    if utf8_len(body) > TOOL_BODY_PERSIST_MAX_CHARS {
        pruned_tool_body()
    } else {
        body
    }
}

/// The transcript entry of one `(role, content)` row.
pub open spec fn transcript_entry(role: Seq<char>, content: Seq<char>) -> Seq<char> {
    if role == "compaction"@ {
        Seq::empty()
    } else {
        let body = if role == "tool"@ {
            pruned(content)
        } else {
            content
        };
        "["@ + role + "]\n"@ + body + "\n\n"@
    }
}

/// The transcript of the rows: every non-compaction row as `[role]\nbody\n\n`.
pub open spec fn transcript(rows: Seq<(String, String)>) -> Seq<char>
    decreases rows.len(),
{
    if rows.len() == 0 {
        Seq::empty()
    } else {
        transcript(rows.drop_last()) + transcript_entry(rows.last().0@, rows.last().1@)
    }
}

fn prune_old_tool_body(body: &[char]) -> (r: Vec<char>)
    requires
        body.len() <= usize::MAX / 4,
    ensures
        r@ == pruned(body@),
{
    if utf8_len_chars(body) > TOOL_BODY_PERSIST_MAX_CHARS {
        to_chars(
            "[Old tool output cleared to save context — full log in run_dir/result.json if needed]",
        )
    } else {
        slice_of(body, 0, body.len())
    }
}

/// Transcript of `(role, content)` rows (compaction rows skipped, huge tool
/// bodies pruned).
pub fn transcript_lines(messages: &[(String, String)]) -> (r: String)
    requires
        forall|i: int| 0 <= i < messages@.len() ==> (#[trigger] messages@[i]).1@.len() <= usize::MAX / 4,
    ensures
        r@ == transcript(messages@),
{
    let mut out: Vec<char> = Vec::new();
    let mut i: usize = 0;
    while i < messages.len()
        invariant
            i <= messages.len(),
            out@ == transcript(messages@.take(i as int)),
            forall|k: int| 0 <= k < messages@.len() ==> (#[trigger] messages@[k]).1@.len() <= usize::MAX / 4,
        decreases messages.len() - i,
    {
        let role = to_chars(messages[i].0.as_str());
        let content = to_chars(messages[i].1.as_str());
        proof {
            assert(messages@.take(i + 1).drop_last() =~= messages@.take(i as int));
            assert(messages@.take(i + 1).last() == messages@[i as int]);
        }
        if !eq_str(&role, "compaction") {
            let body = if eq_str(&role, "tool") {
                prune_old_tool_body(&content)
            } else {
                content
            };
            append_str(&mut out, "[");
            append_slice(&mut out, &role);
            append_str(&mut out, "]\n");
            append_slice(&mut out, &body);
            append_str(&mut out, "\n\n");
        } else {
            assert(out@ + Seq::<char>::empty() =~= out@);
        }
        i += 1;
    }
    assert(messages@.take(messages.len() as int) =~= messages@);
    from_chars(&out)
}

} // verus!
