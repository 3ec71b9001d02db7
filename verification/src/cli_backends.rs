//! External CLI subagent backends: the shell commands they are started with,
//! and how their output becomes a subagent result.

use vstd::prelude::*;

use crate::ids::fresh_uuid;
use crate::text::{
    all_ws, append_slice, append_str, decimal, ellipsize, ellipsize_str, from_chars, i64_decimal,
    int_decimal, lemma_trim_empty_iff_all_ws, to_chars, trim, trim_chars, u64_decimal,
};

verus! {

/// The task with the parent's context appended when there is one.
pub open spec fn cli_prompt(task: Seq<char>, context: Option<Seq<char>>) -> Seq<char> {
    match context {
        Some(c) => if all_ws(c) {
            task
        } else {
            task + "\n\nContext:\n"@ + c
        },
        None => task,
    }
}

/// The prompt handed to a CLI backend: the task, then the context when it is
/// not blank.
pub fn build_cli_prompt(task: &str, context: Option<&str>) -> (r: String)
    ensures
        r@ == cli_prompt(
            task@,
            match context {
                Some(c) => Some(c@),
                None => None,
            },
        ),
{
    match context {
        Some(c) => {
            let t = trim_chars(&to_chars(c));
            proof {
                lemma_trim_empty_iff_all_ws(c@);
            }
            if t.len() == 0 {
                return task.to_owned();
            }
            let mut out = to_chars(task);
            append_str(&mut out, "\n\nContext:\n");
            append_str(&mut out, c);
            from_chars(&out)
        },
        None => task.to_owned(),
    }
}

/// The characters of `s` with each `'` written as `'\''`.
pub open spec fn quote_body(s: Seq<char>) -> Seq<char>
    decreases s.len(),
{
    if s.len() == 0 {
        Seq::empty()
    } else {
        quote_body(s.drop_last()) + if s.last() == '\'' {
            seq!['\'', '\\', '\'', '\'']
        } else {
            seq![s.last()]
        }
    }
}

/// `s` as one single-quoted shell word.
pub open spec fn shell_quoted(s: Seq<char>) -> Seq<char> {
    seq!['\''] + quote_body(s) + seq!['\'']
}

/// Quotes `s` for a POSIX shell: wrapped in `'`, with every `'` inside closed,
/// escaped and reopened.
pub fn shell_escape(s: &str) -> (r: String)
    ensures
        r@ == shell_quoted(s@),
{
    let c = to_chars(s);
    let mut out: Vec<char> = Vec::new();
    out.push('\'');
    let mut i: usize = 0;
    while i < c.len()
        invariant
            i <= c.len(),
            out@ == seq!['\''] + quote_body(c@.take(i as int)),
        decreases c.len() - i,
    {
        proof {
            assert(c@.take(i + 1).drop_last() =~= c@.take(i as int));
            assert(c@.take(i + 1).last() == c@[i as int]);
        }
        if c[i] == '\'' {
            out.push('\'');
            out.push('\\');
            out.push('\'');
            out.push('\'');
        } else {
            out.push(c[i]);
        }
        assert(out@ =~= seq!['\''] + quote_body(c@.take(i + 1)));
        i += 1;
    }
    assert(c@.take(c.len() as int) =~= c@);
    out.push('\'');
    from_chars(&out)
}

/// Quoting keeps every character but `'`, and adds no unquoted `'`: unquoting
/// gives back the text.
pub open spec fn unquote_body(q: Seq<char>) -> Seq<char>
    decreases q.len(),
{
    if q.len() >= 4 && q.take(4) == seq!['\'', '\\', '\'', '\''] {
        seq!['\''] + unquote_body(q.skip(4))
    } else if q.len() == 0 {
        Seq::empty()
    } else {
        seq![q[0]] + unquote_body(q.skip(1))
    }
}

proof fn lemma_quote_body_append(a: Seq<char>, b: Seq<char>)
    ensures
        quote_body(a + b) == quote_body(a) + quote_body(b),
    decreases b.len(),
{
    if b.len() == 0 {
        assert(a + b =~= a);
        assert(quote_body(a) + quote_body(b) =~= quote_body(a));
    } else {
        lemma_quote_body_append(a, b.drop_last());
        assert((a + b).drop_last() =~= a + b.drop_last());
        assert((a + b).last() == b.last());
    }
}

proof fn lemma_quote_body_first(s: Seq<char>)
    requires
        s.len() > 0,
    ensures
        quote_body(s) == quote_body(seq![s[0]]) + quote_body(s.skip(1)),
{
    assert(s =~= seq![s[0]] + s.skip(1));
    lemma_quote_body_append(seq![s[0]], s.skip(1));
}

/// Unquoting a quoted text gives the text back.
pub proof fn lemma_shell_quote_roundtrip(s: Seq<char>)
    ensures
        unquote_body(quote_body(s)) == s,
    decreases s.len(),
{
    if s.len() > 0 {
        lemma_quote_body_first(s);
        lemma_shell_quote_roundtrip(s.skip(1));
        let q = quote_body(s);
        let one = seq![s[0]];
        let head = quote_body(one);
        assert(one.drop_last() =~= Seq::<char>::empty());
        assert(one.last() == s[0]);
        assert(quote_body(one.drop_last()) =~= Seq::<char>::empty());
        if s[0] == '\'' {
            assert(head =~= seq!['\'', '\\', '\'', '\'']);
            assert(q.take(4) =~= head);
            assert(q.skip(4) =~= quote_body(s.skip(1)));
        } else {
            assert(head =~= seq![s[0]]);
            assert(q.skip(1) =~= quote_body(s.skip(1)));
            assert(q[0] == s[0]);
            if q.len() >= 4 {
                assert(q.take(4)[0] == s[0]);
            }
        }
        assert(s =~= seq![s[0]] + s.skip(1));
    }
}

/// The command line of the print-mode CLI backend (`--bare -p`).
pub open spec fn print_mode_cli_command(command: Seq<char>, prompt: Seq<char>, max_turns: u64) -> Seq<char> {
    command + " --bare -p "@ + shell_quoted(prompt) + " --output-format json --max-turns "@ + decimal(
        max_turns as nat,
    )
}

/// `command --bare -p '<prompt>' --output-format json --max-turns N`.
pub fn print_mode_command(command: &str, prompt: &str, max_turns: u64) -> (r: String)
    ensures
        r@ == print_mode_cli_command(command@, prompt@, max_turns),
{
    let mut out = to_chars(command);
    append_str(&mut out, " --bare -p ");
    let q = shell_escape(prompt);
    append_str(&mut out, q.as_str());
    append_str(&mut out, " --output-format json --max-turns ");
    let d = u64_decimal(max_turns);
    append_slice(&mut out, &d);
    from_chars(&out)
}

/// The command line of the Codex CLI backend.
pub open spec fn codex_cli_command(command: Seq<char>, sandbox: Seq<char>, prompt: Seq<char>) -> Seq<char> {
    command + " exec --sandbox "@ + sandbox + " --json "@ + shell_quoted(prompt)
}

/// `command exec --sandbox <sandbox> --json '<prompt>'`.
pub fn codex_command(command: &str, sandbox: &str, prompt: &str) -> (r: String)
    ensures
        r@ == codex_cli_command(command@, sandbox@, prompt@),
{
    let mut out = to_chars(command);
    append_str(&mut out, " exec --sandbox ");
    append_str(&mut out, sandbox);
    append_str(&mut out, " --json ");
    let q = shell_escape(prompt);
    append_str(&mut out, q.as_str());
    from_chars(&out)
}

/// The command line of the Cursor backend's wrapper script.
pub open spec fn cursor_cli_command(
    wrapper_command: Seq<char>,
    wrapper: Seq<char>,
    workspace: Seq<char>,
    model: Seq<char>,
    prompt: Seq<char>,
) -> Seq<char> {
    wrapper_command + " "@ + shell_quoted(wrapper) + " --workspace "@ + shell_quoted(workspace)
        + " --model "@ + shell_quoted(model) + " --task "@ + shell_quoted(prompt)
}

/// `wrapper_command '<wrapper>' --workspace '<ws>' --model '<model>' --task '<prompt>'`.
pub fn cursor_command(wrapper_command: &str, wrapper: &str, workspace: &str, model: &str, prompt: &str) -> (r: String)
    ensures
        r@ == cursor_cli_command(wrapper_command@, wrapper@, workspace@, model@, prompt@),
{
    let mut out = to_chars(wrapper_command);
    append_str(&mut out, " ");
    append_str(&mut out, shell_escape(wrapper).as_str());
    append_str(&mut out, " --workspace ");
    append_str(&mut out, shell_escape(workspace).as_str());
    append_str(&mut out, " --model ");
    append_str(&mut out, shell_escape(model).as_str());
    append_str(&mut out, " --task ");
    append_str(&mut out, shell_escape(prompt).as_str());
    from_chars(&out)
}

/// The backend command with its API key exported first.
pub open spec fn with_key_export(env: Seq<char>, key: Seq<char>, command: Seq<char>) -> Seq<char> {
    "export "@ + env + "="@ + shell_quoted(key) + " && "@ + command
}

/// `export ENV='<key>' && command`.
pub fn export_key_command(env: &str, key: &str, command: &str) -> (r: String)
    ensures
        r@ == with_key_export(env@, key@, command@),
{
    let mut out = to_chars("export ");
    append_str(&mut out, env);
    append_str(&mut out, "=");
    append_str(&mut out, shell_escape(key).as_str());
    append_str(&mut out, " && ");
    append_str(&mut out, command);
    from_chars(&out)
}

/// The error when the backend's API key variable is unset.
pub fn missing_key_message(env: &str, label: &str) -> (r: String)
    ensures
        r@ == "missing env "@ + env@ + " for subagent backend "@ + label@,
{
    let mut out = to_chars("missing env ");
    append_str(&mut out, env);
    append_str(&mut out, " for subagent backend ");
    append_str(&mut out, label);
    from_chars(&out)
}

/// How long a backend may run: at least one second.
pub fn backend_timeout(timeout_secs: u64) -> (r: u64)
    ensures
        r == (if timeout_secs < 1 { 1 } else { timeout_secs }),
{
    if timeout_secs < 1 {
        1
    } else {
        timeout_secs
    }
}

/// The error when a backend outlives its timeout.
pub fn timed_out_message(timeout: u64) -> (r: String)
    ensures
        r@ == "subagent backend timed out after "@ + decimal(timeout as nat) + "s"@,
{
    let mut out = to_chars("subagent backend timed out after ");
    let d = u64_decimal(timeout);
    append_slice(&mut out, &d);
    append_str(&mut out, "s");
    from_chars(&out)
}

/// The tool name under which a backend run is reported.
pub fn backend_tool_name(label: &str) -> (r: String)
    ensures
        r@ == "subagent-"@ + label@,
{
    let mut out = to_chars("subagent-");
    append_str(&mut out, label);
    from_chars(&out)
}

/// A fresh id for a backend run: `subagent_cli_` and a random UUID.
pub fn new_cli_run_id() -> (r: String)
    ensures
        r@.len() == 49,
        r@.take(13) == "subagent_cli_"@,
{
    let u = fresh_uuid();
    let mut out = to_chars("subagent_cli_");
    append_str(&mut out, u.as_str());
    proof {
        reveal_strlit("subagent_cli_");
        assert(out@.take(13) =~= "subagent_cli_"@);
    }
    from_chars(&out)
}

/// What a backend run answers: its standard output, or, when that is blank,
/// the exit code and the trimmed standard error.
pub open spec fn cli_body(stdout: Seq<char>, exit_code: i32, stderr: Seq<char>) -> Seq<char> {
    if all_ws(stdout) {
        "exit_code="@ + int_decimal(exit_code as int) + "\nstderr:\n"@ + trim(stderr)
    } else {
        stdout
    }
}

/// The body of a finished backend run.
pub fn cli_run_body(stdout: &str, exit_code: i32, stderr: &str) -> (r: String)
    ensures
        r@ == cli_body(stdout@, exit_code, stderr@),
{
    let t = trim_chars(&to_chars(stdout));
    proof {
        lemma_trim_empty_iff_all_ws(stdout@);
    }
    if t.len() > 0 {
        return stdout.to_owned();
    }
    let mut out = to_chars("exit_code=");
    let d = i64_decimal(exit_code as i64);
    append_slice(&mut out, &d);
    append_str(&mut out, "\nstderr:\n");
    let e = trim_chars(&to_chars(stderr));
    append_slice(&mut out, &e);
    from_chars(&out)
}

/// At most `max` characters, with `…` when cut.
pub fn truncate_label(s: &str, max: usize) -> (r: String)
    ensures
        r@ == ellipsize(s@, max as nat),
{
    ellipsize_str(s, max)
}

} // verus!
