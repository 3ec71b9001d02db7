//! `run_view`: which stored output of an exec run is returned, filtered and
//! framed how.

use vstd::prelude::*;

use crate::text::{
    append_slice, append_str, eq_str, i64_decimal, int_decimal, starts_with, starts_with_str, trim, trim_chars, contains, contains_chars, from_chars, join, join_chars, lemma_views_push, lines, slice_of, split_lines, to_chars, views,
};

verus! {

/// Default stream selection of `run_view`.
pub fn default_stream() -> (r: String)
    ensures
        r@ == "both"@,
{
    String::from_str("both")
}

/// Lines of `ls` that contain `g`, in order.
pub open spec fn lines_containing(ls: Seq<Seq<char>>, g: Seq<char>) -> Seq<Seq<char>> {
    ls.filter(|l: Seq<char>| contains(l, g))
}

/// The stream content after the optional grep; `None` when nothing is left.
pub open spec fn filtered_stream(content: Seq<char>, grep: Option<Seq<char>>) -> Option<Seq<char>> {
    let f = match grep {
        Some(g) => if g.len() == 0 {
            content
        } else {
            join(lines_containing(lines(content), g), "\n"@)
        },
        None => content,
    };
    if f.len() == 0 {
        None
    } else {
        Some(f)
    }
}

/// Apply the `grep` filter of `run_view` to a stream's content.
pub fn filter_stream(content: &str, grep: Option<&str>) -> (r: Option<String>)
    ensures
        match r {
            Some(s) => filtered_stream(
                content@,
                match grep {
                    Some(g) => Some(g@),
                    None => None,
                },
            ) == Some(s@),
            None => filtered_stream(
                content@,
                match grep {
                    Some(g) => Some(g@),
                    None => None,
                },
            ) is None,
        },
{
    let c = to_chars(content);
    let f = match grep {
        Some(g) => {
            let gc = to_chars(g);
            if gc.len() == 0 {
                c
            } else {
                let ls = split_lines(&c);
                let mut out: Vec<Vec<char>> = Vec::new();
                let mut i: usize = 0;
                assert(views(ls@).take(0) =~= Seq::<Seq<char>>::empty());
                assert(lines_containing(Seq::<Seq<char>>::empty(), gc@) =~= Seq::<
                    Seq<char>,
                >::empty());
                while i < ls.len()
                    invariant
                        i <= ls.len(),
                        views(out@) == lines_containing(views(ls@).take(i as int), gc@),
                    decreases ls.len() - i,
                {
                    proof {
                        let pred = |l: Seq<char>| contains(l, gc@);
                        let pre = views(ls@).take(i as int);
                        assert(views(ls@).take(i + 1) =~= pre.push(ls@[i as int]@));
                        pre.lemma_filter_push(ls@[i as int]@, pred);
                    }
                    if contains_chars(&ls[i], &gc) {
                        let l = slice_of(&ls[i], 0, ls[i].len());
                        assert(l@ =~= ls@[i as int]@);
                        proof {
                            lemma_views_push(out@, l);
                        }
                        out.push(l);
                    }
                    i += 1;
                }
                assert(views(ls@).take(ls.len() as int) =~= views(ls@));
                let nl = to_chars("\n");
                join_chars(&out, &nl)
            }
        },
        None => c,
    };
    if f.len() == 0 {
        None
    } else {
        Some(from_chars(&f))
    }
}

/// Most characters of output `run_view` returns before it cuts the middle.
pub const RUN_VIEW_MAX_OUTPUT_CHARS: usize = 24_000;

/// Which stored stream `run_view` returns.
#[derive(PartialEq, Eq, Structural, Clone, Copy, Debug)]
pub enum RunViewStream {
    Stdout,
    Stderr,
    Both,
}

/// `stdout` and `stderr` pick one stream; anything else means both.
pub open spec fn stream_of(s: Seq<char>) -> RunViewStream {
    if s == "stdout"@ {
        RunViewStream::Stdout
    } else if s == "stderr"@ {
        RunViewStream::Stderr
    } else {
        RunViewStream::Both
    }
}

/// The stream selection of a `run_view` call.
pub fn stream_choice(s: &str) -> (r: RunViewStream)
    ensures
        r == stream_of(s@),
{
    let c = to_chars(s);
    if eq_str(&c, "stdout") {
        RunViewStream::Stdout
    } else if eq_str(&c, "stderr") {
        RunViewStream::Stderr
    } else {
        RunViewStream::Both
    }
}

/// The trimmed run id, or the error for a blank one.
pub fn run_view_run_id(raw: &str) -> (r: Result<String, String>)
    ensures
        match r {
            Ok(id) => id@ == trim(raw@) && id@.len() > 0,
            Err(e) => trim(raw@).len() == 0 && e@ == "run_id must not be empty"@,
        },
{
    let t = trim_chars(&to_chars(raw));
    if t.len() == 0 {
        Err("run_id must not be empty".to_owned())
    } else {
        Ok(from_chars(&t))
    }
}

/// The error for an unknown run.
pub fn run_not_found_message(run_id: &str) -> (r: String)
    ensures
        r@ == "run not found: "@ + run_id@,
{
    let mut out = to_chars("run not found: ");
    append_str(&mut out, run_id);
    from_chars(&out)
}

/// The error for a run of another agent group.
pub fn run_not_accessible_message(run_id: &str) -> (r: String)
    ensures
        r@ == "run "@ + run_id@ + " is not accessible for this agent group"@,
{
    let mut out = to_chars("run ");
    append_str(&mut out, run_id);
    append_str(&mut out, " is not accessible for this agent group");
    from_chars(&out)
}

/// Whether a `run_view` call may read the run: the run must exist, then belong
/// to the caller's agent group; the refusal names the run.
pub fn check_run_access(run_id: &str, found: bool, accessible: bool) -> (r: Result<(), String>)
    ensures
        match r {
            Ok(()) => found && accessible,
            Err(e) => if !found {
                e@ == "run not found: "@ + run_id@
            } else {
                !accessible && e@ == "run "@ + run_id@ + " is not accessible for this agent group"@
            },
        },
{
    if !found {
        return Err(run_not_found_message(run_id));
    }
    if !accessible {
        return Err(run_not_accessible_message(run_id));
    }
    Ok(())
}

/// The stored capsule directory when it is an absolute path; otherwise the
/// run's default directory is used.
pub fn stored_capsule_dir(capsule_dir: &Option<String>) -> (r: Option<String>)
    ensures
        match r {
            Some(d) => capsule_dir matches Some(c) && c@ == d@ && starts_with(c@, "/"@),
            None => !(capsule_dir matches Some(c) && starts_with(c@, "/"@)),
        },
{
    match capsule_dir {
        Some(c) => {
            if starts_with_str(&to_chars(c.as_str()), "/") {
                Some(c.clone())
            } else {
                None
            }
        },
        None => None,
    }
}

/// A stream's section of the reply.
pub open spec fn stream_part(label: Seq<char>, body: Option<Seq<char>>) -> Seq<Seq<char>> {
    match body {
        Some(b) => seq!["--- "@ + label + " ---\n"@ + b],
        None => Seq::empty(),
    }
}

/// The sections of the selected streams (each filtered body, if any).
pub open spec fn run_view_sections(stream: RunViewStream, stdout: Option<Seq<char>>, stderr: Option<Seq<char>>) -> Seq<Seq<char>> {
    match stream {
        RunViewStream::Stdout => stream_part("stdout"@, stdout),
        RunViewStream::Stderr => stream_part("stderr"@, stderr),
        RunViewStream::Both => stream_part("stdout"@, stdout) + stream_part("stderr"@, stderr),
    }
}

/// The optional view of an optional string.
pub open spec fn opt_seq(o: Option<String>) -> Option<Seq<char>> {
    match o {
        Some(s) => Some(s@),
        None => None,
    }
}

fn push_part(parts: &mut Vec<Vec<char>>, label: &str, body: &Option<String>)
    ensures
        views(final(parts)@) == views(old(parts)@) + stream_part(label@, opt_seq(*body)),
{
    match body {
        Some(b) => {
            let mut p = to_chars("--- ");
            append_str(&mut p, label);
            append_str(&mut p, " ---\n");
            append_str(&mut p, b.as_str());
            proof {
                lemma_views_push(parts@, p);
            }
            parts.push(p);
            assert(views(parts@) =~= views(old(parts)@) + stream_part(label@, opt_seq(*body)));
        },
        None => {
            assert(views(parts@) =~= views(old(parts)@) + stream_part(label@, opt_seq(*body)));
        },
    }
}

/// The selected streams' sections joined by blank lines; `None` when no
/// selected stream has output.
pub fn run_view_output(stream: RunViewStream, stdout: &Option<String>, stderr: &Option<String>) -> (r: Option<String>)
    ensures
        match r {
            Some(b) => run_view_sections(stream, opt_seq(*stdout), opt_seq(*stderr)).len() > 0 && b@ == join(
                run_view_sections(stream, opt_seq(*stdout), opt_seq(*stderr)),
                "\n\n"@,
            ),
            None => run_view_sections(stream, opt_seq(*stdout), opt_seq(*stderr)).len() == 0,
        },
{
    let mut parts: Vec<Vec<char>> = Vec::new();
    assert(views(parts@) =~= Seq::<Seq<char>>::empty());
    match stream {
        RunViewStream::Stdout => push_part(&mut parts, "stdout", stdout),
        RunViewStream::Stderr => push_part(&mut parts, "stderr", stderr),
        RunViewStream::Both => {
            push_part(&mut parts, "stdout", stdout);
            push_part(&mut parts, "stderr", stderr);
        },
    }
    assert(views(parts@) =~= run_view_sections(stream, opt_seq(*stdout), opt_seq(*stderr)));
    if parts.len() == 0 {
        return None;
    }
    let sep = to_chars("\n\n");
    Some(from_chars(&join_chars(&parts, &sep)))
}

/// Whether the output is longer than `run_view` returns whole.
pub fn run_view_needs_truncation(body: &str) -> (r: bool)
    ensures
        r == (body@.len() > RUN_VIEW_MAX_OUTPUT_CHARS),
{
    to_chars(body).len() > RUN_VIEW_MAX_OUTPUT_CHARS
}

/// The hint that replaces the middle of a long `run_view` output.
pub fn run_view_truncation_hint(run_id: &str) -> (r: String)
    ensures
        r@ == "truncated run_view for "@ + run_id@ + " — narrow with grep or stream"@,
{
    let mut out = to_chars("truncated run_view for ");
    append_str(&mut out, run_id);
    append_str(&mut out, " — narrow with grep or stream");
    from_chars(&out)
}

/// An optional exit code as `{:?}` prints it.
pub open spec fn debug_exit_code(c: Option<i32>) -> Seq<char> {
    match c {
        Some(n) => "Some("@ + int_decimal(n as int) + ")"@,
        None => "None"@,
    }
}

/// The reply of `run_view`: the run id, its exit code, then the output or a
/// note that nothing matched.
pub open spec fn run_view_text(run_id: Seq<char>, exit_code: Option<i32>, body: Option<Seq<char>>) -> Seq<char> {
    "run_id: "@ + run_id + "\nexit_code: "@ + debug_exit_code(exit_code) + match body {
        Some(b) => "\n\n"@ + b,
        None => "\n(no matching output)"@,
    }
}

/// Formats the reply of `run_view`.
pub fn run_view_reply(run_id: &str, exit_code: Option<i32>, body: Option<&str>) -> (r: String)
    ensures
        r@ == run_view_text(
            run_id@,
            exit_code,
            match body {
                Some(b) => Some(b@),
                None => None,
            },
        ),
{
    let mut out = to_chars("run_id: ");
    append_str(&mut out, run_id);
    append_str(&mut out, "\nexit_code: ");
    match exit_code {
        Some(n) => {
            append_str(&mut out, "Some(");
            let d = i64_decimal(n as i64);
            append_slice(&mut out, &d);
            append_str(&mut out, ")");
        },
        None => append_str(&mut out, "None"),
    }
    match body {
        Some(b) => {
            append_str(&mut out, "\n\n");
            append_str(&mut out, b);
        },
        None => append_str(&mut out, "\n(no matching output)"),
    }
    from_chars(&out)
}

} // verus!
