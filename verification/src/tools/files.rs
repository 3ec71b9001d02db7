//! The workspace file tools: partial reads, the replies of writes, and the
//! text edits of `file_edit` (occurrence counting and replacement).

use vstd::prelude::*;

use crate::tools::memory::{memory_read_window, read_window};
use crate::text::{
    append_slice, append_str, decimal, find, find_chars, from_chars, lemma_find_some, occurs_at,
    slice_of, to_chars, utf8_len, u64_decimal,
};

verus! {

/// Most characters `file_read` returns before it cuts the middle.
pub const FILE_READ_MAX_CHARS: usize = 24_000;

/// Non-overlapping occurrences of `p` in `s`, from the left (`str::matches`).
pub open spec fn count_matches(s: Seq<char>, p: Seq<char>) -> nat
    decreases s.len(),
{
    if p.len() == 0 {
        0
    } else {
        match find(s, p) {
            Some(i) => if 0 <= i && i + p.len() <= s.len() {
                1 + count_matches(s.skip(i + p.len()), p)
            } else {
                0
            },
            None => 0,
        }
    }
}

/// `s` with every non-overlapping occurrence of `p` replaced by `q`, from the
/// left (`str::replace`).
pub open spec fn replace_all(s: Seq<char>, p: Seq<char>, q: Seq<char>) -> Seq<char>
    decreases s.len(),
{
    if p.len() == 0 {
        s
    } else {
        match find(s, p) {
            Some(i) => if 0 <= i && i + p.len() <= s.len() {
                s.take(i) + q + replace_all(s.skip(i + p.len()), p, q)
            } else {
                s
            },
            None => s,
        }
    }
}

/// `s` with the first occurrence of `p` replaced by `q` (`str::replacen(p, q, 1)`).
pub open spec fn replace_first(s: Seq<char>, p: Seq<char>, q: Seq<char>) -> Seq<char> {
    match find(s, p) {
        Some(i) => s.take(i) + q + s.skip(i + p.len()),
        None => s,
    }
}

/// A text with exactly one occurrence is edited the same way whether or not
/// every occurrence is to be replaced.
pub proof fn lemma_single_match_edit(s: Seq<char>, p: Seq<char>, q: Seq<char>)
    requires
        count_matches(s, p) == 1,
    ensures
        replace_all(s, p, q) == replace_first(s, p, q),
{
    lemma_find_some(s, p);
    let i = find(s, p)->Some_0;
    let rest = s.skip(i + p.len());
    assert(count_matches(rest, p) == 0);
    lemma_find_some(rest, p);
    if find(rest, p) is Some {
        let j = find(rest, p)->Some_0;
        assert(0 <= j && j + p.len() <= rest.len());
    }
    assert(replace_all(rest, p, q) == rest);
}

/// Counts and replaces the occurrences of `p` in `s` (with `q`), from the left.
fn replace_and_count(s: &[char], p: &[char], q: &[char]) -> (r: (Vec<char>, u64))
    requires
        p.len() > 0,
    ensures
        r.0@ == replace_all(s@, p@, q@),
        r.1 == count_matches(s@, p@),
{
    let mut out: Vec<char> = Vec::new();
    let mut n: u64 = 0;
    let mut pos: usize = 0;
    assert(s@.skip(0) =~= s@);
    loop
        invariant
            p.len() > 0,
            pos <= s.len(),
            n <= pos,
            out@ + replace_all(s@.skip(pos as int), p@, q@) == replace_all(s@, p@, q@),
            n + count_matches(s@.skip(pos as int), p@) == count_matches(s@, p@),
        decreases s.len() - pos,
    {
        let rest = slice_of(s, pos, s.len());
        assert(rest@ =~= s@.skip(pos as int));
        match find_chars(&rest, p) {
            None => {
                append_slice(&mut out, &rest);
                return (out, n);
            },
            Some(i) => {
                let head = slice_of(&rest, 0, i);
                assert(head@ =~= rest@.take(i as int));
                let ghost before = out@;
                append_slice(&mut out, &head);
                append_slice(&mut out, q);
                assert(rest@.skip(i + p.len()) =~= s@.skip(pos + i + p.len()));
                assert(out@ + replace_all(s@.skip(pos + i + p.len()), p@, q@) =~= before + replace_all(
                    rest@,
                    p@,
                    q@,
                ));
                n = n + 1;
                pos = pos + i + p.len();
            },
        }
    }
}

/// `s` with every occurrence of a non-empty `p` replaced by `q` (as
/// `str::replace`); `s` itself for an empty `p`.
pub fn replace_all_str(s: &str, p: &str, q: &str) -> (r: String)
    ensures
        r@ == replace_all(s@, p@, q@),
{
    let pc = to_chars(p);
    if pc.len() == 0 {
        return s.to_owned();
    }
    let (out, _) = replace_and_count(&to_chars(s), &pc, &to_chars(q));
    from_chars(&out)
}

/// The outcome of an edit: the new content and how many occurrences were
/// replaced, or the error.
pub open spec fn edit_result(content: Seq<char>, old: Seq<char>, new: Seq<char>, replace_all_flag: bool, rel: Seq<char>) -> Result<(Seq<char>, nat), Seq<char>> {
    let count = count_matches(content, old);
    if old.len() == 0 {
        Err("old_string must not be empty"@)
    } else if count == 0 {
        Err("old_string not found in '"@ + rel + "'"@)
    } else if count > 1 && !replace_all_flag {
        Err("old_string matches "@ + decimal(count) + " times in '"@ + rel
            + "' — set replace_all=true or use a unique old_string"@)
    } else if replace_all_flag {
        Ok((replace_all(content, old, new), count))
    } else {
        Ok((replace_first(content, old, new), 1))
    }
}

/// Applies a `file_edit` to a file's content (`rel` names the file in errors).
pub fn apply_file_edit(content: &str, old: &str, new: &str, replace_all_flag: bool, rel: &str) -> (r: Result<(String, u64), String>)
    ensures
        match (r, edit_result(content@, old@, new@, replace_all_flag, rel@)) {
            (Ok((c, n)), Ok((c2, n2))) => c@ == c2 && n == n2,
            (Err(a), Err(b)) => a@ == b,
            _ => false,
        },
{
    let o = to_chars(old);
    if o.len() == 0 {
        return Err("old_string must not be empty".to_owned());
    }
    let c = to_chars(content);
    let qn = to_chars(new);
    let (all, count) = replace_and_count(&c, &o, &qn);
    if count == 0 {
        let mut m = to_chars("old_string not found in '");
        append_str(&mut m, rel);
        append_str(&mut m, "'");
        return Err(from_chars(&m));
    }
    if count > 1 && !replace_all_flag {
        let mut m = to_chars("old_string matches ");
        append_slice(&mut m, &u64_decimal(count));
        append_str(&mut m, " times in '");
        append_str(&mut m, rel);
        append_str(&mut m, "' — set replace_all=true or use a unique old_string");
        return Err(from_chars(&m));
    }
    if replace_all_flag {
        return Ok((from_chars(&all), count));
    }
    proof {
        lemma_find_some(c@, o@);
    }
    match find_chars(&c, &o) {
        Some(i) => {
            assert(occurs_at(c@, o@, i as int));
            assert(i + o@.len() <= c@.len());
            assert(o@.len() == o.len() && c@.len() == c.len());
            let mut out = slice_of(&c, 0, i);
            append_slice(&mut out, &qn);
            let tail = slice_of(&c, i + o.len(), c.len());
            append_slice(&mut out, &tail);
            assert(out@ =~= c@.take(i as int) + qn@ + c@.skip(i + o@.len()));
            Ok((from_chars(&out), 1))
        },
        None => Ok((from_chars(&c), 1)),
    }
}

/// The reply of a successful edit.
pub fn edit_reply(replaced: u64, rel: &str) -> (r: String)
    ensures
        r@ == "Replaced "@ + decimal(replaced as nat) + " occurrence(s) in '"@ + rel@ + "'."@,
{
    let mut m = to_chars("Replaced ");
    append_slice(&mut m, &u64_decimal(replaced));
    append_str(&mut m, " occurrence(s) in '");
    append_str(&mut m, rel);
    append_str(&mut m, "'.");
    from_chars(&m)
}

/// The reply of a successful write of `contents` (whose byte length, like
/// that of any string, fits in `usize`).
pub fn write_reply(contents: &str, rel: &str) -> (r: String)
    requires
        utf8_len(contents@) <= usize::MAX,
    ensures
        r@ == "Wrote "@ + decimal(utf8_len(contents@)) + " bytes to '"@ + rel@ + "'."@,
{
    let n = crate::text::utf8_len_fitting(&to_chars(contents));
    let mut m = to_chars("Wrote ");
    append_slice(&mut m, &u64_decimal(n as u64));
    append_str(&mut m, " bytes to '");
    append_str(&mut m, rel);
    append_str(&mut m, "'.");
    from_chars(&m)
}

/// The part of a file `file_read` returns: lines `offset..offset+limit`
/// (1-based), or the whole file when neither is given.
pub fn file_read_window(content: &str, offset: Option<u32>, limit: Option<u32>) -> (r: String)
    ensures
        r@ == read_window(content@, offset, limit),
{
    memory_read_window(content, offset, limit)
}

/// The hint that replaces the middle of a long read.
pub fn file_read_truncation_hint(rel: &str) -> (r: String)
    ensures
        r@ == "truncated '"@ + rel@ + "' — use offset/limit for more"@,
{
    let mut m = to_chars("truncated '");
    append_str(&mut m, rel);
    append_str(&mut m, "' — use offset/limit for more");
    from_chars(&m)
}

/// The error of a file tool name that no handler knows.
pub fn unknown_file_tool_message(name: &str) -> (r: String)
    ensures
        r@ == "unknown file tool: "@ + name@,
{
    let mut m = to_chars("unknown file tool: ");
    append_str(&mut m, name);
    from_chars(&m)
}

} // verus!
