//! The memory tools: appends to workspace memory files and their limits,
//! partial reads, and search results over memory files and session messages.

use vstd::prelude::*;

use crate::text::{
    append_slice, append_str, contains, ends_with, ends_with_str, find, find_chars, from_chars,
    join, join_chars, lemma_find_some, lemma_utf8_len_push, lemma_views_push, lines,
    replace_char, replace_char_chars, slice_of, split_lines, to_chars, to_lowercase, trim,
    trim_chars, unicode_lowercase, utf8_len, views, char_utf8_width,
};
use crate::tools::paths::{memory_path_result, validate_memory_path, MemoryPathError};
use crate::web::api::fits_utf8;

verus! {

/// Most bytes appended in one call.
pub const MEMORY_APPEND_MAX_BYTES: usize = 4_096;

/// Largest memory file, in bytes, after an append.
pub const MEMORY_FILE_MAX_BYTES: usize = 65_536;

/// Most characters `memory_read` returns before it cuts the middle.
pub const MEMORY_READ_MAX_CHARS: usize = 24_000;

/// Hits of a search when the call gives no limit.
pub const DEFAULT_SEARCH_LIMIT: i64 = 10;

/// An accepted append: where it goes and the text written (ending in a newline).
pub struct MemoryAppend {
    pub rel: String,
    pub chunk: String,
}

/// The error of an append request, if it has one: an unknown action, a bad
/// path, or too much content.
pub open spec fn append_error(action: Seq<char>, path: Seq<char>, content: Seq<char>) -> Option<Seq<char>> {
    if action != "append"@ {
        Some("unknown memory_manage action: "@ + action)
    } else {
        match memory_path_result(path) {
            Err(e) => Some(crate::tools::paths::memory_path_error_text(e)),
            Ok(_) => if utf8_len(content) > MEMORY_APPEND_MAX_BYTES {
                Some("content exceeds max append size (4096 bytes)"@)
            } else {
                None
            },
        }
    }
}

/// `s` ending in a newline.
pub open spec fn with_newline(s: Seq<char>) -> Seq<char> {
    if ends_with(s, "\n"@) {
        s
    } else {
        s.push('\n')
    }
}

/// Checks a `memory_manage` call: the target path and the text to append, or
/// the error.
pub fn plan_memory_append(action: &str, path: &str, content: &str) -> (r: Result<MemoryAppend, String>)
    ensures
        match append_error(action@, path@, content@) {
            Some(m) => r matches Err(e) && e@ == m,
            None => r matches Ok(a) && memory_path_result(path@) == Ok::<Seq<char>, MemoryPathError>(a.rel@)
                && a.chunk@ == with_newline(content@),
        },
{
    let act = to_chars(action);
    if !crate::text::eq_str(&act, "append") {
        let mut m = to_chars("unknown memory_manage action: ");
        append_str(&mut m, action);
        return Err(from_chars(&m));
    }
    let rel = match validate_memory_path(path) {
        Err(e) => return Err(e.message()),
        Ok(rel) => rel,
    };
    let c = to_chars(content);
    if !fits_utf8(&c, MEMORY_APPEND_MAX_BYTES) {
        return Err("content exceeds max append size (4096 bytes)".to_owned());
    }
    let mut chunk = c;
    if !ends_with_str(&chunk, "\n") {
        chunk.push('\n');
    }
    Ok(MemoryAppend { rel, chunk: from_chars(&chunk) })
}

/// Whether appending `content_bytes` bytes to a file of `existing_len` bytes
/// stays within the file limit; the error otherwise.
pub fn check_append_fits(existing_len: u64, content_bytes: usize) -> (r: Result<(), String>)
    ensures
        match r {
            Ok(_) => existing_len + content_bytes <= MEMORY_FILE_MAX_BYTES,
            Err(e) => existing_len + content_bytes > MEMORY_FILE_MAX_BYTES
                && e@ == "append would exceed max file size (65536 bytes)"@,
        },
{
    if existing_len > MEMORY_FILE_MAX_BYTES as u64 || content_bytes as u64 > MEMORY_FILE_MAX_BYTES as u64
        - existing_len {
        Err("append would exceed max file size (65536 bytes)".to_owned())
    } else {
        Ok(())
    }
}

/// The reply of a successful append.
pub fn appended_reply(rel: &str) -> (r: String)
    ensures
        r@ == "Appended to '"@ + replace_char(rel@, '\\', '/') + "'."@,
{
    let mut m = to_chars("Appended to '");
    let d = replace_char_chars(&to_chars(rel), '\\', '/');
    append_slice(&mut m, &d);
    append_str(&mut m, "'.");
    from_chars(&m)
}

/// The lines `offset..offset+limit` (1-based, counted from the first line when
/// no offset is given) of `content`; the whole content when neither is given.
pub open spec fn read_window(content: Seq<char>, offset: Option<u32>, limit: Option<u32>) -> Seq<char> {
    if offset is None && limit is None {
        content
    } else {
        let ls = lines(content);
        let start: int = match offset {
            Some(o) => if o < 1 { 1 } else { o as int },
            None => 1,
        };
        let idx = start - 1;
        if idx >= ls.len() {
            Seq::empty()
        } else {
            let end: int = match limit {
                Some(l) => if idx + l > ls.len() { ls.len() as int } else { idx + l },
                None => ls.len() as int,
            };
            join(ls.subrange(idx, end), "\n"@)
        }
    }
}

/// The part of a memory file `memory_read` returns.
pub fn memory_read_window(content: &str, offset: Option<u32>, limit: Option<u32>) -> (r: String)
    ensures
        r@ == read_window(content@, offset, limit),
{
    if offset.is_none() && limit.is_none() {
        return content.to_owned();
    }
    let ls = split_lines(&to_chars(content));
    let start: usize = match offset {
        Some(o) => if o < 1 { 1 } else { o as usize },
        None => 1,
    };
    let idx = start - 1;
    if idx >= ls.len() {
        return String::new();
    }
    let end: usize = match limit {
        Some(l) => if l as usize > ls.len() - idx { ls.len() } else { idx + l as usize },
        None => ls.len(),
    };
    let mut part: Vec<Vec<char>> = Vec::new();
    let mut k: usize = idx;
    while k < end
        invariant
            idx <= k <= end <= ls.len(),
            views(part@) == views(ls@).subrange(idx as int, k as int),
        decreases end - k,
    {
        let line = slice_of(&ls[k], 0, ls[k].len());
        assert(line@ =~= ls@[k as int]@);
        proof {
            lemma_views_push(part@, line);
        }
        part.push(line);
        assert(views(part@) =~= views(ls@).subrange(idx as int, k + 1));
        k += 1;
    }
    let sep = to_chars("\n");
    from_chars(&join_chars(&part, &sep))
}

/// The error for a memory file that does not exist.
pub fn memory_file_missing_message(rel: &str) -> (r: String)
    ensures
        r@ == "memory file not found: "@ + rel@,
{
    let mut m = to_chars("memory file not found: ");
    append_str(&mut m, rel);
    from_chars(&m)
}

/// Whether a read is longer than `memory_read` returns whole.
pub fn memory_read_needs_truncation(output: &str) -> (r: bool)
    ensures
        r == (output@.len() > MEMORY_READ_MAX_CHARS),
{
    to_chars(output).len() > MEMORY_READ_MAX_CHARS
}

/// The hint that replaces the middle of a long read.
pub fn memory_read_truncation_hint(rel: &str) -> (r: String)
    ensures
        r@ == "truncated '"@ + rel@ + "' — use offset/limit"@,
{
    let mut m = to_chars("truncated '");
    append_str(&mut m, rel);
    append_str(&mut m, "' — use offset/limit");
    from_chars(&m)
}

/// The snippet shown for a file that matches `query` (already lower-case):
/// `max` characters from shortly before the first match, marked with `…` when
/// it does not start at the beginning. The start is the match's byte offset in
/// the lower-cased text, less 40, counted in characters of the original.
pub open spec fn snippet(content: Seq<char>, query: Seq<char>, max: nat) -> Seq<char> {
    let lower = unicode_lowercase(content);
    match find(lower, query) {
        None => if content.len() <= max {
            content
        } else {
            content.take(max as int)
        },
        Some(ci) => {
            let b = utf8_len(lower.take(ci));
            let start: nat = if b >= 40 { (b - 40) as nat } else { 0 };
            let rest = if start >= content.len() { Seq::empty() } else { content.skip(start as int) };
            let slice = if rest.len() <= max { rest } else { rest.take(max as int) };
            if start > 0 {
                "…"@ + slice
            } else {
                slice
            }
        },
    }
}

fn utf8_prefix_len(s: &[char], k: usize) -> (n: u128)
    requires
        k <= s.len(),
        s.len() <= usize::MAX,
    ensures
        n == utf8_len(s@.take(k as int)),
{
    let mut n: u128 = 0;
    let mut i: usize = 0;
    assert(s@.take(0) =~= Seq::<char>::empty());
    while i < k
        invariant
            i <= k <= s.len(),
            n == utf8_len(s@.take(i as int)),
            n <= 4 * i,
        decreases k - i,
    {
        proof {
            lemma_utf8_len_push(s@.take(i as int), s@[i as int]);
            assert(s@.take(i as int).push(s@[i as int]) =~= s@.take(i + 1));
        }
        n = n + char_utf8_width(s[i]) as u128;
        i += 1;
    }
    n
}

fn take_at_most(s: &[char], from: usize, max: usize) -> (r: Vec<char>)
    requires
        from <= s.len(),
    ensures
        r@ == (if s@.skip(from as int).len() <= max { s@.skip(from as int) } else { s@.skip(from as int).take(max as int) }),
{
    let end = if s.len() - from <= max { s.len() } else { from + max };
    let r = slice_of(s, from, end);
    assert(r@ =~= (if s@.skip(from as int).len() <= max { s@.skip(from as int) } else { s@.skip(from as int).take(max as int) }));
    r
}

/// The snippet of a matching memory file (see [`snippet`]).
pub fn extract_snippet(content: &str, query: &str, max_chars: usize) -> (r: String)
    ensures
        r@ == snippet(content@, query@, max_chars as nat),
{
    let c = to_chars(content);
    let lower = to_chars(to_lowercase(content).as_str());
    let q = to_chars(query);
    match find_chars(&lower, &q) {
        None => from_chars(&take_at_most(&c, 0, max_chars)),
        Some(ci) => {
            proof {
                lemma_find_some(lower@, q@);
            }
            let b = utf8_prefix_len(&lower, ci);
            let start: u128 = if b >= 40 { b - 40 } else { 0 };
            let rest_from: usize = if start >= c.len() as u128 { c.len() } else { start as usize };
            let slice = take_at_most(&c, rest_from, max_chars);
            proof {
                if start >= c.len() {
                    assert(c@.skip(c.len() as int) =~= Seq::<char>::empty());
                }
            }
            if start > 0 {
                let mut out = to_chars("…");
                append_slice(&mut out, &slice);
                from_chars(&out)
            } else {
                from_chars(&slice)
            }
        },
    }
}

/// A memory file that matched a search.
pub struct MemoryFileHit {
    pub path: String,
    pub snippet: String,
}

/// A session message that matched a search.
pub struct SessionHit {
    pub session_id: String,
    pub role: String,
    /// The message time in whole seconds.
    pub ts: String,
    pub snippet: String,
}

/// The matching memory files among `files` (workspace-relative path and
/// content, in the order they were found): those whose lower-cased content
/// contains the lower-cased query, up to `limit` hits (none for an empty
/// query; a negative limit does not cap).
pub open spec fn file_hits(query: Seq<char>, files: Seq<(Seq<char>, Seq<char>)>, limit: i64) -> Seq<(Seq<char>, Seq<char>)>
    decreases files.len(),
{
    let q = unicode_lowercase(query);
    if q.len() == 0 || files.len() == 0 {
        Seq::empty()
    } else {
        let prev = file_hits(query, files.drop_last(), limit);
        let (path, content) = files.last();
        if (limit >= 0 && prev.len() >= limit) || !contains(unicode_lowercase(content), q) {
            prev
        } else {
            prev.push((replace_char(path, '\\', '/'), snippet(content, q, 120)))
        }
    }
}

/// The view of the file hits.
pub open spec fn hit_views(v: Seq<MemoryFileHit>) -> Seq<(Seq<char>, Seq<char>)> {
    v.map_values(|h: MemoryFileHit| (h.path@, h.snippet@))
}

/// Searches memory files for `query`.
pub fn search_memory_files(query: &str, files: &Vec<(String, String)>, limit: i64) -> (r: Vec<MemoryFileHit>)
    ensures
        hit_views(r@) == file_hits(query@, files@.map_values(|f: (String, String)| (f.0@, f.1@)), limit),
{
    let ghost fs = files@.map_values(|f: (String, String)| (f.0@, f.1@));
    let q = to_lowercase(query);
    let qc = to_chars(q.as_str());
    let mut out: Vec<MemoryFileHit> = Vec::new();
    if qc.len() == 0 {
        proof {
            lemma_file_hits_empty_query(query@, fs, limit);
        }
        assert(hit_views(out@) =~= Seq::<(Seq<char>, Seq<char>)>::empty());
        return out;
    }
    let mut i: usize = 0;
    assert(fs.take(0) =~= Seq::<(Seq<char>, Seq<char>)>::empty());
    assert(hit_views(out@) =~= Seq::<(Seq<char>, Seq<char>)>::empty());
    while i < files.len()
        invariant
            i <= files.len(),
            fs == files@.map_values(|f: (String, String)| (f.0@, f.1@)),
            qc@ == unicode_lowercase(query@),
            q@ == qc@,
            qc@.len() > 0,
            hit_views(out@) == file_hits(query@, fs.take(i as int), limit),
            out@.len() <= i,
        decreases files.len() - i,
    {
        proof {
            assert(fs.take(i + 1).drop_last() =~= fs.take(i as int));
            assert(fs.take(i + 1).last() == fs[i as int]);
            assert(fs[i as int] == (files@[i as int].0@, files@[i as int].1@));
            assert(hit_views(out@).len() == out@.len());
        }
        let capped = limit >= 0 && out.len() as u64 >= limit as u64;
        if !capped {
            let content = &files[i].1;
            let lc = to_chars(to_lowercase(content.as_str()).as_str());
            if crate::text::contains_chars(&lc, &qc) {
                let path = from_chars(&replace_char_chars(&to_chars(files[i].0.as_str()), '\\', '/'));
                let sn = extract_snippet(content.as_str(), q.as_str(), 120);
                let ghost before = out@;
                out.push(MemoryFileHit { path, snippet: sn });
                assert(hit_views(out@) =~= hit_views(before).push((path@, sn@)));
            }
        }
        i += 1;
    }
    assert(fs.take(files.len() as int) =~= fs);
    out
}

proof fn lemma_file_hits_empty_query(query: Seq<char>, files: Seq<(Seq<char>, Seq<char>)>, limit: i64)
    requires
        unicode_lowercase(query).len() == 0,
    ensures
        file_hits(query, files, limit) == Seq::<(Seq<char>, Seq<char>)>::empty(),
{
}

/// The line of a session hit.
pub open spec fn session_line(h: SessionHit) -> Seq<char> {
    "- session="@ + h.session_id@ + " role="@ + h.role@ + " ts="@ + h.ts@ + ": "@ + h.snippet@
}

/// The line of a file hit.
pub open spec fn file_line(h: MemoryFileHit) -> Seq<char> {
    "- "@ + h.path@ + ": "@ + h.snippet@
}

/// The lines of a search result: session messages, then memory files, each
/// under its heading when there are any.
pub open spec fn search_lines(sessions: Seq<SessionHit>, files: Seq<MemoryFileHit>) -> Seq<Seq<char>> {
    (if sessions.len() > 0 {
        seq!["## Session messages"@] + Seq::new(sessions.len(), |i: int| session_line(sessions[i]))
    } else {
        Seq::empty()
    }) + (if files.len() > 0 {
        seq!["## Memory files"@] + Seq::new(files.len(), |i: int| file_line(files[i]))
    } else {
        Seq::empty()
    })
}

/// The reply of `memory_search`.
pub open spec fn search_reply(query: Seq<char>, sessions: Seq<SessionHit>, files: Seq<MemoryFileHit>) -> Seq<char> {
    let ls = search_lines(sessions, files);
    if ls.len() == 0 {
        "No matches for '"@ + trim(query) + "'."@
    } else {
        join(ls, "\n"@)
    }
}

/// Formats the hits of `memory_search`.
pub fn format_memory_search(query: &str, sessions: &[SessionHit], files: &[MemoryFileHit]) -> (r: String)
    ensures
        r@ == search_reply(query@, sessions@, files@),
{
    let mut ls: Vec<Vec<char>> = Vec::new();
    if sessions.len() > 0 {
        ls.push(to_chars("## Session messages"));
        let mut i: usize = 0;
        while i < sessions.len()
            invariant
                i <= sessions.len(),
                views(ls@) == seq!["## Session messages"@] + Seq::new(i as nat, |k: int| session_line(sessions@[k])),
            decreases sessions.len() - i,
        {
            let h = &sessions[i];
            let mut l = to_chars("- session=");
            append_str(&mut l, h.session_id.as_str());
            append_str(&mut l, " role=");
            append_str(&mut l, h.role.as_str());
            append_str(&mut l, " ts=");
            append_str(&mut l, h.ts.as_str());
            append_str(&mut l, ": ");
            append_str(&mut l, h.snippet.as_str());
            proof {
                lemma_views_push(ls@, l);
            }
            ls.push(l);
            assert(views(ls@) =~= seq!["## Session messages"@] + Seq::new((i + 1) as nat, |k: int| session_line(sessions@[k])));
            i += 1;
        }
    }
    let ghost first = views(ls@);
    assert(first =~= (if sessions@.len() > 0 {
        seq!["## Session messages"@] + Seq::new(sessions@.len(), |i: int| session_line(sessions@[i]))
    } else {
        Seq::empty()
    }));
    if files.len() > 0 {
        ls.push(to_chars("## Memory files"));
        let mut i: usize = 0;
        assert(views(ls@) =~= first + seq!["## Memory files"@]);
        while i < files.len()
            invariant
                i <= files.len(),
                views(ls@) == first + seq!["## Memory files"@] + Seq::new(i as nat, |k: int| file_line(files@[k])),
            decreases files.len() - i,
        {
            let h = &files[i];
            let mut l = to_chars("- ");
            append_str(&mut l, h.path.as_str());
            append_str(&mut l, ": ");
            append_str(&mut l, h.snippet.as_str());
            proof {
                lemma_views_push(ls@, l);
            }
            ls.push(l);
            assert(views(ls@) =~= first + seq!["## Memory files"@] + Seq::new((i + 1) as nat, |k: int| file_line(files@[k])));
            i += 1;
        }
    }
    assert(views(ls@) =~= search_lines(sessions@, files@));
    if ls.len() == 0 {
        let mut m = to_chars("No matches for '");
        let t = trim_chars(&to_chars(query));
        append_slice(&mut m, &t);
        append_str(&mut m, "'.");
        return from_chars(&m);
    }
    let sep = to_chars("\n");
    from_chars(&join_chars(&ls, &sep))
}

/// The search limit of a call.
pub fn search_limit(limit: Option<i64>) -> (r: i64)
    ensures
        r == match limit {
            Some(l) => l,
            None => DEFAULT_SEARCH_LIMIT,
        },
{
    match limit {
        Some(l) => l,
        None => DEFAULT_SEARCH_LIMIT,
    }
}

/// A window with a limit holds at most that many consecutive lines of the
/// content, joined by line feeds; without an offset they are the first lines.
pub proof fn lemma_read_window_limited(content: Seq<char>, offset: Option<u32>, l: u32)
    ensures
        exists|a: int, b: int|
            #![trigger lines(content).subrange(a, b)]
            0 <= a <= b <= lines(content).len() && b - a <= l && read_window(content, offset, Some(l)) == join(
                lines(content).subrange(a, b),
                "\n"@,
            ),
        offset is None ==> read_window(content, offset, Some(l)) == join(
            lines(content).take(if l < lines(content).len() { l as int } else { lines(content).len() as int }),
            "\n"@,
        ),
{
    let ls = lines(content);
    let start: int = match offset {
        Some(o) => if o < 1 { 1 } else { o as int },
        None => 1,
    };
    let idx = start - 1;
    if idx >= ls.len() {
        assert(ls.subrange(ls.len() as int, ls.len() as int) =~= Seq::<Seq<char>>::empty());
        assert(read_window(content, offset, Some(l)) == join(ls.subrange(ls.len() as int, ls.len() as int), "\n"@));
        if offset is None {
            assert(ls.take(0) =~= Seq::<Seq<char>>::empty());
        }
    } else {
        let end: int = if idx + l > ls.len() { ls.len() as int } else { idx + l };
        assert(read_window(content, offset, Some(l)) == join(ls.subrange(idx, end), "\n"@));
        if offset is None {
            assert(ls.subrange(0, end) =~= ls.take(end));
        }
    }
}

} // verus!
