//! Workspace-relative path validation (files, memory files, exec workdirs).
//!
//! Paths are `/`-separated; the component rules follow `std::path::Path` on
//! Unix: a leading `/` is the root, a `..` segment is the parent directory.

use vstd::prelude::*;

use crate::text::{
    append_str, chars_eq, concat, contains, eq_str, from_chars, index_of, is_ws, lemma_index_of_at,
    trim_end, trim_start, lemma_views_push, replace_char, replace_char_chars, slice_of, starts_with, starts_with_chars, starts_with_str, to_ascii_lower, to_ascii_lower_chars, to_chars, trim, trim_chars, views,
};

verus! {

/// `s` split at every `sep` (`str::split` with a char pattern).
pub open spec fn segments(s: Seq<char>, sep: char) -> Seq<Seq<char>>
    decreases s.len(),
{
    let k = index_of(s, sep);
    if k >= s.len() || k < 0 {
        seq![s]
    } else {
        seq![s.take(k)] + segments(s.skip(k + 1), sep)
    }
}

/// Some `/`-separated segment of `s` is `..` (a parent-directory component).
pub open spec fn has_parent_component(s: Seq<char>) -> bool {
    segments(s, '/').contains(".."@)
}

/// `s` uses forward slashes and no surrounding whitespace.
pub open spec fn normalized_path(path: Seq<char>) -> Seq<char> {
    replace_char(trim(path), '\\', '/')
}

/// Splits at every `sep` (see [`segments`]).
pub fn split_char(s: &[char], sep: char) -> (r: Vec<Vec<char>>)
    ensures
        views(r@) == segments(s@, sep),
{
    let mut out: Vec<Vec<char>> = Vec::new();
    let mut start: usize = 0;
    let mut i: usize = 0;
    assert(s@.skip(0) =~= s@);
    assert(views(out@) + segments(s@, sep) =~= segments(s@, sep));
    while i < s.len()
        invariant
            start <= i <= s.len(),
            segments(s@, sep) == views(out@) + segments(s@.skip(start as int), sep),
            forall|j: int| start <= j < i ==> s@[j] != sep,
        decreases s.len() - i,
    {
        if s[i] == sep {
            let seg = slice_of(s, start, i);
            proof {
                let t = s@.skip(start as int);
                assert forall|j: int| 0 <= j < i - start implies t[j] != sep by {
                    assert(t[j] == s@[start + j]);
                }
                lemma_index_of_at(t, sep, i - start);
                assert(t.take(i - start) =~= seg@);
                assert(t.skip(i - start + 1) =~= s@.skip(i + 1));
                lemma_views_push(out@, seg);
                assert(views(out@).push(seg@) + segments(s@.skip(i + 1), sep) =~= views(out@) + (
                seq![seg@] + segments(s@.skip(i + 1), sep)));
            }
            out.push(seg);
            start = i + 1;
        }
        i += 1;
    }
    let last = slice_of(s, start, s.len());
    proof {
        let t = s@.skip(start as int);
        assert forall|j: int| 0 <= j < t.len() implies t[j] != sep by {
            assert(t[j] == s@[start + j]);
        }
        lemma_index_of_at(t, sep, t.len() as int);
        assert(last@ =~= t);
        lemma_views_push(out@, last);
    }
    out.push(last);
    proof {
        assert(views(out@) =~= segments(s@, sep));
    }
    out
}

/// Whether any `/`-separated segment is `..`.
pub fn has_parent_segment(s: &[char]) -> (r: bool)
    ensures
        r == has_parent_component(s@),
{
    let segs = split_char(s, '/');
    let mut i: usize = 0;
    while i < segs.len()
        invariant
            i <= segs.len(),
            views(segs@) == segments(s@, '/'),
            forall|j: int| 0 <= j < i ==> views(segs@)[j] != ".."@,
        decreases segs.len() - i,
    {
        if eq_str(&segs[i], "..") {
            assert(views(segs@)[i as int] == ".."@);
            return true;
        }
        i += 1;
    }
    proof {
        if segments(s@, '/').contains(".."@) {
            let j = choose|j: int| 0 <= j < segments(s@, '/').len() && segments(s@, '/')[j] == ".."@;
            assert(views(segs@)[j] == ".."@);
        }
    }
    false
}

fn normalize_path_chars(path: &str) -> (r: Vec<char>)
    ensures
        r@ == normalized_path(path@),
{
    let p = to_chars(path);
    let t = trim_chars(&p);
    replace_char_chars(&t, '\\', '/')
}

/// Why a workspace path was refused.
#[derive(Debug, Clone, Copy, PartialEq, Eq)]
pub enum PathError {
    Empty,
    LooksLikeUrl,
    Absolute,
    Traversal,
}

impl PathError {
    /// The user-facing explanation.
    pub fn message(&self) -> (r: String)
        ensures
            r@ == path_error_text(*self),
    {
        match self {
            PathError::Empty => String::from_str("path must not be empty"),
            PathError::LooksLikeUrl => String::from_str(
                "looks like a URL — use web_fetch for web pages, or exec (e.g. yt-dlp) for video; file_read is workspace files only",
            ),
            PathError::Absolute => String::from_str(
                "path must be workspace-relative (not an absolute or URL path); for http(s) links use web_fetch",
            ),
            PathError::Traversal => String::from_str(
                "path must not contain '..' or absolute segments",
            ),
        }
    }
}

pub open spec fn path_error_text(e: PathError) -> Seq<char> {
    match e {
        PathError::Empty => "path must not be empty"@,
        PathError::LooksLikeUrl => "looks like a URL — use web_fetch for web pages, or exec (e.g. yt-dlp) for video; file_read is workspace files only"@,
        PathError::Absolute => "path must be workspace-relative (not an absolute or URL path); for http(s) links use web_fetch"@,
        PathError::Traversal => "path must not contain '..' or absolute segments"@,
    }
}

/// The outcome of `validate_relative_path` on a raw path.
pub open spec fn relative_path_result(path: Seq<char>) -> Result<Seq<char>, PathError> {
    let t = normalized_path(path);
    let lower = to_ascii_lower(t);
    if t.len() == 0 {
        Err(PathError::Empty)
    } else if starts_with(lower, "http://"@) || starts_with(lower, "https://"@) {
        Err(PathError::LooksLikeUrl)
    } else if starts_with(t, "/"@) {
        Err(PathError::Absolute)
    } else if has_parent_component(t) {
        Err(PathError::Traversal)
    } else {
        Ok(t)
    }
}

/// Validate a workspace-relative path (no `..`, no absolute roots).
pub fn validate_relative_path(path: &str) -> (r: Result<String, PathError>)
    ensures
        match r {
            Ok(s) => relative_path_result(path@) == Ok::<Seq<char>, PathError>(s@),
            Err(e) => relative_path_result(path@) == Err::<Seq<char>, PathError>(e),
        },
{
    let t = normalize_path_chars(path);
    if t.len() == 0 {
        return Err(PathError::Empty);
    }
    let lower = to_ascii_lower_chars(&t);
    if starts_with_str(&lower, "http://") || starts_with_str(&lower, "https://") {
        return Err(PathError::LooksLikeUrl);
    }
    if starts_with_str(&t, "/") {
        return Err(PathError::Absolute);
    }
    if has_parent_segment(&t) {
        return Err(PathError::Traversal);
    }
    Ok(from_chars(&t))
}

// ---------------------------------------------------------------------------
// Memory paths
// ---------------------------------------------------------------------------

/// Why a memory path was refused.
#[derive(Debug, Clone, Copy, PartialEq, Eq)]
pub enum MemoryPathError {
    Empty,
    NotRelative,
    Traversal,
    MissingFilename,
    Nested,
    RootFileUnderDir,
    BadExtension,
    OutsideMemory,
}

pub open spec fn memory_path_error_text(e: MemoryPathError) -> Seq<char> {
    match e {
        MemoryPathError::Empty => "path must not be empty"@,
        MemoryPathError::NotRelative => "path must be relative"@,
        MemoryPathError::Traversal => "path must not contain '..'"@,
        MemoryPathError::MissingFilename => "memory path must include a filename"@,
        MemoryPathError::Nested => "memory path must be memory/<file> only"@,
        MemoryPathError::RootFileUnderDir => "use MEMORY.md at workspace root, not under memory/"@,
        MemoryPathError::BadExtension => "memory files must be .md or .txt"@,
        MemoryPathError::OutsideMemory => "path must be MEMORY.md or memory/<file>"@,
    }
}

impl MemoryPathError {
    /// The user-facing explanation.
    pub fn message(&self) -> (r: String)
        ensures
            r@ == memory_path_error_text(*self),
    {
        match self {
            MemoryPathError::Empty => String::from_str("path must not be empty"),
            MemoryPathError::NotRelative => String::from_str("path must be relative"),
            MemoryPathError::Traversal => String::from_str("path must not contain '..'"),
            MemoryPathError::MissingFilename => String::from_str(
                "memory path must include a filename",
            ),
            MemoryPathError::Nested => String::from_str("memory path must be memory/<file> only"),
            MemoryPathError::RootFileUnderDir => String::from_str(
                "use MEMORY.md at workspace root, not under memory/",
            ),
            MemoryPathError::BadExtension => String::from_str("memory files must be .md or .txt"),
            MemoryPathError::OutsideMemory => String::from_str(
                "path must be MEMORY.md or memory/<file>",
            ),
        }
    }
}

/// Segments that are normal path components (neither empty nor `.`).
pub open spec fn normal_segments(segs: Seq<Seq<char>>) -> Seq<Seq<char>> {
    segs.filter(|x: Seq<char>| x.len() > 0 && x != "."@)
}

/// `Path::new(t) == Path::new("MEMORY.md")` for a relative `t`: no leading
/// `.` component and exactly the one normal component `MEMORY.md`.
pub open spec fn is_memory_md(t: Seq<char>) -> bool {
    !(t == "."@ || starts_with(t, "./"@)) && normal_segments(segments(t, '/')) == seq!["MEMORY.md"@]
}

/// Index of the last `.` in `s`, or -1.
pub open spec fn last_dot(s: Seq<char>) -> int
    decreases s.len(),
{
    if s.len() == 0 {
        -1
    } else if s.last() == '.' {
        s.len() - 1
    } else {
        last_dot(s.drop_last())
    }
}

/// `Path::extension` of a single file name.
pub open spec fn extension(name: Seq<char>) -> Option<Seq<char>> {
    let k = last_dot(name);
    if k <= 0 || name == ".."@ {
        None
    } else {
        Some(name.skip(k + 1))
    }
}

/// The outcome of `validate_memory_path` on a raw path.
pub open spec fn memory_path_result(path: Seq<char>) -> Result<Seq<char>, MemoryPathError> {
    let t = normalized_path(path);
    let pre = "memory/"@;
    if t.len() == 0 {
        Err(MemoryPathError::Empty)
    } else if starts_with(t, "/"@) {
        Err(MemoryPathError::NotRelative)
    } else if has_parent_component(t) {
        Err(MemoryPathError::Traversal)
    } else if is_memory_md(t) {
        Ok("MEMORY.md"@)
    } else if starts_with(t, pre) {
        let name = t.skip(pre.len() as int);
        if name.len() == 0 {
            Err(MemoryPathError::MissingFilename)
        } else if name.contains('/') {
            Err(MemoryPathError::Nested)
        } else if name == "MEMORY.md"@ {
            Err(MemoryPathError::RootFileUnderDir)
        } else if !(extension(name) == Some("md"@) || extension(name) == Some("txt"@)) {
            Err(MemoryPathError::BadExtension)
        } else {
            Ok(pre + name)
        }
    } else {
        Err(MemoryPathError::OutsideMemory)
    }
}

/// A path that starts and ends with a non-blank character and has no
/// backslash is its own normal form.
proof fn lemma_normalized_fixed(t: Seq<char>)
    requires
        t.len() > 0,
        !is_ws(t[0]),
        !is_ws(t.last()),
        !t.contains('\\'),
    ensures
        normalized_path(t) == t,
{
    assert(trim_start(t) == t);
    assert(trim_end(t) == t);
    assert(replace_char(t, '\\', '/') =~= t);
}

proof fn lemma_last_dot_bounds(s: Seq<char>)
    ensures
        -1 <= last_dot(s) < s.len(),
    decreases s.len(),
{
    if s.len() > 0 && s.last() != '.' {
        lemma_last_dot_bounds(s.drop_last());
    }
}

/// A path that validates comes out as its own validated form: validating it
/// again accepts it unchanged.
pub proof fn lemma_memory_path_stable(path: Seq<char>)
    requires
        memory_path_result(path) is Ok,
    ensures
        memory_path_result(memory_path_result(path)->Ok_0) == memory_path_result(path),
{
    let r = memory_path_result(path)->Ok_0;
    let t = normalized_path(path);
    let pre = "memory/"@;
    reveal_strlit("memory/");
    reveal_strlit("MEMORY.md");
    if is_memory_md(t) {
        let m = "MEMORY.md"@;
        assert(!m.contains('\\')) by {
            if m.contains('\\') {
                let i = choose|i: int| 0 <= i < m.len() && m[i] == '\\';
                assert(m[i] == '\\');
            }
        }
        lemma_normalized_fixed(m);
        lemma_index_of_at(m, '/', m.len() as int);
        assert(segments(m, '/') == seq![m]);
        reveal_strlit("..");
        assert(!seq![m].contains(".."@)) by {
            if seq![m].contains(".."@) {
                assert(seq![m][0] == ".."@);
                assert(m.len() != (".."@).len());
            }
        }
        reveal_strlit(".");
        reveal_strlit("./");
        reveal_strlit("/");
        reveal_with_fuel(Seq::filter, 2);
        assert(seq![m].drop_last() =~= Seq::<Seq<char>>::empty());
        assert(normal_segments(seq![m]) =~= seq![m]);
        assert(normalized_path(m) == m);
        assert(!starts_with(m, "/"@)) by {
            assert(m.take(1)[0] == 'M');
        }
        assert(!has_parent_component(m));
        assert(!(m == "."@ || starts_with(m, "./"@))) by {
            assert(m.len() != 1);
            assert(m.take(2)[0] == 'M');
        }
        assert(is_memory_md(m));
    } else {
        let name = t.skip(pre.len() as int);
        assert(r == t) by {
            assert(t =~= pre + name);
        }
        let k = last_dot(name);
        lemma_last_dot_bounds(name);
        let e = name.skip(k + 1);
        assert(e == "md"@ || e == "txt"@);
        reveal_strlit("md");
        reveal_strlit("txt");
        assert(t.last() == name.last());
        assert(name.last() == e.last());
        assert(t[0] == 'm');
        assert(!t.contains('\\')) by {
            if t.contains('\\') {
                let i = choose|i: int| 0 <= i < t.len() && t[i] == '\\';
                assert(replace_char(trim(path), '\\', '/')[i] == t[i]);
            }
        }
        lemma_normalized_fixed(t);
    }
}

fn normal_segment_filter(segs: &Vec<Vec<char>>) -> (r: Vec<Vec<char>>)
    ensures
        views(r@) == normal_segments(views(segs@)),
{
    let mut out: Vec<Vec<char>> = Vec::new();
    let mut i: usize = 0;
    assert(views(segs@).take(0) =~= Seq::<Seq<char>>::empty());
    assert(normal_segments(views(segs@).take(0)) =~= Seq::<Seq<char>>::empty());
    while i < segs.len()
        invariant
            i <= segs.len(),
            views(out@) == normal_segments(views(segs@).take(i as int)),
        decreases segs.len() - i,
    {
        let keep = segs[i].len() > 0 && !eq_str(&segs[i], ".");
        proof {
            let pred = |x: Seq<char>| x.len() > 0 && x != "."@;
            let pre = views(segs@).take(i as int);
            assert(views(segs@).take(i + 1) =~= pre.push(segs@[i as int]@));
            pre.lemma_filter_push(segs@[i as int]@, pred);
        }
        if keep {
            let c = slice_of(&segs[i], 0, segs[i].len());
            assert(c@ =~= segs@[i as int]@);
            proof {
                lemma_views_push(out@, c);
            }
            out.push(c);
        }
        i += 1;
    }
    assert(views(segs@).take(segs.len() as int) =~= views(segs@));
    out
}

fn is_memory_md_chars(t: &[char]) -> (r: bool)
    ensures
        r == is_memory_md(t@),
{
    if eq_str(t, ".") || starts_with_str(t, "./") {
        return false;
    }
    let segs = split_char(t, '/');
    let normal = normal_segment_filter(&segs);
    if normal.len() != 1 {
        proof {
            assert(views(normal@).len() != seq!["MEMORY.md"@].len());
        }
        return false;
    }
    let r = eq_str(&normal[0], "MEMORY.md");
    proof {
        if r {
            assert(views(normal@) =~= seq!["MEMORY.md"@]);
        } else {
            assert(views(normal@)[0] != seq!["MEMORY.md"@][0]);
        }
    }
    r
}

fn last_dot_index(s: &[char]) -> (r: Option<usize>)
    ensures
        match r {
            Some(k) => last_dot(s@) == k as int && k < s.len(),
            None => last_dot(s@) == -1,
        },
{
    let mut k = s.len();
    assert(s@.take(k as int) =~= s@);
    while k > 0 && s[k - 1] != '.'
        invariant
            k <= s.len(),
            last_dot(s@) == last_dot(s@.take(k as int)),
        decreases k,
    {
        assert(s@.take(k as int).drop_last() =~= s@.take(k - 1));
        k -= 1;
    }
    if k == 0 {
        None
    } else {
        assert(s@.take(k as int).last() == s@[k - 1]);
        Some(k - 1)
    }
}

fn extension_is(name: &[char], ext: &str) -> (r: bool)
    ensures
        r == (extension(name@) == Some(ext@)),
{
    if eq_str(name, "..") {
        return false;
    }
    match last_dot_index(name) {
        None => false,
        Some(k) => {
            if k == 0 {
                return false;
            }
            let after = slice_of(name, k + 1, name.len());
            assert(after@ =~= name@.skip(k + 1));
            let r = eq_str(&after, ext);
            r
        },
    }
}

fn contains_char(s: &[char], c: char) -> (r: bool)
    ensures
        r == s@.contains(c),
{
    let mut i: usize = 0;
    while i < s.len()
        invariant
            i <= s.len(),
            forall|j: int| 0 <= j < i ==> s@[j] != c,
        decreases s.len() - i,
    {
        if s[i] == c {
            assert(s@[i as int] == c);
            return true;
        }
        i += 1;
    }
    false
}

/// Resolve and validate a memory path relative to workspace group root.
pub fn validate_memory_path(path: &str) -> (r: Result<String, MemoryPathError>)
    ensures
        match r {
            Ok(s) => memory_path_result(path@) == Ok::<Seq<char>, MemoryPathError>(s@),
            Err(e) => memory_path_result(path@) == Err::<Seq<char>, MemoryPathError>(e),
        },
{
    let t = normalize_path_chars(path);
    if t.len() == 0 {
        return Err(MemoryPathError::Empty);
    }
    if starts_with_str(&t, "/") {
        return Err(MemoryPathError::NotRelative);
    }
    if has_parent_segment(&t) {
        return Err(MemoryPathError::Traversal);
    }
    if is_memory_md_chars(&t) {
        return Ok(String::from_str("MEMORY.md"));
    }
    let pre = to_chars("memory/");
    if starts_with_chars(&t, &pre) {
        let tlen = t.len();
        let name = slice_of(&t, pre.len(), tlen);
        assert(name@ =~= t@.skip(pre@.len() as int));
        if name.len() == 0 {
            return Err(MemoryPathError::MissingFilename);
        }
        if contains_char(&name, '/') {
            return Err(MemoryPathError::Nested);
        }
        if eq_str(&name, "MEMORY.md") {
            return Err(MemoryPathError::RootFileUnderDir);
        }
        if !(extension_is(&name, "md") || extension_is(&name, "txt")) {
            return Err(MemoryPathError::BadExtension);
        }
        let r = concat(&pre, &name);
        return Ok(from_chars(&r));
    }
    Err(MemoryPathError::OutsideMemory)
}

// ---------------------------------------------------------------------------
// Exec workdirs
// ---------------------------------------------------------------------------

/// Why an exec workdir was refused.
#[derive(Debug, Clone, Copy, PartialEq, Eq)]
pub enum WorkdirError {
    ParentDir,
    NotRelative,
    OutsideWorkspace,
}

pub open spec fn workdir_error_text(e: WorkdirError, w: Seq<char>) -> Seq<char> {
    match e {
        WorkdirError::ParentDir => "workdir cannot contain .."@,
        WorkdirError::NotRelative => "workdir must be relative to the workspace"@,
        WorkdirError::OutsideWorkspace => "workdir must be relative to the workspace (got \""@ + w
            + "\"); use \".\" for workspace root"@,
    }
}

/// The Rust debug rendering of a string (`format!("{:?}", s)`).
pub uninterp spec fn str_debug(s: Seq<char>) -> Seq<char>;

/// Renders `s` as Rust's `Debug` does for `str` (quoted and escaped).
#[verifier::external_body]
fn debug_quoted(s: &str) -> (r: String)
    ensures
        r@ == str_debug(s@),
{
    format!("{s:?}")
}

/// The text of a workdir error for the (trimmed) workdir `w`.
pub open spec fn workdir_error_message_text(e: WorkdirError, w: Seq<char>) -> Seq<char> {
    match e {
        WorkdirError::OutsideWorkspace => "workdir must be relative to the workspace (got "@ + str_debug(w)
            + "); use \".\" for workspace root"@,
        _ => workdir_error_text(e, w),
    }
}

/// The error text of a refused workdir.
pub fn workdir_error_message(e: WorkdirError, w: &str) -> (r: String)
    ensures
        r@ == workdir_error_message_text(e, w@),
{
    match e {
        WorkdirError::ParentDir => "workdir cannot contain ..".to_owned(),
        WorkdirError::NotRelative => "workdir must be relative to the workspace".to_owned(),
        WorkdirError::OutsideWorkspace => {
            let mut r = to_chars("workdir must be relative to the workspace (got ");
            let q = debug_quoted(w);
            append_str(&mut r, q.as_str());
            append_str(&mut r, "); use \".\" for workspace root");
            from_chars(&r)
        },
    }
}

/// The outcome of `sanitize_relative_workdir`.
pub open spec fn relative_workdir_result(w: Seq<char>) -> Result<Seq<char>, WorkdirError> {
    if starts_with(w, "/"@) {
        Err(WorkdirError::NotRelative)
    } else if has_parent_component(w) {
        Err(WorkdirError::ParentDir)
    } else {
        Ok(w)
    }
}

/// A relative workdir without `..` components.
pub fn sanitize_relative_workdir(workdir: &str) -> (r: Result<String, WorkdirError>)
    ensures
        match r {
            Ok(s) => relative_workdir_result(workdir@) == Ok::<Seq<char>, WorkdirError>(s@),
            Err(e) => relative_workdir_result(workdir@) == Err::<Seq<char>, WorkdirError>(e),
        },
{
    let w = to_chars(workdir);
    if starts_with_str(&w, "/") {
        return Err(WorkdirError::NotRelative);
    }
    if has_parent_segment(&w) {
        return Err(WorkdirError::ParentDir);
    }
    Ok(String::from_str(workdir))
}

/// `s` without its leading `/` characters.
pub open spec fn trim_start_slashes(s: Seq<char>) -> Seq<char>
    decreases s.len(),
{
    if s.len() > 0 && s[0] == '/' {
        trim_start_slashes(s.drop_first())
    } else {
        s
    }
}

fn trim_start_slashes_chars(s: &[char]) -> (r: Vec<char>)
    ensures
        r@ == trim_start_slashes(s@),
{
    let mut i: usize = 0;
    assert(s@.skip(0) =~= s@);
    while i < s.len() && s[i] == '/'
        invariant
            i <= s.len(),
            trim_start_slashes(s@) == trim_start_slashes(s@.skip(i as int)),
        decreases s.len() - i,
    {
        assert(s@.skip(i as int).drop_first() =~= s@.skip(i + 1));
        i += 1;
    }
    let r = slice_of(s, i, s.len());
    assert(r@ =~= s@.skip(i as int));
    r
}

/// `"."` for an empty relative part, otherwise the sanitized relative part.
pub open spec fn rel_or_root(rel: Seq<char>) -> Result<Seq<char>, WorkdirError> {
    if rel.len() == 0 {
        Ok("."@)
    } else {
        relative_workdir_result(rel)
    }
}

/// The outcome of `normalize_workdir`. `host_rel` is the workdir resolved on
/// the host and made relative to the resolved workspace (`None` when it lies
/// outside the workspace or cannot be resolved); it only matters for absolute
/// workdirs other than `/workspace...`.
pub open spec fn workdir_result(workdir: Seq<char>, host_rel: Option<Seq<char>>) -> Result<
    Seq<char>,
    WorkdirError,
> {
    let w = trim(workdir);
    let sandbox = "/workspace"@;
    if w.len() == 0 || w == "."@ {
        Ok("."@)
    } else if w == sandbox || starts_with(w, "/workspace/"@) {
        rel_or_root(trim_start_slashes(w.skip(sandbox.len() as int)))
    } else if starts_with(w, "/"@) {
        match host_rel {
            Some(rel) => rel_or_root(trim_start_slashes(rel)),
            None => Err(WorkdirError::OutsideWorkspace),
        }
    } else {
        relative_workdir_result(w)
    }
}

fn rel_or_root_chars(rel: &[char]) -> (r: Result<String, WorkdirError>)
    ensures
        match r {
            Ok(s) => rel_or_root(rel@) == Ok::<Seq<char>, WorkdirError>(s@),
            Err(e) => rel_or_root(rel@) == Err::<Seq<char>, WorkdirError>(e),
        },
{
    if rel.len() == 0 {
        Ok(String::from_str("."))
    } else {
        let s = from_chars(rel);
        sanitize_relative_workdir(s.as_str())
    }
}

/// Accept relative paths; map the sandbox root `/workspace` and host paths
/// inside the workspace to workspace-relative ones.
pub fn normalize_workdir(workdir: &str, host_rel: Option<&str>) -> (r: Result<String, WorkdirError>)
    ensures
        match r {
            Ok(s) => workdir_result(
                workdir@,
                match host_rel {
                    Some(h) => Some(h@),
                    None => None,
                },
            ) == Ok::<Seq<char>, WorkdirError>(s@),
            Err(e) => workdir_result(
                workdir@,
                match host_rel {
                    Some(h) => Some(h@),
                    None => None,
                },
            ) == Err::<Seq<char>, WorkdirError>(e),
        },
{
    let wc = to_chars(workdir);
    let w = trim_chars(&wc);
    if w.len() == 0 || eq_str(&w, ".") {
        return Ok(String::from_str("."));
    }
    let sandbox = to_chars("/workspace");
    if chars_eq(&w, &sandbox) || starts_with_str(&w, "/workspace/") {
        let wlen = w.len();
        proof {
            if !(w@ == sandbox@) {
                reveal_strlit("/workspace/");
                reveal_strlit("/workspace");
                assert(w@.take(11) =~= "/workspace/"@);
                assert(wlen >= sandbox@.len());
            }
        }
        let after = slice_of(&w, sandbox.len(), wlen);
        assert(after@ =~= w@.skip(sandbox@.len() as int));
        let rel = trim_start_slashes_chars(&after);
        return rel_or_root_chars(&rel);
    }
    if starts_with_str(&w, "/") {
        return match host_rel {
            Some(h) => {
                let hc = to_chars(h);
                let rel = trim_start_slashes_chars(&hc);
                rel_or_root_chars(&rel)
            },
            None => Err(WorkdirError::OutsideWorkspace),
        };
    }
    let s = from_chars(&w);
    sanitize_relative_workdir(s.as_str())
}

} // verus!
