//! Citable sources of a turn: URLs and workspace paths gathered from tool calls,
//! and the `## Sources` footer added when the model left it out.

use vstd::prelude::*;

use reqwest::Url;
use serde_json::Value;

use crate::conversation::ToolCall;
use crate::text::{
    all_ws, append_slice, append_str, contains, contains_chars, contains_str, eq_str, from_chars,
    is_ws, join, join_chars, lemma_trim_end_shape, lines, occurs_at, replace_char, replace_char_chars, slice_of, split_lines, starts_with,
    starts_with_chars, starts_with_str, to_chars, to_lowercase, trim, trim_chars, trim_end,
    trim_end_chars, unicode_lowercase, views,
};

verus! {

/// A citable source.
#[derive(Debug, Clone, PartialEq, Eq, Hash)]
pub enum TurnSource {
    Url(String),
    WorkspacePath(String),
}

/// The mathematical content of a source.
pub enum SourceView {
    Url(Seq<char>),
    WorkspacePath(Seq<char>),
}

/// The view of a source.
pub open spec fn source_view(s: TurnSource) -> SourceView {
    match s {
        TurnSource::Url(u) => SourceView::Url(u@),
        TurnSource::WorkspacePath(p) => SourceView::WorkspacePath(p@),
    }
}

/// The views of a sequence of sources.
pub open spec fn source_views(v: Seq<TurnSource>) -> Seq<SourceView> {
    v.map_values(|s: TurnSource| source_view(s))
}

/// What `url::Url::parse` makes of a text: the scheme and host (if any) of an
/// accepted URL, or the text of its parse error.
pub uninterp spec fn url_parts(s: Seq<char>) -> Result<(Seq<char>, Option<Seq<char>>), Seq<char>>;

/// The view of a parsed URL: scheme and host, or the error's text.
pub open spec fn parsed_view(p: Result<(String, Option<String>), String>) -> Result<(Seq<char>, Option<Seq<char>>), Seq<char>> {
    match p {
        Ok((scheme, host)) => Ok((
            scheme@,
            match host {
                Some(h) => Some(h@),
                None => None,
            },
        )),
        Err(e) => Err(e@),
    }
}

/// Parses a URL with `url::Url::parse` and returns its scheme and host, or the
/// error's text. The parts are named, not described: URL parsing follows the
/// WHATWG standard.
#[verifier::external_body]
pub(crate) fn parse_url(s: &str) -> (r: Result<(String, Option<String>), String>)
    ensures
        url_parts(s@) == parsed_view(r),
{
    match Url::parse(s) {
        Ok(u) => Ok((u.scheme().to_string(), u.host_str().map(str::to_string))),
        Err(e) => Err(e.to_string()),
    }
}

/// The string at `key` of the JSON object `raw`, when `raw` is JSON and holds one.
pub uninterp spec fn json_str_field(raw: Seq<char>, key: Seq<char>) -> Option<Seq<char>>;

/// Reads `raw` with `serde_json::from_str` as a `Value` and returns the string at
/// `key`, if any (`Value::get`, `Value::as_str`). The result is named, not described.
#[verifier::external_body]
fn json_string_field(raw: &str, key: &str) -> (r: Option<String>)
    ensures
        match r {
            Some(v) => json_str_field(raw@, key@) == Some(v@),
            None => json_str_field(raw@, key@) is None,
        },
{
    serde_json::from_str::<Value>(raw).ok()?.get(key)?.as_str().map(str::to_string)
}

/// A tool argument: the trimmed string at `key`, when not blank.
pub open spec fn arg_string(args: Seq<char>, key: Seq<char>) -> Option<Seq<char>> {
    match json_str_field(args, key) {
        Some(v) => if trim(v).len() > 0 {
            Some(trim(v))
        } else {
            None
        },
        None => None,
    }
}

fn arg_str(args: &str, key: &str) -> (r: Option<Vec<char>>)
    ensures
        match r {
            Some(v) => arg_string(args@, key@) == Some(v@),
            None => arg_string(args@, key@) is None,
        },
{
    match json_string_field(args, key) {
        Some(v) => {
            let c = to_chars(v.as_str());
            let t = trim_chars(&c);
            if t.len() > 0 {
                Some(t)
            } else {
                None
            }
        },
        None => None,
    }
}

/// A parsed URL with the `http` or `https` scheme.
pub open spec fn http_parsed(p: Result<(Seq<char>, Option<Seq<char>>), Seq<char>>) -> bool {
    p matches Ok((scheme, _)) && (scheme == "http"@ || scheme == "https"@)
}

/// An `http` or `https` URL.
pub open spec fn is_http_url(s: Seq<char>) -> bool {
    http_parsed(url_parts(s))
}

/// Whether a parsed URL is an HTTP(S) one.
pub fn is_http_parsed(parsed: &Result<(String, Option<String>), String>) -> (r: bool)
    ensures
        r == http_parsed(parsed_view(*parsed)),
{
    match parsed {
        Ok((scheme, _)) => {
            let c = to_chars(scheme.as_str());
            eq_str(&c, "http") || eq_str(&c, "https")
        },
        Err(_) => false,
    }
}

fn looks_like_http_url(s: &[char]) -> (r: bool)
    ensures
        r == is_http_url(s@),
{
    let st = from_chars(s);
    let parsed = parse_url(st.as_str());
    is_http_parsed(&parsed)
}

/// The sources of a URL: itself when it is an HTTP(S) URL.
pub open spec fn url_sources(u: Seq<char>) -> Seq<SourceView> {
    if is_http_url(u) {
        seq![SourceView::Url(u)]
    } else {
        Seq::empty()
    }
}

/// The sources of a workspace path: itself (with `/` separators) when it is
/// `MEMORY.md` or under `memory/`.
pub open spec fn path_sources(p: Seq<char>) -> Seq<SourceView> {
    let n = replace_char(p, '\\', '/');
    if n == "MEMORY.md"@ || starts_with(n, "memory/"@) {
        seq![SourceView::WorkspacePath(n)]
    } else {
        Seq::empty()
    }
}

fn push_url(out: &mut Vec<TurnSource>, u: &[char])
    ensures
        source_views(final(out)@) == source_views(old(out)@) + url_sources(u@),
{
    if looks_like_http_url(u) {
        out.push(TurnSource::Url(from_chars(u)));
    }
    assert(source_views(out@) =~= source_views(old(out)@) + url_sources(u@));
}

fn push_workspace_path(out: &mut Vec<TurnSource>, p: &[char])
    ensures
        source_views(final(out)@) == source_views(old(out)@) + path_sources(p@),
{
    let n = replace_char_chars(p, '\\', '/');
    if eq_str(&n, "MEMORY.md") || starts_with_str(&n, "memory/") {
        out.push(TurnSource::WorkspacePath(from_chars(&n)));
    }
    assert(source_views(out@) =~= source_views(old(out)@) + path_sources(p@));
}

/// Sources named by a tool call's arguments: the URL of `web_fetch`, of a
/// browser navigation or of an `mcp_` tool; the path of `memory_read`.
pub open spec fn args_sources(name: Seq<char>, args: Seq<char>) -> Seq<SourceView> {
    if name == "web_fetch"@ || contains(name, "browser_navigate"@) {
        match arg_string(args, "url"@) {
            Some(u) => url_sources(u),
            None => Seq::empty(),
        }
    } else if name == "memory_read"@ {
        match arg_string(args, "path"@) {
            Some(p) => path_sources(p),
            None => Seq::empty(),
        }
    } else if starts_with(name, "mcp_"@) {
        match arg_string(args, "url"@) {
            Some(u) => url_sources(u),
            None => Seq::empty(),
        }
    } else {
        Seq::empty()
    }
}

/// The value after `prefix` on the first line that starts with it (trimmed), when not blank.
pub open spec fn prefixed_value(ls: Seq<Seq<char>>, prefix: Seq<char>) -> Option<Seq<char>>
    decreases ls.len(),
{
    if ls.len() == 0 {
        None
    } else if starts_with(trim(ls[0]), prefix) {
        let v = trim(trim(ls[0]).skip(prefix.len() as int));
        if v.len() > 0 {
            Some(v)
        } else {
            None
        }
    } else {
        prefixed_value(ls.drop_first(), prefix)
    }
}

/// Workspace paths listed under `## Memory files` in a `memory_search` result
/// (`- path: snippet` lines, up to the next `## ` heading).
pub open spec fn memory_search_paths(ls: Seq<Seq<char>>, in_files: bool) -> Seq<SourceView>
    decreases ls.len(),
{
    if ls.len() == 0 {
        Seq::empty()
    } else {
        let t = trim(ls[0]);
        let rest = ls.drop_first();
        if t == "## Memory files"@ {
            memory_search_paths(rest, true)
        } else if starts_with(t, "## "@) {
            memory_search_paths(rest, false)
        } else if !in_files || !starts_with(t, "- "@) {
            memory_search_paths(rest, in_files)
        } else {
            let item = t.skip(2);
            let colon = crate::text::index_of(item, ':');
            if colon >= item.len() {
                memory_search_paths(rest, in_files)
            } else {
                path_sources(trim(item.take(colon))) + memory_search_paths(rest, in_files)
            }
        }
    }
}

/// `s` without repeated elements; the first occurrence stays.
pub open spec fn dedupe(s: Seq<SourceView>) -> Seq<SourceView>
    decreases s.len(),
{
    if s.len() == 0 {
        s
    } else {
        let d = dedupe(s.drop_last());
        if d.contains(s.last()) {
            d
        } else {
            d.push(s.last())
        }
    }
}

/// Sources found in a tool's result: the `url:` line of `web_fetch`, the memory
/// files of `memory_search`.
pub open spec fn result_sources(name: Seq<char>, body: Seq<char>) -> Seq<SourceView> {
    let fetched = if name == "web_fetch"@ {
        match prefixed_value(lines(body), "url:"@) {
            Some(u) => url_sources(u),
            None => Seq::empty(),
        }
    } else {
        Seq::empty()
    };
    let searched = if name == "memory_search"@ {
        memory_search_paths(lines(body), false)
    } else {
        Seq::empty()
    };
    dedupe(fetched + searched)
}

/// The citable sources of a tool call: none for a failed call.
pub open spec fn turn_sources(name: Seq<char>, args: Seq<char>, body: Seq<char>, exit_code: i32) -> Seq<SourceView> {
    if exit_code != 0 {
        Seq::empty()
    } else {
        dedupe(args_sources(name, args) + result_sources(name, body))
    }
}

/// Deduplication keeps every source once: no repeats, nothing lost.
pub proof fn lemma_dedupe_unique(s: Seq<SourceView>)
    ensures
        forall|i: int, j: int| 0 <= i < j < dedupe(s).len() ==> dedupe(s)[i] != dedupe(s)[j],
        forall|x: SourceView|
            #![trigger s.contains(x)]
            #![trigger dedupe(s).contains(x)]
            s.contains(x) <==> dedupe(s).contains(x),
    decreases s.len(),
{
    if s.len() > 0 {
        let d = dedupe(s.drop_last());
        lemma_dedupe_unique(s.drop_last());
        assert(dedupe(s) == (if d.contains(s.last()) { d } else { d.push(s.last()) }));
        assert forall|x: SourceView| s.contains(x) <==> dedupe(s).contains(x) by {
            if s.contains(x) {
                let k = choose|k: int| 0 <= k < s.len() && s[k] == x;
                if k < s.len() - 1 {
                    assert(s.drop_last()[k] == x);
                    assert(s.drop_last().contains(x));
                    let m = choose|m: int| 0 <= m < d.len() && d[m] == x;
                    assert(dedupe(s)[m] == x);
                } else if !d.contains(s.last()) {
                    assert(dedupe(s)[d.len() as int] == x);
                } else {
                    assert(x == s.last());
                }
            }
            if dedupe(s).contains(x) {
                let m = choose|m: int| 0 <= m < dedupe(s).len() && dedupe(s)[m] == x;
                if m < d.len() {
                    assert(d[m] == x);
                    assert(d.contains(x));
                    let k = choose|k: int| 0 <= k < s.drop_last().len() && s.drop_last()[k] == x;
                    assert(s.drop_last()[k] == s[k]);
                } else {
                    assert(s[s.len() - 1] == x);
                }
            }
        }
    }
}

fn collect_from_tool_args(name: &[char], args: &str) -> (r: Vec<TurnSource>)
    ensures
        source_views(r@) == args_sources(name@, args@),
{
    let mut out: Vec<TurnSource> = Vec::new();
    assert(source_views(out@) =~= Seq::<SourceView>::empty());
    if eq_str(name, "web_fetch") || contains_str(name, "browser_navigate") {
        match arg_str(args, "url") {
            Some(u) => push_url(&mut out, &u),
            None => {},
        }
    } else if eq_str(name, "memory_read") {
        match arg_str(args, "path") {
            Some(p) => push_workspace_path(&mut out, &p),
            None => {},
        }
    } else if starts_with_str(name, "mcp_") {
        match arg_str(args, "url") {
            Some(u) => push_url(&mut out, &u),
            None => {},
        }
    }
    assert(source_views(out@) =~= args_sources(name@, args@));
    out
}

fn parse_prefixed_line(ls: &Vec<Vec<char>>, prefix: &str) -> (r: Option<Vec<char>>)
    ensures
        match r {
            Some(v) => prefixed_value(views(ls@), prefix@) == Some(v@),
            None => prefixed_value(views(ls@), prefix@) is None,
        },
{
    let p = to_chars(prefix);
    let mut i: usize = 0;
    assert(views(ls@).skip(0) =~= views(ls@));
    while i < ls.len()
        invariant
            i <= ls.len(),
            p@ == prefix@,
            prefixed_value(views(ls@), prefix@) == prefixed_value(views(ls@).skip(i as int), prefix@),
        decreases ls.len() - i,
    {
        assert(views(ls@).skip(i as int)[0] == ls@[i as int]@);
        assert(views(ls@).skip(i as int).drop_first() =~= views(ls@).skip(i + 1));
        let t = trim_chars(&ls[i]);
        if starts_with_chars(&t, &p) {
            let after = slice_of(&t, p.len(), t.len());
            assert(after@ =~= t@.skip(p@.len() as int));
            let v = trim_chars(&after);
            if v.len() > 0 {
                return Some(v);
            }
            return None;
        }
        i += 1;
    }
    None
}

fn parse_memory_search_paths(ls: &Vec<Vec<char>>) -> (r: Vec<TurnSource>)
    ensures
        source_views(r@) == memory_search_paths(views(ls@), false),
{
    let mut out: Vec<TurnSource> = Vec::new();
    let mut in_files = false;
    let mut i: usize = 0;
    assert(views(ls@).skip(0) =~= views(ls@));
    assert(source_views(out@) =~= Seq::<SourceView>::empty());
    while i < ls.len()
        invariant
            i <= ls.len(),
            memory_search_paths(views(ls@), false) == source_views(out@) + memory_search_paths(
                views(ls@).skip(i as int),
                in_files,
            ),
        decreases ls.len() - i,
    {
        let ghost before = source_views(out@);
        assert(views(ls@).skip(i as int)[0] == ls@[i as int]@);
        assert(views(ls@).skip(i as int).drop_first() =~= views(ls@).skip(i + 1));
        let t = trim_chars(&ls[i]);
        if eq_str(&t, "## Memory files") {
            in_files = true;
        } else if starts_with_str(&t, "## ") {
            in_files = false;
        } else if in_files && starts_with_str(&t, "- ") {
            proof {
                reveal_strlit("- ");
            }
            let item = slice_of(&t, 2, t.len());
            assert(item@ =~= t@.skip(2));
            let mut k: usize = 0;
            while k < item.len() && item[k] != ':'
                invariant
                    k <= item.len(),
                    forall|j: int| 0 <= j < k ==> item@[j] != ':',
                decreases item.len() - k,
            {
                k += 1;
            }
            proof {
                crate::text::lemma_index_of_at(item@, ':', k as int);
            }
            if k < item.len() {
                let path = slice_of(&item, 0, k);
                assert(path@ =~= item@.take(k as int));
                let tp = trim_chars(&path);
                push_workspace_path(&mut out, &tp);
                assert(source_views(out@) + memory_search_paths(views(ls@).skip(i + 1), in_files)
                    =~= before + memory_search_paths(views(ls@).skip(i as int), in_files));
            }
        }
        i += 1;
    }
    assert(views(ls@).skip(ls.len() as int) =~= Seq::<Seq<char>>::empty());
    assert(source_views(out@) + Seq::<SourceView>::empty() =~= source_views(out@));
    out
}

fn same_source(a: &TurnSource, b: &TurnSource) -> (r: bool)
    ensures
        r == (source_view(*a) == source_view(*b)),
{
    match (a, b) {
        (TurnSource::Url(x), TurnSource::Url(y)) => {
            let xc = to_chars(x.as_str());
            let yc = to_chars(y.as_str());
            crate::text::chars_eq(&xc, &yc)
        },
        (TurnSource::WorkspacePath(x), TurnSource::WorkspacePath(y)) => {
            let xc = to_chars(x.as_str());
            let yc = to_chars(y.as_str());
            crate::text::chars_eq(&xc, &yc)
        },
        _ => false,
    }
}

fn copy_source(s: &TurnSource) -> (r: TurnSource)
    ensures
        source_view(r) == source_view(*s),
{
    match s {
        TurnSource::Url(u) => TurnSource::Url(u.clone()),
        TurnSource::WorkspacePath(p) => TurnSource::WorkspacePath(p.clone()),
    }
}

/// The sources without repeats, first occurrences kept.
pub fn dedupe_sources(sources: &Vec<TurnSource>) -> (r: Vec<TurnSource>)
    ensures
        source_views(r@) == dedupe(source_views(sources@)),
{
    let mut out: Vec<TurnSource> = Vec::new();
    let mut i: usize = 0;
    assert(source_views(sources@).take(0) =~= Seq::<SourceView>::empty());
    assert(source_views(out@) =~= Seq::<SourceView>::empty());
    while i < sources.len()
        invariant
            i <= sources.len(),
            source_views(out@) == dedupe(source_views(sources@).take(i as int)),
        decreases sources.len() - i,
    {
        let ghost sv = source_views(sources@).take(i + 1);
        assert(sv.drop_last() =~= source_views(sources@).take(i as int));
        assert(sv.last() == source_view(sources@[i as int]));
        let mut seen = false;
        let mut k: usize = 0;
        while k < out.len()
            invariant
                k <= out.len(),
                i < sources.len(),
                seen == (exists|j: int| 0 <= j < k && source_view(out@[j]) == source_view(sources@[i as int])),
            decreases out.len() - k,
        {
            if same_source(&out[k], &sources[i]) {
                seen = true;
            }
            k += 1;
        }
        proof {
            let d = source_views(out@);
            if seen {
                let j = choose|j: int| 0 <= j < out.len() && source_view(out@[j]) == source_view(sources@[i as int]);
                assert(d[j] == source_view(sources@[i as int]));
                assert(d.contains(sv.last()));
            } else {
                if d.contains(sv.last()) {
                    let j = choose|j: int| 0 <= j < d.len() && d[j] == sv.last();
                    assert(source_view(out@[j]) == source_view(sources@[i as int]));
                }
            }
        }
        if !seen {
            let c = copy_source(&sources[i]);
            out.push(c);
            assert(source_views(out@) =~= dedupe(source_views(sources@).take(i as int)).push(sv.last()));
        }
        i += 1;
    }
    assert(source_views(sources@).take(sources.len() as int) =~= source_views(sources@));
    out
}

fn concat_sources(a: Vec<TurnSource>, b: Vec<TurnSource>) -> (r: Vec<TurnSource>)
    ensures
        source_views(r@) == source_views(a@) + source_views(b@),
{
    let ghost av = a@;
    let ghost bv = b@;
    let mut a = a;
    let mut b = b;
    a.append(&mut b);
    assert(a@ == av + bv);
    assert(source_views(a@) =~= source_views(av) + source_views(bv));
    a
}

fn collect_from_tool_result(name: &[char], body: &str) -> (r: Vec<TurnSource>)
    ensures
        source_views(r@) == result_sources(name@, body@),
{
    let bc = to_chars(body);
    let ls = split_lines(&bc);
    let mut fetched: Vec<TurnSource> = Vec::new();
    assert(source_views(fetched@) =~= Seq::<SourceView>::empty());
    if eq_str(name, "web_fetch") {
        match parse_prefixed_line(&ls, "url:") {
            Some(u) => push_url(&mut fetched, &u),
            None => {},
        }
    }
    let searched = if eq_str(name, "memory_search") {
        parse_memory_search_paths(&ls)
    } else {
        let v: Vec<TurnSource> = Vec::new();
        assert(source_views(v@) =~= Seq::<SourceView>::empty());
        v
    };
    let all = concat_sources(fetched, searched);
    dedupe_sources(&all)
}

/// Gathers the citable sources of a successful tool call.
pub fn collect_turn_sources(call: &ToolCall, result_body: &str, exit_code: i32) -> (r: Vec<TurnSource>)
    ensures
        source_views(r@) == turn_sources(
            call.function.name@,
            call.function.arguments@,
            result_body@,
            exit_code,
        ),
{
    if exit_code != 0 {
        let v: Vec<TurnSource> = Vec::new();
        assert(source_views(v@) =~= Seq::<SourceView>::empty());
        return v;
    }
    let name = to_chars(call.function.name.as_str());
    let from_args = collect_from_tool_args(&name, call.function.arguments.as_str());
    let from_result = collect_from_tool_result(&name, result_body);
    let all = concat_sources(from_args, from_result);
    dedupe_sources(&all)
}

/// Whether `text` already names the source.
pub open spec fn cited(text: Seq<char>, s: SourceView) -> bool {
    match s {
        SourceView::Url(u) => contains(text, u),
        SourceView::WorkspacePath(p) => contains(text, p),
    }
}

/// The footer line of a source: a URL is labeled with its host.
pub open spec fn source_line(s: SourceView) -> Seq<char> {
    match s {
        SourceView::Url(u) => {
            let label = url_label(u, url_parts(u));
            "- ["@ + label + "]("@ + u + ")"@
        },
        SourceView::WorkspacePath(p) => "- ["@ + p + "]("@ + p + ")"@,
    }
}

/// The footer lines of the sources not already in `text`.
pub open spec fn missing_lines(text: Seq<char>, sources: Seq<SourceView>) -> Seq<Seq<char>>
    decreases sources.len(),
{
    if sources.len() == 0 {
        Seq::empty()
    } else {
        let prev = missing_lines(text, sources.drop_last());
        if cited(text, sources.last()) {
            prev
        } else {
            prev.push(source_line(sources.last()))
        }
    }
}

/// The reply with a `## Sources` footer listing the sources it does not cite,
/// unless there are none or it already has a sources section.
pub open spec fn with_sources(text: Seq<char>, sources: Seq<SourceView>) -> Seq<char> {
    if sources.len() == 0 || contains(unicode_lowercase(text), "## sources"@) {
        text
    } else {
        let ls = missing_lines(text, sources);
        if ls.len() == 0 {
            text
        } else {
            trim_end(text) + "\n\n## Sources\n\n"@ + join(ls, "\n"@)
        }
    }
}

/// The text a source is recognised by in a reply.
pub open spec fn source_key(s: SourceView) -> Seq<char> {
    match s {
        SourceView::Url(u) => u,
        SourceView::WorkspacePath(p) => p,
    }
}

proof fn lemma_contains_left(a: Seq<char>, b: Seq<char>, u: Seq<char>)
    requires
        contains(a, u),
    ensures
        contains(a + b, u),
{
    let i = choose|i: int| occurs_at(a, u, i);
    assert((a + b).subrange(i, i + u.len()) =~= a.subrange(i, i + u.len()));
    assert(occurs_at(a + b, u, i));
}

proof fn lemma_contains_right(a: Seq<char>, b: Seq<char>, u: Seq<char>)
    requires
        contains(b, u),
    ensures
        contains(a + b, u),
{
    let i = choose|i: int| occurs_at(b, u, i);
    assert((a + b).subrange(a.len() + i, a.len() + i + u.len()) =~= b.subrange(i, i + u.len()));
    assert(occurs_at(a + b, u, a.len() + i));
}

proof fn lemma_contains_self(u: Seq<char>)
    ensures
        contains(u, u),
{
    assert(u.subrange(0, u.len() as int) =~= u);
    assert(occurs_at(u, u, 0));
}

/// Cutting trailing whitespace keeps every occurrence of a text that does not
/// end in whitespace.
proof fn lemma_contains_trim_end(t: Seq<char>, u: Seq<char>)
    requires
        contains(t, u),
        u.len() == 0 || !is_ws(u.last()),
    ensures
        contains(trim_end(t), u),
{
    lemma_trim_end_shape(t);
    let k = choose|k: int|
        0 <= k <= t.len() && trim_end(t) == t.take(k) && all_ws(t.skip(k)) && (k > 0 ==> !is_ws(
            t[k - 1],
        ));
    let i = choose|i: int| occurs_at(t, u, i);
    if u.len() == 0 {
        assert(trim_end(t).subrange(0, 0) =~= u);
        assert(occurs_at(trim_end(t), u, 0));
    } else {
        if i + u.len() > k {
            assert(t.subrange(i, i + u.len())[u.len() - 1] == t[i + u.len() - 1]);
            assert(t.skip(k)[i + u.len() - 1 - k] == t[i + u.len() - 1]);
        }
        assert(trim_end(t).subrange(i, i + u.len()) =~= t.subrange(i, i + u.len()));
        assert(occurs_at(trim_end(t), u, i));
    }
}

proof fn lemma_join_contains(ls: Seq<Seq<char>>, sep: Seq<char>, j: int)
    requires
        0 <= j < ls.len(),
    ensures
        contains(join(ls, sep), ls[j]),
    decreases ls.len(),
{
    if ls.len() == 1 {
        lemma_contains_self(ls[0]);
    } else if j == ls.len() - 1 {
        lemma_contains_self(ls[j]);
        lemma_contains_right(join(ls.drop_last(), sep) + sep, ls[j], ls[j]);
    } else {
        lemma_join_contains(ls.drop_last(), sep, j);
        lemma_contains_left(join(ls.drop_last(), sep), sep, ls[j]);
        lemma_contains_left(join(ls.drop_last(), sep) + sep, ls.last(), ls[j]);
    }
}

proof fn lemma_line_names_source(s: SourceView)
    ensures
        contains(source_line(s), source_key(s)),
{
    let k = source_key(s);
    lemma_contains_self(k);
    match s {
        SourceView::Url(u) => {
            let label = url_label(u, url_parts(u));
            lemma_contains_right("- ["@ + label + "]("@, u, u);
            lemma_contains_left("- ["@ + label + "]("@ + u, ")"@, u);
        },
        SourceView::WorkspacePath(p) => {
            lemma_contains_right("- ["@ + p + "]("@, p, p);
            lemma_contains_left("- ["@ + p + "]("@ + p, ")"@, p);
        },
    }
}

proof fn lemma_missing_line(text: Seq<char>, sources: Seq<SourceView>, j: int)
    requires
        0 <= j < sources.len(),
        !cited(text, sources[j]),
    ensures
        exists|m: int| 0 <= m < missing_lines(text, sources).len() && missing_lines(text, sources)[m]
            == source_line(sources[j]),
    decreases sources.len(),
{
    let prev = missing_lines(text, sources.drop_last());
    if j == sources.len() - 1 {
        assert(missing_lines(text, sources)[prev.len() as int] == source_line(sources[j]));
    } else {
        lemma_missing_line(text, sources.drop_last(), j);
        let m = choose|m: int| 0 <= m < prev.len() && prev[m] == source_line(sources.drop_last()[j]);
        assert(missing_lines(text, sources)[m] == prev[m]);
    }
}

proof fn lemma_none_missing(text: Seq<char>, sources: Seq<SourceView>)
    requires
        forall|j: int| 0 <= j < sources.len() ==> cited(text, #[trigger] sources[j]),
    ensures
        missing_lines(text, sources).len() == 0,
    decreases sources.len(),
{
    if sources.len() > 0 {
        assert(cited(text, sources[sources.len() - 1]));
        lemma_none_missing(text, sources.drop_last());
    }
}

/// Adding the sources footer twice adds it once: the second call either finds
/// every source named, or sees the `## Sources` heading through lowercasing.
/// The first holds unless a source is named in the reply only within trailing
/// whitespace, which the footer trims away; the second is a fact about
/// `str::to_lowercase` that the library names and does not state, so it is a
/// hypothesis here.
pub proof fn lemma_with_sources_idempotent(text: Seq<char>, sources: Seq<SourceView>)
    requires
        (forall|j: int| 0 <= j < sources.len() ==> cited(text, #[trigger] sources[j]) ==> cited(
            trim_end(text),
            sources[j],
        )) || contains(unicode_lowercase(with_sources(text, sources)), "## sources"@),
    ensures
        with_sources(with_sources(text, sources), sources) == with_sources(text, sources),
{
    let t2 = with_sources(text, sources);
    if t2 != text && !contains(unicode_lowercase(t2), "## sources"@) {
        let ls = missing_lines(text, sources);
        let head = trim_end(text) + "\n\n## Sources\n\n"@;
        assert(t2 == head + join(ls, "\n"@));
        assert forall|j: int| 0 <= j < sources.len() implies cited(t2, #[trigger] sources[j]) by {
            let k = source_key(sources[j]);
            if cited(text, sources[j]) {
                lemma_contains_left(trim_end(text), "\n\n## Sources\n\n"@, k);
                lemma_contains_left(head, join(ls, "\n"@), k);
            } else {
                lemma_missing_line(text, sources, j);
                let m = choose|m: int| 0 <= m < ls.len() && ls[m] == source_line(sources[j]);
                lemma_join_contains(ls, "\n"@, m);
                lemma_line_names_source(sources[j]);
                let i1 = choose|i: int| occurs_at(join(ls, "\n"@), ls[m], i);
                let i2 = choose|i: int| occurs_at(ls[m], k, i);
                assert(join(ls, "\n"@).subrange(i1 + i2, i1 + i2 + k.len()) =~= ls[m].subrange(
                    i2,
                    i2 + k.len(),
                ));
                assert(occurs_at(join(ls, "\n"@), k, i1 + i2));
                lemma_contains_right(head, join(ls, "\n"@), k);
            }
        }
        lemma_none_missing(t2, sources);
    }
}

/// Sources whose text does not end in whitespace are named in a reply exactly
/// when they are named in it without its trailing whitespace, so the footer is
/// added once for them.
pub proof fn lemma_with_sources_idempotent_plain_keys(text: Seq<char>, sources: Seq<SourceView>)
    requires
        forall|j: int| 0 <= j < sources.len() ==> (source_key(#[trigger] sources[j]).len() == 0
            || !is_ws(source_key(sources[j]).last())),
    ensures
        with_sources(with_sources(text, sources), sources) == with_sources(text, sources),
{
    assert forall|j: int| 0 <= j < sources.len() implies cited(text, #[trigger] sources[j]) ==> cited(
        trim_end(text),
        sources[j],
    ) by {
        if cited(text, sources[j]) {
            lemma_contains_trim_end(text, source_key(sources[j]));
        }
    }
    lemma_with_sources_idempotent(text, sources);
}

/// The label of a URL in the sources footer: its host, else the URL itself.
pub open spec fn url_label(u: Seq<char>, p: Result<(Seq<char>, Option<Seq<char>>), Seq<char>>) -> Seq<char> {
    match p {
        Ok((_, Some(h))) => h,
        _ => u,
    }
}

/// The footer label of `url` given what parsing it gave.
pub fn source_label(url: &str, parsed: &Result<(String, Option<String>), String>) -> (r: String)
    ensures
        r@ == url_label(url@, parsed_view(*parsed)),
{
    match parsed {
        Ok((_, Some(h))) => h.clone(),
        _ => url.to_owned(),
    }
}

fn format_source_line(s: &TurnSource) -> (r: Vec<char>)
    ensures
        r@ == source_line(source_view(*s)),
{
    let mut out = to_chars("- [");
    match s {
        TurnSource::Url(u) => {
            let uc = to_chars(u.as_str());
            let parsed = parse_url(u.as_str());
            let label = source_label(u.as_str(), &parsed);
            append_str(&mut out, label.as_str());
            append_str(&mut out, "](");
            append_slice(&mut out, &uc);
            append_str(&mut out, ")");
        },
        TurnSource::WorkspacePath(p) => {
            append_str(&mut out, p.as_str());
            append_str(&mut out, "](");
            append_str(&mut out, p.as_str());
            append_str(&mut out, ")");
        },
    }
    out
}

/// Appends `## Sources` when the model omitted it but tools produced citable references.
pub fn append_sources_if_missing(text: &str, sources: &[TurnSource]) -> (r: String)
    ensures
        r@ == with_sources(text@, source_views(sources@)),
{
    if sources.len() == 0 {
        return text.to_owned();
    }
    let lower = to_lowercase(text);
    let lc = to_chars(lower.as_str());
    if contains_str(&lc, "## sources") {
        return text.to_owned();
    }
    let tc = to_chars(text);
    let mut ls: Vec<Vec<char>> = Vec::new();
    let mut i: usize = 0;
    assert(source_views(sources@).take(0) =~= Seq::<SourceView>::empty());
    while i < sources.len()
        invariant
            i <= sources.len(),
            tc@ == text@,
            views(ls@) == missing_lines(text@, source_views(sources@).take(i as int)),
        decreases sources.len() - i,
    {
        let ghost sv = source_views(sources@).take(i + 1);
        assert(sv.drop_last() =~= source_views(sources@).take(i as int));
        assert(sv.last() == source_view(sources@[i as int]));
        let already = match &sources[i] {
            TurnSource::Url(u) => {
                let uc = to_chars(u.as_str());
                contains_chars(&tc, &uc)
            },
            TurnSource::WorkspacePath(p) => {
                let pc = to_chars(p.as_str());
                contains_chars(&tc, &pc)
            },
        };
        if !already {
            let line = format_source_line(&sources[i]);
            let ghost before = views(ls@);
            let ghost lv = line@;
            ls.push(line);
            assert(views(ls@) =~= before.push(lv));
        }
        i += 1;
    }
    assert(source_views(sources@).take(sources.len() as int) =~= source_views(sources@));
    if ls.len() == 0 {
        return text.to_owned();
    }
    let mut out = trim_end_chars(&tc);
    append_str(&mut out, "\n\n## Sources\n\n");
    let sep = to_chars("\n");
    let joined = join_chars(&ls, &sep);
    append_slice(&mut out, &joined);
    from_chars(&out)
}

/// A successful call of an MCP tool (`mcp_…`) whose arguments carry an HTTP(S)
/// `url` cites that URL.
pub proof fn lemma_mcp_url_cited(name: Seq<char>, args: Seq<char>, body: Seq<char>, u: Seq<char>)
    requires
        starts_with(name, "mcp_"@),
        arg_string(args, "url"@) == Some(u),
        is_http_url(u),
    ensures
        turn_sources(name, args, body, 0).contains(SourceView::Url(u)),
{
    reveal_strlit("mcp_");
    reveal_strlit("web_fetch");
    reveal_strlit("memory_read");
    assert(name.take(4) == "mcp_"@);
    assert(name.take(4)[0] == name[0]);
    assert(name.take(4)[1] == name[1]);
    assert(name[0] == 'm' && name[1] == 'c');
    assert(name != "web_fetch"@) by {
        if name == "web_fetch"@ {
            assert("web_fetch"@[0] == 'w');
        }
    }
    assert(name != "memory_read"@) by {
        if name == "memory_read"@ {
            assert("memory_read"@[1] == 'e');
        }
    }
    let a = args_sources(name, args);
    assert(a == seq![SourceView::Url(u)]);
    let all = a + result_sources(name, body);
    assert(all[0] == SourceView::Url(u));
    assert(all.contains(SourceView::Url(u)));
    lemma_dedupe_unique(all);
}

} // verus!
