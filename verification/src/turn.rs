//! User-visible reply shaping: strip session-internal appendices and leaked
//! tool markup; build the persisted assistant row.

use vstd::prelude::*;

use crate::cancel::{interrupted_reply, interrupted_reply_spec};
use crate::tool_loop::ToolLoopOutcome;
use crate::text::{
    all_ws, index_of, is_ws, lemma_index_of_at, lemma_join_prepend, lemma_trim_empty_iff_all_ws, lemma_trim_end_unique, lemma_trim_of_trim_end, lemma_index_of, lemma_trim_end_shape, lemma_find_first, strip_cr, lemma_find_some, append_slice, append_str, contains, contains_str, ends_with, ends_with_str, find, find_chars, from_chars, i64_decimal, int_decimal, join, join_chars, lines, occurs_at, slice_of, split_lines, starts_with, starts_with_str, to_chars, to_lowercase, trim, trim_chars, trim_end, trim_end_chars, unicode_lowercase, views,
};

verus! {

/// Appendix marker between the reply and the persisted tool results.
pub const TOOL_RESULTS_MARKER: &'static str = "\n\n<!-- tool-results -->\n";

/// The HTML comment that starts the persisted tool results.
pub const TOOL_RESULTS_HTML_COMMENT: &'static str = "<!-- tool-results -->";

/// One executed tool as recorded in the persisted assistant row.
#[derive(Debug, Clone)]
pub struct ToolPersistEntry {
    pub name: String,
    pub exit_code: i32,
    pub body: String,
}

/// Result of a full agent turn.
pub struct TurnOutcome {
    /// User-facing reply (Telegram / CLI).
    pub text: String,
    /// Stored in session DB; may include a `<!-- tool-results -->` appendix for the next turn.
    pub persisted_assistant: String,
    pub session_id: String,
    pub last_run_id: Option<String>,
    pub executed: bool,
    pub tool_call_count: usize,
    pub skill_manage_used: bool,
    pub memory_manage_used: bool,
    pub interrupted: bool,
    /// Truncated conversation for background skill review (excludes system prompt).
    pub review_snapshot: String,
}

/// Markers where leaked provider/tool XML starts.
pub open spec fn leaked_markers() -> Seq<Seq<char>> {
    seq![
        "<invoke "@,
        "<invoke>"@,
        "<tool_call"@,
        "<minimax:tool_call"@,
        "</parameter>"@,
        "</invoke>"@,
        "</minimax:tool_call>"@,
    ]
}

/// Position of the earliest occurrence of any marker, or `s.len()`.
pub open spec fn earliest_marker(s: Seq<char>, markers: Seq<Seq<char>>) -> int
    decreases markers.len(),
{
    if markers.len() == 0 {
        s.len() as int
    } else {
        let rest = earliest_marker(s, markers.drop_last());
        match find(s, markers.last()) {
            Some(i) => if i < rest {
                i
            } else {
                rest
            },
            None => rest,
        }
    }
}

/// `s` before its first `p`, or all of `s`.
pub open spec fn before_first(s: Seq<char>, p: Seq<char>) -> Seq<char> {
    match find(s, p) {
        Some(i) => s.take(i),
        None => s,
    }
}

/// An echoed `[tool exit=N]` line.
pub open spec fn is_persist_line(l: Seq<char>) -> bool {
    let t = trim(l);
    starts_with(t, "["@) && contains(t, " exit="@) && ends_with(t, "]"@)
}

/// Lines without trailing blank or echoed `[... exit=...]` lines.
pub open spec fn drop_trailing_noise(ls: Seq<Seq<char>>) -> Seq<Seq<char>>
    decreases ls.len(),
{
    if ls.len() > 0 && (trim(ls.last()).len() == 0 || is_persist_line(ls.last())) {
        drop_trailing_noise(ls.drop_last())
    } else {
        ls
    }
}

/// `s` cut at the earliest leaked-XML marker, trailing whitespace removed.
pub open spec fn without_leaked_xml(s: Seq<char>) -> Seq<char> {
    trim_end(s.take(earliest_marker(s, leaked_markers())))
}

/// `s` without trailing blank and echoed tool-exit lines.
pub open spec fn without_trailing_persist_lines(s: Seq<char>) -> Seq<char> {
    trim_end(join(drop_trailing_noise(lines(s)), "\n"@))
}

/// The user-visible reply of a raw assistant text (`sanitize_user_reply`).
pub open spec fn sanitized_reply(text: Seq<char>) -> Seq<char> {
    without_trailing_persist_lines(
        without_leaked_xml(before_first(text, TOOL_RESULTS_HTML_COMMENT@)),
    )
}

pub proof fn lemma_earliest_marker_bounds(s: Seq<char>, markers: Seq<Seq<char>>)
    ensures
        0 <= earliest_marker(s, markers) <= s.len(),
    decreases markers.len(),
{
    if markers.len() > 0 {
        lemma_earliest_marker_bounds(s, markers.drop_last());
        lemma_find_some(s, markers.last());
    }
}

/// No line feed in `p`.
pub open spec fn no_newline(p: Seq<char>) -> bool {
    forall|k: int| 0 <= k < p.len() ==> p[k] != '\n'
}

proof fn lemma_occurs_before_newlines(t: Seq<char>, w: Seq<char>, p: Seq<char>, j: int)
    requires
        p.len() > 0,
        no_newline(p),
        forall|k: int| 0 <= k < w.len() ==> w[k] == '\n',
        occurs_at(t + w, p, j),
    ensures
        j + p.len() <= t.len(),
        occurs_at(t, p, j),
{
    let x = t + w;
    if j + p.len() > t.len() {
        let m = j + p.len() - 1;
        assert(x.subrange(j, j + p.len())[p.len() - 1] == x[m]);
        assert(x[m] == w[m - t.len()]);
    }
    assert(t.subrange(j, j + p.len()) =~= x.subrange(j, j + p.len()));
}

/// Line feeds after a text add no occurrence of a text without line feeds.
proof fn lemma_find_before_newlines(t: Seq<char>, w: Seq<char>, p: Seq<char>)
    requires
        p.len() > 0,
        no_newline(p),
        forall|k: int| 0 <= k < w.len() ==> w[k] == '\n',
    ensures
        find(t + w, p) == find(t, p),
        find(t, p) matches Some(i) ==> i + p.len() <= t.len(),
{
    let x = t + w;
    lemma_find_some(t, p);
    lemma_find_some(x, p);
    if let Some(i) = find(t, p) {
        assert(x.subrange(i, i + p.len()) =~= t.subrange(i, i + p.len()));
        assert forall|j: int| 0 <= j < i implies !occurs_at(x, p, j) by {
            if occurs_at(x, p, j) {
                lemma_occurs_before_newlines(t, w, p, j);
            }
        }
        lemma_find_first(x, p, i);
    } else if let Some(i) = find(x, p) {
        lemma_occurs_before_newlines(t, w, p, i);
        assert(contains(t, p));
    }
}

proof fn lemma_earliest_before_newlines(t: Seq<char>, w: Seq<char>, ms: Seq<Seq<char>>)
    requires
        forall|m: int| 0 <= m < ms.len() ==> #[trigger] ms[m].len() > 0 && no_newline(ms[m]),
        forall|k: int| 0 <= k < w.len() ==> w[k] == '\n',
    ensures
        earliest_marker(t + w, ms) == (if earliest_marker(t, ms) < t.len() {
            earliest_marker(t, ms)
        } else {
            (t.len() + w.len()) as int
        }),
    decreases ms.len(),
{
    lemma_earliest_marker_bounds(t, ms);
    if ms.len() > 0 {
        let last = ms[ms.len() - 1];
        assert(last.len() > 0 && no_newline(last));
        lemma_earliest_before_newlines(t, w, ms.drop_last());
        lemma_earliest_marker_bounds(t, ms.drop_last());
        lemma_find_before_newlines(t, w, last);
    }
}

proof fn lemma_markers_plain()
    ensures
        forall|m: int| 0 <= m < leaked_markers().len() ==> #[trigger] leaked_markers()[m].len() > 0 && no_newline(
            leaked_markers()[m],
        ),
        TOOL_RESULTS_HTML_COMMENT@.len() > 0,
        no_newline(TOOL_RESULTS_HTML_COMMENT@),
{
    reveal_strlit("<invoke ");
    reveal_strlit("<invoke>");
    reveal_strlit("<tool_call");
    reveal_strlit("<minimax:tool_call");
    reveal_strlit("</parameter>");
    reveal_strlit("</invoke>");
    reveal_strlit("</minimax:tool_call>");
    reveal_strlit("<!-- tool-results -->");
    let ms = leaked_markers();
    assert forall|m: int| 0 <= m < ms.len() implies #[trigger] ms[m].len() > 0 && no_newline(ms[m]) by {
        assert forall|k: int| 0 <= k < ms[m].len() implies ms[m][k] != '\n' by {
            if m == 0 {
                assert(ms[0] == "<invoke "@);
            } else if m == 1 {
                assert(ms[1] == "<invoke>"@);
            } else if m == 2 {
                assert(ms[2] == "<tool_call"@);
            } else if m == 3 {
                assert(ms[3] == "<minimax:tool_call"@);
            } else if m == 4 {
                assert(ms[4] == "</parameter>"@);
            } else if m == 5 {
                assert(ms[5] == "</invoke>"@);
            } else {
                assert(ms[6] == "</minimax:tool_call>"@);
            }
        }
    }
}

/// `p` occurs in `s` inside the range `a..b`.
proof fn lemma_occurs_in_sub(s: Seq<char>, a: int, b: int, p: Seq<char>)
    requires
        0 <= a <= b <= s.len(),
        contains(s.subrange(a, b), p),
    ensures
        exists|j: int| a <= j && j + p.len() <= b && occurs_at(s, p, j),
{
    let j = choose|j: int| occurs_at(s.subrange(a, b), p, j);
    assert(s.subrange(a + j, a + j + p.len()) =~= s.subrange(a, b).subrange(j, j + p.len()));
    assert(occurs_at(s, p, a + j));
}

/// Every line of `s` lies within `s` and holds no line feed.
proof fn lemma_lines_within(s: Seq<char>, k: int)
    requires
        0 <= k < lines(s).len(),
    ensures
        no_newline(lines(s)[k]),
        exists|a: int, b: int| 0 <= a <= b <= s.len() && lines(s)[k] == #[trigger] s.subrange(a, b),
    decreases s.len(),
{
    let i = index_of(s, '\n');
    lemma_index_of(s, '\n');
    if i >= s.len() {
        assert(lines(s)[k] == s);
        assert(s.subrange(0, s.len() as int) =~= s);
    } else {
        let head = strip_cr(s.take(i));
        if k == 0 {
            assert(lines(s)[0] == head);
            if s.take(i).len() > 0 && s.take(i).last() == '\r' {
                assert(head =~= s.subrange(0, i - 1));
            } else {
                assert(head =~= s.subrange(0, i));
            }
        } else {
            lemma_lines_within(s.skip(i + 1), k - 1);
            assert(lines(s)[k] == lines(s.skip(i + 1))[k - 1]);
            let (a, b) = choose|a: int, b: int| 0 <= a <= b <= s.skip(i + 1).len() && lines(s.skip(i + 1))[k - 1]
                == #[trigger] s.skip(i + 1).subrange(a, b);
            assert(s.skip(i + 1).subrange(a, b) =~= s.subrange(a + i + 1, b + i + 1));
        }
    }
}

/// An occurrence of a text without line feeds in lines joined by line feeds
/// lies in one of the lines.
proof fn lemma_join_occurrence(ls: Seq<Seq<char>>, p: Seq<char>)
    requires
        p.len() > 0,
        no_newline(p),
        contains(join(ls, "\n"@), p),
    ensures
        exists|k: int| 0 <= k < ls.len() && contains(#[trigger] ls[k], p),
    decreases ls.len(),
{
    reveal_strlit("\n");
    if ls.len() == 1 {
        assert(contains(ls[0], p));
    } else if ls.len() > 1 {
        let a = join(ls.drop_last(), "\n"@);
        let l = ls.last();
        let x = a + "\n"@ + l;
        let j = choose|j: int| occurs_at(x, p, j);
        if j + p.len() <= a.len() {
            assert(x.subrange(j, j + p.len()) =~= a.subrange(j, j + p.len()));
            assert(occurs_at(a, p, j));
            lemma_join_occurrence(ls.drop_last(), p);
            let k = choose|k: int| 0 <= k < ls.drop_last().len() && contains(ls.drop_last()[k], p);
            assert(ls[k] == ls.drop_last()[k]);
        } else if j > a.len() {
            assert(x.subrange(j, j + p.len()) =~= l.subrange(j - a.len() - 1, j - a.len() - 1 + p.len()));
            assert(occurs_at(l, p, j - a.len() - 1));
            assert(contains(ls[ls.len() - 1], p));
        } else {
            assert(x[a.len() as int] == '\n');
            assert(x.subrange(j, j + p.len())[a.len() - j] == x[a.len() as int]);
        }
    }
}

/// Dropping trailing lines keeps a prefix of the lines.
proof fn lemma_drop_noise_prefix(ls: Seq<Seq<char>>)
    ensures
        drop_trailing_noise(ls).len() <= ls.len(),
        drop_trailing_noise(ls) == ls.take(drop_trailing_noise(ls).len() as int),
        drop_trailing_noise(ls).len() > 0 ==> !(trim(drop_trailing_noise(ls).last()).len() == 0
            || is_persist_line(drop_trailing_noise(ls).last())),
    decreases ls.len(),
{
    if ls.len() > 0 && (trim(ls.last()).len() == 0 || is_persist_line(ls.last())) {
        lemma_drop_noise_prefix(ls.drop_last());
        assert(ls.drop_last().take(drop_trailing_noise(ls).len() as int) =~= ls.take(
            drop_trailing_noise(ls).len() as int,
        ));
    } else {
        assert(ls.take(ls.len() as int) =~= ls);
    }
}

/// A text without line feeds that the trailing-line cleanup's result holds was
/// in its input.
proof fn lemma_cleanup_occurrence(u: Seq<char>, p: Seq<char>)
    requires
        p.len() > 0,
        no_newline(p),
        contains(without_trailing_persist_lines(u), p),
    ensures
        contains(u, p),
{
    let d = drop_trailing_noise(lines(u));
    let jn = join(d, "\n"@);
    lemma_trim_end_shape(jn);
    let k = choose|k: int| 0 <= k <= jn.len() && trim_end(jn) == jn.take(k) && all_ws(jn.skip(k)) && (k > 0
        ==> !is_ws(jn[k - 1]));
    assert(jn.take(k) =~= jn.subrange(0, k));
    lemma_occurs_in_sub(jn, 0, k, p);
    lemma_join_occurrence(d, p);
    let m = choose|m: int| 0 <= m < d.len() && contains(#[trigger] d[m], p);
    lemma_drop_noise_prefix(lines(u));
    assert(d[m] == lines(u)[m]);
    lemma_lines_within(u, m);
    let (a, b) = choose|a: int, b: int| 0 <= a <= b <= u.len() && lines(u)[m] == #[trigger] u.subrange(a, b);
    lemma_occurs_in_sub(u, a, b, p);
}

/// The earliest marker is at or before every found marker.
proof fn lemma_earliest_le(s: Seq<char>, ms: Seq<Seq<char>>, m: int)
    requires
        0 <= m < ms.len(),
        find(s, ms[m]) is Some,
    ensures
        earliest_marker(s, ms) <= find(s, ms[m])->Some_0,
    decreases ms.len(),
{
    if m < ms.len() - 1 {
        assert(ms.drop_last()[m] == ms[m]);
        lemma_earliest_le(s, ms.drop_last(), m);
    }
}

/// A shown reply holds neither the internal tool-results comment nor any
/// marker of leaked tool markup.
pub proof fn lemma_reply_has_no_internal_markup(t: Seq<char>)
    ensures
        !contains(sanitized_reply(t), TOOL_RESULTS_HTML_COMMENT@),
        forall|m: int| 0 <= m < leaked_markers().len() ==> !contains(sanitized_reply(t), #[trigger] leaked_markers()[m]),
{
    lemma_markers_plain();
    let c = TOOL_RESULTS_HTML_COMMENT@;
    let v = before_first(t, c);
    let e = earliest_marker(v, leaked_markers());
    lemma_earliest_marker_bounds(v, leaked_markers());
    let u = without_leaked_xml(v);
    lemma_trim_end_shape(v.take(e));
    let k = choose|k: int| 0 <= k <= v.take(e).len() && trim_end(v.take(e)) == v.take(e).take(k) && all_ws(
        v.take(e).skip(k),
    ) && (k > 0 ==> !is_ws(v.take(e)[k - 1]));
    assert(u =~= v.subrange(0, k));
    // No comment in `v`.
    lemma_find_some(t, c);
    assert(!contains(v, c)) by {
        if contains(v, c) {
            let j = choose|j: int| occurs_at(v, c, j);
            if let Some(i) = find(t, c) {
                assert(v == t.take(i));
                assert(t.subrange(j, j + c.len()) =~= v.subrange(j, j + c.len()));
                assert(occurs_at(t, c, j));
            } else {
                assert(v == t);
            }
        }
    }
    if contains(sanitized_reply(t), c) {
        lemma_cleanup_occurrence(u, c);
        lemma_occurs_in_sub(v, 0, k, c);
    }
    assert forall|m: int| 0 <= m < leaked_markers().len() implies !contains(sanitized_reply(t), #[trigger] leaked_markers()[m]) by {
        let p = leaked_markers()[m];
        if contains(sanitized_reply(t), p) {
            lemma_cleanup_occurrence(u, p);
            lemma_occurs_in_sub(v, 0, k, p);
            let j = choose|j: int| 0 <= j && j + p.len() <= k && occurs_at(v, p, j);
            lemma_find_some(v, p);
            assert(contains(v, p));
            let i = find(v, p)->Some_0;
            lemma_earliest_le(v, leaked_markers(), m);
        }
    }
}

/// No carriage return in `s`.
pub open spec fn no_cr(s: Seq<char>) -> bool {
    forall|i: int| 0 <= i < s.len() ==> s[i] != '\r'
}

proof fn lemma_trim_end_twice(x: Seq<char>)
    ensures
        trim_end(trim_end(x)) == trim_end(x),
{
    lemma_trim_end_shape(x);
    let k = choose|k: int| 0 <= k <= x.len() && trim_end(x) == x.take(k) && all_ws(x.skip(k)) && (k > 0
        ==> !is_ws(x[k - 1]));
    let y = x.take(k);
    assert(y.skip(k) =~= Seq::<char>::empty());
    lemma_trim_end_unique(y, k);
    assert(y.take(k) =~= y);
}

proof fn lemma_earliest_none(s: Seq<char>, ms: Seq<Seq<char>>)
    requires
        forall|m: int| 0 <= m < ms.len() ==> !contains(s, #[trigger] ms[m]),
    ensures
        earliest_marker(s, ms) == s.len(),
    decreases ms.len(),
{
    if ms.len() > 0 {
        assert(!contains(s, ms[ms.len() - 1]));
        lemma_find_some(s, ms.last());
        if let Some(i) = find(s, ms.last()) {
            assert(contains(s, ms.last()));
        }
        lemma_earliest_none(s, ms.drop_last());
    }
}

/// The lines, all but the last without a final carriage return.
pub open spec fn strip_cr_but_last(ls: Seq<Seq<char>>) -> Seq<Seq<char>> {
    Seq::new(ls.len(), |k: int| if k < ls.len() - 1 { strip_cr(ls[k]) } else { ls[k] })
}

/// No line but the last ends with a carriage return.
pub open spec fn no_cr_ends(ls: Seq<Seq<char>>) -> bool {
    forall|k: int| 0 <= k < ls.len() - 1 ==> !(#[trigger] ls[k].len() > 0 && ls[k].last() == '\r')
}

/// Lines without line feeds, the last one not empty, come back from their
/// joined text, except that a carriage return ending a line but the last is
/// read as part of its line break.
proof fn lemma_lines_of_join(ls: Seq<Seq<char>>)
    requires
        ls.len() > 0,
        ls.last().len() > 0,
        forall|k: int| 0 <= k < ls.len() ==> no_newline(#[trigger] ls[k]),
    ensures
        lines(join(ls, "\n"@)) == strip_cr_but_last(ls),
    decreases ls.len(),
{
    reveal_strlit("\n");
    let d0 = ls[0];
    assert(no_newline(d0));
    if ls.len() == 1 {
        lemma_index_of_at(d0, '\n', d0.len() as int);
        assert(lines(d0) == seq![d0]);
        assert(strip_cr_but_last(ls) =~= seq![d0]);
    } else {
        let rest = ls.skip(1);
        assert(ls =~= seq![d0] + rest);
        assert forall|k: int| 0 <= k < rest.len() implies no_newline(#[trigger] rest[k]) by {
            assert(rest[k] == ls[k + 1]);
        }
        assert(rest.last() == ls.last());
        lemma_lines_of_join(rest);
        lemma_join_prepend(d0, rest, "\n"@);
        let x = d0 + "\n"@ + join(rest, "\n"@);
        assert(join(ls, "\n"@) == x);
        lemma_index_of_at(x, '\n', d0.len() as int);
        assert(x.take(d0.len() as int) =~= d0);
        assert(x.skip(d0.len() + 1int) =~= join(rest, "\n"@));
        assert(lines(x) == seq![strip_cr(x.take(d0.len() as int))] + lines(x.skip(d0.len() + 1int)));
        assert(strip_cr_but_last(ls) =~= seq![strip_cr(d0)] + strip_cr_but_last(rest));
    }
}

/// Joining shorter lines gives a shorter text.
proof fn lemma_join_shorter(a: Seq<Seq<char>>, b: Seq<Seq<char>>, k0: int)
    requires
        a.len() == b.len(),
        forall|k: int| 0 <= k < a.len() ==> #[trigger] a[k].len() <= b[k].len(),
        0 <= k0 < a.len(),
        a[k0].len() < b[k0].len(),
    ensures
        join(a, "\n"@).len() < join(b, "\n"@).len(),
    decreases a.len(),
{
    if a.len() > 1 {
        assert(a.last().len() <= b.last().len());
        if k0 < a.len() - 1 {
            assert(a.drop_last()[k0] == a[k0] && b.drop_last()[k0] == b[k0]);
            lemma_join_shorter(a.drop_last(), b.drop_last(), k0);
        } else {
            lemma_join_not_longer(a.drop_last(), b.drop_last());
        }
    }
}

proof fn lemma_join_not_longer(a: Seq<Seq<char>>, b: Seq<Seq<char>>)
    requires
        a.len() == b.len(),
        forall|k: int| 0 <= k < a.len() ==> #[trigger] a[k].len() <= b[k].len(),
    ensures
        join(a, "\n"@).len() <= join(b, "\n"@).len(),
    decreases a.len(),
{
    if a.len() > 0 {
        assert(a.last().len() <= b.last().len());
        if a.len() > 1 {
            assert forall|k: int| 0 <= k < a.drop_last().len() implies #[trigger] a.drop_last()[k].len()
                <= b.drop_last()[k].len() by {
                assert(a.drop_last()[k] == a[k] && b.drop_last()[k] == b[k]);
            }
            lemma_join_not_longer(a.drop_last(), b.drop_last());
        }
    }
}

proof fn lemma_no_cr_sub(s: Seq<char>, a: int, b: int)
    requires
        no_cr(s),
        0 <= a <= b <= s.len(),
    ensures
        no_cr(s.subrange(a, b)),
{
    assert forall|i: int| 0 <= i < s.subrange(a, b).len() implies s.subrange(a, b)[i] != '\r' by {
        assert(s.subrange(a, b)[i] == s[a + i]);
    }
}

/// The trailing-line cleanup of its own result changes nothing exactly when no
/// kept line but the last ends with a carriage return.
proof fn lemma_cleanup_stable(u: Seq<char>)
    ensures
        (without_trailing_persist_lines(without_trailing_persist_lines(u)) == without_trailing_persist_lines(
            u,
        )) == no_cr_ends(drop_trailing_noise(lines(u))),
{
    reveal_strlit("\n");
    let ls = lines(u);
    let d = drop_trailing_noise(ls);
    let r = without_trailing_persist_lines(u);
    lemma_drop_noise_prefix(ls);
    if d.len() == 0 {
        assert(r == trim_end(Seq::<char>::empty()));
        assert(r =~= Seq::<char>::empty());
        assert(lines(r) =~= Seq::<Seq<char>>::empty());
        assert(drop_trailing_noise(lines(r)) =~= Seq::<Seq<char>>::empty());
    } else {
        let last = d.last();
        assert(!(trim(last).len() == 0 || is_persist_line(last)));
        assert forall|k: int| 0 <= k < d.len() implies no_newline(#[trigger] d[k]) by {
            assert(d[k] == ls[k]);
            lemma_lines_within(u, k);
        }
        let tl = trim_end(last);
        lemma_trim_of_trim_end(last);
        lemma_trim_empty_iff_all_ws(last);
        lemma_trim_empty_iff_all_ws(tl);
        lemma_trim_end_shape(last);
        let kk = choose|k: int| 0 <= k <= last.len() && trim_end(last) == last.take(k) && all_ws(last.skip(k)) && (k
            > 0 ==> !is_ws(last[k - 1]));
        assert(tl.len() > 0);
        let d2 = d.drop_last().push(tl);
        // The joined text, trimmed at its end, is the lines with the last one trimmed.
        let jn = join(d, "\n"@);
        if d.len() == 1 {
            assert(jn == last);
            assert(join(d2, "\n"@) == tl);
        } else {
            assert(d2.drop_last() =~= d.drop_last());
            assert(jn == join(d.drop_last(), "\n"@) + "\n"@ + last);
            assert(join(d2, "\n"@) == join(d.drop_last(), "\n"@) + "\n"@ + tl);
        }
        let pre = jn.len() - last.len();
        assert(jn.skip(pre + kk) =~= last.skip(kk));
        if pre + kk > 0 {
            assert(jn[pre + kk - 1] == last[kk - 1]);
        }
        lemma_trim_end_unique(jn, pre + kk);
        assert(jn.take(pre + kk) =~= join(d2, "\n"@));
        assert(r == join(d2, "\n"@));
        assert forall|k: int| 0 <= k < d2.len() implies no_newline(#[trigger] d2[k]) by {
            if k < d2.len() - 1 {
                assert(d2[k] == d[k]);
            } else {
                assert(d2[k] == tl);
                assert(no_newline(last));
                assert forall|i: int| 0 <= i < tl.len() implies tl[i] != '\n' by {
                    assert(tl[i] == last[i]);
                }
            }
        }
        lemma_lines_of_join(d2);
        let m = strip_cr_but_last(d2);
        assert(m.last() == tl);
        assert(!(trim(tl).len() == 0 || is_persist_line(tl)));
        assert(drop_trailing_noise(m) == m);
        lemma_trim_end_twice(jn);
        if no_cr_ends(d) {
            assert(m =~= d2) by {
                assert forall|k: int| 0 <= k < d2.len() - 1 implies m[k] == d2[k] by {
                    assert(d2[k] == d[k]);
                    assert(!(d[k].len() > 0 && d[k].last() == '\r'));
                }
            }
        } else {
            let k0 = choose|k: int| 0 <= k < d.len() - 1 && (#[trigger] d[k].len() > 0 && d[k].last() == '\r');
            assert(d2[k0] == d[k0]);
            assert forall|k: int| 0 <= k < m.len() implies #[trigger] m[k].len() <= d2[k].len() by {}
            lemma_join_shorter(m, d2, k0);
            lemma_trim_end_shape(join(m, "\n"@));
        }
    }
}

/// The lines a shown reply keeps, before their last one is trimmed.
pub open spec fn kept_lines(t: Seq<char>) -> Seq<Seq<char>> {
    drop_trailing_noise(lines(without_leaked_xml(before_first(t, TOOL_RESULTS_HTML_COMMENT@))))
}

/// Cleaning a shown reply again changes nothing, exactly when no kept line
/// but the last ends with a carriage return: `str::lines` reads such a
/// carriage return as part of the next pass's line break, so `"a\r\r\nb"`
/// shows as `"a\r\nb"`, then as `"a\nb"`.
pub proof fn lemma_reply_stable(t: Seq<char>)
    ensures
        (sanitized_reply(sanitized_reply(t)) == sanitized_reply(t)) == no_cr_ends(kept_lines(t)),
{
    lemma_reply_has_no_internal_markup(t);
    lemma_markers_plain();
    let r = sanitized_reply(t);
    let c = TOOL_RESULTS_HTML_COMMENT@;
    lemma_find_some(r, c);
    assert(before_first(r, c) == r);
    lemma_earliest_none(r, leaked_markers());
    assert(r.take(r.len() as int) =~= r);
    let v = before_first(t, c);
    let u = without_leaked_xml(v);
    // `r` is cleaned text, so its end is already trimmed.
    lemma_trim_end_twice(join(drop_trailing_noise(lines(u)), "\n"@));
    assert(without_leaked_xml(r) == r);
    lemma_cleanup_stable(u);
}

/// In particular, a reply without carriage returns shows the same when
/// cleaned again.
pub proof fn lemma_reply_stable_without_cr(t: Seq<char>)
    requires
        no_cr(t),
    ensures
        sanitized_reply(sanitized_reply(t)) == sanitized_reply(t),
{
    lemma_markers_plain();
    let c = TOOL_RESULTS_HTML_COMMENT@;
    let v = before_first(t, c);
    lemma_find_some(t, c);
    let e = earliest_marker(v, leaked_markers());
    lemma_earliest_marker_bounds(v, leaked_markers());
    lemma_trim_end_shape(v.take(e));
    let k = choose|k: int| 0 <= k <= v.take(e).len() && trim_end(v.take(e)) == v.take(e).take(k) && all_ws(
        v.take(e).skip(k),
    ) && (k > 0 ==> !is_ws(v.take(e)[k - 1]));
    let u = without_leaked_xml(v);
    assert(u =~= t.subrange(0, k)) by {
        if let Some(i) = find(t, c) {
            assert(v == t.take(i));
        }
    }
    lemma_no_cr_sub(t, 0, k);
    let ls = lines(u);
    let d = kept_lines(t);
    lemma_drop_noise_prefix(ls);
    assert forall|j: int| 0 <= j < d.len() - 1 implies !(#[trigger] d[j].len() > 0 && d[j].last() == '\r') by {
        assert(d[j] == ls[j]);
        lemma_lines_within(u, j);
        let (a, b) = choose|a: int, b: int| 0 <= a <= b <= u.len() && ls[j] == #[trigger] u.subrange(a, b);
        lemma_no_cr_sub(u, a, b);
        if d[j].len() > 0 {
            assert(d[j].last() == d[j][d[j].len() - 1]);
        }
    }
    lemma_reply_stable(t);
}

/// The reply a user sees of a stored assistant row is the reply of its text:
/// the persisted tool results are never shown.
pub proof fn lemma_persisted_reply_roundtrip(t: Seq<char>, tools: Seq<ToolPersistEntry>)
    ensures
        sanitized_reply(persisted_assistant(t, tools)) == sanitized_reply(t),
{
    if tools.len() > 0 {
        reveal_strlit("\n\n<!-- tool-results -->\n");
        reveal_strlit("<!-- tool-results -->");
        reveal_strlit("\n");
        lemma_markers_plain();
        let c = TOOL_RESULTS_HTML_COMMENT@;
        let x = persisted_assistant(t, tools);
        let nn = seq!['\n', '\n'];
        assert(x =~= (t + nn) + (c + "\n"@ + persist_blocks(tools)));
        // Where the internal comment first occurs.
        lemma_find_some(t, c);
        lemma_find_before_newlines(t, nn, c);
        assert(x.take((t + nn).len() as int) =~= t + nn);
        if let Some(i) = find(t, c) {
            assert(x.subrange(i, i + c.len()) =~= t.subrange(i, i + c.len()));
            assert(i + c.len() <= t.len());
            assert forall|j: int| 0 <= j < i implies !occurs_at(x, c, j) by {
                if occurs_at(x, c, j) {
                    assert(x.subrange(j, j + c.len()) =~= t.subrange(j, j + c.len()));
                    assert(occurs_at(t, c, j));
                    assert(!occurs_at(t, c, j));
                }
            }
            lemma_find_first(x, c, i);
            assert(x.take(i) =~= t.take(i));
        } else {
            let at: int = t.len() + 2int;
            assert(x.subrange(at, at + c.len()) =~= c);
            assert forall|j: int| 0 <= j < at implies !occurs_at(x, c, j) by {
                if occurs_at(x, c, j) {
                    if j + c.len() <= t.len() {
                        assert(x.subrange(j, j + c.len()) =~= t.subrange(j, j + c.len()));
                        assert(occurs_at(t, c, j));
                    } else {
                        let m = if j < t.len() { t.len() as int } else { j };
                        assert(x[m] == '\n');
                        assert(x.subrange(j, j + c.len())[m - j] == x[m]);
                    }
                }
            }
            lemma_find_first(x, c, at);
            assert(before_first(x, c) =~= t + nn);
            assert(before_first(t, c) == t);
            lemma_earliest_before_newlines(t, nn, leaked_markers());
            lemma_earliest_marker_bounds(t, leaked_markers());
            let e = earliest_marker(t, leaked_markers());
            if e < t.len() {
                assert((t + nn).take(e) =~= t.take(e));
            } else {
                assert((t + nn).take((t.len() + 2) as int) =~= t + nn);
                assert(t.take(e) =~= t);
                assert((t + nn).drop_last() =~= t + seq!['\n']);
                assert((t + seq!['\n']).drop_last() =~= t);
                assert(is_ws('\n'));
                assert(trim_end(t + nn) == trim_end(t + seq!['\n']));
                assert(trim_end(t + seq!['\n']) == trim_end(t));
            }
        }
    }
}

fn strip_leaked_tool_xml(s: &[char]) -> (r: Vec<char>)
    ensures
        r@ == without_leaked_xml(s@),
{
    let markers: [&str; 7] = [
        "<invoke ",
        "<invoke>",
        "<tool_call",
        "<minimax:tool_call",
        "</parameter>",
        "</invoke>",
        "</minimax:tool_call>",
    ];
    assert(markers@.map_values(|m: &str| m@) =~= leaked_markers());
    let mut cut = s.len();
    let mut k: usize = 0;
    while k < 7
        invariant
            k <= 7,
            markers@.map_values(|m: &str| m@) == leaked_markers(),
            cut as int == earliest_marker(s@, leaked_markers().take(k as int)),
        decreases 7 - k,
    {
        let m = to_chars(markers[k]);
        proof {
            assert(leaked_markers().take(k + 1).drop_last() =~= leaked_markers().take(k as int));
            assert(leaked_markers().take(k + 1).last() == m@);
        }
        match find_chars(s, &m) {
            Some(i) => {
                if i < cut {
                    cut = i;
                }
            },
            None => {},
        }
        k += 1;
    }
    proof {
        assert(leaked_markers().take(7) =~= leaked_markers());
        lemma_earliest_marker_bounds(s@, leaked_markers());
    }
    let head = slice_of(s, 0, cut);
    assert(head@ =~= s@.take(cut as int));
    trim_end_chars(&head)
}

fn is_noise_line(l: &[char]) -> (r: bool)
    ensures
        r == (trim(l@).len() == 0 || is_persist_line(l@)),
{
    let t = trim_chars(l);
    t.len() == 0 || (starts_with_str(&t, "[") && contains_str(&t, " exit=") && ends_with_str(&t, "]"))
}

fn trim_trailing_tool_persist_lines(s: &[char]) -> (r: Vec<char>)
    ensures
        r@ == without_trailing_persist_lines(s@),
{
    let mut ls = split_lines(s);
    while ls.len() > 0 && is_noise_line(&ls[ls.len() - 1])
        invariant
            drop_trailing_noise(lines(s@)) == drop_trailing_noise(views(ls@)),
        decreases ls.len(),
    {
        assert(views(ls@).last() == ls@[ls.len() - 1]@);
        let ghost before = ls@;
        ls.pop();
        assert(views(ls@) =~= views(before).drop_last());
    }
    proof {
        if ls.len() > 0 {
            assert(views(ls@).last() == ls@[ls.len() - 1]@);
        }
    }
    let nl = to_chars("\n");
    let joined = join_chars(&ls, &nl);
    trim_end_chars(&joined)
}

/// Remove session-internal appendix and provider XML tool markup from user-visible replies.
pub fn sanitize_user_reply(text: &str) -> (r: String)
    ensures
        r@ == sanitized_reply(text@),
{
    let t = to_chars(text);
    let marker = to_chars(TOOL_RESULTS_HTML_COMMENT);
    let head = match find_chars(&t, &marker) {
        Some(i) => {
            assert(occurs_at(t@, marker@, i as int));
            let v = slice_of(&t, 0, i);
            assert(v@ =~= t@.take(i as int));
            v
        },
        None => t,
    };
    let s = strip_leaked_tool_xml(&head);
    let r = trim_trailing_tool_persist_lines(&s);
    from_chars(&r)
}

/// `[name exit=N]\n` followed by the body and a newline if the body lacks one.
pub open spec fn persist_block(e: ToolPersistEntry) -> Seq<char> {
    "["@ + e.name@ + " exit="@ + int_decimal(e.exit_code as int) + "]\n"@ + e.body@ + if ends_with(
        e.body@,
        "\n"@,
    ) {
        Seq::empty()
    } else {
        "\n"@
    }
}

/// All persist blocks in order.
pub open spec fn persist_blocks(tools: Seq<ToolPersistEntry>) -> Seq<char>
    decreases tools.len(),
{
    if tools.len() == 0 {
        Seq::empty()
    } else {
        persist_blocks(tools.drop_last()) + persist_block(tools.last())
    }
}

/// The assistant row stored in the session: the reply plus a tool-results appendix.
pub open spec fn persisted_assistant(final_text: Seq<char>, tools: Seq<ToolPersistEntry>) -> Seq<
    char,
> {
    if tools.len() == 0 {
        final_text
    } else {
        final_text + TOOL_RESULTS_MARKER@ + persist_blocks(tools)
    }
}

#[verifier::spinoff_prover]
pub fn build_persisted_assistant(final_text: &str, tools: &[ToolPersistEntry]) -> (r: String)
    ensures
        r@ == persisted_assistant(final_text@, tools@),
{
    if tools.len() == 0 {
        return String::from_str(final_text);
    }
    let mut s = to_chars(final_text);
    append_str(&mut s, TOOL_RESULTS_MARKER);
    let ghost base = s@;
    let mut i: usize = 0;
    assert(tools@.take(0) =~= Seq::<ToolPersistEntry>::empty());
    assert(base + persist_blocks(tools@.take(0)) =~= base);
    while i < tools.len()
        invariant
            i <= tools.len(),
            s@ == base + persist_blocks(tools@.take(i as int)),
        decreases tools.len() - i,
    {
        let t = &tools[i];
        append_str(&mut s, "[");
        append_str(&mut s, t.name.as_str());
        append_str(&mut s, " exit=");
        let d = i64_decimal(t.exit_code as i64);
        append_slice(&mut s, &d);
        append_str(&mut s, "]\n");
        let body = to_chars(t.body.as_str());
        append_slice(&mut s, &body);
        if !ends_with_str(&body, "\n") {
            append_str(&mut s, "\n");
        } else {
            assert(s@ + Seq::<char>::empty() =~= s@);
        }
        proof {
            assert(tools@.take(i + 1).drop_last() =~= tools@.take(i as int));
            assert(tools@.take(i + 1).last() == tools@[i as int]);
        }
        i += 1;
    }
    assert(tools@.take(tools.len() as int) =~= tools@);
    from_chars(&s)
}

/// Phrases that signal the user expects commands or tools, not a plan.
pub open spec fn action_verbs() -> Seq<Seq<char>> {
    seq![
        "скачай"@,
        "download"@,
        "fetch"@,
        "curl"@,
        "wget"@,
        "run "@,
        "execute"@,
        "exec "@,
        "install"@,
        "build"@,
        "compile"@,
        "проверь"@,
        "check "@,
        "test "@,
        "fix "@,
        "deploy"@,
        "ssh "@,
        "запусти"@,
        "установ"@,
        "собери"@,
        "выполни"@,
        "scrape"@,
        "парси"@,
        "parse "@,
        "create "@,
        "создай"@,
        "удали"@,
        "delete "@,
        "write "@,
        "запиши"@,
    ]
}

/// Some action verb occurs in the (lower-cased) text.
pub open spec fn mentions_action_verb(lower: Seq<char>) -> bool {
    exists|i: int| 0 <= i < action_verbs().len() && contains(lower, #[trigger] action_verbs()[i])
}

/// Whether an already lower-cased request mentions an action verb.
pub fn lower_mentions_action_verb(lower: &str) -> (r: bool)
    ensures
        r == mentions_action_verb(lower@),
{
    let l = to_chars(lower);
    let verbs: [&str; 30] = [
        "скачай",
        "download",
        "fetch",
        "curl",
        "wget",
        "run ",
        "execute",
        "exec ",
        "install",
        "build",
        "compile",
        "проверь",
        "check ",
        "test ",
        "fix ",
        "deploy",
        "ssh ",
        "запусти",
        "установ",
        "собери",
        "выполни",
        "scrape",
        "парси",
        "parse ",
        "create ",
        "создай",
        "удали",
        "delete ",
        "write ",
        "запиши",
    ];
    assert(verbs@.map_values(|m: &str| m@) =~= action_verbs());
    let mut k: usize = 0;
    while k < 30
        invariant
            k <= 30,
            verbs@.map_values(|m: &str| m@) == action_verbs(),
            l@ == lower@,
            forall|j: int| 0 <= j < k ==> !contains(l@, #[trigger] action_verbs()[j]),
        decreases 30 - k,
    {
        assert(verbs@.map_values(|m: &str| m@)[k as int] == verbs@[k as int]@);
        if contains_str(&l, verbs[k]) {
            assert(action_verbs().len() == 30);
            assert(contains(l@, action_verbs()[k as int]));
            assert(0 <= k < action_verbs().len());
            return true;
        }
        k += 1;
    }
    false
}

/// Heuristic: user expects commands/tools, not a plan-only reply.
pub fn user_request_requires_tools(text: &str) -> (r: bool)
    ensures
        r == mentions_action_verb(unicode_lowercase(text@)),
{
    let lower = to_lowercase(text);
    lower_mentions_action_verb(lower.as_str())
}

/// The reply of a finished loop: the interrupt marker is merged into the
/// partial text of an interrupted turn.
pub open spec fn final_reply(interrupted: bool, final_text: Seq<char>) -> Seq<char> {
    if interrupted {
        interrupted_reply_spec(final_text)
    } else {
        final_text
    }
}

/// The outcome of a turn whose tool loop ended: the user sees the sanitized
/// reply, the session stores it with the tool-results appendix, and the loop's
/// counters are passed on.
pub fn finish_turn(outcome: ToolLoopOutcome, session_id: &str, review_snapshot: String) -> (r: TurnOutcome)
    ensures
        r.text@ == sanitized_reply(final_reply(outcome.interrupted, outcome.final_text@)),
        r.persisted_assistant@ == persisted_assistant(
            final_reply(outcome.interrupted, outcome.final_text@),
            outcome.tool_persist@,
        ),
        r.session_id@ == session_id@,
        r.last_run_id == outcome.last_run_id,
        r.executed == outcome.executed,
        r.tool_call_count == outcome.tool_call_count,
        r.skill_manage_used == outcome.skill_manage_used,
        r.memory_manage_used == outcome.memory_manage_used,
        r.interrupted == outcome.interrupted,
        r.review_snapshot == review_snapshot,
{
    let reply = if outcome.interrupted {
        interrupted_reply(outcome.final_text.as_str())
    } else {
        outcome.final_text
    };
    let persisted = build_persisted_assistant(reply.as_str(), outcome.tool_persist.as_slice());
    TurnOutcome {
        text: sanitize_user_reply(reply.as_str()),
        persisted_assistant: persisted,
        session_id: session_id.to_owned(),
        last_run_id: outcome.last_run_id,
        executed: outcome.executed,
        tool_call_count: outcome.tool_call_count,
        skill_manage_used: outcome.skill_manage_used,
        memory_manage_used: outcome.memory_manage_used,
        interrupted: outcome.interrupted,
        review_snapshot,
    }
}

/// The outcome of a turn cancelled before its tool loop started.
pub fn interrupted_before_loop(session_id: &str) -> (r: TurnOutcome)
    ensures
        r.text@ == sanitized_reply(interrupted_reply_spec(Seq::empty())),
        r.persisted_assistant@ == interrupted_reply_spec(Seq::empty()),
        r.session_id@ == session_id@,
        r.last_run_id is None,
        !r.executed,
        r.tool_call_count == 0,
        !r.skill_manage_used,
        !r.memory_manage_used,
        r.interrupted,
        r.review_snapshot@ == Seq::<char>::empty(),
{
    let outcome = ToolLoopOutcome {
        final_text: String::new(),
        executed: false,
        tool_call_count: 0,
        skill_manage_used: false,
        memory_manage_used: false,
        last_run_id: None,
        tool_persist: Vec::new(),
        hit_iteration_limit: false,
        interrupted: true,
    };
    let r = finish_turn(outcome, session_id, String::new());
    assert(r.persisted_assistant@ == interrupted_reply_spec(Seq::empty()));
    r
}

} // verus!
