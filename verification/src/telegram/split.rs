//! Splitting long text for Telegram's limit of 4096 UTF-16 code units.

use vstd::prelude::*;

use crate::progress::string_views;
use crate::text::{
    char_utf16_width, from_chars, is_whitespace, is_ws, lemma_utf16_count_append,
    lemma_utf16_count_push, slice_of, to_chars, utf16_count, utf16_len_chars, utf16_width,
    utf8_width,
};

verus! {

/// Telegram's message limit in UTF-16 code units.
pub const TELEGRAM_MAX_UTF16: usize = 4096;

/// Raw markdown chunk size before HTML formatting (headroom for tags/escaping).
pub const TELEGRAM_SPLIT_UTF16: usize = 3800;

/// Number of leading characters of `t` whose UTF-16 widths add up to at most `budget`.
pub open spec fn fit_count(t: Seq<char>, budget: int) -> nat
    decreases t.len(),
{
    if t.len() == 0 || utf16_width(t[0]) > budget {
        0
    } else {
        1 + fit_count(t.drop_first(), budget - utf16_width(t[0]))
    }
}

/// Position just after the last newline of `p` that follows another newline.
pub open spec fn last_paragraph_break(p: Seq<char>) -> Option<int>
    decreases p.len(),
{
    if p.len() < 2 {
        None
    } else if p.last() == '\n' && p[p.len() - 2] == '\n' {
        Some(p.len() as int)
    } else {
        last_paragraph_break(p.drop_last())
    }
}

/// Position just after the last newline of `p`.
pub open spec fn last_line_break(p: Seq<char>) -> Option<int>
    decreases p.len(),
{
    if p.len() == 0 {
        None
    } else if p.last() == '\n' {
        Some(p.len() as int)
    } else {
        last_line_break(p.drop_last())
    }
}

/// Position just after the last whitespace character of `p` other than a newline.
pub open spec fn last_space_break(p: Seq<char>) -> Option<int>
    decreases p.len(),
{
    if p.len() == 0 {
        None
    } else if p.last() != '\n' && is_ws(p.last()) {
        Some(p.len() as int)
    } else {
        last_space_break(p.drop_last())
    }
}

/// Where an oversized text is cut: after the last paragraph break that fits,
/// else the last line break, else the last space, else as many characters as
/// fit (at least one).
pub open spec fn split_index(t: Seq<char>, max: nat) -> int {
    let n = fit_count(t, max as int);
    let p = t.take(n as int);
    match last_paragraph_break(p) {
        Some(k) => k,
        None => match last_line_break(p) {
            Some(k) => k,
            None => match last_space_break(p) {
                Some(k) => k,
                None => if n > 0 {
                    n as int
                } else {
                    1
                },
            },
        },
    }
}

/// The chunks of a non-empty text, cut at [`split_index`] until the rest fits.
pub open spec fn chunks(t: Seq<char>, max: nat) -> Seq<Seq<char>>
    decreases t.len(),
{
    if t.len() == 0 {
        Seq::empty()
    } else if utf16_count(t) <= max {
        seq![t]
    } else {
        let k = split_index(t, max);
        if 0 < k <= t.len() {
            seq![t.take(k)] + chunks(t.skip(k), max)
        } else {
            seq![t]
        }
    }
}

/// The messages that `text` is sent as.
pub open spec fn telegram_chunks(text: Seq<char>, max: nat) -> Seq<Seq<char>> {
    if text.len() == 0 {
        seq![Seq::empty()]
    } else {
        chunks(text, max)
    }
}

/// No character is wider than the limit unless it is a single byte, so that a
/// forced cut always falls on a character boundary.
pub open spec fn splittable(text: Seq<char>, max: nat) -> bool {
    forall|i: int| 0 <= i < text.len() ==> utf16_width(#[trigger] text[i]) <= max || utf8_width(text[i]) == 1
}

proof fn lemma_fit_count_bounds(t: Seq<char>, budget: int)
    ensures
        fit_count(t, budget) <= t.len(),
        budget >= 0 ==> utf16_count(t.take(fit_count(t, budget) as int)) <= budget,
        fit_count(t, budget) < t.len() ==> utf16_count(t.take(fit_count(t, budget) as int + 1)) > budget,
    decreases t.len(),
{
    if t.len() == 0 || utf16_width(t[0]) > budget {
        assert(t.take(0) =~= Seq::<char>::empty());
        if t.len() > 0 {
            assert(t.take(1).drop_first() =~= Seq::<char>::empty());
            assert(t.take(1)[0] == t[0]);
            assert(utf16_count(Seq::<char>::empty()) == 0);
            assert(utf16_count(t.take(1)) == utf16_width(t[0]));
        }
    } else {
        let w = utf16_width(t[0]);
        lemma_fit_count_bounds(t.drop_first(), budget - w);
        let n = fit_count(t.drop_first(), budget - w) as int;
        assert(t.take(n + 1).drop_first() =~= t.drop_first().take(n));
        if n < t.drop_first().len() {
            assert(t.take(n + 2).drop_first() =~= t.drop_first().take(n + 1));
        }
    }
}

proof fn lemma_breaks_bounds(p: Seq<char>)
    ensures
        last_paragraph_break(p) matches Some(k) ==> 2 <= k <= p.len(),
        last_line_break(p) matches Some(k) ==> 1 <= k <= p.len(),
        last_space_break(p) matches Some(k) ==> 1 <= k <= p.len(),
    decreases p.len(),
{
    if p.len() > 0 {
        lemma_breaks_bounds(p.drop_last());
    }
}

/// The cut is past the first character and inside the text.
pub proof fn lemma_split_index_bounds(t: Seq<char>, max: nat)
    requires
        t.len() > 0,
    ensures
        0 < split_index(t, max) <= t.len(),
        split_index(t, max) <= fit_count(t, max as int) || split_index(t, max) == 1,
{
    let n = fit_count(t, max as int);
    lemma_fit_count_bounds(t, max as int);
    lemma_breaks_bounds(t.take(n as int));
}

proof fn lemma_paragraph_push(p: Seq<char>, c: char)
    ensures
        last_paragraph_break(p.push(c)) == if p.len() >= 1 && c == '\n' && p.last() == '\n' {
            Some(p.len() as int + 1)
        } else {
            last_paragraph_break(p)
        },
{
    assert(p.push(c).drop_last() =~= p);
    if p.len() >= 1 {
        assert(p.push(c)[p.len() - 1] == p.last());
    }
}

proof fn lemma_line_push(p: Seq<char>, c: char)
    ensures
        last_line_break(p.push(c)) == if c == '\n' {
            Some(p.len() as int + 1)
        } else {
            last_line_break(p)
        },
        last_space_break(p.push(c)) == if c != '\n' && is_ws(c) {
            Some(p.len() as int + 1)
        } else {
            last_space_break(p)
        },
{
    assert(p.push(c).drop_last() =~= p);
}

/// The spec value of an optional position.
pub open spec fn opt_pos(o: Option<usize>) -> Option<int> {
    match o {
        Some(k) => Some(k as int),
        None => None,
    }
}

/// Character index at which an oversized `text` is cut (see [`split_index`]).
fn find_split_index(text: &[char], max_utf16: usize) -> (k: usize)
    requires
        text.len() > 0,
        text.len() <= usize::MAX / 2,
        utf16_count(text@) > max_utf16,
    ensures
        k == split_index(text@, max_utf16 as nat),
        0 < k <= text.len(),
{
    let ghost t = text@;
    let mut utf16: usize = 0;
    let mut para: Option<usize> = None;
    let mut line: Option<usize> = None;
    let mut space: Option<usize> = None;
    let mut i: usize = 0;
    assert(t.take(0) =~= Seq::<char>::empty());
    assert(t.skip(0) =~= t);
    loop
        invariant
            t == text@,
            i <= text.len() <= usize::MAX / 2,
            utf16 == utf16_count(t.take(i as int)),
            utf16 <= max_utf16,
            fit_count(t, max_utf16 as int) == i + fit_count(t.skip(i as int), max_utf16 - utf16),
            opt_pos(para) == last_paragraph_break(t.take(i as int)),
            opt_pos(line) == last_line_break(t.take(i as int)),
            opt_pos(space) == last_space_break(t.take(i as int)),
        ensures
            i == fit_count(t, max_utf16 as int),
            opt_pos(para) == last_paragraph_break(t.take(i as int)),
            opt_pos(line) == last_line_break(t.take(i as int)),
            opt_pos(space) == last_space_break(t.take(i as int)),
        decreases text.len() - i,
    {
        if i >= text.len() {
            break;
        }
        let ch = text[i];
        let w = char_utf16_width(ch);
        assert(t.skip(i as int)[0] == ch);
        if w > max_utf16 - utf16 {
            break;
        }
        proof {
            assert(t.skip(i as int)[0] == ch);
            assert(t.skip(i as int).drop_first() =~= t.skip(i + 1));
            lemma_utf16_count_push(t.take(i as int), ch);
            lemma_paragraph_push(t.take(i as int), ch);
            lemma_line_push(t.take(i as int), ch);
            assert(t.take(i as int).push(ch) =~= t.take(i + 1));
            if i > 0 {
                assert(t.take(i as int).last() == t[i - 1]);
            }
        }
        if ch == '\n' {
            if i > 0 && text[i - 1] == '\n' {
                para = Some(i + 1);
            }
            line = Some(i + 1);
        } else if is_whitespace(ch) {
            space = Some(i + 1);
        }
        utf16 = utf16 + w;
        i += 1;
    }
    proof {
        lemma_split_index_bounds(t, max_utf16 as nat);
    }
    match para {
        Some(k) => k,
        None => match line {
            Some(k) => k,
            None => match space {
                Some(k) => k,
                None => if i > 0 {
                    i
                } else {
                    1
                },
            },
        },
    }
}

/// UTF-16 code units of `text` (`str::encode_utf16().count()`).
pub fn utf16_len(text: &str) -> (n: usize)
    requires
        text@.len() <= usize::MAX / 2,
    ensures
        n == utf16_count(text@),
{
    let t = to_chars(text);
    utf16_len_chars(&t)
}

/// Splits `text` into messages of at most `max_utf16` UTF-16 code units,
/// preferring paragraph, then line, then space boundaries.
pub fn split_for_telegram(text: &str, max_utf16: usize) -> (r: Vec<String>)
    requires
        text@.len() <= usize::MAX / 2,
        splittable(text@, max_utf16 as nat),
    ensures
        string_views(r@) == telegram_chunks(text@, max_utf16 as nat),
{
    let t = to_chars(text);
    let mut out: Vec<String> = Vec::new();
    if t.len() == 0 {
        out.push(String::new());
        assert(string_views(out@) =~= seq![Seq::<char>::empty()]);
        return out;
    }
    let mut start: usize = 0;
    assert(t@.skip(0) =~= t@);
    assert(string_views(out@) =~= Seq::<Seq<char>>::empty());
    loop
        invariant_except_break
            chunks(t@, max_utf16 as nat) == string_views(out@) + chunks(
                t@.skip(start as int),
                max_utf16 as nat,
            ),
        invariant
            start < t.len() <= usize::MAX / 2,
            t@ == text@,
        ensures
            chunks(t@, max_utf16 as nat) == string_views(out@),
        decreases t.len() - start,
    {
        let rest = slice_of(&t, start, t.len());
        assert(rest@ =~= t@.skip(start as int));
        let ghost before = string_views(out@);
        if utf16_len_chars(&rest) <= max_utf16 {
            out.push(from_chars(&rest));
            assert(string_views(out@) =~= before + seq![rest@]);
            assert(chunks(rest@, max_utf16 as nat) =~= seq![rest@]);
            break;
        }
        let k = find_split_index(&rest, max_utf16);
        let head = slice_of(&rest, 0, k);
        out.push(from_chars(&head));
        proof {
            assert(head@ =~= rest@.take(k as int));
            assert(string_views(out@) =~= before + seq![head@]);
            assert(rest@.skip(k as int) =~= t@.skip(start + k));
            assert(chunks(rest@, max_utf16 as nat) == seq![rest@.take(k as int)] + chunks(
                rest@.skip(k as int),
                max_utf16 as nat,
            ));
        }
        if start + k == t.len() {
            assert(t@.skip(start + k) =~= Seq::<char>::empty());
            assert(string_views(out@) + Seq::<Seq<char>>::empty() =~= string_views(out@));
            break;
        }
        start = start + k;
    }
    out
}

/// Concatenating the chunks gives back the text.
pub proof fn lemma_chunks_concat(t: Seq<char>, max: nat)
    ensures
        chunks(t, max).flatten() == t,
    decreases t.len(),
{
    if t.len() == 0 {
        assert(chunks(t, max) =~= Seq::<Seq<char>>::empty());
        assert(t =~= Seq::<char>::empty());
    } else if utf16_count(t) <= max {
        seq![t].lemma_flatten_one_element();
    } else {
        let k = split_index(t, max);
        lemma_split_index_bounds(t, max);
        lemma_chunks_concat(t.skip(k), max);
        let c = chunks(t, max);
        assert(c[0] == t.take(k));
        assert(c.drop_first() =~= chunks(t.skip(k), max));
        assert(t.take(k) + t.skip(k) =~= t);
    }
}

/// Every chunk is non-empty and fits the limit, unless it is one character
/// that is wider than the limit by itself.
pub proof fn lemma_chunks_fit(t: Seq<char>, max: nat)
    ensures
        forall|i: int|
            0 <= i < chunks(t, max).len() ==> #[trigger] chunks(t, max)[i].len() > 0 && (
            utf16_count(chunks(t, max)[i]) <= max || chunks(t, max)[i].len() == 1),
    decreases t.len(),
{
    if t.len() > 0 && utf16_count(t) > max {
        let k = split_index(t, max);
        let n = fit_count(t, max as int);
        lemma_split_index_bounds(t, max);
        lemma_fit_count_bounds(t, max as int);
        lemma_chunks_fit(t.skip(k), max);
        let c = chunks(t, max);
        assert(c =~= seq![t.take(k)] + chunks(t.skip(k), max));
        if k <= n {
            assert(t.take(n as int) =~= t.take(k) + t.take(n as int).skip(k));
            lemma_utf16_count_append(t.take(k), t.take(n as int).skip(k));
        }
        assert forall|i: int| 0 <= i < c.len() implies #[trigger] c[i].len() > 0 && (utf16_count(
            c[i],
        ) <= max || c[i].len() == 1) by {
            if i > 0 {
                assert(c[i] == chunks(t.skip(k), max)[i - 1]);
            }
        }
    }
}

/// A non-empty text gives at least one chunk.
pub proof fn lemma_chunks_nonempty(t: Seq<char>, max: nat)
    requires
        t.len() > 0,
    ensures
        chunks(t, max).len() > 0,
{
    if utf16_count(t) > max {
        lemma_split_index_bounds(t, max);
    }
}

/// Text that fits the limit is sent as one message.
pub proof fn lemma_short_text_single_chunk(t: Seq<char>, max: nat)
    requires
        utf16_count(t) <= max,
    ensures
        telegram_chunks(t, max) == seq![t],
{
    if t.len() == 0 {
        assert(t =~= Seq::<char>::empty());
    }
}

/// A break character other than a line feed: where a chunk may end when no
/// line break fits.
pub open spec fn is_space_break(c: char) -> bool {
    c != '\n' && is_ws(c)
}

proof fn lemma_no_line_breaks(p: Seq<char>)
    requires
        forall|i: int| 0 <= i < p.len() ==> p[i] != '\n',
    ensures
        last_paragraph_break(p) is None,
        last_line_break(p) is None,
    decreases p.len(),
{
    if p.len() > 0 {
        assert(p[p.len() - 1] != '\n');
        assert forall|i: int| 0 <= i < p.drop_last().len() implies p.drop_last()[i] != '\n' by {
            assert(p.drop_last()[i] == p[i]);
        }
        lemma_no_line_breaks(p.drop_last());
    }
}

proof fn lemma_last_space(p: Seq<char>, w: int)
    requires
        0 <= w < p.len(),
        is_space_break(p[w]),
    ensures
        last_space_break(p) matches Some(k) && w < k <= p.len() && is_space_break(p[k - 1]) && forall|j: int|
            k <= j < p.len() ==> !is_space_break(#[trigger] p[j]),
    decreases p.len(),
{
    if !is_space_break(p.last()) {
        assert(w < p.len() - 1);
        assert(p.drop_last()[w] == p[w]);
        lemma_last_space(p.drop_last(), w);
        let k = last_space_break(p.drop_last())->Some_0;
        assert forall|j: int| k <= j < p.len() implies !is_space_break(#[trigger] p[j]) by {
            if j < p.len() - 1 {
                assert(p.drop_last()[j] == p[j]);
            }
        }
    }
}

/// The first chunk of an oversized text whose fitting prefix has no line
/// break but a space ends just after the last space of that prefix.
proof fn lemma_first_chunk_at_space(u: Seq<char>, max: nat, w: int)
    requires
        utf16_count(u) > max,
        forall|i: int| 0 <= i < fit_count(u, max as int) ==> u[i] != '\n',
        0 <= w < fit_count(u, max as int),
        is_space_break(u[w]),
    ensures
        ({
            let c0 = chunks(u, max)[0];
            let n = fit_count(u, max as int);
            &&& w < c0.len() <= n
            &&& c0 == u.take(c0.len() as int)
            &&& is_space_break(c0.last())
            &&& forall|j: int| c0.len() <= j < n ==> !is_space_break(#[trigger] u[j])
        }),
{
    let n = fit_count(u, max as int);
    lemma_fit_count_bounds(u, max as int);
    assert(u.len() > 0);
    let p = u.take(n as int);
    assert forall|i: int| 0 <= i < p.len() implies p[i] != '\n' by {
        assert(p[i] == u[i]);
    }
    lemma_no_line_breaks(p);
    assert(p[w] == u[w]);
    lemma_last_space(p, w);
    let k = last_space_break(p)->Some_0;
    assert(split_index(u, max) == k);
    assert(chunks(u, max) == seq![u.take(k)] + chunks(u.skip(k), max));
    assert(chunks(u, max)[0] == u.take(k));
    assert(u.take(k).last() == p[k - 1]);
    assert forall|j: int| k <= j < n implies !is_space_break(#[trigger] u[j]) by {
        assert(p[j] == u[j]);
    }
}

/// The chunks from the `i`-th on are the chunks of the text they make up.
proof fn lemma_chunks_suffix(t: Seq<char>, max: nat, i: int)
    requires
        0 <= i < chunks(t, max).len(),
    ensures
        chunks(t, max).skip(i) == chunks(chunks(t, max).skip(i).flatten(), max),
    decreases t.len(),
{
    let c = chunks(t, max);
    if i == 0 {
        lemma_chunks_concat(t, max);
        assert(c.skip(0) =~= c);
    } else {
        lemma_split_index_bounds(t, max);
        let k = split_index(t, max);
        assert(utf16_count(t) > max);
        assert(c == seq![t.take(k)] + chunks(t.skip(k), max));
        assert(c.skip(i) =~= chunks(t.skip(k), max).skip(i - 1));
        lemma_chunks_suffix(t.skip(k), max, i - 1);
    }
}

/// A word is never cut while a space fits: for every chunk but the last, when
/// the part of the remaining text that fits the limit has no line break but a
/// space, the chunk ends just after the last such space that fits.
pub proof fn lemma_chunks_end_at_space(t: Seq<char>, max: nat, i: int, w: int)
    requires
        0 <= i < chunks(t, max).len() - 1,
        ({
            let rest = chunks(t, max).skip(i).flatten();
            &&& forall|j: int| 0 <= j < fit_count(rest, max as int) ==> rest[j] != '\n'
            &&& 0 <= w < fit_count(rest, max as int)
            &&& is_space_break(rest[w])
        }),
    ensures
        ({
            let rest = chunks(t, max).skip(i).flatten();
            let c = chunks(t, max)[i];
            let n = fit_count(rest, max as int);
            &&& w < c.len() <= n
            &&& c == rest.take(c.len() as int)
            &&& is_space_break(c.last())
            &&& forall|j: int| c.len() <= j < n ==> !is_space_break(#[trigger] rest[j])
        }),
{
    let cs = chunks(t, max);
    let rest = cs.skip(i).flatten();
    lemma_chunks_suffix(t, max, i);
    let cr = chunks(rest, max);
    assert(cr == cs.skip(i));
    assert(cr.len() >= 2);
    assert(cr[0] == cs[i]);
    assert(utf16_count(rest) > max) by {
        if utf16_count(rest) <= max {
            if rest.len() == 0 {
                assert(cr.len() == 0);
            } else {
                assert(cr == seq![rest]);
            }
        }
    }
    lemma_first_chunk_at_space(rest, max, w);
}

} // verus!
