//! Character-level text primitives with mathematical models over `Seq<char>`.
//!
//! Executable code works on `Vec<char>`; the public functions of the library
//! convert at their edges with [`to_chars`] and [`from_chars`].

use vstd::prelude::*;

verus! {

// ---------------------------------------------------------------------------
// Conversions
// ---------------------------------------------------------------------------

/// Appends one character to a `String`.
///
/// Trusted: calls `String::push`, whose documentation states that it appends
/// the given `char` to the end of the string.
#[verifier::external_body]
pub(crate) fn push_char(s: &mut String, c: char)
    ensures
        final(s)@ == old(s)@.push(c),
{
    s.push(c);
}

/// Copies the characters of `s` into a vector.
pub fn to_chars(s: &str) -> (v: Vec<char>)
    ensures
        v@ == s@,
{
    let mut v: Vec<char> = Vec::new();
    for c in it: s.chars()
        invariant
            v@ == it.seq().take(it.index() as int),
    {
        v.push(c);
    }
    v
}

/// Builds a `String` holding exactly the given characters.
pub fn from_chars(v: &[char]) -> (s: String)
    ensures
        s@ == v@,
{
    let mut s = String::new();
    let mut i: usize = 0;
    while i < v.len()
        invariant
            i <= v.len(),
            s@ == v@.take(i as int),
        decreases v.len() - i,
    {
        push_char(&mut s, v[i]);
        assert(v@.take(i as int).push(v@[i as int]) =~= v@.take(i + 1));
        i += 1;
    }
    assert(v@.take(v.len() as int) =~= v@);
    s
}

/// Copy of `s[a..b]`.
pub fn slice_of(s: &[char], a: usize, b: usize) -> (r: Vec<char>)
    requires
        a <= b <= s.len(),
    ensures
        r@ == s@.subrange(a as int, b as int),
{
    let mut r: Vec<char> = Vec::new();
    let mut i = a;
    while i < b
        invariant
            a <= i <= b <= s.len(),
            r@ == s@.subrange(a as int, i as int),
        decreases b - i,
    {
        r.push(s[i]);
        assert(s@.subrange(a as int, i as int).push(s@[i as int]) =~= s@.subrange(
            a as int,
            i + 1,
        ));
        i += 1;
    }
    r
}

/// `a ++ b` as a new vector.
pub fn concat(a: &[char], b: &[char]) -> (r: Vec<char>)
    ensures
        r@ == a@ + b@,
{
    let mut r = slice_of(a, 0, a.len());
    append_slice(&mut r, b);
    assert(a@.subrange(0, a@.len() as int) =~= a@);
    r
}

/// Appends all of `b` to `r`.
pub fn append_slice(r: &mut Vec<char>, b: &[char])
    ensures
        final(r)@ == old(r)@ + b@,
{
    let mut i: usize = 0;
    while i < b.len()
        invariant
            i <= b.len(),
            r@ == old(r)@ + b@.take(i as int),
        decreases b.len() - i,
    {
        r.push(b[i]);
        assert(old(r)@ + b@.take(i as int) + seq![b@[i as int]] =~= old(r)@ + b@.take(i + 1));
        i += 1;
    }
    assert(b@.take(b.len() as int) =~= b@);
}

/// Appends the characters of a string slice to `r`.
pub fn append_str(r: &mut Vec<char>, b: &str)
    ensures
        final(r)@ == old(r)@ + b@,
{
    let cs = to_chars(b);
    append_slice(r, &cs);
}

/// Character-wise equality of two slices.
pub fn chars_eq(a: &[char], b: &[char]) -> (r: bool)
    ensures
        r == (a@ == b@),
{
    if a.len() != b.len() {
        return false;
    }
    let mut i: usize = 0;
    while i < a.len()
        invariant
            a.len() == b.len(),
            i <= a.len(),
            forall|j: int| 0 <= j < i ==> a@[j] == b@[j],
        decreases a.len() - i,
    {
        if a[i] != b[i] {
            return false;
        }
        i += 1;
    }
    assert(a@ =~= b@);
    true
}

/// Equality of a slice with a string.
pub fn eq_str(a: &[char], b: &str) -> (r: bool)
    ensures
        r == (a@ == b@),
{
    let bc = to_chars(b);
    chars_eq(a, &bc)
}

// ---------------------------------------------------------------------------
// Whitespace and trimming
// ---------------------------------------------------------------------------

/// Unicode `White_Space` property (the set `char::is_whitespace` tests).
pub open spec fn is_ws(c: char) -> bool {
    let u = c as u32;
    ||| 0x9 <= u <= 0xD
    ||| u == 0x20
    ||| u == 0x85
    ||| u == 0xA0
    ||| u == 0x1680
    ||| 0x2000 <= u <= 0x200A
    ||| u == 0x2028
    ||| u == 0x2029
    ||| u == 0x202F
    ||| u == 0x205F
    ||| u == 0x3000
}

/// Executable test of [`is_ws`].
pub fn is_whitespace(c: char) -> (r: bool)
    ensures
        r == is_ws(c),
{
    let u = c as u32;
    (0x9 <= u && u <= 0xD) || u == 0x20 || u == 0x85 || u == 0xA0 || u == 0x1680 || (0x2000 <= u
        && u <= 0x200A) || u == 0x2028 || u == 0x2029 || u == 0x202F || u == 0x205F || u == 0x3000
}

/// `s` without leading whitespace.
pub open spec fn trim_start(s: Seq<char>) -> Seq<char>
    decreases s.len(),
{
    if s.len() > 0 && is_ws(s[0]) {
        trim_start(s.drop_first())
    } else {
        s
    }
}

/// `s` without trailing whitespace.
pub open spec fn trim_end(s: Seq<char>) -> Seq<char>
    decreases s.len(),
{
    if s.len() > 0 && is_ws(s.last()) {
        trim_end(s.drop_last())
    } else {
        s
    }
}

/// `s` without leading and trailing whitespace (`str::trim`).
pub open spec fn trim(s: Seq<char>) -> Seq<char> {
    trim_end(trim_start(s))
}

/// True when every character of `s` is whitespace.
pub open spec fn all_ws(s: Seq<char>) -> bool {
    forall|i: int| 0 <= i < s.len() ==> is_ws(#[trigger] s[i])
}

pub proof fn lemma_trim_start_shape(s: Seq<char>)
    ensures
        exists|k: int|
            0 <= k <= s.len() && trim_start(s) == s.skip(k) && all_ws(s.take(k)) && (k < s.len()
                ==> !is_ws(s[k])),
    decreases s.len(),
{
    if s.len() > 0 && is_ws(s[0]) {
        lemma_trim_start_shape(s.drop_first());
        let k = choose|k: int|
            0 <= k <= s.drop_first().len() && trim_start(s.drop_first()) == s.drop_first().skip(k)
                && all_ws(s.drop_first().take(k)) && (k < s.drop_first().len() ==> !is_ws(
                s.drop_first()[k],
            ));
        assert(s.drop_first().skip(k) =~= s.skip(k + 1));
        assert forall|i: int| 0 <= i < k + 1 implies is_ws(#[trigger] s.take(k + 1)[i]) by {
            if i > 0 {
                assert(s.take(k + 1)[i] == s.drop_first().take(k)[i - 1]);
            }
        }
    } else {
        assert(s.skip(0) =~= s);
    }
}

pub proof fn lemma_trim_end_shape(s: Seq<char>)
    ensures
        exists|k: int|
            0 <= k <= s.len() && trim_end(s) == s.take(k) && all_ws(s.skip(k)) && (k > 0 ==> !is_ws(
                s[k - 1],
            )),
    decreases s.len(),
{
    if s.len() > 0 && is_ws(s.last()) {
        lemma_trim_end_shape(s.drop_last());
        let k = choose|k: int|
            0 <= k <= s.drop_last().len() && trim_end(s.drop_last()) == s.drop_last().take(k)
                && all_ws(s.drop_last().skip(k)) && (k > 0 ==> !is_ws(s.drop_last()[k - 1]));
        assert(s.drop_last().take(k) =~= s.take(k));
        assert forall|i: int| 0 <= i < s.len() - k implies is_ws(#[trigger] s.skip(k)[i]) by {
            if i < s.len() - k - 1 {
                assert(s.skip(k)[i] == s.drop_last().skip(k)[i]);
            }
        }
    } else {
        assert(s.take(s.len() as int) =~= s);
        assert(s.skip(s.len() as int).len() == 0);
    }
}

/// Index of the first non-whitespace character (or `s.len()`).
pub fn trim_start_index(s: &[char]) -> (k: usize)
    ensures
        k <= s.len(),
        s@.skip(k as int) == trim_start(s@),
        all_ws(s@.take(k as int)),
{
    let mut i: usize = 0;
    assert(s@.skip(0) =~= s@);
    while i < s.len() && is_whitespace(s[i])
        invariant
            i <= s.len(),
            trim_start(s@) == trim_start(s@.skip(i as int)),
            all_ws(s@.take(i as int)),
        decreases s.len() - i,
    {
        assert(s@.skip(i as int).drop_first() =~= s@.skip(i + 1));
        assert(s@.take(i + 1) =~= s@.take(i as int).push(s@[i as int]));
        i += 1;
    }
    assert(s@.skip(i as int).len() == 0 || !is_ws(s@.skip(i as int)[0]));
    i
}

/// Index just past the last non-whitespace character (or 0).
pub fn trim_end_index(s: &[char]) -> (k: usize)
    ensures
        k <= s.len(),
        s@.take(k as int) == trim_end(s@),
        all_ws(s@.skip(k as int)),
{
    let mut i: usize = s.len();
    assert(s@.take(i as int) =~= s@);
    while i > 0 && is_whitespace(s[i - 1])
        invariant
            i <= s.len(),
            trim_end(s@) == trim_end(s@.take(i as int)),
            all_ws(s@.skip(i as int)),
        decreases i,
    {
        assert(s@.take(i as int).drop_last() =~= s@.take(i - 1));
        assert(s@.skip(i - 1) =~= seq![s@[i - 1]] + s@.skip(i as int));
        i -= 1;
    }
    i
}

/// `trim_start` as a new vector.
pub fn trim_start_chars(s: &[char]) -> (r: Vec<char>)
    ensures
        r@ == trim_start(s@),
{
    let k = trim_start_index(s);
    let r = slice_of(s, k, s.len());
    assert(s@.subrange(k as int, s.len() as int) =~= s@.skip(k as int));
    r
}

/// `trim_end` as a new vector.
pub fn trim_end_chars(s: &[char]) -> (r: Vec<char>)
    ensures
        r@ == trim_end(s@),
{
    let k = trim_end_index(s);
    let r = slice_of(s, 0, k);
    assert(s@.subrange(0, k as int) =~= s@.take(k as int));
    r
}

/// `trim` as a new vector.
pub fn trim_chars(s: &[char]) -> (r: Vec<char>)
    ensures
        r@ == trim(s@),
{
    let a = trim_start_chars(s);
    trim_end_chars(&a)
}

pub proof fn lemma_trim_empty_iff_all_ws(s: Seq<char>)
    ensures
        (trim(s).len() == 0) == all_ws(s),
        (trim_start(s).len() == 0) == all_ws(s),
{
    lemma_trim_start_shape(s);
    lemma_trim_end_shape(trim_start(s));
    let k = choose|k: int|
        0 <= k <= s.len() && trim_start(s) == s.skip(k) && all_ws(s.take(k)) && (k < s.len()
            ==> !is_ws(s[k]));
    let t = trim_start(s);
    let m = choose|m: int|
        0 <= m <= t.len() && trim_end(t) == t.take(m) && all_ws(t.skip(m)) && (m > 0 ==> !is_ws(
            t[m - 1],
        ));
    if all_ws(s) {
        if k < s.len() {
            assert(is_ws(s[k]));
        }
    } else {
        let i = choose|i: int| 0 <= i < s.len() && !is_ws(s[i]);
        if k > i {
            assert(s.take(k)[i] == s[i]);
        }
        assert(k < s.len());
        assert(t[0] == s[k]);
        if m == 0 {
            assert(t.skip(0)[0] == t[0]);
        }
    }
}

/// `trim_end` is the unique prefix after which only whitespace follows and
/// which does not itself end in whitespace.
pub proof fn lemma_trim_end_unique(t: Seq<char>, k: int)
    requires
        0 <= k <= t.len(),
        all_ws(t.skip(k)),
        k > 0 ==> !is_ws(t[k - 1]),
    ensures
        trim_end(t) == t.take(k),
    decreases t.len(),
{
    if t.len() > k {
        assert(t.skip(k)[t.len() - 1 - k] == t.last());
        assert forall|i: int| 0 <= i < t.drop_last().skip(k).len() implies is_ws(
            #[trigger] t.drop_last().skip(k)[i],
        ) by {
            assert(t.drop_last().skip(k)[i] == t.skip(k)[i]);
        }
        lemma_trim_end_unique(t.drop_last(), k);
        assert(t.drop_last().take(k) =~= t.take(k));
    } else if k > 0 {
        assert(t.take(k) =~= t);
    } else {
        assert(t.take(k) =~= t);
    }
}

pub proof fn lemma_trim_start_unique(t: Seq<char>, k: int)
    requires
        0 <= k <= t.len(),
        all_ws(t.take(k)),
        k < t.len() ==> !is_ws(t[k]),
    ensures
        trim_start(t) == t.skip(k),
    decreases t.len(),
{
    if k > 0 {
        assert(t.take(k)[0] == t[0]);
        assert forall|i: int| 0 <= i < t.drop_first().take(k - 1).len() implies is_ws(
            #[trigger] t.drop_first().take(k - 1)[i],
        ) by {
            assert(t.drop_first().take(k - 1)[i] == t.take(k)[i + 1]);
        }
        if k < t.len() {
            assert(t.drop_first()[k - 1] == t[k]);
        }
        lemma_trim_start_unique(t.drop_first(), k - 1);
        assert(t.drop_first().skip(k - 1) =~= t.skip(k));
    } else {
        assert(t.skip(0) =~= t);
    }
}

/// Trimming after cutting trailing whitespace is trimming.
pub proof fn lemma_trim_of_trim_end(b: Seq<char>)
    ensures
        trim(trim_end(b)) == trim(b),
{
    lemma_trim_start_shape(b);
    lemma_trim_end_shape(b);
    let ks = choose|k: int|
        0 <= k <= b.len() && trim_start(b) == b.skip(k) && all_ws(b.take(k)) && (k < b.len()
            ==> !is_ws(b[k]));
    let ke = choose|k: int|
        0 <= k <= b.len() && trim_end(b) == b.take(k) && all_ws(b.skip(k)) && (k > 0 ==> !is_ws(
            b[k - 1],
        ));
    lemma_trim_empty_iff_all_ws(b);
    if ks == b.len() {
        assert(b.take(ks) =~= b);
        if ke > 0 {
            assert(b.take(ks)[ke - 1] == b[ke - 1]);
        }
        assert(trim_end(b) =~= Seq::<char>::empty());
        lemma_trim_empty_iff_all_ws(trim_end(b));
        assert(trim(trim_end(b)).len() == 0);
    } else {
        if ke <= ks {
            assert(b.skip(ke)[ks - ke] == b[ks]);
        }
        let x = b.take(ke);
        assert(x.take(ks) =~= b.take(ks));
        assert(x[ks] == b[ks]);
        lemma_trim_start_unique(x, ks);
        let y = x.skip(ks);
        assert(y.last() == b[ke - 1]);
        assert(trim_end(y) == y);
        lemma_trim_range(b, ks, ke);
        assert(y =~= b.subrange(ks, ke));
    }
}

/// The characters between the two trim indices are `trim(s)`.
pub proof fn lemma_trim_range(s: Seq<char>, a: int, b0: int)
    requires
        0 <= a <= s.len(),
        0 <= b0 <= s.len(),
        s.skip(a) == trim_start(s),
        s.take(b0) == trim_end(s),
        all_ws(s.skip(b0)),
    ensures
        s.subrange(a, if b0 < a { a } else { b0 }) == trim(s),
{
    lemma_trim_end_shape(s);
    let k = choose|k: int|
        0 <= k <= s.len() && trim_end(s) == s.take(k) && all_ws(s.skip(k)) && (k > 0 ==> !is_ws(
            s[k - 1],
        ));
    assert(s.take(b0).len() == s.take(k).len());
    let t = s.skip(a);
    if b0 < a {
        assert forall|i: int| 0 <= i < t.skip(0).len() implies is_ws(#[trigger] t.skip(0)[i]) by {
            assert(t.skip(0)[i] == s.skip(b0)[i + a - b0]);
        }
        lemma_trim_end_unique(t, 0);
        assert(s.subrange(a, a) =~= t.take(0));
    } else {
        assert forall|i: int| 0 <= i < t.skip(b0 - a).len() implies is_ws(
            #[trigger] t.skip(b0 - a)[i],
        ) by {
            assert(t.skip(b0 - a)[i] == s.skip(b0)[i]);
        }
        if b0 - a > 0 {
            assert(t[b0 - a - 1] == s[b0 - 1]);
        }
        lemma_trim_end_unique(t, b0 - a);
        assert(s.subrange(a, b0) =~= t.take(b0 - a));
    }
}

// ---------------------------------------------------------------------------
// Joining
// ---------------------------------------------------------------------------

/// `parts.join(sep)`.
pub open spec fn join(parts: Seq<Seq<char>>, sep: Seq<char>) -> Seq<char>
    decreases parts.len(),
{
    if parts.len() == 0 {
        Seq::empty()
    } else if parts.len() == 1 {
        parts[0]
    } else {
        join(parts.drop_last(), sep) + sep + parts.last()
    }
}

/// Joining a first part before the others.
pub proof fn lemma_join_prepend(w: Seq<char>, ws: Seq<Seq<char>>, sep: Seq<char>)
    requires
        ws.len() > 0,
    ensures
        join(seq![w] + ws, sep) == w + sep + join(ws, sep),
    decreases ws.len(),
{
    let all = seq![w] + ws;
    assert(all.len() >= 2);
    assert(all.last() == ws.last());
    assert(join(all, sep) == join(all.drop_last(), sep) + sep + all.last());
    if ws.len() == 1 {
        assert(all.drop_last() =~= seq![w]);
        assert(join(seq![w], sep) == w);
        assert(join(ws, sep) == ws[0]);
    } else {
        assert(join(ws, sep) == join(ws.drop_last(), sep) + sep + ws.last());
        lemma_join_prepend(w, ws.drop_last(), sep);
        assert(all.drop_last() =~= seq![w] + ws.drop_last());
        assert(w + sep + join(ws.drop_last(), sep) + sep + ws.last() =~= w + sep + (join(
            ws.drop_last(),
            sep,
        ) + sep + ws.last()));
    }
}

/// The character views of a vector of character vectors.
pub open spec fn views(v: Seq<Vec<char>>) -> Seq<Seq<char>> {
    Seq::new(v.len(), |i: int| v[i]@)
}

pub proof fn lemma_views_push(v: Seq<Vec<char>>, x: Vec<char>)
    ensures
        views(v.push(x)) == views(v).push(x@),
{
    assert(views(v.push(x)) =~= views(v).push(x@));
}

/// Joins the parts with `sep` between consecutive parts.
pub fn join_chars(parts: &Vec<Vec<char>>, sep: &[char]) -> (r: Vec<char>)
    ensures
        r@ == join(views(parts@), sep@),
{
    let mut r: Vec<char> = Vec::new();
    let mut i: usize = 0;
    while i < parts.len()
        invariant
            i <= parts.len(),
            r@ == join(views(parts@).take(i as int), sep@),
        decreases parts.len() - i,
    {
        let ghost before = r@;
        if i > 0 {
            append_slice(&mut r, sep);
        }
        append_slice(&mut r, &parts[i]);
        proof {
            let vt = views(parts@).take(i + 1);
            assert(vt.drop_last() =~= views(parts@).take(i as int));
            assert(vt.last() == parts@[i as int]@);
            if i == 0 {
                assert(vt.len() == 1);
                assert(r@ =~= vt[0]);
            }
        }
        i += 1;
    }
    assert(views(parts@).take(parts.len() as int) =~= views(parts@));
    r
}

// ---------------------------------------------------------------------------
// Lines
// ---------------------------------------------------------------------------

/// Index of the first `c` in `s`, or `s.len()` when there is none.
pub open spec fn index_of(s: Seq<char>, c: char) -> int
    decreases s.len(),
{
    if s.len() == 0 {
        0
    } else if s[0] == c {
        0
    } else {
        1 + index_of(s.drop_first(), c)
    }
}

pub proof fn lemma_index_of(s: Seq<char>, c: char)
    ensures
        0 <= index_of(s, c) <= s.len(),
        forall|j: int| 0 <= j < index_of(s, c) ==> s[j] != c,
        index_of(s, c) < s.len() ==> s[index_of(s, c)] == c,
    decreases s.len(),
{
    if s.len() > 0 && s[0] != c {
        lemma_index_of(s.drop_first(), c);
        assert forall|j: int| 0 <= j < index_of(s, c) implies s[j] != c by {
            if j > 0 {
                assert(s[j] == s.drop_first()[j - 1]);
            }
        }
    }
}

pub proof fn lemma_index_of_at(s: Seq<char>, c: char, k: int)
    requires
        0 <= k <= s.len(),
        forall|j: int| 0 <= j < k ==> s[j] != c,
        k < s.len() ==> s[k] == c,
    ensures
        index_of(s, c) == k,
    decreases s.len(),
{
    if s.len() > 0 && s[0] != c {
        assert forall|j: int| 0 <= j < k - 1 implies s.drop_first()[j] != c by {
            assert(s.drop_first()[j] == s[j + 1]);
        }
        lemma_index_of_at(s.drop_first(), c, k - 1);
    }
}

/// A line without its terminating carriage return.
pub open spec fn strip_cr(l: Seq<char>) -> Seq<char> {
    if l.len() > 0 && l.last() == '\r' {
        l.drop_last()
    } else {
        l
    }
}

/// `str::lines`: split at `\n` (dropping a `\r` before it); a final line
/// ending is optional and the empty string has no lines.
pub open spec fn lines(s: Seq<char>) -> Seq<Seq<char>>
    decreases s.len(),
{
    if s.len() == 0 {
        Seq::empty()
    } else {
        let k = index_of(s, '\n');
        if k >= s.len() || k < 0 {
            seq![s]
        } else {
            seq![strip_cr(s.take(k))] + lines(s.skip(k + 1))
        }
    }
}

/// Splits `s` into its lines (see [`lines`]).
pub fn split_lines(s: &[char]) -> (r: Vec<Vec<char>>)
    ensures
        views(r@) == lines(s@),
{
    let mut out: Vec<Vec<char>> = Vec::new();
    let mut start: usize = 0;
    let mut i: usize = 0;
    assert(s@.skip(0) =~= s@);
    assert(views(out@) + lines(s@) =~= lines(s@));
    while i < s.len()
        invariant
            start <= i <= s.len(),
            lines(s@) == views(out@) + lines(s@.skip(start as int)),
            forall|j: int| start <= j < i ==> s@[j] != '\n',
        decreases s.len() - i,
    {
        if s[i] == '\n' {
            let mut line = slice_of(s, start, i);
            if line.len() > 0 && line[line.len() - 1] == '\r' {
                line.pop();
            }
            proof {
                let t = s@.skip(start as int);
                assert forall|j: int| 0 <= j < i - start implies t[j] != '\n' by {
                    assert(t[j] == s@[start + j]);
                }
                lemma_index_of_at(t, '\n', i - start);
                assert(t.take(i - start) =~= s@.subrange(start as int, i as int));
                assert(t.skip(i - start + 1) =~= s@.skip(i + 1));
                assert(line@ == strip_cr(t.take(i - start)));
                lemma_views_push(out@, line);
            }
            out.push(line);
            start = i + 1;
        }
        i += 1;
    }
    if start < s.len() {
        let last = slice_of(s, start, s.len());
        proof {
            let t = s@.skip(start as int);
            assert forall|j: int| 0 <= j < t.len() implies t[j] != '\n' by {
                assert(t[j] == s@[start + j]);
            }
            lemma_index_of_at(t, '\n', t.len() as int);
            assert(last@ =~= t);
            lemma_views_push(out@, last);
        }
        out.push(last);
    } else {
        assert(s@.skip(start as int).len() == 0);
    }
    proof {
        assert(views(out@) =~= lines(s@)) by {
            if start < s.len() {
            } else {
                assert(views(out@) + Seq::<Seq<char>>::empty() =~= views(out@));
            }
        }
    }
    out
}


// ---------------------------------------------------------------------------
// Words
// ---------------------------------------------------------------------------

/// Index of the first whitespace character, or `s.len()`.
pub open spec fn first_ws(s: Seq<char>) -> int
    decreases s.len(),
{
    if s.len() == 0 {
        0
    } else if is_ws(s[0]) {
        0
    } else {
        1 + first_ws(s.drop_first())
    }
}

pub proof fn lemma_first_ws_at(s: Seq<char>, k: int)
    requires
        0 <= k <= s.len(),
        forall|j: int| 0 <= j < k ==> !is_ws(s[j]),
        k < s.len() ==> is_ws(s[k]),
    ensures
        first_ws(s) == k,
    decreases s.len(),
{
    if s.len() > 0 && !is_ws(s[0]) {
        assert forall|j: int| 0 <= j < k - 1 implies !is_ws(s.drop_first()[j]) by {
            assert(s.drop_first()[j] == s[j + 1]);
        }
        lemma_first_ws_at(s.drop_first(), k - 1);
    }
}

/// `str::split_whitespace`: maximal runs of non-whitespace characters.
pub open spec fn words(s: Seq<char>) -> Seq<Seq<char>>
    decreases s.len(),
{
    if s.len() == 0 {
        Seq::empty()
    } else if is_ws(s[0]) {
        words(s.drop_first())
    } else {
        let k = first_ws(s);
        if 1 <= k <= s.len() {
            seq![s.take(k)] + words(s.skip(k))
        } else {
            seq![s]
        }
    }
}

pub proof fn lemma_first_ws_bounds(s: Seq<char>)
    ensures
        0 <= first_ws(s) <= s.len(),
        s.len() > 0 && !is_ws(s[0]) ==> 1 <= first_ws(s),
    decreases s.len(),
{
    if s.len() > 0 && !is_ws(s[0]) {
        lemma_first_ws_bounds(s.drop_first());
    }
}

/// Splits `s` into whitespace-separated words (see [`words`]).
pub fn split_words(s: &[char]) -> (r: Vec<Vec<char>>)
    ensures
        views(r@) == words(s@),
{
    let mut out: Vec<Vec<char>> = Vec::new();
    let mut start: usize = 0;
    let mut in_word = false;
    let mut i: usize = 0;
    assert(s@.skip(0) =~= s@);
    assert(views(out@) + words(s@) =~= words(s@));
    while i < s.len()
        invariant
            start <= i <= s.len(),
            !in_word ==> start == i,
            words(s@) == views(out@) + words(s@.skip(start as int)),
            in_word ==> start < i,
            forall|j: int| start <= j < i ==> !is_ws(s@[j]),
        decreases s.len() - i,
    {
        let c = s[i];
        if is_whitespace(c) {
            if in_word {
                let w = slice_of(s, start, i);
                proof {
                    let t = s@.skip(start as int);
                    assert forall|j: int| 0 <= j < i - start implies !is_ws(t[j]) by {
                        assert(t[j] == s@[start + j]);
                    }
                    lemma_first_ws_at(t, i - start);
                    assert(t.take(i - start) =~= w@);
                    assert(t.skip(i - start) =~= s@.skip(i as int));
                    assert(t[0] == s@[start as int]);
                    assert(words(t) == seq![w@] + words(s@.skip(i as int)));
                    lemma_views_push(out@, w);
                    assert(views(out@).push(w@) + words(s@.skip(i as int)) =~= views(out@) + (
                    seq![w@] + words(s@.skip(i as int))));
                }
                out.push(w);
            }
            proof {
                let t = s@.skip(i as int);
                assert(t[0] == c);
                assert(t.drop_first() =~= s@.skip(i + 1));
                assert(words(t) == words(s@.skip(i + 1)));
            }
            in_word = false;
            start = i + 1;
        } else {
            if !in_word {
                start = i;
            }
            in_word = true;
        }
        i += 1;
    }
    if in_word {
        let w = slice_of(s, start, s.len());
        proof {
            let t = s@.skip(start as int);
            assert forall|j: int| 0 <= j < t.len() implies !is_ws(t[j]) by {
                assert(t[j] == s@[start + j]);
            }
            lemma_first_ws_at(t, t.len() as int);
            assert(t.take(t.len() as int) =~= w@);
            assert(t.skip(t.len() as int) =~= Seq::<char>::empty());
            assert(t[0] == s@[start as int]);
            assert(words(Seq::<char>::empty()) =~= Seq::<Seq<char>>::empty());
            assert(words(t) =~= seq![w@]);
            lemma_views_push(out@, w);
        }
        out.push(w);
        proof {
            assert(words(s@) =~= views(out@));
        }
    } else {
        assert(s@.skip(start as int).len() == 0);
        assert(views(out@) + Seq::<Seq<char>>::empty() =~= views(out@));
    }
    out
}

// ---------------------------------------------------------------------------
// Substrings
// ---------------------------------------------------------------------------

/// `p` occurs in `s` starting at index `i`.
pub open spec fn occurs_at(s: Seq<char>, p: Seq<char>, i: int) -> bool {
    0 <= i && i + p.len() <= s.len() && s.subrange(i, i + p.len()) == p
}

/// `p` occurs somewhere in `s` (`str::contains`).
pub open spec fn contains(s: Seq<char>, p: Seq<char>) -> bool {
    exists|i: int| occurs_at(s, p, i)
}

/// `s` starts with `p`.
pub open spec fn starts_with(s: Seq<char>, p: Seq<char>) -> bool {
    p.len() <= s.len() && s.take(p.len() as int) == p
}

/// `s` ends with `p`.
pub open spec fn ends_with(s: Seq<char>, p: Seq<char>) -> bool {
    p.len() <= s.len() && s.skip(s.len() - p.len()) == p
}

/// Index of the first occurrence of `p` in `s`, if any (`str::find`, counted
/// in characters).
#[verifier::opaque]
pub open spec fn find(s: Seq<char>, p: Seq<char>) -> Option<int> {
    if contains(s, p) {
        Some(choose|i: int| occurs_at(s, p, i) && forall|j: int| 0 <= j < i ==> !occurs_at(s, p, j))
    } else {
        None
    }
}

pub proof fn lemma_find_first(s: Seq<char>, p: Seq<char>, i: int)
    requires
        occurs_at(s, p, i),
        forall|j: int| 0 <= j < i ==> !occurs_at(s, p, j),
    ensures
        find(s, p) == Some(i),
{
    reveal(find);
    assert(contains(s, p));
    let k = choose|k: int| occurs_at(s, p, k) && forall|j: int| 0 <= j < k ==> !occurs_at(s, p, j);
    if k < i {
        assert(!occurs_at(s, p, k));
    }
    if i < k {
        assert(!occurs_at(s, p, i));
    }
}

pub proof fn lemma_find_some(s: Seq<char>, p: Seq<char>)
    ensures
        find(s, p) matches Some(i) ==> occurs_at(s, p, i) && forall|j: int|
            0 <= j < i ==> !occurs_at(s, p, j),
        find(s, p) is None ==> !contains(s, p),
{
    reveal(find);
    if contains(s, p) {
        let k = choose|k: int| occurs_at(s, p, k);
        lemma_min_occurrence(s, p, k);
    }
}

proof fn lemma_min_occurrence(s: Seq<char>, p: Seq<char>, k: int)
    requires
        occurs_at(s, p, k),
    ensures
        exists|m: int| occurs_at(s, p, m) && forall|j: int| 0 <= j < m ==> !occurs_at(s, p, j),
    decreases k,
{
    if exists|j: int| 0 <= j < k && occurs_at(s, p, j) {
        let j = choose|j: int| 0 <= j < k && occurs_at(s, p, j);
        lemma_min_occurrence(s, p, j);
    } else {
        assert(occurs_at(s, p, k) && forall|j: int| 0 <= j < k ==> !occurs_at(s, p, j));
    }
}

/// Executable test of [`occurs_at`].
pub fn matches_at(s: &[char], p: &[char], i: usize) -> (r: bool)
    ensures
        r == occurs_at(s@, p@, i as int),
{
    if i > s.len() || p.len() > s.len() - i {
        return false;
    }
    let mut j: usize = 0;
    while j < p.len()
        invariant
            i + p.len() <= s.len(),
            j <= p.len(),
            forall|k: int| 0 <= k < j ==> s@[i + k] == p@[k],
        decreases p.len() - j,
    {
        if s[i + j] != p[j] {
            assert(s@.subrange(i as int, i + p.len())[j as int] != p@[j as int]);
            return false;
        }
        j += 1;
    }
    assert(s@.subrange(i as int, i + p.len()) =~= p@);
    true
}

/// First occurrence of `p` in `s` (see [`find`]).
pub fn find_chars(s: &[char], p: &[char]) -> (r: Option<usize>)
    ensures
        r matches Some(i) ==> find(s@, p@) == Some(i as int),
        r is None ==> find(s@, p@) is None,
        r matches Some(i) ==> occurs_at(s@, p@, i as int),
        r is None ==> !contains(s@, p@),
{
    if p.len() > s.len() {
        proof {
            reveal(find);
        }
        return None;
    }
    let last = s.len() - p.len();
    let mut i: usize = 0;
    loop
        invariant
            p.len() <= s.len(),
            last == s.len() - p.len(),
            i <= last,
            forall|j: int| 0 <= j < i ==> !occurs_at(s@, p@, j),
        decreases last - i,
    {
        if matches_at(s, p, i) {
            proof {
                lemma_find_first(s@, p@, i as int);
            }
            return Some(i);
        }
        if i == last {
            proof {
                reveal(find);
                assert forall|j: int| !occurs_at(s@, p@, j) by {
                    if 0 <= j && j + p@.len() <= s@.len() {
                        assert(j <= i);
                    }
                }
            }
            return None;
        }
        i += 1;
    }
}

/// Executable [`contains`].
pub fn contains_chars(s: &[char], p: &[char]) -> (r: bool)
    ensures
        r == contains(s@, p@),
{
    find_chars(s, p).is_some()
}

/// Executable [`contains`] for a string needle.
pub fn contains_str(s: &[char], p: &str) -> (r: bool)
    ensures
        r == contains(s@, p@),
{
    let pc = to_chars(p);
    contains_chars(s, &pc)
}

/// Executable [`starts_with`].
pub fn starts_with_chars(s: &[char], p: &[char]) -> (r: bool)
    ensures
        r == starts_with(s@, p@),
{
    let r = matches_at(s, p, 0);
    assert(r == starts_with(s@, p@)) by {
        assert(s@.subrange(0, p@.len() as int) =~= s@.take(p@.len() as int));
    }
    r
}

/// Executable [`starts_with`] for a string prefix.
pub fn starts_with_str(s: &[char], p: &str) -> (r: bool)
    ensures
        r == starts_with(s@, p@),
{
    let pc = to_chars(p);
    starts_with_chars(s, &pc)
}

/// Executable [`ends_with`].
pub fn ends_with_chars(s: &[char], p: &[char]) -> (r: bool)
    ensures
        r == ends_with(s@, p@),
{
    if p.len() > s.len() {
        return false;
    }
    let r = matches_at(s, p, s.len() - p.len());
    assert(r == ends_with(s@, p@)) by {
        assert(s@.subrange(s.len() - p.len(), s.len() as int) =~= s@.skip(s.len() - p.len()));
    }
    r
}

/// Executable [`ends_with`] for a string suffix.
pub fn ends_with_str(s: &[char], p: &str) -> (r: bool)
    ensures
        r == ends_with(s@, p@),
{
    let pc = to_chars(p);
    ends_with_chars(s, &pc)
}

/// `s` with every `from` replaced by `to` (`str::replace` for a single char).
pub open spec fn replace_char(s: Seq<char>, from: char, to: char) -> Seq<char> {
    Seq::new(s.len(), |i: int| if s[i] == from { to } else { s[i] })
}

/// Executable [`replace_char`].
pub fn replace_char_chars(s: &[char], from: char, to: char) -> (r: Vec<char>)
    ensures
        r@ == replace_char(s@, from, to),
{
    let mut r: Vec<char> = Vec::new();
    let mut i: usize = 0;
    while i < s.len()
        invariant
            i <= s.len(),
            r@ =~= replace_char(s@, from, to).take(i as int),
        decreases s.len() - i,
    {
        if s[i] == from {
            r.push(to);
        } else {
            r.push(s[i]);
        }
        i += 1;
    }
    assert(replace_char(s@, from, to).take(s.len() as int) =~= replace_char(s@, from, to));
    r
}

// ---------------------------------------------------------------------------
// Case mapping
// ---------------------------------------------------------------------------

/// ASCII lower-case of one character.
pub open spec fn ascii_lower(c: char) -> char {
    if 'A' <= c <= 'Z' {
        ((c as u32) + 32) as char
    } else {
        c
    }
}

/// `str::to_ascii_lowercase`.
pub open spec fn to_ascii_lower(s: Seq<char>) -> Seq<char> {
    Seq::new(s.len(), |i: int| ascii_lower(s[i]))
}

/// Executable [`ascii_lower`].
pub fn ascii_lower_char(c: char) -> (r: char)
    ensures
        r == ascii_lower(c),
{
    if 'A' <= c && c <= 'Z' {
        let b: u8 = (c as u32 + 32) as u8;
        b as char
    } else {
        c
    }
}

/// Executable [`to_ascii_lower`].
pub fn to_ascii_lower_chars(s: &[char]) -> (r: Vec<char>)
    ensures
        r@ == to_ascii_lower(s@),
{
    let mut r: Vec<char> = Vec::new();
    let mut i: usize = 0;
    while i < s.len()
        invariant
            i <= s.len(),
            r@ =~= to_ascii_lower(s@).take(i as int),
        decreases s.len() - i,
    {
        r.push(ascii_lower_char(s[i]));
        i += 1;
    }
    assert(to_ascii_lower(s@).take(s.len() as int) =~= to_ascii_lower(s@));
    r
}

/// The result of `str::to_lowercase` (full Unicode case mapping, which only
/// std's tables define).
pub uninterp spec fn unicode_lowercase(s: Seq<char>) -> Seq<char>;

/// Unicode lower-case of a string.
///
/// Trusted: calls `str::to_lowercase`; the contract only names its result,
/// which depends on the input characters alone.
#[verifier::external_body]
pub(crate) fn to_lowercase(s: &str) -> (r: String)
    ensures
        r@ == unicode_lowercase(s@),
{
    s.to_lowercase()
}

// ---------------------------------------------------------------------------
// Numbers
// ---------------------------------------------------------------------------

/// The decimal digit character for `d < 10`.
pub open spec fn digit_char(d: int) -> char {
    if d == 0 {
        '0'
    } else if d == 1 {
        '1'
    } else if d == 2 {
        '2'
    } else if d == 3 {
        '3'
    } else if d == 4 {
        '4'
    } else if d == 5 {
        '5'
    } else if d == 6 {
        '6'
    } else if d == 7 {
        '7'
    } else if d == 8 {
        '8'
    } else {
        '9'
    }
}

/// Decimal rendering of a natural number (`{}` formatting).
pub open spec fn decimal(n: nat) -> Seq<char>
    decreases n,
{
    if n < 10 {
        seq![digit_char(n as int)]
    } else {
        decimal(n / 10).push(digit_char((n % 10) as int))
    }
}

/// Decimal rendering of an integer with a leading `-` when negative.
pub open spec fn int_decimal(n: int) -> Seq<char> {
    if n < 0 {
        seq!['-'] + decimal((-n) as nat)
    } else {
        decimal(n as nat)
    }
}

fn digit_to_char(d: u64) -> (c: char)
    requires
        d < 10,
    ensures
        c == digit_char(d as int),
{
    if d == 0 {
        '0'
    } else if d == 1 {
        '1'
    } else if d == 2 {
        '2'
    } else if d == 3 {
        '3'
    } else if d == 4 {
        '4'
    } else if d == 5 {
        '5'
    } else if d == 6 {
        '6'
    } else if d == 7 {
        '7'
    } else if d == 8 {
        '8'
    } else {
        '9'
    }
}

/// Decimal digits of `n`.
pub fn u64_decimal(n: u64) -> (r: Vec<char>)
    ensures
        r@ == decimal(n as nat),
{
    let mut acc: Vec<char> = Vec::new();
    let mut m = n;
    assert(decimal(n as nat) =~= decimal(m as nat) + acc@);
    while m >= 10
        invariant
            decimal(n as nat) == decimal(m as nat) + acc@,
        decreases m,
    {
        let d = digit_to_char(m % 10);
        acc.insert(0, d);
        proof {
            assert(decimal(m as nat) == decimal((m / 10) as nat).push(digit_char((m % 10) as int)));
            assert(decimal((m / 10) as nat).push(d) + old_acc_tail(acc@) =~= decimal((m / 10) as nat)
                + acc@);
        }
        m = m / 10;
    }
    let d = digit_to_char(m);
    acc.insert(0, d);
    acc
}

spec fn old_acc_tail(s: Seq<char>) -> Seq<char> {
    s.drop_first()
}

/// Decimal rendering of a signed number.
pub fn i64_decimal(n: i64) -> (r: Vec<char>)
    ensures
        r@ == int_decimal(n as int),
{
    if n < 0 {
        let mag: u64 = if n == i64::MIN {
            9223372036854775808u64
        } else {
            (-n) as u64
        };
        let digits = u64_decimal(mag);
        let mut r: Vec<char> = Vec::new();
        r.push('-');
        append_slice(&mut r, &digits);
        r
    } else {
        u64_decimal(n as u64)
    }
}

// ---------------------------------------------------------------------------
// Lengths in code units
// ---------------------------------------------------------------------------

/// UTF-8 width of one character (`char::len_utf8`).
pub open spec fn utf8_width(c: char) -> nat {
    let u = c as u32;
    if u <= 0x7F {
        1
    } else if u <= 0x7FF {
        2
    } else if u <= 0xFFFF {
        3
    } else {
        4
    }
}

/// UTF-8 byte length of a character sequence (`str::len`).
pub open spec fn utf8_len(s: Seq<char>) -> nat
    decreases s.len(),
{
    if s.len() == 0 {
        0
    } else {
        utf8_width(s[0]) + utf8_len(s.drop_first())
    }
}

/// UTF-16 width of one character (`char::len_utf16`).
pub open spec fn utf16_width(c: char) -> nat {
    if (c as u32) <= 0xFFFF {
        1
    } else {
        2
    }
}

/// UTF-16 code-unit length of a character sequence.
pub open spec fn utf16_count(s: Seq<char>) -> nat
    decreases s.len(),
{
    if s.len() == 0 {
        0
    } else {
        utf16_width(s[0]) + utf16_count(s.drop_first())
    }
}

pub proof fn lemma_utf16_count_append(a: Seq<char>, b: Seq<char>)
    ensures
        utf16_count(a + b) == utf16_count(a) + utf16_count(b),
    decreases a.len(),
{
    if a.len() > 0 {
        assert((a + b).drop_first() =~= a.drop_first() + b);
        lemma_utf16_count_append(a.drop_first(), b);
    } else {
        assert(a + b =~= b);
    }
}

pub proof fn lemma_utf8_len_append(a: Seq<char>, b: Seq<char>)
    ensures
        utf8_len(a + b) == utf8_len(a) + utf8_len(b),
    decreases a.len(),
{
    if a.len() > 0 {
        assert((a + b).drop_first() =~= a.drop_first() + b);
        lemma_utf8_len_append(a.drop_first(), b);
    } else {
        assert(a + b =~= b);
    }
}

pub proof fn lemma_utf16_count_push(a: Seq<char>, c: char)
    ensures
        utf16_count(a.push(c)) == utf16_count(a) + utf16_width(c),
{
    assert(seq![c].drop_first() =~= Seq::<char>::empty());
    assert(utf16_count(Seq::<char>::empty()) == 0);
    assert(utf16_count(seq![c]) == utf16_width(c));
    lemma_utf16_count_append(a, seq![c]);
    assert(a + seq![c] =~= a.push(c));
}

pub proof fn lemma_utf8_len_push(a: Seq<char>, c: char)
    ensures
        utf8_len(a.push(c)) == utf8_len(a) + utf8_width(c),
{
    assert(seq![c].drop_first() =~= Seq::<char>::empty());
    assert(utf8_len(Seq::<char>::empty()) == 0);
    assert(utf8_len(seq![c]) == utf8_width(c));
    lemma_utf8_len_append(a, seq![c]);
    assert(a + seq![c] =~= a.push(c));
}

/// UTF-16 width of a character.
pub fn char_utf16_width(c: char) -> (w: usize)
    ensures
        w == utf16_width(c),
{
    if (c as u32) <= 0xFFFF {
        1
    } else {
        2
    }
}

/// UTF-8 width of a character.
pub fn char_utf8_width(c: char) -> (w: usize)
    ensures
        w == utf8_width(c),
{
    let u = c as u32;
    if u <= 0x7F {
        1
    } else if u <= 0x7FF {
        2
    } else if u <= 0xFFFF {
        3
    } else {
        4
    }
}

/// UTF-16 length of `s`.
pub fn utf16_len_chars(s: &[char]) -> (n: usize)
    requires
        s.len() <= usize::MAX / 2,
    ensures
        n == utf16_count(s@),
        n <= 2 * s.len(),
{
    let mut n: usize = 0;
    let mut i: usize = 0;
    assert(s@.take(0) =~= Seq::<char>::empty());
    while i < s.len()
        invariant
            i <= s.len() <= usize::MAX / 2,
            n == utf16_count(s@.take(i as int)),
            n <= 2 * i,
        decreases s.len() - i,
    {
        proof {
            lemma_utf16_count_push(s@.take(i as int), s@[i as int]);
            assert(s@.take(i as int).push(s@[i as int]) =~= s@.take(i + 1));
        }
        n = n + char_utf16_width(s[i]);
        i += 1;
    }
    assert(s@.take(s.len() as int) =~= s@);
    n
}

/// UTF-8 length of `s`.
pub fn utf8_len_chars(s: &[char]) -> (n: usize)
    requires
        s.len() <= usize::MAX / 4,
    ensures
        n == utf8_len(s@),
        n <= 4 * s.len(),
{
    let mut n: usize = 0;
    let mut i: usize = 0;
    assert(s@.take(0) =~= Seq::<char>::empty());
    while i < s.len()
        invariant
            i <= s.len() <= usize::MAX / 4,
            n == utf8_len(s@.take(i as int)),
            n <= 4 * i,
        decreases s.len() - i,
    {
        proof {
            lemma_utf8_len_push(s@.take(i as int), s@[i as int]);
            assert(s@.take(i as int).push(s@[i as int]) =~= s@.take(i + 1));
        }
        n = n + char_utf8_width(s[i]);
        i += 1;
    }
    assert(s@.take(s.len() as int) =~= s@);
    n
}

/// `utf8_len` of a prefix is at most that of the whole.
pub proof fn lemma_utf8_len_prefix(s: Seq<char>, i: int)
    requires
        0 <= i <= s.len(),
    ensures
        utf8_len(s.take(i)) <= utf8_len(s),
{
    assert(s.take(i) + s.skip(i) =~= s);
    lemma_utf8_len_append(s.take(i), s.skip(i));
}

/// UTF-8 length of `s`, when it fits in `usize`.
pub fn utf8_len_fitting(s: &[char]) -> (n: usize)
    requires
        utf8_len(s@) <= usize::MAX,
    ensures
        n == utf8_len(s@),
{
    let mut n: usize = 0;
    let mut i: usize = 0;
    assert(s@.take(0) =~= Seq::<char>::empty());
    while i < s.len()
        invariant
            i <= s.len(),
            utf8_len(s@) <= usize::MAX,
            n == utf8_len(s@.take(i as int)),
        decreases s.len() - i,
    {
        proof {
            lemma_utf8_len_push(s@.take(i as int), s@[i as int]);
            assert(s@.take(i as int).push(s@[i as int]) =~= s@.take(i + 1));
            lemma_utf8_len_prefix(s@, i + 1);
        }
        n = n + char_utf8_width(s[i]);
        i += 1;
    }
    assert(s@.take(s.len() as int) =~= s@);
    n
}

// ---------------------------------------------------------------------------
// Truncation
// ---------------------------------------------------------------------------

/// The first `max` characters followed by `…` when `s` is longer than `max`
/// characters; `s` itself otherwise.
pub open spec fn ellipsize(s: Seq<char>, max: nat) -> Seq<char> {
    if s.len() <= max {
        s
    } else {
        s.take(max as int).push('…')
    }
}

/// Executable [`ellipsize`].
pub fn ellipsize_chars(s: &[char], max: usize) -> (r: Vec<char>)
    ensures
        r@ == ellipsize(s@, max as nat),
{
    if s.len() <= max {
        slice_of(s, 0, s.len())
    } else {
        let mut r = slice_of(s, 0, max);
        r.push('…');
        r
    }
}

/// The first `max` characters of `s` followed by `…` when `s` is longer.
pub fn ellipsize_str(s: &str, max: usize) -> (r: String)
    ensures
        r@ == ellipsize(s@, max as nat),
{
    let c = to_chars(s);
    let e = ellipsize_chars(&c, max);
    from_chars(&e)
}

} // verus!
