//! Session compaction: which stored messages the model still sees, what the
//! next summary covers, and how the prompt is rebuilt after it.

use vstd::prelude::*;

use crate::conversation::{message_views, text_message, ConversationMessage, MessageView};
use crate::prompt::{strip_summary_prefix, summary_body};
use crate::text::{eq_str, to_chars};

verus! {

/// A stored session message.
pub struct StoredMessage {
    pub id: i64,
    pub role: String,
    pub content: String,
    /// For a compaction row: the id of the last message its summary covers.
    pub covers_through_id: Option<i64>,
}

/// The mathematical content of a stored message.
pub struct StoredRow {
    pub id: int,
    pub role: Seq<char>,
    pub content: Seq<char>,
    pub covers_through_id: Option<int>,
}

impl View for StoredMessage {
    type V = StoredRow;

    open spec fn view(&self) -> StoredRow {
        StoredRow {
            id: self.id as int,
            role: self.role@,
            content: self.content@,
            covers_through_id: match self.covers_through_id {
                Some(b) => Some(b as int),
                None => None,
            },
        }
    }
}

/// The rows of a slice of stored messages.
pub open spec fn rows_of(v: Seq<StoredMessage>) -> Seq<StoredRow> {
    v.map_values(|m: StoredMessage| m@)
}

/// The character views of `(role, content)` pairs.
pub open spec fn pair_views(v: Seq<(String, String)>) -> Seq<(Seq<char>, Seq<char>)> {
    v.map_values(|p: (String, String)| (p.0@, p.1@))
}

/// The `(role, content)` pair of a row.
pub open spec fn row_pair(r: StoredRow) -> (Seq<char>, Seq<char>) {
    (r.role, r.content)
}

/// The pairs of a sequence of rows.
pub open spec fn row_pairs(rows: Seq<StoredRow>) -> Seq<(Seq<char>, Seq<char>)> {
    rows.map_values(|r: StoredRow| row_pair(r))
}

/// A row written by compaction (its content is the summary).
pub open spec fn is_compaction(r: StoredRow) -> bool {
    r.role == "compaction"@
}

/// Index of the last compaction row.
pub open spec fn last_compaction(rows: Seq<StoredRow>) -> Option<int>
    decreases rows.len(),
{
    if rows.len() == 0 {
        None
    } else if is_compaction(rows.last()) {
        Some(rows.len() - 1)
    } else {
        last_compaction(rows.drop_last())
    }
}

/// A message not yet covered: not a compaction row, and past the boundary if there is one.
pub open spec fn row_pending(r: StoredRow, boundary: Option<int>) -> bool {
    !is_compaction(r) && match boundary {
        Some(b) => r.id > b,
        None => true,
    }
}

/// [`row_pending`] as a predicate.
pub open spec fn pending_pred(boundary: Option<int>) -> spec_fn(StoredRow) -> bool {
    |r: StoredRow| row_pending(r, boundary)
}

/// Messages not covered by the latest summary, in stored order. A compaction row
/// with a boundary covers every message up to the boundary; an older row without
/// one covers everything stored before it.
pub open spec fn uncovered(rows: Seq<StoredRow>) -> Seq<StoredRow> {
    match last_compaction(rows) {
        Some(i) => match rows[i].covers_through_id {
            Some(b) => rows.filter(pending_pred(Some(b))),
            None => rows.skip(i + 1).filter(pending_pred(None)),
        },
        None => rows.filter(pending_pred(None)),
    }
}

/// Model-visible history: the latest summary (if any) followed by every message
/// it does not cover.
pub open spec fn effective(rows: Seq<StoredRow>) -> Seq<(Seq<char>, Seq<char>)> {
    let head = match last_compaction(rows) {
        Some(i) => seq![row_pair(rows[i])],
        None => Seq::empty(),
    };
    head + row_pairs(uncovered(rows))
}

/// The body of the latest summary, when it is not empty.
pub open spec fn previous_summary(rows: Seq<StoredRow>) -> Option<Seq<char>> {
    match last_compaction(rows) {
        Some(i) => {
            let body = summary_body(rows[i].content);
            if body.len() == 0 {
                None
            } else {
                Some(body)
            }
        },
        None => None,
    }
}

/// How many uncovered messages the next summary takes: all but the last
/// `tail_keep` (at least one stays).
pub open spec fn plan_end(rows: Seq<StoredRow>, tail_keep: nat) -> int {
    let p = uncovered(rows).len();
    let k = if tail_keep < 1 { 1 } else { tail_keep };
    if p > k {
        p - k
    } else {
        0
    }
}

/// What the next compaction summarizes and where its boundary lands.
pub struct CompactionPlan {
    pub to_summarize: Vec<(String, String)>,
    pub covers_through_id: i64,
    pub previous_summary: Option<String>,
}

fn copy_row(m: &StoredMessage) -> (r: StoredMessage)
    ensures
        r@ == m@,
{
    StoredMessage {
        id: m.id,
        role: m.role.clone(),
        content: m.content.clone(),
        covers_through_id: m.covers_through_id,
    }
}

fn is_compaction_row(m: &StoredMessage) -> (r: bool)
    ensures
        r == is_compaction(m@),
{
    let role = to_chars(m.role.as_str());
    eq_str(&role, "compaction")
}

proof fn lemma_rows_of_push(v: Seq<StoredMessage>, m: StoredMessage)
    ensures
        rows_of(v.push(m)) == rows_of(v).push(m@),
{
    assert(rows_of(v.push(m)) =~= rows_of(v).push(m@));
}

/// Index of the last compaction row.
fn last_compaction_index(rows: &[StoredMessage]) -> (r: Option<usize>)
    ensures
        r matches Some(i) ==> i < rows.len(),
        match r {
            Some(i) => last_compaction(rows_of(rows@)) == Some(i as int),
            None => last_compaction(rows_of(rows@)) is None,
        },
{
    let ghost rs = rows_of(rows@);
    let mut i: usize = rows.len();
    assert(rs.take(i as int) =~= rs);
    while i > 0
        invariant
            i <= rows.len(),
            rs == rows_of(rows@),
            last_compaction(rs) == last_compaction(rs.take(i as int)),
        decreases i,
    {
        let ghost t = rs.take(i as int);
        if is_compaction_row(&rows[i - 1]) {
            assert(t.last() == rows@[i - 1]@);
            return Some(i - 1);
        }
        assert(t.drop_last() =~= rs.take(i - 1));
        i -= 1;
    }
    None
}

/// The rows from `from` on that are pending for `boundary`, in order.
fn pending_rows(rows: &[StoredMessage], from: usize, boundary: Option<i64>) -> (r: Vec<StoredMessage>)
    requires
        from <= rows.len(),
    ensures
        rows_of(r@) == rows_of(rows@).skip(from as int).filter(
            pending_pred(
                match boundary {
                    Some(b) => Some(b as int),
                    None => None,
                },
            ),
        ),
{
    let ghost rs = rows_of(rows@);
    let ghost p = pending_pred(
        match boundary {
            Some(b) => Some(b as int),
            None => None,
        },
    );
    let mut out: Vec<StoredMessage> = Vec::new();
    let mut j: usize = from;
    assert(rs.skip(from as int).take(0) =~= Seq::<StoredRow>::empty());
    assert(rows_of(out@) =~= Seq::<StoredRow>::empty());
    while j < rows.len()
        invariant
            from <= j <= rows.len(),
            rs == rows_of(rows@),
            p == pending_pred(
                match boundary {
                    Some(b) => Some(b as int),
                    None => None,
                },
            ),
            rows_of(out@) == rs.skip(from as int).take(j - from).filter(p),
        decreases rows.len() - j,
    {
        let ghost prefix = rs.skip(from as int).take(j - from);
        assert(rs.skip(from as int).take(j + 1 - from) =~= prefix.push(rs[j as int]));
        proof {
            prefix.lemma_filter_push(rs[j as int], p);
        }
        let m = &rows[j];
        let keep = !is_compaction_row(m) && match boundary {
            Some(b) => m.id > b,
            None => true,
        };
        if keep {
            let c = copy_row(m);
            proof {
                lemma_rows_of_push(out@, c);
            }
            out.push(c);
        }
        j += 1;
    }
    assert(rs.skip(from as int).take(rows.len() - from) =~= rs.skip(from as int));
    out
}

/// Non-compaction rows not yet covered by the latest summary, in stored order.
pub fn uncovered_rows(rows: &[StoredMessage]) -> (r: Vec<StoredMessage>)
    ensures
        rows_of(r@) == uncovered(rows_of(rows@)),
{
    assert(rows_of(rows@).skip(0) =~= rows_of(rows@));
    match last_compaction_index(rows) {
        Some(i) => match rows[i].covers_through_id {
            Some(b) => pending_rows(rows, 0, Some(b)),
            None => pending_rows(rows, i + 1, None),
        },
        None => pending_rows(rows, 0, None),
    }
}

/// `(role, content)` pairs of the rows.
fn to_pairs(rows: &[StoredMessage]) -> (r: Vec<(String, String)>)
    ensures
        pair_views(r@) == row_pairs(rows_of(rows@)),
{
    let mut out: Vec<(String, String)> = Vec::new();
    let mut i: usize = 0;
    while i < rows.len()
        invariant
            i <= rows.len(),
            out@.len() == i,
            pair_views(out@) == row_pairs(rows_of(rows@)).take(i as int),
        decreases rows.len() - i,
    {
        let pair = (rows[i].role.clone(), rows[i].content.clone());
        let ghost before = out@;
        out.push(pair);
        proof {
            let want = row_pairs(rows_of(rows@)).take(i + 1);
            assert(rows_of(rows@)[i as int] == rows@[i as int]@);
            assert forall|k: int| 0 <= k < i + 1 implies pair_views(out@)[k] == want[k] by {
                if k < i {
                    assert(out@[k] == before[k]);
                    assert(pair_views(before)[k] == want[k]);
                }
            }
            assert(pair_views(out@) =~= want);
        }
        i += 1;
    }
    assert(row_pairs(rows_of(rows@)).take(rows.len() as int) =~= row_pairs(rows_of(rows@)));
    out
}

/// Model-visible history: latest compaction summary (if any) followed by every
/// message it does not cover, in id order.
pub fn effective_history(rows: &[StoredMessage]) -> (r: Vec<(String, String)>)
    ensures
        pair_views(r@) == effective(rows_of(rows@)),
{
    let mut out: Vec<(String, String)> = Vec::new();
    let lc = last_compaction_index(rows);
    if let Some(i) = lc {
        out.push((rows[i].role.clone(), rows[i].content.clone()));
    }
    let pending = uncovered_rows(rows);
    let tail = to_pairs(&pending);
    let ghost head = pair_views(out@);
    assert(out@.len() == head.len());
    let mut j: usize = 0;
    while j < tail.len()
        invariant
            j <= tail.len(),
            out@.len() == head.len() + j,
            pair_views(out@) == head + pair_views(tail@).take(j as int),
        decreases tail.len() - j,
    {
        let ghost before = out@;
        out.push((tail[j].0.clone(), tail[j].1.clone()));
        proof {
            let want = head + pair_views(tail@).take(j + 1);
            assert forall|k: int| 0 <= k < out@.len() implies pair_views(out@)[k] == want[k] by {
                if k < before.len() {
                    assert(out@[k] == before[k]);
                    assert(pair_views(before)[k] == (head + pair_views(tail@).take(j as int))[k]);
                }
            }
            assert(pair_views(out@) =~= want);
        }
        j += 1;
    }
    assert(pair_views(tail@).take(tail.len() as int) =~= pair_views(tail@));
    proof {
        let rs = rows_of(rows@);
        match last_compaction(rs) {
            Some(i) => {
                assert(head =~= seq![row_pair(rs[i])]);
            },
            None => {
                assert(head =~= Seq::<(Seq<char>, Seq<char>)>::empty());
            },
        }
    }
    out
}

/// The body of the latest summary, when it is not empty.
pub fn previous_summary_body(rows: &[StoredMessage]) -> (r: Option<String>)
    ensures
        match r {
            Some(s) => previous_summary(rows_of(rows@)) == Some(s@),
            None => previous_summary(rows_of(rows@)) is None,
        },
{
    match last_compaction_index(rows) {
        Some(i) => {
            let body = strip_summary_prefix(rows[i].content.as_str());
            if body.as_str().is_empty() {
                None
            } else {
                Some(body)
            }
        },
        None => None,
    }
}

/// Summarize uncovered rows except the last `tail_keep` (at least 1, so the
/// current user message always stays verbatim). `None` when fewer than 2 rows
/// would be summarized.
pub fn plan_compaction(rows: &[StoredMessage], tail_keep: usize) -> (r: Option<CompactionPlan>)
    ensures
        ({
            let rs = rows_of(rows@);
            let end = plan_end(rs, tail_keep as nat);
            match r {
                None => end < 2,
                Some(p) => {
                    &&& end >= 2
                    &&& end < uncovered(rs).len()
                    &&& pair_views(p.to_summarize@) == row_pairs(uncovered(rs).take(end))
                    &&& p.covers_through_id == uncovered(rs)[end - 1].id
                    &&& match p.previous_summary {
                        Some(s) => previous_summary(rs) == Some(s@),
                        None => previous_summary(rs) is None,
                    }
                },
            }
        }),
{
    let pending = uncovered_rows(rows);
    let keep = if tail_keep < 1 {
        1
    } else {
        tail_keep
    };
    let end = if pending.len() > keep {
        pending.len() - keep
    } else {
        0
    };
    if end < 2 {
        return None;
    }
    let mut head: Vec<StoredMessage> = Vec::new();
    let mut i: usize = 0;
    while i < end
        invariant
            i <= end < pending.len(),
            rows_of(head@) == rows_of(pending@).take(i as int),
        decreases end - i,
    {
        let c = copy_row(&pending[i]);
        proof {
            lemma_rows_of_push(head@, c);
        }
        head.push(c);
        assert(rows_of(pending@).take(i + 1) =~= rows_of(pending@).take(i as int).push(
            pending@[i as int]@,
        ));
        i += 1;
    }
    let to_summarize = to_pairs(&head);
    let covers = pending[end - 1].id;
    assert(rows_of(pending@)[end - 1] == pending@[end - 1]@);
    Some(
        CompactionPlan {
            to_summarize,
            covers_through_id: covers,
            previous_summary: previous_summary_body(rows),
        },
    )
}


proof fn lemma_last_compaction_bounds(rows: Seq<StoredRow>)
    ensures
        last_compaction(rows) matches Some(i) ==> 0 <= i < rows.len() && is_compaction(rows[i]),
    decreases rows.len(),
{
    if rows.len() > 0 && !is_compaction(rows.last()) {
        lemma_last_compaction_bounds(rows.drop_last());
    }
}

/// Stored messages are listed in increasing id order.
pub open spec fn ids_increasing(rows: Seq<StoredRow>) -> bool {
    forall|i: int, j: int| 0 <= i < j < rows.len() ==> rows[i].id < rows[j].id
}

/// `p`, restricted to rows with an id past `b`.
pub open spec fn after_pred(p: spec_fn(StoredRow) -> bool, b: int) -> spec_fn(StoredRow) -> bool {
    |r: StoredRow| p(r) && r.id > b
}

proof fn lemma_filter_none(s: Seq<StoredRow>, p: spec_fn(StoredRow) -> bool)
    requires
        forall|i: int| 0 <= i < s.len() ==> !p(#[trigger] s[i]),
    ensures
        s.filter(p).len() == 0,
{
    if s.filter(p).len() > 0 {
        let y = s.filter(p)[0];
        s.lemma_filter_pred(p, 0);
        assert(s.filter(p).contains(y));
        s.lemma_filter_contains_rev(p, y);
    }
}

proof fn lemma_filter_member(s: Seq<StoredRow>, p: spec_fn(StoredRow) -> bool, k: int)
    requires
        0 <= k < s.filter(p).len(),
    ensures
        exists|j: int| 0 <= j < s.len() && s[j] == s.filter(p)[k],
        p(s.filter(p)[k]),
{
    let y = s.filter(p)[k];
    s.lemma_filter_pred(p, k);
    assert(s.filter(p).contains(y));
    s.lemma_filter_contains_rev(p, y);
}

/// Among rows in id order, the rows of a filter that come after its `e`-th
/// element are the filter's elements past the `e`-th id.
proof fn lemma_filter_after(s: Seq<StoredRow>, p: spec_fn(StoredRow) -> bool, e: int)
    requires
        ids_increasing(s),
        1 <= e <= s.filter(p).len(),
    ensures
        s.filter(after_pred(p, s.filter(p)[e - 1].id)) == s.filter(p).skip(e),
    decreases s.len(),
{
    let f = s.filter(p);
    let b = f[e - 1].id;
    let q = after_pred(p, b);
    let s1 = s.drop_last();
    let x = s.last();
    assert(s1.push(x) =~= s);
    s1.lemma_filter_push(x, p);
    s1.lemma_filter_push(x, q);
    let f1 = s1.filter(p);
    assert(ids_increasing(s1)) by {
        assert forall|i: int, j: int| 0 <= i < j < s1.len() implies s1[i].id < s1[j].id by {
            assert(s1[i] == s[i] && s1[j] == s[j]);
        }
    }
    if p(x) {
        if e == f.len() {
            assert(f[e - 1] == x);
            assert forall|i: int| 0 <= i < s1.len() implies !q(#[trigger] s1[i]) by {
                assert(s1[i] == s[i]);
            }
            lemma_filter_none(s1, q);
            assert(s1.filter(q) =~= f.skip(e));
        } else {
            assert(f[e - 1] == f1[e - 1]);
            lemma_filter_member(s1, p, e - 1);
            let j = choose|j: int| 0 <= j < s1.len() && s1[j] == f1[e - 1];
            assert(s[j].id < s[s.len() - 1].id);
            lemma_filter_after(s1, p, e);
            assert(s1.filter(q).push(x) =~= f.skip(e));
        }
    } else {
        lemma_filter_after(s1, p, e);
        assert(after_pred(p, f1[e - 1].id) == q);
    }
}

proof fn lemma_legacy_after(rows: Seq<StoredRow>, i: int, e: int)
    requires
        ids_increasing(rows),
        0 <= i < rows.len(),
        1 <= e <= rows.skip(i + 1).filter(pending_pred(None)).len(),
    ensures
        rows.filter(pending_pred(Some(rows.skip(i + 1).filter(pending_pred(None))[e - 1].id)))
            == rows.skip(i + 1).filter(pending_pred(None)).skip(e),
{
    let p0 = pending_pred(None);
    let tail = rows.skip(i + 1);
    let head = rows.take(i + 1);
    let b = tail.filter(p0)[e - 1].id;
    let pb = pending_pred(Some(b));
    assert(head + tail =~= rows);
    Seq::filter_distributes_over_add(head, tail, pb);
    assert(ids_increasing(tail)) by {
        assert forall|a: int, z: int| 0 <= a < z < tail.len() implies tail[a].id < tail[z].id by {
            assert(tail[a] == rows[a + i + 1] && tail[z] == rows[z + i + 1]);
        }
    }
    lemma_filter_member(tail, p0, e - 1);
    let j = choose|j: int| 0 <= j < tail.len() && tail[j] == tail.filter(p0)[e - 1];
    assert(tail[j] == rows[j + i + 1]);
    assert forall|k: int| 0 <= k < head.len() implies !pb(#[trigger] head[k]) by {
        assert(head[k] == rows[k]);
        assert(rows[k].id < rows[j + i + 1].id);
    }
    lemma_filter_none(head, pb);
    lemma_filter_after(tail, p0, e);
    assert(pb =~= after_pred(p0, b));
    assert(head.filter(pb) + tail.filter(pb) =~= tail.filter(pb));
}

proof fn lemma_uncovered_after(rows: Seq<StoredRow>, e: int)
    requires
        ids_increasing(rows),
        1 <= e <= uncovered(rows).len(),
    ensures
        rows.filter(pending_pred(Some(uncovered(rows)[e - 1].id))) == uncovered(rows).skip(e),
{
    let b = uncovered(rows)[e - 1].id;
    let pb = pending_pred(Some(b));
    lemma_last_compaction_bounds(rows);
    match last_compaction(rows) {
        None => {
            let p0 = pending_pred(None);
            lemma_filter_after(rows, p0, e);
            assert(pb =~= after_pred(p0, b));
        },
        Some(i) => {
            match rows[i].covers_through_id {
                Some(b0) => {
                    let p1 = pending_pred(Some(b0));
                    rows.lemma_filter_pred(p1, e - 1);
                    lemma_filter_after(rows, p1, e);
                    assert(pb =~= after_pred(p1, b));
                },
                None => {
                    lemma_legacy_after(rows, i, e);
                },
            }
        },
    }
}

/// A new summary covering what the plan summarized leaves exactly the kept
/// tail uncovered, so the model then sees the summary followed by that tail.
pub proof fn lemma_compaction_keeps_tail(rows: Seq<StoredRow>, tail_keep: nat, c: StoredRow)
    requires
        ids_increasing(rows),
        plan_end(rows, tail_keep) >= 2,
        is_compaction(c),
        forall|i: int| 0 <= i < rows.len() ==> #[trigger] rows[i].id < c.id,
        c.covers_through_id == Some(uncovered(rows)[plan_end(rows, tail_keep) - 1].id),
    ensures
        uncovered(rows.push(c)) == uncovered(rows).skip(plan_end(rows, tail_keep)),
        effective(rows.push(c)) == seq![row_pair(c)] + row_pairs(
            uncovered(rows).skip(plan_end(rows, tail_keep)),
        ),
{
    let e = plan_end(rows, tail_keep);
    let b = uncovered(rows)[e - 1].id;
    let rs = rows.push(c);
    assert(rs.drop_last() =~= rows);
    assert(last_compaction(rs) == Some(rows.len() as int));
    assert(rs[rows.len() as int] == c);
    let pb = pending_pred(Some(b));
    rows.lemma_filter_push(c, pb);
    assert(uncovered(rs) == rows.filter(pb));
    lemma_uncovered_after(rows, e);
}

/// The model sees at most one summary: only the head of the effective history
/// is a compaction row.
pub proof fn lemma_effective_single_summary(rows: Seq<StoredRow>)
    ensures
        forall|k: int|
            0 <= k < effective(rows).len() && (#[trigger] effective(rows)[k]).0 == "compaction"@
                ==> k == 0 && last_compaction(rows) is Some,
{
    let u = uncovered(rows);
    let head_len: int = if last_compaction(rows) is Some { 1 } else { 0 };
    assert forall|k: int| 0 <= k < u.len() implies !is_compaction(#[trigger] u[k]) by {
        match last_compaction(rows) {
            Some(i) => match rows[i].covers_through_id {
                Some(b) => rows.lemma_filter_pred(pending_pred(Some(b)), k),
                None => rows.skip(i + 1).lemma_filter_pred(pending_pred(None), k),
            },
            None => rows.lemma_filter_pred(pending_pred(None), k),
        }
    }
    assert forall|k: int|
        0 <= k < effective(rows).len() && (#[trigger] effective(rows)[k]).0 == "compaction"@
            implies k == 0 && last_compaction(rows) is Some by {
        if k >= head_len {
            assert(effective(rows)[k] == row_pairs(u)[k - head_len]);
            assert(row_pairs(u)[k - head_len] == row_pair(u[k - head_len]));
        }
    }
}

/// The prompt after compaction: the system message (or an empty one), the
/// fresh history, then the messages of the current turn (those from `boundary` on).
pub open spec fn rebuilt(
    old_msgs: Seq<MessageView>,
    boundary: nat,
    system_if_empty: MessageView,
    fresh: Seq<MessageView>,
) -> Seq<MessageView> {
    let system = if old_msgs.len() > 0 {
        old_msgs[0]
    } else {
        system_if_empty
    };
    let in_turn = if boundary <= old_msgs.len() {
        old_msgs.skip(boundary as int)
    } else {
        Seq::empty()
    };
    seq![system] + fresh + in_turn
}

/// The empty system message that stands in when there is none.
pub open spec fn empty_system() -> MessageView {
    text_message("system"@, ""@)
}

/// Rebuilds the prompt around refreshed history: keeps the system message and
/// the in-turn tail, and moves the boundary to the start of that tail.
pub fn rebuild_after_compaction(
    messages: &mut Vec<ConversationMessage>,
    history_boundary: &mut usize,
    fresh_history: Vec<ConversationMessage>,
)
    ensures
        message_views(final(messages)@) == rebuilt(
            message_views(old(messages)@),
            *old(history_boundary) as nat,
            empty_system(),
            message_views(fresh_history@),
        ),
        *final(history_boundary) == 1 + fresh_history@.len(),
{
    let ghost old_views = message_views(messages@);
    let system = if messages.len() > 0 {
        messages[0].copy()
    } else {
        ConversationMessage::system("")
    };
    proof {
        if messages@.len() == 0 {
            reveal_strlit("");
            assert(system@ == empty_system());
        } else {
            assert(old_views[0] == messages@[0]@);
        }
    }
    let mut in_turn: Vec<ConversationMessage> = if *history_boundary <= messages.len() {
        messages.split_off(*history_boundary)
    } else {
        Vec::new()
    };
    let mut fresh = fresh_history;
    let ghost fresh_views = message_views(fresh@);
    let ghost tail_views = message_views(in_turn@);
    proof {
        if *history_boundary <= old(messages)@.len() {
            assert(tail_views =~= old_views.skip(*history_boundary as int));
        } else {
            assert(tail_views =~= Seq::<MessageView>::empty());
        }
    }
    messages.clear();
    messages.push(system);
    messages.append(&mut fresh);
    *history_boundary = messages.len();
    messages.append(&mut in_turn);
    assert(message_views(messages@) =~= seq![system@] + fresh_views + tail_views);
}

/// The plan of an automatic compaction: it runs when compression is enabled,
/// the session holds at least six messages, the effective history's token
/// estimate (`tokens`) is over the threshold, and the plan summarizes at least
/// two messages.
pub fn session_compaction_plan(
    rows: &[StoredMessage],
    compression_enabled: bool,
    tokens: u32,
    compact_threshold_tokens: u32,
    keep_recent: usize,
) -> (r: Option<CompactionPlan>)
    ensures
        ({
            let rs = rows_of(rows@);
            let tail_keep = if keep_recent < rows@.len() { keep_recent as nat } else { rows@.len() };
            let due = compression_enabled && rows@.len() >= 6 && tokens > compact_threshold_tokens;
            match r {
                None => !due || plan_end(rs, tail_keep) < 2,
                Some(p) => {
                    let end = plan_end(rs, tail_keep);
                    &&& due && end >= 2
                    &&& pair_views(p.to_summarize@) == row_pairs(uncovered(rs).take(end))
                    &&& p.covers_through_id == uncovered(rs)[end - 1].id
                    &&& match p.previous_summary {
                        Some(s) => previous_summary(rs) == Some(s@),
                        None => previous_summary(rs) is None,
                    }
                },
            }
        }),
{
    if !compression_enabled || rows.len() < 6 || tokens <= compact_threshold_tokens {
        return None;
    }
    let tail_keep = if keep_recent < rows.len() {
        keep_recent
    } else {
        rows.len()
    };
    plan_compaction(rows, tail_keep)
}

/// Why a requested compaction cannot run.
#[derive(Debug, Clone, Copy, PartialEq, Eq, Structural)]
pub enum CompactionRefusal {
    /// Fewer than two stored messages.
    TooFewMessages,
    /// The plan would summarize fewer than two messages.
    NothingToCompact,
}

impl CompactionRefusal {
    /// The error text.
    pub fn message(&self) -> (r: &'static str)
        ensures
            r@ == match self {
                CompactionRefusal::TooFewMessages => "too few messages for compaction"@,
                CompactionRefusal::NothingToCompact => "nothing to compact (history too short)"@,
            },
    {
        match self {
            CompactionRefusal::TooFewMessages => "too few messages for compaction",
            CompactionRefusal::NothingToCompact => "nothing to compact (history too short)",
        }
    }
}

/// The plan of a compaction the user asked for: keeps at least two recent messages.
pub fn forced_compaction_plan(rows: &[StoredMessage], keep_recent: usize) -> (r: Result<CompactionPlan, CompactionRefusal>)
    ensures
        ({
            let rs = rows_of(rows@);
            let t = if keep_recent < rows@.len() { keep_recent as nat } else { rows@.len() };
            let tail_keep = if t < 2 { 2 } else { t };
            match r {
                Err(e) => if rows@.len() < 2 {
                    e == CompactionRefusal::TooFewMessages
                } else {
                    e == CompactionRefusal::NothingToCompact && plan_end(rs, tail_keep) < 2
                },
                Ok(p) => {
                    let end = plan_end(rs, tail_keep);
                    &&& rows@.len() >= 2 && end >= 2
                    &&& pair_views(p.to_summarize@) == row_pairs(uncovered(rs).take(end))
                    &&& p.covers_through_id == uncovered(rs)[end - 1].id
                    &&& match p.previous_summary {
                        Some(s) => previous_summary(rs) == Some(s@),
                        None => previous_summary(rs) is None,
                    }
                },
            }
        }),
{
    if rows.len() < 2 {
        return Err(CompactionRefusal::TooFewMessages);
    }
    let t = if keep_recent < rows.len() {
        keep_recent
    } else {
        rows.len()
    };
    let tail_keep = if t < 2 {
        2
    } else {
        t
    };
    match plan_compaction(rows, tail_keep) {
        Some(p) => Ok(p),
        None => Err(CompactionRefusal::NothingToCompact),
    }
}

/// Whether the prompt must be checked against the context budget before a model call.
pub fn needs_context_guard(compression_enabled: bool, tokens: u32, guard_threshold_tokens: u32) -> (r: bool)
    ensures
        r == (compression_enabled && tokens >= guard_threshold_tokens),
{
    compression_enabled && tokens >= guard_threshold_tokens
}

/// The role a stored row is sent to the model with (a summary goes as a user message).
pub open spec fn api_role(role: Seq<char>) -> Seq<char> {
    if role == "compaction"@ {
        "user"@
    } else {
        role
    }
}

/// Chat messages for stored `(role, content)` pairs.
pub fn history_to_conversation(rows: &[(String, String)]) -> (r: Vec<ConversationMessage>)
    ensures
        r@.len() == rows@.len(),
        forall|i: int|
            0 <= i < rows@.len() ==> {
                &&& (#[trigger] r@[i]).role@ == api_role(rows@[i].0@)
                &&& r@[i].content matches Some(c) && c@ == rows@[i].1@
                &&& r@[i].tool_calls is None
                &&& r@[i].tool_call_id is None
                &&& r@[i].name is None
            },
{
    let mut out: Vec<ConversationMessage> = Vec::new();
    let mut i: usize = 0;
    while i < rows.len()
        invariant
            i <= rows.len(),
            out@.len() == i,
            forall|k: int|
                0 <= k < i ==> {
                    &&& (#[trigger] out@[k]).role@ == api_role(rows@[k].0@)
                    &&& out@[k].content matches Some(c) && c@ == rows@[k].1@
                    &&& out@[k].tool_calls is None
                    &&& out@[k].tool_call_id is None
                    &&& out@[k].name is None
                },
        decreases rows.len() - i,
    {
        let role_chars = to_chars(rows[i].0.as_str());
        let role = if eq_str(&role_chars, "compaction") {
            "user".to_owned()
        } else {
            rows[i].0.clone()
        };
        out.push(
            ConversationMessage {
                role,
                content: Some(rows[i].1.clone()),
                tool_calls: None,
                tool_call_id: None,
                name: None,
            },
        );
        i += 1;
    }
    out
}

/// The stored `compaction` row of a summary: the reference-only prefix, then the summary.
pub fn compaction_row(summary: &str) -> (r: String)
    ensures
        r@ == crate::prompt::SUMMARY_PREFIX@ + summary@,
{
    let mut out = crate::text::to_chars(crate::prompt::SUMMARY_PREFIX);
    crate::text::append_str(&mut out, summary);
    crate::text::from_chars(&out)
}

} // verus!
