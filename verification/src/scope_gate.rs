//! Bookkeeping of per-scope turns: who runs, who waits, whom a new arrival cancels.
//!
//! Turns with the same scope run one at a time; a *preempting* arrival (a user
//! message) cancels the running turn of its scope and every preempting entry
//! still queued there, so the newest user message wins. A non-preempting
//! arrival (background work) cancels nothing. An entry is counted from its
//! arrival until it is released, and a scope is forgotten as soon as no entry
//! refers to it. The locks and permits that order the turns are held by the
//! caller; this book decides which turns are cancelled.

use vstd::prelude::*;

use crate::text::{chars_eq, to_chars};

verus! {

/// The state of one scope.
pub struct ScopeEntry {
    pub scope: String,
    /// Entries (queued or running) that refer to this scope.
    pub users: usize,
    /// The running entry.
    pub running: Option<u64>,
    /// Queued preempting entries (cancelled by the next preempting arrival).
    pub queued_preemptible: Vec<u64>,
}

/// The mathematical content of a scope's state.
pub struct ScopeView {
    pub scope: Seq<char>,
    pub users: nat,
    pub running: Option<u64>,
    pub queued: Seq<u64>,
}

/// The view of a scope entry.
pub open spec fn entry_view(e: ScopeEntry) -> ScopeView {
    ScopeView { scope: e.scope@, users: e.users as nat, running: e.running, queued: e.queued_preemptible@ }
}

/// Position of `scope` among the entries.
pub open spec fn find_scope(v: Seq<ScopeView>, scope: Seq<char>) -> Option<int>
    decreases v.len(),
{
    if v.len() == 0 {
        None
    } else if v.last().scope == scope {
        Some(v.len() - 1)
    } else {
        find_scope(v.drop_last(), scope)
    }
}

/// The running entry (if any) followed by the queued preempting ones.
pub open spec fn preemptible(e: ScopeView) -> Seq<u64> {
    match e.running {
        Some(r) => seq![r] + e.queued,
        None => e.queued,
    }
}

/// Every id but `id`.
pub open spec fn other_than(id: u64) -> spec_fn(u64) -> bool {
    |x: u64| x != id
}

/// `q` without `id`.
pub open spec fn without(q: Seq<u64>, id: u64) -> Seq<u64> {
    q.filter(other_than(id))
}

/// The book after an arrival `id` on `scope`: counted, and queued when it
/// preempts; an unknown scope starts with it.
pub open spec fn registered(book: Seq<ScopeView>, scope: Seq<char>, preempt: bool, id: u64) -> Seq<ScopeView> {
    match find_scope(book, scope) {
        Some(i) => {
            let e = book[i];
            book.update(i, ScopeView {
                users: (e.users + 1) as nat,
                queued: if preempt { e.queued.push(id) } else { e.queued },
                ..e
            })
        },
        None => book.push(ScopeView {
            scope: scope,
            users: 1,
            running: None,
            queued: if preempt { seq![id] } else { Seq::empty() },
        }),
    }
}

/// The book after entry `id` of `scope` starts running.
pub open spec fn marked_running(book: Seq<ScopeView>, scope: Seq<char>, id: u64) -> Seq<ScopeView> {
    match find_scope(book, scope) {
        Some(i) => book.update(i, ScopeView { running: Some(id), queued: without(book[i].queued, id), ..book[i] }),
        None => book,
    }
}

/// The book after entry `id` of `scope` is released.
pub open spec fn released(book: Seq<ScopeView>, scope: Seq<char>, id: u64) -> Seq<ScopeView> {
    match find_scope(book, scope) {
        Some(i) => {
            let e = book[i];
            if e.users <= 1 {
                book.remove(i)
            } else {
                book.update(i, ScopeView {
                    users: (e.users - 1) as nat,
                    running: if e.running == Some(id) { None } else { e.running },
                    queued: without(e.queued, id),
                    ..e
                })
            }
        },
        None => book,
    }
}

/// The entries of all scopes with entries, and the next id.
struct BookState {
    entries: Vec<ScopeEntry>,
    next_id: u64,
}

impl View for BookState {
    type V = Seq<ScopeView>;

    closed spec fn view(&self) -> Seq<ScopeView> {
        self.entries@.map_values(|e: ScopeEntry| entry_view(e))
    }
}

impl BookState {
    /// Scopes are distinct and each has at least one entry.
    pub open spec fn wf(&self) -> bool {
        &&& forall|i: int, j: int| 0 <= i < j < self@.len() ==> self@[i].scope != self@[j].scope
        &&& forall|i: int| 0 <= i < self@.len() ==> self@[i].users > 0
    }

    /// The id the next arrival gets.
    pub closed spec fn next_id_spec(&self) -> u64 {
        self.next_id
    }

    /// An empty book; ids are handed out from 0.
    pub fn new() -> (r: Self)
        ensures
            r.wf(),
            r@.len() == 0,
            r.next_id_spec() == 0,
    {
        let r = BookState { entries: Vec::new(), next_id: 0 };
        assert(r@ =~= Seq::<ScopeView>::empty());
        r
    }

    proof fn lemma_find(&self, scope: Seq<char>)
        requires
            self.wf(),
        ensures
            match find_scope(self@, scope) {
                Some(i) => 0 <= i < self@.len() && self@[i].scope == scope,
                None => forall|i: int| 0 <= i < self@.len() ==> self@[i].scope != scope,
            },
    {
        lemma_find_scope(self@, scope);
    }

    fn index_of(&self, scope: &str) -> (r: Option<usize>)
        ensures
            match r {
                Some(i) => find_scope(self@, scope@) == Some(i as int) && i < self@.len(),
                None => find_scope(self@, scope@) is None,
            },
    {
        let sc = to_chars(scope);
        let mut i: usize = self.entries.len();
        assert(self@.take(i as int) =~= self@);
        while i > 0
            invariant
                i <= self.entries.len(),
                sc@ == scope@,
                find_scope(self@, scope@) == find_scope(self@.take(i as int), scope@),
            decreases i,
        {
            let ec = to_chars(self.entries[i - 1].scope.as_str());
            assert(self@.take(i as int).last() == entry_view(self.entries@[i - 1]));
            if chars_eq(&ec, &sc) {
                return Some(i - 1);
            }
            assert(self@.take(i as int).drop_last() =~= self@.take(i - 1));
            i -= 1;
        }
        None
    }

    /// Registers an arrival on `scope`: returns its id and the ids it cancels
    /// (for a preempting arrival, the running entry and the queued preempting ones).
    pub fn register(&mut self, scope: &str, preempt: bool) -> (r: (u64, Vec<u64>))
        requires
            old(self).wf(),
            find_scope(old(self)@, scope@) matches Some(i) ==> old(self)@[i].users < usize::MAX,
        ensures
            final(self).wf(),
            r.0 == old(self).next_id_spec(),
            final(self).next_id_spec() == old(self).next_id_spec().wrapping_add(1),
            r.1@ == match find_scope(old(self)@, scope@) {
                Some(i) => if preempt { preemptible(old(self)@[i]) } else { Seq::empty() },
                None => Seq::empty(),
            },
            final(self)@ == registered(old(self)@, scope@, preempt, r.0),
    {
        let id = self.next_id;
        self.next_id = self.next_id.wrapping_add(1);
        proof {
            self.lemma_find(scope@);
        }
        match self.index_of(scope) {
            Some(i) => {
                let ghost before = self@;
                let mut cancelled: Vec<u64> = Vec::new();
                if preempt {
                    match self.entries[i].running {
                        Some(rid) => cancelled.push(rid),
                        None => {},
                    }
                    let mut k: usize = 0;
                    let ghost base = cancelled@;
                    while k < self.entries[i].queued_preemptible.len()
                        invariant
                            i < self.entries.len(),
                            k <= self.entries@[i as int].queued_preemptible@.len(),
                            cancelled@ == base + self.entries@[i as int].queued_preemptible@.take(k as int),
                        decreases self.entries@[i as int].queued_preemptible@.len() - k,
                    {
                        cancelled.push(self.entries[i].queued_preemptible[k]);
                        assert(cancelled@ =~= base + self.entries@[i as int].queued_preemptible@.take(k + 1));
                        k += 1;
                    }
                    assert(self.entries@[i as int].queued_preemptible@.take(k as int)
                        =~= self.entries@[i as int].queued_preemptible@);
                }
                let mut e = self.entries.remove(i);
                e.users = e.users + 1;
                if preempt {
                    e.queued_preemptible.push(id);
                }
                self.entries.insert(i, e);
                assert(self@ =~= before.update(i as int, ScopeView {
                    users: (before[i as int].users + 1) as nat,
                    queued: if preempt { before[i as int].queued.push(id) } else { before[i as int].queued },
                    ..before[i as int]
                }));
                (id, cancelled)
            },
            None => {
                let ghost before = self@;
                let mut q: Vec<u64> = Vec::new();
                if preempt {
                    q.push(id);
                }
                self.entries.push(ScopeEntry { scope: scope.to_owned(), users: 1, running: None, queued_preemptible: q });
                assert(self@ =~= before.push(ScopeView {
                    scope: scope@,
                    users: 1,
                    running: None,
                    queued: if preempt { seq![id] } else { Seq::empty() },
                }));
                (id, Vec::new())
            },
        }
    }
}

fn without_id(q: &Vec<u64>, id: u64) -> (r: Vec<u64>)
    ensures
        r@ == without(q@, id),
{
    let mut out: Vec<u64> = Vec::new();
    let mut k: usize = 0;
    assert(q@.take(0) =~= Seq::<u64>::empty());
    while k < q.len()
        invariant
            k <= q.len(),
            out@ == without(q@.take(k as int), id),
        decreases q.len() - k,
    {
        proof {
            q@.take(k as int).lemma_filter_push(q@[k as int], other_than(id));
            assert(q@.take(k as int).push(q@[k as int]) =~= q@.take(k + 1));
        }
        if q[k] != id {
            out.push(q[k]);
        }
        k += 1;
    }
    assert(q@.take(q.len() as int) =~= q@);
    out
}

impl BookState {
    /// The entry `id` of `scope` starts running: it leaves the queue.
    pub fn mark_running(&mut self, scope: &str, id: u64)
        requires
            old(self).wf(),
        ensures
            final(self).wf(),
            final(self).next_id_spec() == old(self).next_id_spec(),
            final(self)@ == marked_running(old(self)@, scope@, id),
    {
        proof {
            self.lemma_find(scope@);
        }
        match self.index_of(scope) {
            Some(i) => {
                let ghost before = self@;
                let mut e = self.entries.remove(i);
                e.queued_preemptible = without_id(&e.queued_preemptible, id);
                e.running = Some(id);
                self.entries.insert(i, e);
                assert(self@ =~= before.update(i as int, ScopeView {
                    running: Some(id),
                    queued: without(before[i as int].queued, id),
                    ..before[i as int]
                }));
            },
            None => {},
        }
    }

    /// The entry `id` of `scope` is done (finished, or given up while queued): it
    /// no longer counts, and the scope is forgotten when it was the last one.
    pub fn release(&mut self, scope: &str, id: u64)
        requires
            old(self).wf(),
        ensures
            final(self).wf(),
            final(self).next_id_spec() == old(self).next_id_spec(),
            final(self)@ == released(old(self)@, scope@, id),
    {
        proof {
            self.lemma_find(scope@);
        }
        match self.index_of(scope) {
            Some(i) => {
                let ghost before = self@;
                let mut e = self.entries.remove(i);
                assert(self@ =~= before.remove(i as int));
                if e.users <= 1 {
                    return;
                }
                e.users = e.users - 1;
                if e.running == Some(id) {
                    e.running = None;
                }
                e.queued_preemptible = without_id(&e.queued_preemptible, id);
                self.entries.insert(i, e);
                assert(self@ =~= before.update(i as int, ScopeView {
                    users: (before[i as int].users - 1) as nat,
                    running: if before[i as int].running == Some(id) { None } else { before[i as int].running },
                    queued: without(before[i as int].queued, id),
                    ..before[i as int]
                }));
            },
            None => {},
        }
    }

    /// The ids cancelled by interrupting `scope`: its running entry and queued
    /// preempting entries (none for an unknown scope).
    pub fn interrupt(&self, scope: &str) -> (r: Vec<u64>)
        requires
            self.wf(),
        ensures
            r@ == match find_scope(self@, scope@) {
                Some(i) => preemptible(self@[i]),
                None => Seq::empty(),
            },
    {
        proof {
            self.lemma_find(scope@);
        }
        match self.index_of(scope) {
            Some(i) => {
                let mut cancelled: Vec<u64> = Vec::new();
                match self.entries[i].running {
                    Some(rid) => cancelled.push(rid),
                    None => {},
                }
                let ghost base = cancelled@;
                let mut k: usize = 0;
                while k < self.entries[i].queued_preemptible.len()
                    invariant
                        i < self.entries.len(),
                        k <= self.entries@[i as int].queued_preemptible@.len(),
                        cancelled@ == base + self.entries@[i as int].queued_preemptible@.take(k as int),
                    decreases self.entries@[i as int].queued_preemptible@.len() - k,
                {
                    cancelled.push(self.entries[i].queued_preemptible[k]);
                    assert(cancelled@ =~= base + self.entries@[i as int].queued_preemptible@.take(k + 1));
                    k += 1;
                }
                assert(self.entries@[i as int].queued_preemptible@.take(k as int)
                    =~= self.entries@[i as int].queued_preemptible@);
                assert(self@[i as int] == entry_view(self.entries@[i as int]));
                cancelled
            },
            None => Vec::new(),
        }
    }

    /// Whether a turn of `scope` is running or queued.
    pub fn is_busy(&self, scope: &str) -> (r: bool)
        requires
            self.wf(),
        ensures
            r == (find_scope(self@, scope@) is Some),
    {
        self.index_of(scope).is_some()
    }

    /// How many scopes are tracked.
    pub fn tracked_scopes(&self) -> (r: usize)
        ensures
            r == self@.len(),
    {
        self.entries.len()
    }
}

/// The book of all scopes with entries, with the history of calls it has seen.
pub struct ScopeBook {
    state: BookState,
    history: Ghost<Seq<BookEvent>>,
}

impl View for ScopeBook {
    type V = Seq<ScopeView>;

    closed spec fn view(&self) -> Seq<ScopeView> {
        self.state@
    }
}

impl ScopeBook {
    /// The book is what its history of calls made of a new book.
    #[verifier::type_invariant]
    spec fn follows_history(self) -> bool {
        &&& self.state.wf()
        &&& self.state@ == replay(self.history@)
    }

    /// The calls this book has seen, oldest first.
    pub closed spec fn history(&self) -> Seq<BookEvent> {
        self.history@
    }

    /// The id the next arrival gets.
    pub closed spec fn next_id_spec(&self) -> u64 {
        self.state.next_id
    }

    /// Scopes are distinct and each has at least one entry.
    pub open spec fn wf(&self) -> bool {
        book_wf(self@)
    }

    /// An empty book; ids are handed out from 0.
    pub fn new() -> (r: Self)
        ensures
            r.wf(),
            r@.len() == 0,
            r.next_id_spec() == 0,
            r.history().len() == 0,
    {
        let st = BookState::new();
        assert(st@ == replay(Seq::<BookEvent>::empty()));
        ScopeBook { state: st, history: Ghost(Seq::empty()) }
    }

    /// The state and history, leaving a new book in place.
    fn take(&mut self) -> (r: (BookState, Ghost<Seq<BookEvent>>))
        ensures
            r.0.wf(),
            r.0@ == old(self)@,
            r.0@ == replay(r.1@),
            r.1@ == old(self).history(),
            r.0.next_id == old(self).next_id_spec(),
    {
        proof {
            use_type_invariant(&*self);
        }
        let mut other = ScopeBook::new();
        std::mem::swap(self, &mut other);
        proof {
            use_type_invariant(&other);
        }
        let ScopeBook { state, history } = other;
        (state, history)
    }

    /// Registers an arrival on `scope`: returns its id and the ids it cancels
    /// (for a preempting arrival, the running entry and the queued preempting ones).
    pub fn register(&mut self, scope: &str, preempt: bool) -> (r: (u64, Vec<u64>))
        requires
            users_of(old(self)@, scope@) < usize::MAX,
        ensures
            final(self).wf(),
            r.0 == old(self).next_id_spec(),
            final(self).next_id_spec() == old(self).next_id_spec().wrapping_add(1),
            r.1@ == match find_scope(old(self)@, scope@) {
                Some(i) => if preempt { preemptible(old(self)@[i]) } else { Seq::empty() },
                None => Seq::empty(),
            },
            final(self)@ == registered(old(self)@, scope@, preempt, r.0),
            final(self).history() == old(self).history().push(BookEvent::Register(scope@, preempt, r.0)),
    {
        let (mut st, Ghost(h)) = self.take();
        proof {
            lemma_find_scope(st@, scope@);
        }
        let r = st.register(scope, preempt);
        let ghost h2 = h.push(BookEvent::Register(scope@, preempt, r.0));
        assert(h2.drop_last() =~= h);
        *self = ScopeBook { state: st, history: Ghost(h2) };
        r
    }

    /// The entry `id` of `scope` starts running: it leaves the queue.
    pub fn mark_running(&mut self, scope: &str, id: u64)
        ensures
            final(self).wf(),
            final(self).next_id_spec() == old(self).next_id_spec(),
            final(self)@ == marked_running(old(self)@, scope@, id),
            final(self).history() == old(self).history().push(BookEvent::Run(scope@, id)),
    {
        let (mut st, Ghost(h)) = self.take();
        st.mark_running(scope, id);
        let ghost h2 = h.push(BookEvent::Run(scope@, id));
        assert(h2.drop_last() =~= h);
        *self = ScopeBook { state: st, history: Ghost(h2) };
    }

    /// The entry `id` of `scope` is done (finished, or given up while queued): it
    /// no longer counts, and the scope is forgotten when it was the last one.
    pub fn release(&mut self, scope: &str, id: u64)
        ensures
            final(self).wf(),
            final(self).next_id_spec() == old(self).next_id_spec(),
            final(self)@ == released(old(self)@, scope@, id),
            final(self).history() == old(self).history().push(BookEvent::Release(scope@, id)),
    {
        let (mut st, Ghost(h)) = self.take();
        st.release(scope, id);
        let ghost h2 = h.push(BookEvent::Release(scope@, id));
        assert(h2.drop_last() =~= h);
        *self = ScopeBook { state: st, history: Ghost(h2) };
    }

    /// The ids cancelled by interrupting `scope`: its running entry and queued
    /// preempting entries (none for an unknown scope).
    pub fn interrupt(&self, scope: &str) -> (r: Vec<u64>)
        ensures
            r@ == match find_scope(self@, scope@) {
                Some(i) => preemptible(self@[i]),
                None => Seq::empty(),
            },
    {
        proof {
            use_type_invariant(self);
        }
        self.state.interrupt(scope)
    }

    /// Whether a turn of `scope` is running or queued: exactly while some entry
    /// of the scope registered with this book is not released yet.
    pub fn is_busy(&self, scope: &str) -> (r: bool)
        ensures
            r == (find_scope(self@, scope@) is Some),
            r == (outstanding(self.history(), scope@) > 0),
            r == (users_of(self@, scope@) > 0),
    {
        proof {
            use_type_invariant(self);
            lemma_busy_while_outstanding(self.history@, scope@);
        }
        self.state.is_busy(scope)
    }

    /// How many entries of `scope` are registered and not released.
    pub fn users(&self, scope: &str) -> (r: usize)
        ensures
            r == users_of(self@, scope@),
            r == outstanding(self.history(), scope@),
    {
        proof {
            use_type_invariant(self);
            lemma_busy_while_outstanding(self.history@, scope@);
            self.state.lemma_find(scope@);
        }
        match self.state.index_of(scope) {
            Some(i) => self.state.entries[i].users,
            None => 0,
        }
    }

    /// How many scopes are tracked.
    pub fn tracked_scopes(&self) -> (r: usize)
        ensures
            r == self@.len(),
    {
        self.state.tracked_scopes()
    }
}

/// An arrival makes its scope busy until it is released; releasing the only
/// entry of a scope forgets the scope.
pub proof fn lemma_last_release_forgets(book: Seq<ScopeView>, after: Seq<ScopeView>, scope: Seq<char>)
    requires
        find_scope(book, scope) matches Some(i) && book[i].users <= 1 && after == book.remove(i),
        forall|i: int, j: int| 0 <= i < j < book.len() ==> book[i].scope != book[j].scope,
    ensures
        find_scope(after, scope) is None,
{
    lemma_find_scope(book, scope);
    lemma_find_scope(after, scope);
    let i = find_scope(book, scope)->Some_0;
    if find_scope(after, scope) is Some {
        let j = find_scope(after, scope)->Some_0;
        if j < i {
            assert(after[j] == book[j]);
        } else {
            assert(after[j] == book[j + 1]);
        }
    }
}

proof fn lemma_find_scope(v: Seq<ScopeView>, scope: Seq<char>)
    ensures
        match find_scope(v, scope) {
            Some(i) => 0 <= i < v.len() && v[i].scope == scope,
            None => forall|i: int| 0 <= i < v.len() ==> v[i].scope != scope,
        },
    decreases v.len(),
{
    if v.len() > 0 && v.last().scope != scope {
        lemma_find_scope(v.drop_last(), scope);
        if find_scope(v.drop_last(), scope) is None {
            assert forall|i: int| 0 <= i < v.len() implies v[i].scope != scope by {
                if i < v.len() - 1 {
                    assert(v[i] == v.drop_last()[i]);
                }
            }
        }
    }
}

/// One call on the book.
pub enum BookEvent {
    /// `register(scope, preempt)` handed out `id`.
    Register(Seq<char>, bool, u64),
    /// `mark_running(scope, id)`.
    Run(Seq<char>, u64),
    /// `release(scope, id)`.
    Release(Seq<char>, u64),
}

/// The book after one call.
pub open spec fn apply_event(book: Seq<ScopeView>, e: BookEvent) -> Seq<ScopeView> {
    match e {
        BookEvent::Register(s, p, id) => registered(book, s, p, id),
        BookEvent::Run(s, id) => marked_running(book, s, id),
        BookEvent::Release(s, id) => released(book, s, id),
    }
}

/// The book after a history of calls on a new book.
pub open spec fn replay(events: Seq<BookEvent>) -> Seq<ScopeView>
    decreases events.len(),
{
    if events.len() == 0 {
        Seq::empty()
    } else {
        apply_event(replay(events.drop_last()), events.last())
    }
}

/// Entries of `scope` that arrived and are not released yet (a release with
/// none outstanding releases nothing).
pub open spec fn outstanding(events: Seq<BookEvent>, scope: Seq<char>) -> nat
    decreases events.len(),
{
    if events.len() == 0 {
        0
    } else {
        let p = outstanding(events.drop_last(), scope);
        match events.last() {
            BookEvent::Register(s, _, _) => if s == scope { p + 1 } else { p },
            BookEvent::Release(s, _) => if s == scope && p > 0 { (p - 1) as nat } else { p },
            BookEvent::Run(_, _) => p,
        }
    }
}

/// How many entries the book counts for `scope`.
pub open spec fn users_of(book: Seq<ScopeView>, scope: Seq<char>) -> nat {
    match find_scope(book, scope) {
        Some(i) => book[i].users,
        None => 0,
    }
}

/// Distinct scopes, each with at least one entry.
pub open spec fn book_wf(book: Seq<ScopeView>) -> bool {
    &&& forall|i: int, j: int| 0 <= i < j < book.len() ==> book[i].scope != book[j].scope
    &&& forall|i: int| 0 <= i < book.len() ==> book[i].users > 0
}

proof fn lemma_users_at(v: Seq<ScopeView>, s: Seq<char>)
    requires
        book_wf(v),
    ensures
        forall|j: int| 0 <= j < v.len() && v[j].scope == s ==> users_of(v, s) == v[j].users,
        (forall|j: int| 0 <= j < v.len() ==> v[j].scope != s) ==> users_of(v, s) == 0,
        (find_scope(v, s) is Some) == (users_of(v, s) > 0),
{
    lemma_find_scope(v, s);
    assert forall|j: int| 0 <= j < v.len() && v[j].scope == s implies users_of(v, s) == v[j].users by {
        if let Some(i) = find_scope(v, s) {
            if i < j {
                assert(v[i].scope != v[j].scope);
            } else if j < i {
                assert(v[j].scope != v[i].scope);
            }
        }
    }
}

proof fn lemma_event_step(b: Seq<ScopeView>, e: BookEvent)
    requires
        book_wf(b),
    ensures
        book_wf(apply_event(b, e)),
        forall|s: Seq<char>| #[trigger] users_of(apply_event(b, e), s) == match e {
            BookEvent::Register(sc, _, _) => if sc == s { users_of(b, s) + 1 } else { users_of(b, s) },
            BookEvent::Release(sc, _) => if sc == s && users_of(b, s) > 0 {
                (users_of(b, s) - 1) as nat
            } else {
                users_of(b, s)
            },
            BookEvent::Run(_, _) => users_of(b, s),
        },
{
    let a = apply_event(b, e);
    let sc = match e {
        BookEvent::Register(x, _, _) => x,
        BookEvent::Run(x, _) => x,
        BookEvent::Release(x, _) => x,
    };
    lemma_find_scope(b, sc);
    let f = find_scope(b, sc);
    // The scopes of `a`, index by index.
    if f is Some && !(e is Release && b[f->Some_0].users <= 1) {
        let i = f->Some_0;
        assert(a.len() == b.len());
        assert forall|j: int| 0 <= j < a.len() implies #[trigger] a[j].scope == b[j].scope && (j != i
            ==> a[j] == b[j]) by {}
    } else if f is Some {
        let i = f->Some_0;
        assert(a == b.remove(i));
        assert forall|j: int| 0 <= j < a.len() implies #[trigger] a[j] == (if j < i { b[j] } else {
            b[j + 1]
        }) by {}
    } else if e is Register {
        assert forall|j: int| 0 <= j < b.len() implies #[trigger] a[j] == b[j] by {}
        assert(a[b.len() as int].scope == sc);
    } else {
        assert(a == b);
    }
    assert(book_wf(a));
    lemma_users_at(b, sc);
    assert forall|s: Seq<char>| #[trigger] users_of(a, s) == match e {
        BookEvent::Register(x, _, _) => if x == s { users_of(b, s) + 1 } else { users_of(b, s) },
        BookEvent::Release(x, _) => if x == s && users_of(b, s) > 0 {
            (users_of(b, s) - 1) as nat
        } else {
            users_of(b, s)
        },
        BookEvent::Run(_, _) => users_of(b, s),
    } by {
        lemma_users_at(b, s);
        lemma_users_at(a, s);
        lemma_find_scope(b, s);
        lemma_find_scope(a, s);
        if let Some(k) = find_scope(a, s) {
            if f is Some && !(e is Release && b[f->Some_0].users <= 1) {
                assert(a[k].scope == b[k].scope);
            } else if f is Some {
                let i = f->Some_0;
                if k < i {
                    assert(a[k] == b[k]);
                } else {
                    assert(a[k] == b[k + 1]);
                }
            } else if e is Register {
                if k < b.len() {
                    assert(a[k] == b[k]);
                }
            }
        }
        if let Some(k) = find_scope(b, s) {
            if f is Some && !(e is Release && b[f->Some_0].users <= 1) {
                assert(a[k].scope == b[k].scope);
            } else if f is Some {
                let i = f->Some_0;
                if k < i {
                    assert(a[k] == b[k]);
                } else if k > i {
                    assert(a[k - 1] == b[k]);
                }
            } else if e is Register {
                assert(a[k] == b[k]);
            }
        }
    }
}

/// Over any history of calls on a new book, a scope's count is the number of
/// its entries that arrived and were not released, and the scope is tracked
/// (busy) exactly while that number is positive; once every entry of a scope
/// is released it is forgotten.
pub proof fn lemma_busy_while_outstanding(events: Seq<BookEvent>, scope: Seq<char>)
    ensures
        book_wf(replay(events)),
        users_of(replay(events), scope) == outstanding(events, scope),
        (find_scope(replay(events), scope) is Some) == (outstanding(events, scope) > 0),
    decreases events.len(),
{
    if events.len() > 0 {
        lemma_busy_while_outstanding(events.drop_last(), scope);
        lemma_event_step(replay(events.drop_last()), events.last());
        assert(users_of(replay(events), scope) == users_of(
            apply_event(replay(events.drop_last()), events.last()),
            scope,
        ));
    }
    lemma_users_at(replay(events), scope);
}

/// Every queued entry of the book arrived as a preempting one.
pub open spec fn queued_from_preempting(book: Seq<ScopeView>, events: Seq<BookEvent>) -> bool {
    forall|i: int, k: int|
        0 <= i < book.len() && 0 <= k < book[i].queued.len() ==> events.contains(
            BookEvent::Register(book[i].scope, true, #[trigger] book[i].queued[k]),
        )
}

proof fn lemma_queue_in(q: Seq<u64>, k: int, id: u64) -> (j: int)
    requires
        0 <= k < without(q, id).len(),
    ensures
        0 <= j < q.len(),
        q[j] == without(q, id)[k],
{
    let x = without(q, id)[k];
    assert(without(q, id).contains(x));
    q.lemma_filter_contains_rev(other_than(id), x);
    choose|j: int| 0 <= j < q.len() && q[j] == x
}

/// Who a new arrival can cancel: over any history of calls on a new book, the
/// queue of a scope holds only preempting arrivals, so a preempting arrival
/// (or an interrupt) cancels the running entry and queued preempting entries,
/// and never an entry that arrived without preempting before it runs.
pub proof fn lemma_queue_holds_preempting(events: Seq<BookEvent>)
    ensures
        queued_from_preempting(replay(events), events),
    decreases events.len(),
{
    if events.len() > 0 {
        let prev = events.drop_last();
        let e = events.last();
        lemma_queue_holds_preempting(prev);
        lemma_busy_while_outstanding(prev, Seq::empty());
        let b = replay(prev);
        let a = replay(events);
        assert(a == apply_event(b, e));
        assert forall|x: BookEvent| prev.contains(x) implies events.contains(x) by {
            let j = choose|j: int| 0 <= j < prev.len() && prev[j] == x;
            assert(events[j] == x);
        }
        assert(events[events.len() - 1] == e);
        let sc = match e {
            BookEvent::Register(x, _, _) => x,
            BookEvent::Run(x, _) => x,
            BookEvent::Release(x, _) => x,
        };
        lemma_find_scope(b, sc);
        let f = find_scope(b, sc);
        assert forall|i: int, k: int| 0 <= i < a.len() && 0 <= k < a[i].queued.len() implies events.contains(
            BookEvent::Register(a[i].scope, true, #[trigger] a[i].queued[k]),
        ) by {
            let x = a[i].queued[k];
            if f is Some {
                let fi = f->Some_0;
                if e is Release && b[fi].users <= 1 {
                    let j = if i < fi { i } else { i + 1 };
                    assert(a[i] == b[j]);
                    assert(prev.contains(BookEvent::Register(b[j].scope, true, b[j].queued[k])));
                } else if i != fi {
                    assert(a[i] == b[i]);
                    assert(prev.contains(BookEvent::Register(b[i].scope, true, b[i].queued[k])));
                } else {
                    match e {
                        BookEvent::Register(_, p, id) => {
                            if p && k == b[i].queued.len() {
                                assert(x == id);
                            } else {
                                assert(x == b[i].queued[k]);
                                assert(prev.contains(BookEvent::Register(b[i].scope, true, b[i].queued[k])));
                            }
                        },
                        BookEvent::Run(_, id) => {
                            let j = lemma_queue_in(b[i].queued, k, id);
                            assert(prev.contains(BookEvent::Register(b[i].scope, true, b[i].queued[j])));
                        },
                        BookEvent::Release(_, id) => {
                            let j = lemma_queue_in(b[i].queued, k, id);
                            assert(prev.contains(BookEvent::Register(b[i].scope, true, b[i].queued[j])));
                        },
                    }
                }
            } else {
                if i < b.len() {
                    assert(a[i] == b[i]);
                    assert(prev.contains(BookEvent::Register(b[i].scope, true, b[i].queued[k])));
                } else {
                    match e {
                        BookEvent::Register(_, p, id) => {
                            assert(p && x == id);
                        },
                        _ => {},
                    }
                }
            }
        }
    }
}

} // verus!
