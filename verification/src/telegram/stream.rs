//! When a streamed Telegram status message is edited: edits are throttled to
//! the stream interval, each edit is stamped with a generation, and an edit
//! that is no longer the newest, or that arrives after the final answer, is
//! dropped.

use vstd::prelude::*;

use crate::telegram::runtime::stream_interval_ms;

verus! {

/// The edit bookkeeping of one streamed status message.
pub struct StreamGate {
    /// Least time between two progress edits, in milliseconds.
    pub interval_ms: u64,
    /// When the last edit was started, in milliseconds.
    pub last_edit_ms: i64,
    /// Set once the final answer replaces the message.
    pub finalized: bool,
    /// Stamp of the newest edit (bumped by each edit and by finalizing).
    pub generation: u64,
}

impl StreamGate {
    /// A gate for a message created at `now_ms`, as if its last edit were a
    /// minute earlier, with the interval raised to at least 300 ms.
    pub fn new(now_ms: i64, interval_ms: u64) -> (r: Self)
        requires
            now_ms >= i64::MIN + 60_000,
        ensures
            r.interval_ms == (if interval_ms < 300 { 300 } else { interval_ms }),
            r.last_edit_ms == now_ms - 60_000,
            !r.finalized,
            r.generation == 0,
    {
        StreamGate {
            interval_ms: stream_interval_ms(interval_ms),
            last_edit_ms: now_ms - 60_000,
            finalized: false,
            generation: 0,
        }
    }

    /// Whether a progress update at `now_ms` starts an edit: never after the
    /// final answer; a forced update always; otherwise once the interval has
    /// passed since the last edit.
    pub open spec fn edit_due(&self, now_ms: i64, force: bool) -> bool {
        !self.finalized && (force || now_ms - self.last_edit_ms >= self.interval_ms)
    }

    /// A progress update at `now_ms`: the stamp of the edit to send, or `None`
    /// when no edit is due.
    pub fn on_progress(&mut self, now_ms: i64, force: bool) -> (r: Option<u64>)
        requires
            old(self).generation < u64::MAX,
        ensures
            old(self).edit_due(now_ms, force) ==> {
                &&& r == Some((old(self).generation + 1) as u64)
                &&& final(self).generation == old(self).generation + 1
                &&& final(self).last_edit_ms == now_ms
                &&& final(self).finalized == old(self).finalized
                &&& final(self).interval_ms == old(self).interval_ms
            },
            !old(self).edit_due(now_ms, force) ==> r is None && *final(self) == *old(self),
    {
        if self.finalized {
            return None;
        }
        let elapsed: i128 = now_ms as i128 - self.last_edit_ms as i128;
        if !force && elapsed < self.interval_ms as i128 {
            return None;
        }
        self.generation = self.generation + 1;
        self.last_edit_ms = now_ms;
        Some(self.generation)
    }

    /// Whether an edit stamped `stamp` may still be sent.
    pub open spec fn edit_current(&self, stamp: u64) -> bool {
        self.generation == stamp && !self.finalized
    }

    /// Checks an edit before it is sent.
    pub fn may_send(&self, stamp: u64) -> (r: bool)
        ensures
            r == self.edit_current(stamp),
    {
        self.generation == stamp && !self.finalized
    }

    /// The final answer takes over the message: later and pending edits are dropped.
    pub fn finalize(&mut self)
        requires
            old(self).generation < u64::MAX,
        ensures
            final(self).finalized,
            final(self).generation == old(self).generation + 1,
            final(self).last_edit_ms == old(self).last_edit_ms,
            final(self).interval_ms == old(self).interval_ms,
    {
        self.finalized = true;
        self.generation = self.generation + 1;
    }
}

/// Once the final answer is in, no edit is sent, whatever its stamp, and no
/// update starts one.
pub proof fn lemma_no_edit_after_finalize(g: StreamGate, stamp: u64, now_ms: i64, force: bool)
    requires
        g.finalized,
    ensures
        !g.edit_current(stamp),
        !g.edit_due(now_ms, force),
{
}

/// An edit started before a newer one is dropped: only the newest stamp may
/// be sent.
pub proof fn lemma_stale_edit_dropped(before: StreamGate, after: StreamGate, stamp: u64)
    requires
        stamp <= before.generation,
        after.generation > before.generation,
    ensures
        !after.edit_current(stamp),
{
}

} // verus!
