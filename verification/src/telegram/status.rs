//! User-visible activity text while the agent runs (Telegram message edits).

use vstd::prelude::*;

use crate::progress::{rendered, rendered_truncated, ActivityLog};
use crate::text::{append_slice, append_str, from_chars, to_chars, trim, trim_chars};

verus! {

/// Title block at the top of every in-progress message.
pub const HEADER: &'static str = "BobaClaw\n────────";

/// Placeholder body shown before anything happened.
pub const WORKING: &'static str = "Working…";

/// Telegram message body limit minus header and formatting slack.
pub const STREAM_BODY_BUDGET: usize = 3900;

/// The in-progress message for an activity text.
pub open spec fn stream_text(activity: Seq<char>) -> Seq<char> {
    let body = trim(activity);
    if body.len() == 0 {
        HEADER@ + "\n"@ + WORKING@
    } else {
        HEADER@ + "\n"@ + body
    }
}

/// Full plain-text body for an in-progress Telegram message.
pub fn stream_message(activity: &str) -> (r: String)
    ensures
        r@ == stream_text(activity@),
{
    let a = to_chars(activity);
    let body = trim_chars(&a);
    let mut out: Vec<char> = Vec::new();
    append_str(&mut out, HEADER);
    append_str(&mut out, "\n");
    if body.len() == 0 {
        append_str(&mut out, WORKING);
    } else {
        append_slice(&mut out, &body);
    }
    assert(out@ =~= stream_text(activity@));
    from_chars(&out)
}

/// The activity text shown before the first event.
pub fn initial_activity() -> (r: &'static str)
    ensures
        r@ == WORKING@,
{
    WORKING
}

/// The activity log as shown in the message body, cut to the body budget.
pub fn render_activity_log(log: &ActivityLog) -> (r: String)
    requires
        rendered(log@).len() <= usize::MAX / 4,
    ensures
        r@ == rendered_truncated(log@, STREAM_BODY_BUDGET as nat),
{
    log.render_truncated(STREAM_BODY_BUDGET)
}

} // verus!
