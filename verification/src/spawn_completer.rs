//! What happens when a background subagent finishes: the job's final status,
//! what is delivered to the session, and whether the parent agent is woken.

use vstd::prelude::*;

use crate::channel::ChannelPeer;
use crate::subagent::SubagentRunResult;
use crate::text::{append_str, ellipsize, ellipsize_str, eq_str, from_chars, to_chars};

verus! {

/// The final record of a background job.
pub struct JobCompletion {
    pub status: &'static str,
    pub exit_code: Option<i32>,
    pub preview: Option<String>,
    pub body: Option<String>,
    /// Whether the result is appended to the parent session.
    pub deliver_result: bool,
}

/// Status of a finished run by exit code.
pub fn status_label(exit_code: i32) -> (r: &'static str)
    ensures
        r@ == (if exit_code == 0 { "completed"@ } else { "failed"@ }),
{
    if exit_code == 0 {
        "completed"
    } else {
        "failed"
    }
}

/// The final record of a job: cancelled with the parent turn; or the run's
/// status, previews and body (delivered only on success); or failed with the error.
pub fn job_completion(
    result: &Result<SubagentRunResult, String>,
    cancelled: bool,
    result_persist_chars: usize,
) -> (r: JobCompletion)
    ensures
        cancelled ==> {
            &&& r.status@ == "cancelled"@
            &&& r.exit_code is None
            &&& r.preview matches Some(p) && p@ == "cancelled with parent turn"@
            &&& r.body is None
            &&& !r.deliver_result
        },
        !cancelled ==> match result {
            Ok(res) => {
                &&& r.status@ == (if res.exit_code == 0 { "completed"@ } else { "failed"@ })
                &&& r.exit_code == Some(res.exit_code)
                &&& r.preview matches Some(p) && p@ == ellipsize(res.body@, 200)
                &&& r.body matches Some(b) && b@ == ellipsize(res.body@, result_persist_chars as nat)
                &&& r.deliver_result == (res.exit_code == 0)
            },
            Err(e) => {
                &&& r.status@ == "failed"@
                &&& r.exit_code is None
                &&& r.preview matches Some(p) && p@ == ellipsize(e@, 200)
                &&& r.body is None
                &&& !r.deliver_result
            },
        },
{
    if cancelled {
        return JobCompletion {
            status: "cancelled",
            exit_code: None,
            preview: Some("cancelled with parent turn".to_owned()),
            body: None,
            deliver_result: false,
        };
    }
    match result {
        Ok(res) => JobCompletion {
            status: status_label(res.exit_code),
            exit_code: Some(res.exit_code),
            preview: Some(ellipsize_str(res.body.as_str(), 200)),
            body: Some(ellipsize_str(res.body.as_str(), result_persist_chars)),
            deliver_result: res.exit_code == 0,
        },
        Err(e) => JobCompletion {
            status: "failed",
            exit_code: None,
            preview: Some(ellipsize_str(e.as_str(), 200)),
            body: None,
            deliver_result: false,
        },
    }
}

/// The status, exit code and preview a job is finalized with when no completer
/// is installed (a cancelled job is then left as it is).
pub fn fallback_completion(result: &Result<SubagentRunResult, String>) -> (r: (&'static str, Option<i32>, String))
    ensures
        match result {
            Ok(res) => {
                &&& r.0@ == (if res.exit_code == 0 { "completed"@ } else { "failed"@ })
                &&& r.1 == Some(res.exit_code)
                &&& r.2@ == ellipsize(res.body@, 200)
            },
            Err(e) => r.0@ == "failed"@ && r.1 is None && r.2@ == ellipsize(e@, 200),
        },
{
    match result {
        Ok(res) => (status_label(res.exit_code), Some(res.exit_code), ellipsize_str(res.body.as_str(), 200)),
        Err(e) => ("failed", None, ellipsize_str(e.as_str(), 200)),
    }
}

/// The assistant message that hands a successful result to the parent session.
pub fn result_delivery_message(label: Option<&str>, job_id: &str, body: &str) -> (r: String)
    ensures
        r@ == "[Subagent `"@ + (match label {
            Some(l) => l@,
            None => job_id@,
        }) + "` completed]\n\n"@ + body@,
{
    let mut out = to_chars("[Subagent `");
    match label {
        Some(l) => append_str(&mut out, l),
        None => append_str(&mut out, job_id),
    }
    append_str(&mut out, "` completed]\n\n");
    append_str(&mut out, body);
    from_chars(&out)
}

/// The summary sent with a completion notice: the preview, else the status.
pub fn notification_summary(c: &JobCompletion) -> (r: &str)
    ensures
        r@ == match c.preview {
            Some(p) => p@,
            None => c.status@,
        },
{
    match &c.preview {
        Some(p) => p.as_str(),
        None => c.status,
    }
}

/// A completion notice is sent when enabled and not sent before.
pub fn should_notify(notify_on_complete: bool, already_notified: bool) -> (r: bool)
    ensures
        r == (notify_on_complete && !already_notified),
{
    notify_on_complete && !already_notified
}

/// The parent is woken for a job that asked for it, when waking is enabled, on
/// success, or on failure when that is enabled too.
pub fn should_wake(wake_parent: bool, wake_parent_on_complete: bool, wake_on_failure: bool, status: &str) -> (r: bool)
    ensures
        r == (wake_parent && wake_parent_on_complete && (status@ == "completed"@ || (wake_on_failure
            && status@ == "failed"@))),
{
    let s = to_chars(status);
    wake_parent && wake_parent_on_complete && (eq_str(&s, "completed") || (wake_on_failure && eq_str(
        &s,
        "failed",
    )))
}

/// The dispatcher scope of a session.
pub fn session_scope(session_id: &str) -> (r: String)
    ensures
        r@ == "session:"@ + session_id@,
{
    let mut out = to_chars("session:");
    append_str(&mut out, session_id);
    from_chars(&out)
}

/// Whether the session has used up its wakes for the hour (the count is taken as `u32`).
pub fn wake_rate_limited(recent_wakes: i64, max_per_hour: u32) -> (r: bool)
    ensures
        r == (recent_wakes as u32 >= max_per_hour),
{
    recent_wakes as u32 >= max_per_hour
}

/// The user message of a wake turn.
pub fn wake_message(label: Option<&str>, job_id: &str, preview: Option<&str>) -> (r: String)
    ensures
        r@ == "[Background subagent `"@ + (match label {
            Some(l) => l@,
            None => job_id@,
        }) + "` ("@ + job_id@ + ") completed]\n\n"@ + (match preview {
            Some(p) => p@,
            None => "(no preview)"@,
        })
            + "\n\nIntegrate this result for the user. Do not spawn another background agent unless clearly needed."@,
{
    let mut out = to_chars("[Background subagent `");
    match label {
        Some(l) => append_str(&mut out, l),
        None => append_str(&mut out, job_id),
    }
    append_str(&mut out, "` (");
    append_str(&mut out, job_id);
    append_str(&mut out, ") completed]\n\n");
    match preview {
        Some(p) => append_str(&mut out, p),
        None => append_str(&mut out, "(no preview)"),
    }
    append_str(
        &mut out,
        "\n\nIntegrate this result for the user. Do not spawn another background agent unless clearly needed.",
    );
    from_chars(&out)
}

/// The chat a wake reply goes to: only Telegram peers (the channel defaults to Telegram).
pub fn build_channel_peer(
    deliver_peer: Option<&str>,
    deliver_channel: Option<&str>,
    deliver_thread_id: Option<&str>,
) -> (r: Option<ChannelPeer>)
    ensures
        match r {
            Some(p) => {
                &&& deliver_peer matches Some(peer) && p.peer@ == peer@
                &&& (deliver_channel matches Some(c) ==> c@ == "telegram"@)
                &&& p.channel@ == "telegram"@
                &&& match deliver_thread_id {
                    Some(t) => p.thread_id matches Some(pt) && pt@ == t@,
                    None => p.thread_id is None,
                }
            },
            None => deliver_peer is None || (deliver_channel matches Some(c) && c@ != "telegram"@),
        },
{
    let peer = match deliver_peer {
        Some(p) => p,
        None => return None,
    };
    match deliver_channel {
        Some(c) => {
            let cc = to_chars(c);
            if !eq_str(&cc, "telegram") {
                return None;
            }
        },
        None => {},
    }
    Some(ChannelPeer {
        channel: "telegram".to_owned(),
        peer: peer.to_owned(),
        thread_id: match deliver_thread_id {
            Some(t) => Some(t.to_owned()),
            None => None,
        },
    })
}

/// What the completion of a job calls for, once its record is final.
pub struct CompletionPlan {
    /// Append the result to the parent session.
    pub deliver: bool,
    /// Send a completion notice on the job's channel.
    pub notify: bool,
    /// Wake the parent agent, unless its session is busy or over its rate.
    pub wake: bool,
    /// Wakes allowed per session and hour.
    pub max_per_hour: u32,
}

/// What the completion handler did last, or saw.
pub enum CompletionEvent {
    /// The job's record was finalized.
    Finalized,
    /// The result was appended to the session.
    Delivered,
    /// The completion notice was attempted.
    Notified,
    /// Whether the parent session's scope is busy.
    Busy(bool),
    /// How many wakes the session had in the last hour.
    RecentWakes(i64),
}

/// What the completion handler does next.
#[derive(Debug, Clone, Copy, PartialEq, Eq, Structural)]
pub enum CompletionAction {
    AppendDelivery,
    Notify,
    CheckBusy,
    CountRecentWakes,
    Wake,
    Done,
}

/// The plan of a completion: deliver on success; notify when enabled, not
/// notified before, and the job names a channel that has a delivery; wake as
/// [`should_wake`] says.
pub fn completion_plan(
    c: &JobCompletion,
    notify_on_complete: bool,
    already_notified: bool,
    has_delivery_channel: bool,
    wake_parent: bool,
    wake_parent_on_complete: bool,
    wake_on_failure: bool,
    max_per_hour: u32,
) -> (r: CompletionPlan)
    ensures
        r.deliver == c.deliver_result,
        r.notify == (notify_on_complete && !already_notified && has_delivery_channel),
        r.wake == (wake_parent && wake_parent_on_complete && (c.status@ == "completed"@ || (wake_on_failure
            && c.status@ == "failed"@))),
        r.max_per_hour == max_per_hour,
{
    CompletionPlan {
        deliver: c.deliver_result,
        notify: should_notify(notify_on_complete, already_notified) && has_delivery_channel,
        wake: should_wake(wake_parent, wake_parent_on_complete, wake_on_failure, c.status),
        max_per_hour,
    }
}

/// The wake checks, in order: a busy session is not woken, then one over its
/// hourly rate is not.
pub open spec fn wake_check(plan: CompletionPlan) -> CompletionAction {
    if plan.wake { CompletionAction::CheckBusy } else { CompletionAction::Done }
}

/// The next step of a completion after `e`: deliver, then notify, then the
/// wake checks, then the wake.
pub open spec fn next_completion(plan: CompletionPlan, e: CompletionEvent) -> CompletionAction {
    match e {
        CompletionEvent::Finalized => if plan.deliver {
            CompletionAction::AppendDelivery
        } else if plan.notify {
            CompletionAction::Notify
        } else {
            wake_check(plan)
        },
        CompletionEvent::Delivered => if plan.notify { CompletionAction::Notify } else { wake_check(plan) },
        CompletionEvent::Notified => wake_check(plan),
        CompletionEvent::Busy(busy) => if plan.wake && !busy {
            CompletionAction::CountRecentWakes
        } else {
            CompletionAction::Done
        },
        CompletionEvent::RecentWakes(n) => if plan.wake && (n as u32) < plan.max_per_hour {
            CompletionAction::Wake
        } else {
            CompletionAction::Done
        },
    }
}

/// Decides the next step of a completion.
pub fn next_completion_action(plan: &CompletionPlan, e: &CompletionEvent) -> (r: CompletionAction)
    ensures
        r == next_completion(*plan, *e),
{
    let check = if plan.wake { CompletionAction::CheckBusy } else { CompletionAction::Done };
    match e {
        CompletionEvent::Finalized => if plan.deliver {
            CompletionAction::AppendDelivery
        } else if plan.notify {
            CompletionAction::Notify
        } else {
            check
        },
        CompletionEvent::Delivered => if plan.notify { CompletionAction::Notify } else { check },
        CompletionEvent::Notified => check,
        CompletionEvent::Busy(busy) => if plan.wake && !*busy {
            CompletionAction::CountRecentWakes
        } else {
            CompletionAction::Done
        },
        CompletionEvent::RecentWakes(n) => if plan.wake && !wake_rate_limited(*n, plan.max_per_hour) {
            CompletionAction::Wake
        } else {
            CompletionAction::Done
        },
    }
}

/// The parent is woken only when the plan asks for it, right after a count of
/// recent wakes under the hourly rate, and that count is asked for only after
/// the session was seen idle.
pub proof fn lemma_wake_only_when_idle_and_under_rate(plan: CompletionPlan, e: CompletionEvent)
    ensures
        next_completion(plan, e) == CompletionAction::Wake ==> plan.wake && (e matches CompletionEvent::RecentWakes(
            n,
        ) && (n as u32) < plan.max_per_hour),
        next_completion(plan, e) == CompletionAction::CountRecentWakes ==> plan.wake && e == CompletionEvent::Busy(false),
        next_completion(plan, e) == CompletionAction::AppendDelivery ==> plan.deliver && e == CompletionEvent::Finalized,
{
}

} // verus!
