//! The schedule tools: which one-shot and recurring jobs are accepted, their
//! ids and delivery targets, and the replies and listings.

use vstd::prelude::*;

use crate::channel::ChannelPeer;
use crate::ids::fresh_uuid;
use crate::text::{
    all_ws, append_slice, append_str, decimal, ellipsize, ellipsize_str, from_chars, join,
    join_chars, lemma_trim_empty_iff_all_ws, lemma_views_push, starts_with, starts_with_str,
    to_chars, trim, trim_chars, u64_decimal, views,
};

verus! {

/// The longest delay of a one-shot task: seven days, in seconds.
pub const MAX_DELAY_SECS: u64 = 604800;

/// The error text of an invalid cron expression, `None` when the `cron` crate
/// accepts it.
pub uninterp spec fn cron_parse_error(expr: Seq<char>) -> Option<Seq<char>>;

/// Parses a cron expression with the `cron` crate.
///
/// Trusted: calls `cron::Schedule::from_str` and hands back the error's text;
/// the contract only names the outcome, which depends on the expression alone.
#[verifier::external_body]
fn cron_check(expr: &str) -> (r: Option<String>)
    ensures
        cron_parse_error(expr@) == opt_view(r),
{
    match <cron::Schedule as std::str::FromStr>::from_str(expr) {
        Ok(_) => None,
        Err(e) => Some(e.to_string()),
    }
}

/// `%Y-%m-%d %H:%M:%S UTC` of a Unix time in seconds, `None` when out of range.
pub uninterp spec fn utc_time_text(secs: i64) -> Option<Seq<char>>;

/// Formats a Unix time with `chrono`.
///
/// Trusted: calls `chrono::DateTime::from_timestamp(secs, 0)` and formats the
/// result as `%Y-%m-%d %H:%M:%S UTC`; the contract only names the outcome,
/// which depends on `secs` alone.
#[verifier::external_body]
fn format_utc(secs: i64) -> (r: Option<String>)
    ensures
        utc_time_text(secs) == opt_view(r),
{
    chrono::DateTime::from_timestamp(secs, 0).map(|t| t.format("%Y-%m-%d %H:%M:%S UTC").to_string())
}

/// Arguments of `schedule` as decoded from the call's JSON.
pub struct ScheduleArgs {
    pub delay_seconds: u64,
    pub prompt: String,
    pub deliver_message: Option<String>,
}

/// Arguments of `schedule_recurring` as decoded from the call's JSON.
pub struct RecurringArgs {
    pub cron: String,
    pub prompt: String,
    pub deliver_message: Option<String>,
    pub job_id: Option<String>,
}

/// An accepted recurring job.
pub struct RecurringPlan {
    pub id: String,
    pub cron_expr: String,
    pub prompt: String,
}

/// Which store a cancellation goes to.
pub enum CancelTarget {
    OneShot(String),
    Recurring(String),
}

/// The error of a `schedule` call, if it has one.
pub open spec fn one_shot_error(delay: u64, prompt: Seq<char>) -> Option<Seq<char>> {
    if delay == 0 || delay > MAX_DELAY_SECS {
        Some("delay_seconds must be 1..604800"@)
    } else if all_ws(prompt) {
        Some("prompt is empty"@)
    } else {
        None
    }
}

/// Checks a `schedule` call: the trimmed prompt, or the error.
pub fn check_one_shot(args: &ScheduleArgs) -> (r: Result<String, String>)
    ensures
        match one_shot_error(args.delay_seconds, args.prompt@) {
            Some(m) => r matches Err(e) && e@ == m,
            None => r matches Ok(p) && p@ == trim(args.prompt@),
        },
{
    if args.delay_seconds == 0 || args.delay_seconds > MAX_DELAY_SECS {
        return Err("delay_seconds must be 1..604800".to_owned());
    }
    let t = trim_chars(&to_chars(args.prompt.as_str()));
    proof {
        lemma_trim_empty_iff_all_ws(args.prompt@);
    }
    if t.len() == 0 {
        return Err("prompt is empty".to_owned());
    }
    Ok(from_chars(&t))
}

/// When a one-shot task runs, in milliseconds, given the time of the call.
pub fn run_at_millis(now_ms: i64, delay_seconds: u64) -> (r: i64)
    requires
        delay_seconds <= MAX_DELAY_SECS,
        now_ms + delay_seconds * 1000 <= i64::MAX,
    ensures
        r == now_ms + delay_seconds * 1000,
{
    now_ms + (delay_seconds * 1000) as i64
}

/// Whole seconds of a time in milliseconds, rounded toward zero.
pub open spec fn secs_of(ms: i64) -> int {
    if ms >= 0 {
        ms / 1000
    } else {
        -((-ms) / 1000)
    }
}

/// The time of a task as the reply shows it: the UTC date and time of its
/// second, or `fallback` when that is out of range.
pub open spec fn when_text(run_at_ms: i64, fallback: Seq<char>) -> Seq<char> {
    or_default(utc_time_text(secs_of(run_at_ms) as i64), fallback)
}

/// The time text of a task given what formatting its second gave.
pub fn when_from(formatted: Option<String>, fallback: &str) -> (r: String)
    ensures
        r@ == or_default(opt_view(formatted), fallback@),
{
    match formatted {
        Some(t) => t,
        None => fallback.to_owned(),
    }
}

/// The view of an optional string.
pub open spec fn opt_view(o: Option<String>) -> Option<Seq<char>> {
    match o {
        Some(s) => Some(s@),
        None => None,
    }
}

/// Renders when a task runs (`fallback` is the raw time, used when the date is
/// out of range).
pub fn schedule_when(run_at_ms: i64, fallback: &str) -> (r: String)
    ensures
        r@ == when_text(run_at_ms, fallback@),
{
    let secs: i64 = if run_at_ms >= 0 {
        run_at_ms / 1000
    } else {
        let m: i128 = -(run_at_ms as i128);
        -(m / 1000) as i64
    };
    let formatted = format_utc(secs);
    when_from(formatted, fallback)
}

/// Where results of a job go: the request's chat when known, else the
/// ingress channel (`telegram` or `cli`) without a peer.
pub open spec fn deliver_target(peer: Option<ChannelPeer>, telegram_ingress: bool) -> (Seq<char>, Option<Seq<char>>) {
    match peer {
        Some(p) => (p.channel@, Some(p.peer@)),
        None => (if telegram_ingress { "telegram"@ } else { "cli"@ }, None),
    }
}

/// The delivery channel and peer of a job created by this request.
pub fn delivery_target(peer: &Option<ChannelPeer>, telegram_ingress: bool) -> (r: (String, Option<String>))
    ensures
        r.0@ == deliver_target(*peer, telegram_ingress).0,
        match (r.1, deliver_target(*peer, telegram_ingress).1) {
            (Some(a), Some(b)) => a@ == b,
            (None, None) => true,
            _ => false,
        },
{
    match peer {
        Some(p) => (p.channel.clone(), Some(p.peer.clone())),
        None => (if telegram_ingress { "telegram".to_owned() } else { "cli".to_owned() }, None),
    }
}

fn push_opt_or(out: &mut Vec<char>, o: Option<&str>, default: &str)
    ensures
        final(out)@ == old(out)@ + match o {
            Some(s) => s@,
            None => default@,
        },
{
    match o {
        Some(s) => append_str(out, s),
        None => append_str(out, default),
    }
}

/// The optional view of an optional text.
pub open spec fn opt_text(o: Option<&str>) -> Option<Seq<char>> {
    match o {
        Some(s) => Some(s@),
        None => None,
    }
}

/// A value, or `default` when absent.
pub open spec fn or_default(o: Option<Seq<char>>, default: Seq<char>) -> Seq<char> {
    match o {
        Some(s) => s,
        None => default,
    }
}

/// The reply of an accepted one-shot task.
pub open spec fn one_shot_reply_text(
    id: Seq<char>,
    when: Seq<char>,
    delay: u64,
    channel: Option<Seq<char>>,
    peer: Option<Seq<char>>,
    prompt: Seq<char>,
) -> Seq<char> {
    "scheduled task "@ + id + " at "@ + when + " (in "@ + decimal(delay as nat) + "s); deliver via "@
        + or_default(channel, "cli"@) + " peer="@ + or_default(peer, "-"@) + "; prompt="@ + ellipsize(prompt, 120)
}

/// Confirms a one-shot task.
pub fn one_shot_reply(
    id: &str,
    when: &str,
    delay_seconds: u64,
    channel: Option<&str>,
    peer: Option<&str>,
    prompt: &str,
) -> (r: String)
    ensures
        r@ == one_shot_reply_text(id@, when@, delay_seconds, opt_text(channel), opt_text(peer), prompt@),
{
    let mut out = to_chars("scheduled task ");
    append_str(&mut out, id);
    append_str(&mut out, " at ");
    append_str(&mut out, when);
    append_str(&mut out, " (in ");
    let d = u64_decimal(delay_seconds);
    append_slice(&mut out, &d);
    append_str(&mut out, "s); deliver via ");
    push_opt_or(&mut out, channel, "cli");
    append_str(&mut out, " peer=");
    push_opt_or(&mut out, peer, "-");
    append_str(&mut out, "; prompt=");
    append_str(&mut out, ellipsize_str(prompt, 120).as_str());
    from_chars(&out)
}

/// Characters allowed in a custom job id.
pub open spec fn job_id_char(c: char) -> bool {
    ('a' <= c && c <= 'z') || ('A' <= c && c <= 'Z') || ('0' <= c && c <= '9') || c == '-' || c == '_'
}

/// The error of a `schedule_recurring` call, if it has one.
pub open spec fn recurring_error(args: RecurringArgs) -> Option<Seq<char>> {
    recurring_error_given(args, cron_parse_error(trim(args.cron@)))
}

/// The error of a `schedule_recurring` call given what the cron parser said of
/// its trimmed expression (`None`: accepted).
pub open spec fn recurring_error_given(args: RecurringArgs, cron_error: Option<Seq<char>>) -> Option<Seq<char>> {
    let expr = trim(args.cron@);
    if expr.len() == 0 {
        Some("cron expression is empty"@)
    } else if cron_error is Some {
        Some("invalid cron expression: "@ + cron_error->Some_0)
    } else if all_ws(args.prompt@) {
        Some("prompt is empty"@)
    } else {
        match args.job_id {
            Some(j) => if !all_ws(j@) && !(forall|i: int| 0 <= i < trim(j@).len() ==> job_id_char(#[trigger] trim(j@)[i])) {
                Some("job_id must be alphanumeric, dash, or underscore"@)
            } else {
                None
            },
            None => None,
        }
    }
}

fn all_job_id_chars(s: &[char]) -> (r: bool)
    ensures
        r == (forall|i: int| 0 <= i < s@.len() ==> job_id_char(#[trigger] s@[i])),
{
    let mut i: usize = 0;
    while i < s.len()
        invariant
            i <= s.len(),
            forall|k: int| 0 <= k < i ==> job_id_char(#[trigger] s@[k]),
        decreases s.len() - i,
    {
        let c = s[i];
        if !(('a' <= c && c <= 'z') || ('A' <= c && c <= 'Z') || ('0' <= c && c <= '9') || c == '-' || c
            == '_') {
            return false;
        }
        i += 1;
    }
    true
}

/// A custom job id was given (not blank).
pub open spec fn has_custom_id(args: RecurringArgs) -> bool {
    args.job_id matches Some(j) && !all_ws(j@)
}

/// The outcome of a `schedule_recurring` call given what the cron parser said
/// of its trimmed expression and a fresh id for a job without a custom one:
/// the job's id (`cron_` and the custom id, or `cron_` and the fresh id), its
/// trimmed expression and prompt, or the error.
pub fn recurring_plan_given(args: &RecurringArgs, cron_error: Option<String>, fresh_id: &str) -> (r: Result<RecurringPlan, String>)
    ensures
        match recurring_error_given(*args, opt_view(cron_error)) {
            Some(m) => r matches Err(e) && e@ == m,
            None => r matches Ok(p) && p.cron_expr@ == trim(args.cron@) && p.prompt@ == trim(args.prompt@)
                && p.id@ == "cron_"@ + (if has_custom_id(*args) {
                    trim(args.job_id->Some_0@)
                } else {
                    fresh_id@
                }),
        },
{
    let expr = trim_chars(&to_chars(args.cron.as_str()));
    if expr.len() == 0 {
        return Err("cron expression is empty".to_owned());
    }
    let expr_s = from_chars(&expr);
    match cron_error {
        Some(e) => {
            let mut m = to_chars("invalid cron expression: ");
            append_str(&mut m, e.as_str());
            return Err(from_chars(&m));
        },
        None => {},
    }
    let p = trim_chars(&to_chars(args.prompt.as_str()));
    proof {
        lemma_trim_empty_iff_all_ws(args.prompt@);
    }
    if p.len() == 0 {
        return Err("prompt is empty".to_owned());
    }
    let custom: Option<Vec<char>> = match &args.job_id {
        Some(j) => {
            let t = trim_chars(&to_chars(j.as_str()));
            proof {
                lemma_trim_empty_iff_all_ws(j@);
            }
            if t.len() == 0 {
                None
            } else {
                Some(t)
            }
        },
        None => None,
    };
    let mut id = to_chars("cron_");
    match custom {
        Some(t) => {
            if !all_job_id_chars(&t) {
                return Err("job_id must be alphanumeric, dash, or underscore".to_owned());
            }
            append_slice(&mut id, &t);
        },
        None => {
            append_str(&mut id, fresh_id);
        },
    }
    Ok(RecurringPlan { id: from_chars(&id), cron_expr: expr_s, prompt: from_chars(&p) })
}

/// Checks a `schedule_recurring` call with the `cron` crate: the job's id
/// (`cron_` and the custom id, or `cron_` and a fresh UUID), its trimmed
/// expression and prompt, or the error.
pub fn plan_recurring(args: &RecurringArgs) -> (r: Result<RecurringPlan, String>)
    ensures
        match recurring_error(*args) {
            Some(m) => r matches Err(e) && e@ == m,
            None => r matches Ok(p) && p.cron_expr@ == trim(args.cron@) && p.prompt@ == trim(args.prompt@)
                && starts_with(p.id@, "cron_"@) && if has_custom_id(*args) {
                    p.id@ == "cron_"@ + trim(args.job_id->Some_0@)
                } else {
                    p.id@.len() == 41
                },
        },
{
    let expr = trim_chars(&to_chars(args.cron.as_str()));
    let expr_s = from_chars(&expr);
    let cron_error = if expr.len() == 0 {
        None
    } else {
        cron_check(expr_s.as_str())
    };
    let custom = match &args.job_id {
        Some(j) => {
            proof {
                lemma_trim_empty_iff_all_ws(j@);
            }
            trim_chars(&to_chars(j.as_str())).len() > 0
        },
        None => false,
    };
    let fresh = if custom {
        String::new()
    } else {
        fresh_uuid()
    };
    let r = recurring_plan_given(args, cron_error, fresh.as_str());
    proof {
        reveal_strlit("cron_");
        if r is Ok {
            assert(r->Ok_0.id@.take(5) =~= "cron_"@);
        }
    }
    r
}

/// The reply of an accepted recurring job.
pub open spec fn recurring_reply_text(
    id: Seq<char>,
    cron_expr: Seq<char>,
    group: Seq<char>,
    channel: Option<Seq<char>>,
    peer: Option<Seq<char>>,
    prompt: Seq<char>,
) -> Seq<char> {
    "recurring job "@ + id + " cron=\""@ + cron_expr + "\" group="@ + group + "; deliver via "@ + or_default(
        channel,
        "cli"@,
    ) + " peer="@ + or_default(peer, "-"@) + "; prompt="@ + ellipsize(prompt, 120)
}

/// Confirms a recurring job.
pub fn recurring_reply(
    id: &str,
    cron_expr: &str,
    group: &str,
    channel: Option<&str>,
    peer: Option<&str>,
    prompt: &str,
) -> (r: String)
    ensures
        r@ == recurring_reply_text(id@, cron_expr@, group@, opt_text(channel), opt_text(peer), prompt@),
{
    let mut out = to_chars("recurring job ");
    append_str(&mut out, id);
    append_str(&mut out, " cron=\"");
    append_str(&mut out, cron_expr);
    append_str(&mut out, "\" group=");
    append_str(&mut out, group);
    append_str(&mut out, "; deliver via ");
    push_opt_or(&mut out, channel, "cli");
    append_str(&mut out, " peer=");
    push_opt_or(&mut out, peer, "-");
    append_str(&mut out, "; prompt=");
    append_str(&mut out, ellipsize_str(prompt, 120).as_str());
    from_chars(&out)
}

/// A pending task or an active job as listed.
pub struct ScheduleEntry {
    pub id: String,
    /// `run_at=<time>` of a task or `cron="<expr>"` of a job.
    pub when: String,
    pub agent_group: String,
    pub deliver_channel: Option<String>,
    pub deliver_peer: Option<String>,
    pub prompt: String,
}

/// The optional view of an optional string.
pub open spec fn opt_string(o: Option<String>) -> Option<Seq<char>> {
    match o {
        Some(s) => Some(s@),
        None => None,
    }
}

/// The list line of an entry.
pub open spec fn entry_line(e: ScheduleEntry) -> Seq<char> {
    "  "@ + e.id@ + " "@ + e.when@ + " group="@ + e.agent_group@ + " deliver="@ + or_default(
        opt_string(e.deliver_channel),
        "cli"@,
    ) + "/"@ + or_default(opt_string(e.deliver_peer), "-"@) + " prompt="@ + ellipsize(e.prompt@, 80)
}

/// A titled group of list lines, nothing when empty.
pub open spec fn titled(title: Seq<char>, es: Seq<ScheduleEntry>) -> Seq<Seq<char>> {
    if es.len() == 0 {
        Seq::empty()
    } else {
        seq![title] + Seq::new(es.len(), |i: int| entry_line(es[i]))
    }
}

/// The reply of `schedule_list`.
pub open spec fn schedule_list_text(one_shot: Seq<ScheduleEntry>, recurring: Seq<ScheduleEntry>) -> Seq<char> {
    if one_shot.len() == 0 && recurring.len() == 0 {
        "no pending one-shot tasks or active recurring jobs"@
    } else {
        join(titled("one-shot:"@, one_shot) + titled("recurring:"@, recurring), "\n"@)
    }
}

fn push_titled(ls: &mut Vec<Vec<char>>, title: &str, es: &[ScheduleEntry])
    ensures
        views(final(ls)@) == views(old(ls)@) + titled(title@, es@),
{
    if es.len() == 0 {
        assert(views(ls@) + titled(title@, es@) =~= views(ls@));
        return;
    }
    let ghost base = views(ls@);
    let t = to_chars(title);
    proof {
        lemma_views_push(ls@, t);
    }
    ls.push(t);
    let mut i: usize = 0;
    while i < es.len()
        invariant
            i <= es.len(),
            views(ls@) == base + seq![title@] + Seq::new(i as nat, |k: int| entry_line(es@[k])),
        decreases es.len() - i,
    {
        let e = &es[i];
        let mut l = to_chars("  ");
        append_str(&mut l, e.id.as_str());
        append_str(&mut l, " ");
        append_str(&mut l, e.when.as_str());
        append_str(&mut l, " group=");
        append_str(&mut l, e.agent_group.as_str());
        append_str(&mut l, " deliver=");
        match &e.deliver_channel {
            Some(c) => append_str(&mut l, c.as_str()),
            None => append_str(&mut l, "cli"),
        }
        append_str(&mut l, "/");
        match &e.deliver_peer {
            Some(p) => append_str(&mut l, p.as_str()),
            None => append_str(&mut l, "-"),
        }
        append_str(&mut l, " prompt=");
        append_str(&mut l, ellipsize_str(e.prompt.as_str(), 80).as_str());
        proof {
            lemma_views_push(ls@, l);
        }
        ls.push(l);
        assert(views(ls@) =~= base + seq![title@] + Seq::new((i + 1) as nat, |k: int| entry_line(es@[k])));
        i += 1;
    }
    assert(views(ls@) =~= base + titled(title@, es@));
}

/// Lists pending one-shot tasks and active recurring jobs.
pub fn format_schedule_list(one_shot: &[ScheduleEntry], recurring: &[ScheduleEntry]) -> (r: String)
    ensures
        r@ == schedule_list_text(one_shot@, recurring@),
{
    if one_shot.len() == 0 && recurring.len() == 0 {
        return "no pending one-shot tasks or active recurring jobs".to_owned();
    }
    let mut ls: Vec<Vec<char>> = Vec::new();
    assert(views(ls@) =~= Seq::<Seq<char>>::empty());
    push_titled(&mut ls, "one-shot:", one_shot);
    push_titled(&mut ls, "recurring:", recurring);
    assert(views(ls@) =~= titled("one-shot:"@, one_shot@) + titled("recurring:"@, recurring@));
    let sep = to_chars("\n");
    from_chars(&join_chars(&ls, &sep))
}

/// The error of a `schedule_cancel` id, if it has one.
pub open spec fn cancel_error(id: Seq<char>) -> Option<Seq<char>> {
    let t = trim(id);
    if t.len() == 0 {
        Some("id is empty"@)
    } else if starts_with(t, "sched_"@) || starts_with(t, "cron_"@) {
        None
    } else {
        Some("id must start with sched_ or cron_; got "@ + t)
    }
}

/// Where a cancellation goes: one-shot tasks are `sched_…`, recurring jobs
/// `cron_…`; anything else is refused.
pub fn cancel_target(id: &str) -> (r: Result<CancelTarget, String>)
    ensures
        match cancel_error(id@) {
            Some(m) => r matches Err(e) && e@ == m,
            None => match r {
                Ok(CancelTarget::OneShot(t)) => t@ == trim(id@) && starts_with(trim(id@), "sched_"@),
                Ok(CancelTarget::Recurring(t)) => t@ == trim(id@) && !starts_with(trim(id@), "sched_"@)
                    && starts_with(trim(id@), "cron_"@),
                Err(_) => false,
            },
        },
{
    let t = trim_chars(&to_chars(id));
    if t.len() == 0 {
        return Err("id is empty".to_owned());
    }
    if starts_with_str(&t, "sched_") {
        return Ok(CancelTarget::OneShot(from_chars(&t)));
    }
    if starts_with_str(&t, "cron_") {
        return Ok(CancelTarget::Recurring(from_chars(&t)));
    }
    let mut m = to_chars("id must start with sched_ or cron_; got ");
    append_slice(&mut m, &t);
    Err(from_chars(&m))
}

/// The reply of a cancellation, given whether the store found the entry.
pub open spec fn cancel_reply_text(target: CancelTarget, found: bool) -> Result<Seq<char>, Seq<char>> {
    match target {
        CancelTarget::OneShot(id) => if found {
            Ok("cancelled one-shot task "@ + id@)
        } else {
            Err("one-shot task not found or not pending: "@ + id@)
        },
        CancelTarget::Recurring(id) => if found {
            Ok("disabled recurring job "@ + id@)
        } else {
            Err("recurring job not found or already disabled: "@ + id@)
        },
    }
}

/// Answers a cancellation: done, or the error when nothing was pending.
pub fn cancel_reply(target: &CancelTarget, found: bool) -> (r: Result<String, String>)
    ensures
        match (r, cancel_reply_text(*target, found)) {
            (Ok(a), Ok(b)) => a@ == b,
            (Err(a), Err(b)) => a@ == b,
            _ => false,
        },
{
    match target {
        CancelTarget::OneShot(id) => {
            if found {
                let mut m = to_chars("cancelled one-shot task ");
                append_str(&mut m, id.as_str());
                Ok(from_chars(&m))
            } else {
                let mut m = to_chars("one-shot task not found or not pending: ");
                append_str(&mut m, id.as_str());
                Err(from_chars(&m))
            }
        },
        CancelTarget::Recurring(id) => {
            if found {
                let mut m = to_chars("disabled recurring job ");
                append_str(&mut m, id.as_str());
                Ok(from_chars(&m))
            } else {
                let mut m = to_chars("recurring job not found or already disabled: ");
                append_str(&mut m, id.as_str());
                Err(from_chars(&m))
            }
        },
    }
}

/// The error of a schedule tool name that no handler knows.
pub fn unknown_schedule_tool_message(name: &str) -> (r: String)
    ensures
        r@ == "unknown schedule tool: "@ + name@,
{
    let mut m = to_chars("unknown schedule tool: ");
    append_str(&mut m, name);
    from_chars(&m)
}

/// The error of a call whose arguments do not decode (`tool` names the tool).
pub fn schedule_args_error(tool: &str, detail: &str) -> (r: String)
    ensures
        r@ == "invalid "@ + tool@ + " arguments: "@ + detail@,
{
    let mut m = to_chars("invalid ");
    append_str(&mut m, tool);
    append_str(&mut m, " arguments: ");
    append_str(&mut m, detail);
    from_chars(&m)
}

} // verus!
