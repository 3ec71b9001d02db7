//! Turn cancellation and the interrupted reply.

use tokio_util::sync::CancellationToken;
use vstd::prelude::*;

use crate::text::{
    append_str, from_chars, to_chars, trim, trim_chars,
};

verus! {

/// User-visible suffix when a turn stops mid-reply.
pub const INTERRUPTED_MARKER: &'static str = "\n\n*[прервано]*";

/// Reply when the turn produced no assistant text before interrupt.
pub const INTERRUPTED_TEXT: &'static str = "⚡ Запрос прерван.";

/// The turn was cancelled (user interrupt, preemption).
#[derive(Debug, Clone, Copy, PartialEq, Eq)]
pub struct TurnInterrupted;

#[verifier::external_type_specification]
#[verifier::external_body]
pub struct ExCancellationToken(CancellationToken);

/// Whether cancellation was requested on `token`.
///
/// Trusted: calls `CancellationToken::is_cancelled`. Its result depends on
/// what other tasks did before the call, so nothing is stated about it.
#[verifier::external_body]
fn token_is_cancelled(token: &CancellationToken) -> bool {
    token.is_cancelled()
}

/// `Err(TurnInterrupted)` exactly when the token reported cancellation.
pub fn cancel_result(cancelled: bool) -> (r: Result<(), TurnInterrupted>)
    ensures
        r is Err <==> cancelled,
{
    if cancelled {
        Err(TurnInterrupted)
    } else {
        Ok(())
    }
}

/// Fails with [`TurnInterrupted`] once the token is cancelled.
pub fn check_cancel(token: &CancellationToken) -> (r: Result<(), TurnInterrupted>) {
    let cancelled = token_is_cancelled(token);
    cancel_result(cancelled)
}

/// The reply of an interrupted turn given its partial assistant text.
pub open spec fn interrupted_reply_spec(partial: Seq<char>) -> Seq<char> {
    let t = trim(partial);
    if t.len() == 0 {
        INTERRUPTED_TEXT@
    } else {
        t + INTERRUPTED_MARKER@
    }
}

/// Merge partial assistant text with the standard interrupt marker.
pub fn interrupted_reply(partial: &str) -> (r: String)
    ensures
        r@ == interrupted_reply_spec(partial@),
{
    let pc = to_chars(partial);
    let t = trim_chars(&pc);
    if t.len() == 0 {
        return String::from_str(INTERRUPTED_TEXT);
    }
    let mut r = t;
    append_str(&mut r, INTERRUPTED_MARKER);
    from_chars(&r)
}

} // verus!
