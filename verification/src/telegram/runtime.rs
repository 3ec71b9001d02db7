//! Decisions of the Telegram long-poll loop: retries, commands, pairing, replies
//! for failed turns, and the texts of spawn deliveries.

use vstd::prelude::*;

use crate::progress::AgentEvent;
use crate::telegram::api::{Message, Update};
use crate::telegram::ingress::{accepted, inbound_of, name_view, parse_message, raw_text, InboundMessage};
use crate::text::{trim, append_slice, append_str, contains, contains_str, from_chars, starts_with, starts_with_str, to_chars};

verus! {

/// Telegram progress shows tool/status lines only, not partial assistant prose.
pub fn telegram_progress_event(event: &AgentEvent) -> (r: bool)
    ensures
        r == !(*event is AssistantChunk),
{
    !matches!(event, AgentEvent::AssistantChunk { .. })
}

/// The edit interval of a progress stream: at least 300 ms.
pub fn stream_interval_ms(interval_ms: u64) -> (r: u64)
    ensures
        r == (if interval_ms < 300 { 300 } else { interval_ms }),
{
    if interval_ms < 300 {
        300
    } else {
        interval_ms
    }
}

/// Whether a `getUpdates` error says another client polls the same bot.
pub fn is_poll_conflict(err: &str) -> (r: bool)
    ensures
        r == (contains(err@, "Conflict"@) || contains(err@, "409"@)),
{
    let c = to_chars(err);
    contains_str(&c, "Conflict") || contains_str(&c, "409")
}

/// Seconds to wait after a failed `getUpdates`: longer on a conflict.
pub fn poll_retry_secs(err: &str) -> (r: u64)
    ensures
        r == (if contains(err@, "Conflict"@) || contains(err@, "409"@) { 10u64 } else { 3u64 }),
{
    if is_poll_conflict(err) {
        10
    } else {
        3
    }
}

/// The offset of the next `getUpdates` after an update.
pub fn next_offset(update_id: i64) -> (r: i64)
    requires
        update_id < i64::MAX,
    ensures
        r == update_id + 1,
{
    update_id + 1
}

/// `/pair…` and `/start` go to the pairing handler.
pub fn is_pairing_command(text: &str) -> (r: bool)
    ensures
        r == (starts_with(text@, "/pair"@) || text@ == "/start"@),
{
    let c = to_chars(text);
    starts_with_str(&c, "/pair") || crate::text::eq_str(&c, "/start")
}

/// What a slash command does.
#[derive(Debug, Clone, Copy, PartialEq, Eq, Structural)]
pub enum SlashAction {
    /// Start a new session.
    Reset,
    /// Show the command list.
    Help,
    /// Interrupt the running request.
    Stop,
}

/// The action of a command name.
pub open spec fn slash_action_of(cmd: Seq<char>) -> Option<SlashAction> {
    if cmd == "new"@ || cmd == "clear"@ || cmd == "reset"@ {
        Some(SlashAction::Reset)
    } else if cmd == "help"@ || cmd == "h"@ || cmd == "commands"@ {
        Some(SlashAction::Help)
    } else if cmd == "stop"@ {
        Some(SlashAction::Stop)
    } else {
        None
    }
}

/// The action of a command name, if it is one of the bot's commands.
pub fn slash_action(cmd: &str) -> (r: Option<SlashAction>)
    ensures
        r == slash_action_of(cmd@),
{
    let c = to_chars(cmd);
    if crate::text::eq_str(&c, "new") || crate::text::eq_str(&c, "clear") || crate::text::eq_str(
        &c,
        "reset",
    ) {
        Some(SlashAction::Reset)
    } else if crate::text::eq_str(&c, "help") || crate::text::eq_str(&c, "h") || crate::text::eq_str(
        &c,
        "commands",
    ) {
        Some(SlashAction::Help)
    } else if crate::text::eq_str(&c, "stop") {
        Some(SlashAction::Stop)
    } else {
        None
    }
}

/// The reply to `/stop`.
pub const STOP_REPLY: &'static str = "⚡ Прерываю текущий запрос…";

/// The reply to a session reset: whether history was dropped, and the new session.
pub fn reset_reply(ended: u64, session_id: &str) -> (r: String)
    ensures
        r@ == (if ended > 0 { "История сброшена."@ } else { "Новая сессия."@ }) + "\nsession="@
            + session_id@,
{
    let mut out = if ended > 0 {
        to_chars("История сброшена.")
    } else {
        to_chars("Новая сессия.")
    };
    append_str(&mut out, "\nsession=");
    append_str(&mut out, session_id);
    from_chars(&out)
}

/// Why a decimal integer could not be read (as `core::num::IntErrorKind`).
#[derive(Debug, Clone, Copy, PartialEq, Eq, Structural)]
pub enum IntError {
    Empty,
    InvalidDigit,
    PosOverflow,
    NegOverflow,
}

/// The message of an integer error (as `ParseIntError`'s `Display`).
pub open spec fn int_error_text(e: IntError) -> Seq<char> {
    match e {
        IntError::Empty => "cannot parse integer from empty string"@,
        IntError::InvalidDigit => "invalid digit found in string"@,
        IntError::PosOverflow => "number too large to fit in target type"@,
        IntError::NegOverflow => "number too small to fit in target type"@,
    }
}

/// Reads the digits of `s` onto `acc`, moving away from zero (down when `neg`).
pub open spec fn read_digits(s: Seq<char>, acc: int, neg: bool) -> Result<int, IntError>
    decreases s.len(),
{
    if s.len() == 0 {
        Ok(acc)
    } else if !('0' <= s[0] && s[0] <= '9') {
        Err(IntError::InvalidDigit)
    } else {
        let d = s[0] as int - '0' as int;
        let next = if neg { acc * 10 - d } else { acc * 10 + d };
        if next > i64::MAX {
            Err(IntError::PosOverflow)
        } else if next < i64::MIN {
            Err(IntError::NegOverflow)
        } else {
            read_digits(s.drop_first(), next, neg)
        }
    }
}

/// `s.parse::<i64>()`: an optional sign, then at least one ASCII digit.
pub open spec fn parse_i64_spec(s: Seq<char>) -> Result<int, IntError> {
    if s.len() == 0 {
        Err(IntError::Empty)
    } else if s[0] == '+' || s[0] == '-' {
        if s.len() == 1 {
            Err(IntError::InvalidDigit)
        } else {
            read_digits(s.drop_first(), 0, s[0] == '-')
        }
    } else {
        read_digits(s, 0, false)
    }
}

/// Reads a decimal `i64`.
pub fn parse_i64(s: &str) -> (r: Result<i64, IntError>)
    ensures
        match parse_i64_spec(s@) {
            Ok(v) => r == Ok::<i64, IntError>(v as i64),
            Err(e) => r == Err::<i64, IntError>(e),
        },
{
    let c = to_chars(s);
    if c.len() == 0 {
        return Err(IntError::Empty);
    }
    let mut i: usize = 0;
    let mut neg = false;
    if c[0] == '+' || c[0] == '-' {
        if c.len() == 1 {
            return Err(IntError::InvalidDigit);
        }
        neg = c[0] == '-';
        i = 1;
    }
    let ghost start = i;
    let mut acc: i64 = 0;
    assert(c@.skip(start as int) == (if start == 1 { c@.drop_first() } else { c@ })) by {
        if start == 1 {
            assert(c@.skip(1) =~= c@.drop_first());
        } else {
            assert(c@.skip(0) =~= c@);
        }
    }
    assert(parse_i64_spec(s@) == read_digits(c@.skip(start as int), 0, neg));
    while i < c.len()
        invariant
            start <= i <= c.len(),
            c@ == s@,
            read_digits(c@.skip(start as int), 0, neg) == read_digits(c@.skip(i as int), acc as int, neg),
            parse_i64_spec(s@) == read_digits(c@.skip(start as int), 0, neg),
        decreases c.len() - i,
    {
        let ch = c[i];
        assert(c@.skip(i as int)[0] == ch);
        if !('0' <= ch && ch <= '9') {
            return Err(IntError::InvalidDigit);
        }
        let d = (ch as u32 - '0' as u32) as i128;
        assert(c@.skip(i as int).drop_first() =~= c@.skip(i + 1));
        let next: i128 = if neg {
            acc as i128 * 10 - d
        } else {
            acc as i128 * 10 + d
        };
        if next > i64::MAX as i128 {
            return Err(IntError::PosOverflow);
        }
        if next < i64::MIN as i128 {
            return Err(IntError::NegOverflow);
        }
        acc = next as i64;
        i += 1;
    }
    assert(c@.skip(c.len() as int).len() == 0);
    Ok(acc)
}

/// The chat id of a peer string (0 when it is not a number).
pub fn chat_id_of(peer: &str) -> (r: i64)
    ensures
        r == match parse_i64_spec(peer@) {
            Ok(v) => v as i64,
            Err(_) => 0i64,
        },
{
    match parse_i64(peer) {
        Ok(v) => v,
        Err(_) => 0,
    }
}

/// The reply when an agent turn failed.
pub open spec fn turn_error_text(err: Seq<char>) -> Seq<char> {
    if contains(err, "Validation of the message failed"@) {
        "Error: LLM-провайдер (ASI Cloud) отклонил формат сообщений: "@ + err
            + "\nПопробуйте /new для сброса сессии и отправьте запрос снова."@
    } else {
        "Error: "@ + err
    }
}

/// Builds the reply for a failed agent turn.
pub fn turn_error_reply(err: &str) -> (r: String)
    ensures
        r@ == turn_error_text(err@),
{
    let c = to_chars(err);
    let mut out: Vec<char>;
    if contains_str(&c, "Validation of the message failed") {
        out = to_chars("Error: LLM-провайдер (ASI Cloud) отклонил формат сообщений: ");
        append_slice(&mut out, &c);
        append_str(&mut out, "\nПопробуйте /new для сброса сессии и отправьте запрос снова.");
    } else {
        out = to_chars("Error: ");
        append_slice(&mut out, &c);
    }
    from_chars(&out)
}

/// A pairing code is issued in private chats under the pairing policy, until approved.
pub fn needs_pairing_code(pairing_policy: bool, is_private: bool, approved: bool) -> (r: bool)
    ensures
        r == (pairing_policy && is_private && !approved),
{
    pairing_policy && is_private && !approved
}

/// The reply that asks an unknown user to get approved.
pub fn pairing_required_text(code: &str) -> (r: String)
    ensures
        r@ == "BobaClaw: pairing required.\nCode: `"@ + code@
            + "`\nOn the server run: `bobaclaw pairing approve telegram "@ + code@ + "`"@,
{
    let mut out = to_chars("BobaClaw: pairing required.\nCode: `");
    append_str(&mut out, code);
    append_str(&mut out, "`\nOn the server run: `bobaclaw pairing approve telegram ");
    append_str(&mut out, code);
    append_str(&mut out, "`");
    from_chars(&out)
}

/// The reply to `/pair`: the code, how to approve it, and the DM policy.
pub fn pairing_code_text(code: &str, dm_policy: &str) -> (r: String)
    ensures
        r@ == "BobaClaw pairing code: `"@ + code@ + "`\nOn the server run:\n`bobaclaw pairing approve telegram "@
            + code@ + "`\n\nDM policy: "@ + dm_policy@,
{
    let mut out = to_chars("BobaClaw pairing code: `");
    append_str(&mut out, code);
    append_str(&mut out, "`\nOn the server run:\n`bobaclaw pairing approve telegram ");
    append_str(&mut out, code);
    append_str(&mut out, "`\n\nDM policy: ");
    append_str(&mut out, dm_policy);
    from_chars(&out)
}

/// An approved user id is added to the allow list unless it is 0 or already there.
pub fn should_allow_user(uid: i64, allow_from: &[i64]) -> (r: bool)
    ensures
        r == (uid != 0 && !allow_from@.contains(uid)),
{
    if uid == 0 {
        return false;
    }
    let mut i: usize = 0;
    while i < allow_from.len()
        invariant
            i <= allow_from.len(),
            forall|k: int| 0 <= k < i ==> allow_from@[k] != uid,
        decreases allow_from.len() - i,
    {
        if allow_from[i] == uid {
            assert(allow_from@[i as int] == uid);
            return false;
        }
        i += 1;
    }
    true
}

/// The notice of a finished background subagent.
pub fn completion_notice(label: Option<&str>, job_id: &str, status: &str, summary: &str) -> (r: String)
    ensures
        r@ == "✅ Subagent `"@ + (match label {
            Some(l) => l@,
            None => job_id@,
        }) + "` finished ("@ + status@ + ")\n"@ + summary@ + "\n(id: "@ + job_id@ + ")"@,
{
    let mut out = to_chars("✅ Subagent `");
    match label {
        Some(l) => append_str(&mut out, l),
        None => append_str(&mut out, job_id),
    }
    append_str(&mut out, "` finished (");
    append_str(&mut out, status);
    append_str(&mut out, ")\n");
    append_str(&mut out, summary);
    append_str(&mut out, "\n(id: ");
    append_str(&mut out, job_id);
    append_str(&mut out, ")");
    from_chars(&out)
}

/// The message that presents the reply of a wake turn.
pub fn wake_reply_text(label: Option<&str>, job_id: &str, reply: &str) -> (r: String)
    ensures
        r@ == "[Spawn wake `"@ + (match label {
            Some(l) => l@,
            None => job_id@,
        }) + "`]\n\n"@ + reply@,
{
    let mut out = to_chars("[Spawn wake `");
    match label {
        Some(l) => append_str(&mut out, l),
        None => append_str(&mut out, job_id),
    }
    append_str(&mut out, "`]\n\n");
    append_str(&mut out, reply);
    from_chars(&out)
}

/// Why a spawn delivery has no chat.
pub enum DeliveryError {
    MissingPeer,
    InvalidChatId { peer: String, error: IntError },
}

/// The error text of a failed delivery.
pub open spec fn delivery_error_text(e: DeliveryError) -> Seq<char> {
    match e {
        DeliveryError::MissingPeer => "telegram delivery missing peer"@,
        DeliveryError::InvalidChatId { peer, error } => "invalid telegram chat id "@ + peer@ + ": "@
            + int_error_text(error),
    }
}

impl DeliveryError {
    /// The error text.
    pub fn message(&self) -> (r: String)
        ensures
            r@ == delivery_error_text(*self),
    {
        match self {
            DeliveryError::MissingPeer => "telegram delivery missing peer".to_owned(),
            DeliveryError::InvalidChatId { peer, error } => {
                let mut out = to_chars("invalid telegram chat id ");
                append_str(&mut out, peer.as_str());
                append_str(&mut out, ": ");
                let detail = match error {
                    IntError::Empty => "cannot parse integer from empty string",
                    IntError::InvalidDigit => "invalid digit found in string",
                    IntError::PosOverflow => "number too large to fit in target type",
                    IntError::NegOverflow => "number too small to fit in target type",
                };
                append_str(&mut out, detail);
                from_chars(&out)
            },
        }
    }
}

/// The chat of a spawn delivery.
pub fn delivery_chat_id(deliver_peer: Option<&str>) -> (r: Result<i64, DeliveryError>)
    ensures
        match deliver_peer {
            None => r matches Err(DeliveryError::MissingPeer),
            Some(p) => match parse_i64_spec(p@) {
                Ok(v) => r == Ok::<i64, DeliveryError>(v as i64),
                Err(e) => r matches Err(DeliveryError::InvalidChatId { peer, error }) && peer@ == p@ && error == e,
            },
        },
{
    match deliver_peer {
        None => Err(DeliveryError::MissingPeer),
        Some(p) => match parse_i64(p) {
            Ok(v) => Ok(v),
            Err(e) => Err(DeliveryError::InvalidChatId { peer: p.to_owned(), error: e }),
        },
    }
}

/// What the poll loop does with one update.
pub enum UpdateRoute {
    /// No message the agent reads (none, from a bot, or without text).
    Skip,
    /// A `/pair…` or `/start` command, answered with a pairing code.
    Pairing(InboundMessage),
    /// A message that goes on to the trust check and the agent.
    Inbound(InboundMessage),
}

/// The message of an update: a new one, else an edited one.
pub open spec fn update_message(u: Update) -> Option<Message> {
    match u.message {
        Some(m) => Some(m),
        None => u.edited_message,
    }
}

/// Routes one update of the poll loop.
pub fn route_update(update: &Update, bot_id: i64, bot_username: Option<&str>) -> (r: UpdateRoute)
    ensures
        match update_message(*update) {
            None => r is Skip,
            Some(m) => if !accepted(m) {
                r is Skip
            } else {
                match r {
                    UpdateRoute::Pairing(i) => is_pairing_text(i.text@) && inbound_of(
                        m,
                        bot_id,
                        name_view(bot_username),
                        i,
                    ),
                    UpdateRoute::Inbound(i) => !is_pairing_text(i.text@) && inbound_of(
                        m,
                        bot_id,
                        name_view(bot_username),
                        i,
                    ),
                    UpdateRoute::Skip => false,
                }
            },
        },
{
    let msg = match &update.message {
        Some(m) => m,
        None => match &update.edited_message {
            Some(m) => m,
            None => return UpdateRoute::Skip,
        },
    };
    match parse_message(msg, bot_id, bot_username) {
        None => UpdateRoute::Skip,
        Some(inbound) => {
            if is_pairing_command(inbound.text.as_str()) {
                UpdateRoute::Pairing(inbound)
            } else {
                UpdateRoute::Inbound(inbound)
            }
        },
    }
}

/// `/pair…` and `/start`.
pub open spec fn is_pairing_text(t: Seq<char>) -> bool {
    starts_with(t, "/pair"@) || t == "/start"@
}

} // verus!
