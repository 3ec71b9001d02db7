//! Web API helpers: message validation, history for display, page headers.

use vstd::prelude::*;

use crate::text::{append_str, eq_str, from_chars, to_chars, trim, trim_chars, utf8_len, char_utf8_width, lemma_utf8_len_push, lemma_utf8_len_append};
use crate::turn::{sanitize_user_reply, sanitized_reply};
use crate::ids::fresh_simple_uuid;
use crate::response::AgentResponse;
use crate::tools::files::{replace_all, replace_all_str};
use crate::web::events::WebEvent;
use crate::text::{append_slice, contains, contains_str, decimal, starts_with, starts_with_str, u64_decimal};

verus! {

/// Largest accepted message, in UTF-8 bytes.
pub const MAX_MESSAGE_BYTES: usize = 32_768;

/// Sessions listed at most.
pub const SESSION_LIST_LIMIT: i64 = 200;

/// The Content-Security-Policy of the UI page: only the nonce'd inline script and
/// style may run, and the page may only talk to its own origin.
pub open spec fn csp_text(nonce: Seq<char>) -> Seq<char> {
    "default-src 'none'; script-src 'nonce-"@ + nonce + "'; style-src 'nonce-"@ + nonce
        + "'; connect-src 'self'; img-src 'self' data:; base-uri 'none'; form-action 'none'; frame-ancestors 'none'"@
}

/// Builds the Content-Security-Policy of the UI page.
pub fn csp_for_nonce(nonce: &str) -> (r: String)
    ensures
        r@ == csp_text(nonce@),
{
    let mut out = to_chars("default-src 'none'; script-src 'nonce-");
    append_str(&mut out, nonce);
    append_str(&mut out, "'; style-src 'nonce-");
    append_str(&mut out, nonce);
    append_str(
        &mut out,
        "'; connect-src 'self'; img-src 'self' data:; base-uri 'none'; form-action 'none'; frame-ancestors 'none'",
    );
    from_chars(&out)
}

/// HTML escaping of one character for text and quoted attributes.
pub open spec fn escape_char(c: char) -> Seq<char> {
    if c == '&' {
        "&amp;"@
    } else if c == '<' {
        "&lt;"@
    } else if c == '>' {
        "&gt;"@
    } else if c == '"' {
        "&quot;"@
    } else if c == '\'' {
        "&#39;"@
    } else {
        seq![c]
    }
}

/// `s` with `&`, `<`, `>`, `"` and `'` escaped.
pub open spec fn escaped(s: Seq<char>) -> Seq<char>
    decreases s.len(),
{
    if s.len() == 0 {
        Seq::empty()
    } else {
        escaped(s.drop_last()) + escape_char(s.last())
    }
}

/// Escapes text for HTML.
pub fn html_escape(s: &str) -> (r: String)
    ensures
        r@ == escaped(s@),
{
    let c = to_chars(s);
    let mut out: Vec<char> = Vec::new();
    let mut i: usize = 0;
    assert(c@.take(0) =~= Seq::<char>::empty());
    while i < c.len()
        invariant
            i <= c.len(),
            out@ == escaped(c@.take(i as int)),
        decreases c.len() - i,
    {
        let ch = c[i];
        assert(c@.take(i + 1).drop_last() =~= c@.take(i as int));
        if ch == '&' {
            append_str(&mut out, "&amp;");
        } else if ch == '<' {
            append_str(&mut out, "&lt;");
        } else if ch == '>' {
            append_str(&mut out, "&gt;");
        } else if ch == '"' {
            append_str(&mut out, "&quot;");
        } else if ch == '\'' {
            append_str(&mut out, "&#39;");
        } else {
            out.push(ch);
        }
        assert(out@ =~= escaped(c@.take(i + 1)));
        i += 1;
    }
    assert(c@.take(c.len() as int) =~= c@);
    from_chars(&out)
}

/// Why a message was refused.
#[derive(Debug, Clone, Copy, PartialEq, Eq, Structural)]
pub enum MessageRefusal {
    /// Blank after trimming (answered with 400).
    Empty,
    /// Over [`MAX_MESSAGE_BYTES`] (answered with 413).
    TooLarge,
}

impl MessageRefusal {
    /// The HTTP status of the refusal.
    pub fn status(&self) -> (r: u16)
        ensures
            r == match self {
                MessageRefusal::Empty => 400u16,
                MessageRefusal::TooLarge => 413u16,
            },
    {
        match self {
            MessageRefusal::Empty => 400,
            MessageRefusal::TooLarge => 413,
        }
    }

    /// The error text.
    pub fn message(&self) -> (r: &'static str)
        ensures
            r@ == match self {
                MessageRefusal::Empty => "empty message"@,
                MessageRefusal::TooLarge => "message exceeds 32768 bytes"@,
            },
    {
        match self {
            MessageRefusal::Empty => "empty message",
            MessageRefusal::TooLarge => "message exceeds 32768 bytes",
        }
    }
}

/// Whether `s` is at most `limit` UTF-8 bytes long.
pub fn fits_utf8(s: &[char], limit: usize) -> (r: bool)
    ensures
        r == (utf8_len(s@) <= limit),
{
    let mut n: usize = 0;
    let mut i: usize = 0;
    assert(s@.take(0) =~= Seq::<char>::empty());
    while i < s.len()
        invariant
            i <= s.len(),
            n == utf8_len(s@.take(i as int)),
            n <= limit,
        decreases s.len() - i,
    {
        proof {
            lemma_utf8_len_push(s@.take(i as int), s@[i as int]);
            assert(s@.take(i as int).push(s@[i as int]) =~= s@.take(i + 1));
        }
        let w = char_utf8_width(s[i]);
        if w > limit - n {
            proof {
                assert(s@.take(i + 1) + s@.skip(i + 1) =~= s@);
                lemma_utf8_len_append(s@.take(i + 1), s@.skip(i + 1));
            }
            return false;
        }
        n = n + w;
        i += 1;
    }
    assert(s@.take(s.len() as int) =~= s@);
    true
}

/// The text of a message sent from the UI: trimmed, not blank, at most
/// [`MAX_MESSAGE_BYTES`] bytes.
pub fn validate_message_text(text: &str) -> (r: Result<String, MessageRefusal>)
    ensures
        ({
            let t = trim(text@);
            if t.len() == 0 {
                r == Err::<String, MessageRefusal>(MessageRefusal::Empty)
            } else if utf8_len(t) > MAX_MESSAGE_BYTES {
                r == Err::<String, MessageRefusal>(MessageRefusal::TooLarge)
            } else {
                r matches Ok(s) && s@ == t
            }
        }),
{
    let c = to_chars(text);
    let t = trim_chars(&c);
    if t.len() == 0 {
        return Err(MessageRefusal::Empty);
    }
    if !fits_utf8(&t, MAX_MESSAGE_BYTES) {
        return Err(MessageRefusal::TooLarge);
    }
    Ok(from_chars(&t))
}

/// A stored message as shown in the UI (its timestamp travels with the id).
pub struct DisplayMessage {
    pub id: i64,
    /// `user`, `assistant`, or `summary` (a compaction marker).
    pub role: &'static str,
    pub text: String,
}

/// How a stored row is shown: user rows as is, assistant rows without the
/// tool-results appendix, compaction rows as summary markers; other rows, and
/// blank user or assistant rows, are not shown.
pub open spec fn display_of(role: Seq<char>, content: Seq<char>) -> Option<(Seq<char>, Seq<char>)> {
    if role == "user"@ {
        if trim(content).len() == 0 { None } else { Some(("user"@, content)) }
    } else if role == "assistant"@ {
        let t = sanitized_reply(content);
        if trim(t).len() == 0 { None } else { Some(("assistant"@, t)) }
    } else if role == "compaction"@ {
        Some(("summary"@, content))
    } else {
        None
    }
}

/// The shown rows of a history, in order.
pub open spec fn displayed(rows: Seq<(i64, String, String)>) -> Seq<(i64, Seq<char>, Seq<char>)>
    decreases rows.len(),
{
    if rows.len() == 0 {
        Seq::empty()
    } else {
        let prev = displayed(rows.drop_last());
        let r = rows.last();
        match display_of(r.1@, r.2@) {
            Some((role, text)) => prev.push((r.0, role, text)),
            None => prev,
        }
    }
}

/// The views of display messages.
pub open spec fn display_views(v: Seq<DisplayMessage>) -> Seq<(i64, Seq<char>, Seq<char>)> {
    v.map_values(|m: DisplayMessage| (m.id, m.role@, m.text@))
}

/// Maps stored `(id, role, content)` rows to display messages.
pub fn history_for_display(rows: &[(i64, String, String)]) -> (r: Vec<DisplayMessage>)
    ensures
        display_views(r@) == displayed(rows@),
{
    let mut out: Vec<DisplayMessage> = Vec::new();
    let mut i: usize = 0;
    assert(rows@.take(0) =~= Seq::<(i64, String, String)>::empty());
    while i < rows.len()
        invariant
            i <= rows.len(),
            display_views(out@) == displayed(rows@.take(i as int)),
        decreases rows.len() - i,
    {
        let ghost before = out@;
        assert(rows@.take(i + 1).drop_last() =~= rows@.take(i as int));
        assert(rows@.take(i + 1).last() == rows@[i as int]);
        let id = rows[i].0;
        let rc = to_chars(rows[i].1.as_str());
        let content = rows[i].2.as_str();
        if eq_str(&rc, "user") {
            let cc = to_chars(content);
            if trim_chars(&cc).len() > 0 {
                out.push(DisplayMessage { id, role: "user", text: content.to_owned() });
            }
        } else if eq_str(&rc, "assistant") {
            let t = sanitize_user_reply(content);
            let tc = to_chars(t.as_str());
            if trim_chars(&tc).len() > 0 {
                out.push(DisplayMessage { id, role: "assistant", text: t });
            }
        } else if eq_str(&rc, "compaction") {
            out.push(DisplayMessage { id, role: "summary", text: content.to_owned() });
        }
        assert(display_views(out@) =~= displayed(rows@.take(i + 1)));
        i += 1;
    }
    assert(rows@.take(rows.len() as int) =~= rows@);
    out
}

/// The UI page: the template with the escaped title and the nonce filled in.
pub open spec fn ui_page(template: Seq<char>, title: Seq<char>, nonce: Seq<char>) -> Seq<char> {
    replace_all(replace_all(template, "__BOBACLAW_TITLE__"@, escaped(title)), "__CSP_NONCE__"@, nonce)
}

/// Fills in the UI page template.
pub fn render_ui_index(template: &str, title: &str, nonce: &str) -> (r: String)
    ensures
        r@ == ui_page(template@, title@, nonce@),
{
    let with_title = replace_all_str(template, "__BOBACLAW_TITLE__", html_escape(title).as_str());
    replace_all_str(with_title.as_str(), "__CSP_NONCE__", nonce)
}

/// A fresh nonce for one page load: 32 random hex digits.
pub fn fresh_nonce() -> (r: String)
    ensures
        r@.len() == 32,
{
    fresh_simple_uuid()
}

/// Whether a stored session belongs to the web UI of this agent group.
pub fn is_web_session(source: &str, agent_group: &str, expected_group: &str) -> (r: bool)
    ensures
        r == (source@ == "web"@ && agent_group@ == expected_group@),
{
    eq_str(&to_chars(source), "web") && crate::text::chars_eq(&to_chars(agent_group), &to_chars(expected_group))
}

/// The last frame of a turn: the sanitized reply of a finished turn, or the
/// error of a failed one.
pub fn turn_final_event(outcome: Result<AgentResponse, String>) -> (r: WebEvent)
    ensures
        match outcome {
            Ok(resp) => r matches WebEvent::Done { reply, session_id, run_id, interrupted }
                && reply@ == sanitized_reply(resp.text@) && session_id == resp.session_id && run_id
                == resp.run_id && interrupted == resp.interrupted,
            Err(e) => r matches WebEvent::Error { message } && message == e,
        },
{
    match outcome {
        Ok(resp) => WebEvent::Done {
            reply: sanitize_user_reply(resp.text.as_str()),
            session_id: resp.session_id,
            run_id: resp.run_id,
            interrupted: resp.interrupted,
        },
        Err(e) => WebEvent::Error { message: e },
    }
}

/// The address the standalone server listens on: an IPv6 bind address is
/// bracketed.
pub open spec fn listen_addr(bind: Seq<char>, port: u16) -> Seq<char> {
    let host = if contains(bind, ":"@) && !starts_with(bind, "["@) { "["@ + bind + "]"@ } else { bind };
    host + ":"@ + decimal(port as nat)
}

/// `host:port` for the standalone server.
pub fn listen_address(bind: &str, port: u16) -> (r: String)
    ensures
        r@ == listen_addr(bind@, port),
{
    let b = to_chars(bind);
    let mut out: Vec<char> = Vec::new();
    if contains_str(&b, ":") && !starts_with_str(&b, "[") {
        out.push('[');
        append_slice(&mut out, &b);
        out.push(']');
        assert(out@ =~= "["@ + bind@ + "]"@) by {
            reveal_strlit("[");
            reveal_strlit("]");
        }
    } else {
        append_slice(&mut out, &b);
    }
    append_str(&mut out, ":");
    append_slice(&mut out, &u64_decimal(port as u64));
    from_chars(&out)
}

} // verus!
