//! Incoming Telegram messages: which ones reach the agent and what they carry.

use vstd::prelude::*;
use vstd::utf8::{encode_utf8, is_char_boundary};

use crate::channel::ChannelPeer;
use crate::telegram::api::{Message, MessageEntity, User};
use crate::text::{append_slice, eq_str, from_chars, i64_decimal, int_decimal, to_chars, trim, trim_chars};

verus! {

/// The kind of chat a message comes from.
#[derive(Debug, Clone, Copy, PartialEq, Eq, Structural)]
pub enum ChatKind {
    Private,
    Group,
    Supergroup,
    Channel,
}

/// A message accepted for the agent.
pub struct InboundMessage {
    pub peer: ChannelPeer,
    pub chat_kind: ChatKind,
    pub user_id: i64,
    pub user_name: Option<String>,
    pub text: String,
    pub message_id: i64,
    pub reply_to_message_id: Option<i64>,
    pub is_bot_mentioned: bool,
    pub is_reply_to_bot: bool,
}

/// The message's text, else its caption, untrimmed (empty when it has neither).
pub open spec fn raw_text(msg: Message) -> Seq<char> {
    match msg.text {
        Some(t) => t@,
        None => match msg.caption {
            Some(c) => c@,
            None => Seq::empty(),
        },
    }
}

/// A document, a non-empty photo list, a voice note, an audio or a video.
pub open spec fn has_attachments(msg: Message) -> bool {
    msg.document is Some || (msg.photo matches Some(p) && p@.len() > 0) || msg.voice is Some
        || msg.audio is Some || msg.video is Some
}

/// Whether the message carries a file.
pub fn message_has_attachments(msg: &Message) -> (r: bool)
    ensures
        r == has_attachments(*msg),
{
    msg.document.is_some() || match &msg.photo {
        Some(p) => p.len() > 0,
        None => false,
    } || msg.voice.is_some() || msg.audio.is_some() || msg.video.is_some()
}

/// ASCII lowercase of a byte.
pub open spec fn lower_byte(b: u8) -> u8 {
    if 65 <= b <= 90 {
        (b + 32) as u8
    } else {
        b
    }
}

/// Byte strings equal up to ASCII case.
pub open spec fn bytes_eq_ignore_ascii_case(a: Seq<u8>, b: Seq<u8>) -> bool {
    a.len() == b.len() && forall|i: int| 0 <= i < a.len() ==> lower_byte(#[trigger] a[i]) == lower_byte(b[i])
}

/// The bytes `start..end` of `bytes`, when that is a range between character boundaries.
pub open spec fn byte_slice(bytes: Seq<u8>, start: int, end: int) -> Option<Seq<u8>> {
    if start <= end && is_char_boundary(bytes, start) && is_char_boundary(bytes, end) {
        Some(bytes.subrange(start, end))
    } else {
        None
    }
}

/// A mention entity that names the bot: by `@username` (ASCII case ignored) or by user id.
pub open spec fn entity_mentions_bot(
    text_bytes: Seq<u8>,
    e: MessageEntity,
    bot_id: i64,
    bot_username: Option<Seq<char>>,
) -> bool {
    e.entity_type@ == "mention"@ && ((match bot_username {
        Some(u) => match byte_slice(text_bytes, e.offset as int, e.offset + e.length) {
            Some(s) => bytes_eq_ignore_ascii_case(s, seq![64u8] + encode_utf8(u)),
            None => false,
        },
        None => false,
    }) || (e.user matches Some(usr) && usr.id == bot_id))
}

/// Whether one of the message's entities mentions the bot.
pub open spec fn mentions_bot(msg: Message, bot_id: i64, bot_username: Option<Seq<char>>) -> bool {
    match msg.entities {
        Some(v) => exists|i: int|
            0 <= i < v@.len() && entity_mentions_bot(
                encode_utf8(raw_text(msg)),
                #[trigger] v@[i],
                bot_id,
                bot_username,
            ),
        None => false,
    }
}

fn bytes_match(a: &[u8], b: &[u8]) -> (r: bool)
    ensures
        r == bytes_eq_ignore_ascii_case(a@, b@),
{
    if a.len() != b.len() {
        return false;
    }
    let mut i: usize = 0;
    while i < a.len()
        invariant
            i <= a.len() == b.len(),
            forall|k: int| 0 <= k < i ==> lower_byte(#[trigger] a@[k]) == lower_byte(b@[k]),
        decreases a.len() - i,
    {
        let x = a[i];
        let y = b[i];
        let lx = if 65 <= x && x <= 90 {
            x + 32
        } else {
            x
        };
        let ly = if 65 <= y && y <= 90 {
            y + 32
        } else {
            y
        };
        if lx != ly {
            return false;
        }
        i += 1;
    }
    true
}

fn entity_names_bot(text: &str, e: &MessageEntity, bot_id: i64, bot_username: Option<&str>) -> (r: bool)
    ensures
        r == entity_mentions_bot(
            encode_utf8(text@),
            *e,
            bot_id,
            match bot_username {
                Some(u) => Some(u@),
                None => None,
            },
        ),
{
    let t = to_chars(e.entity_type.as_str());
    if !eq_str(&t, "mention") {
        return false;
    }
    let bytes = text.as_bytes();
    let start = e.offset as u64;
    let end = e.offset as u64 + e.length as u64;
    let by_name = match bot_username {
        Some(u) => {
            if end <= bytes.len() as u64 && text.is_char_boundary(start as usize) && text.is_char_boundary(
                end as usize,
            ) {
                let mut want: Vec<u8> = Vec::new();
                want.push(64u8);
                let ub = u.as_bytes();
                let mut k: usize = 0;
                while k < ub.len()
                    invariant
                        k <= ub.len(),
                        want@ == seq![64u8] + ub@.take(k as int),
                    decreases ub.len() - k,
                {
                    want.push(ub[k]);
                    assert(want@ =~= seq![64u8] + ub@.take(k + 1));
                    k += 1;
                }
                assert(ub@.take(ub.len() as int) =~= ub@);
                let s = start as usize;
                let en = end as usize;
                let mut got: Vec<u8> = Vec::new();
                let mut j: usize = s;
                while j < en
                    invariant
                        s <= j <= en <= bytes.len(),
                        got@ == bytes@.subrange(s as int, j as int),
                    decreases en - j,
                {
                    got.push(bytes[j]);
                    assert(got@ =~= bytes@.subrange(s as int, j + 1));
                    j += 1;
                }
                bytes_match(&got, &want)
            } else {
                proof {
                    vstd::utf8::encode_utf8_valid_utf8(text@);
                    if end > bytes.len() {
                        assert(!is_char_boundary(encode_utf8(text@), end as int));
                    }
                }
                false
            }
        },
        None => false,
    };
    if by_name {
        return true;
    }
    match &e.user {
        Some(usr) => usr.id == bot_id,
        None => false,
    }
}

/// Whether the message mentions the bot by username or user id.
pub fn message_mentions_bot(msg: &Message, bot_id: i64, bot_username: Option<&str>) -> (r: bool)
    ensures
        r == mentions_bot(
            *msg,
            bot_id,
            match bot_username {
                Some(u) => Some(u@),
                None => None,
            },
        ),
{
    let entities = match &msg.entities {
        Some(v) => v,
        None => return false,
    };
    let text: &str = match &msg.text {
        Some(t) => t.as_str(),
        None => match &msg.caption {
            Some(c) => c.as_str(),
            None => "",
        },
    };
    proof {
        reveal_strlit("");
        assert(text@ == raw_text(*msg));
    }
    let mut i: usize = 0;
    while i < entities.len()
        invariant
            i <= entities@.len(),
            text@ == raw_text(*msg),
            msg.entities == Some(*entities),
            forall|k: int|
                0 <= k < i ==> !entity_mentions_bot(
                    encode_utf8(raw_text(*msg)),
                    #[trigger] entities@[k],
                    bot_id,
                    match bot_username {
                        Some(u) => Some(u@),
                        None => None,
                    },
                ),
        decreases entities.len() - i,
    {
        if entity_names_bot(text, &entities[i], bot_id, bot_username) {
            assert(entity_mentions_bot(
                encode_utf8(raw_text(*msg)),
                entities@[i as int],
                bot_id,
                match bot_username {
                    Some(u) => Some(u@),
                    None => None,
                },
            ));
            assert(msg.entities->Some_0@[i as int] == entities@[i as int]);
            return true;
        }
        i += 1;
    }
    false
}

/// The kind of a chat type name (unknown names count as private).
pub open spec fn chat_kind_of(t: Seq<char>) -> ChatKind {
    if t == "group"@ {
        ChatKind::Group
    } else if t == "supergroup"@ {
        ChatKind::Supergroup
    } else if t == "channel"@ {
        ChatKind::Channel
    } else {
        ChatKind::Private
    }
}

fn chat_kind(t: &str) -> (r: ChatKind)
    ensures
        r == chat_kind_of(t@),
{
    let c = to_chars(t);
    if eq_str(&c, "group") {
        ChatKind::Group
    } else if eq_str(&c, "supergroup") {
        ChatKind::Supergroup
    } else if eq_str(&c, "channel") {
        ChatKind::Channel
    } else {
        ChatKind::Private
    }
}

/// The peer of a Telegram chat: the chat id and the thread id in decimal.
pub fn telegram_peer(chat_id: i64, thread_id: Option<i64>) -> (r: ChannelPeer)
    ensures
        r.channel@ == "telegram"@,
        r.peer@ == int_decimal(chat_id as int),
        match thread_id {
            Some(t) => r.thread_id matches Some(s) && s@ == int_decimal(t as int),
            None => r.thread_id is None,
        },
{
    let p = i64_decimal(chat_id);
    ChannelPeer {
        channel: "telegram".to_owned(),
        peer: from_chars(&p),
        thread_id: match thread_id {
            Some(t) => {
                let d = i64_decimal(t);
                Some(from_chars(&d))
            },
            None => None,
        },
    }
}

/// Whether a message is handed to the agent: it has text or a file, and a
/// sender that is not a bot.
pub open spec fn accepted(msg: Message) -> bool {
    (trim(raw_text(msg)).len() > 0 || has_attachments(msg)) && (msg.from matches Some(u) && !u.is_bot)
}

fn clone_opt(o: &Option<String>) -> (r: Option<String>)
    ensures
        r == *o,
{
    match o {
        Some(s) => Some(s.clone()),
        None => None,
    }
}

/// `m` is the inbound record of `msg`: every field as the message gives it.
pub open spec fn inbound_of(msg: Message, bot_id: i64, bot_username: Option<Seq<char>>, m: InboundMessage) -> bool {
    let u = msg.from->Some_0;
    &&& m.text@ == trim(raw_text(msg))
    &&& m.chat_kind == chat_kind_of(msg.chat.chat_type@)
    &&& m.peer.channel@ == "telegram"@
    &&& m.peer.peer@ == int_decimal(msg.chat.id as int)
    &&& match msg.message_thread_id {
        Some(t) => m.peer.thread_id matches Some(s) && s@ == int_decimal(t as int),
        None => m.peer.thread_id is None,
    }
    &&& m.user_id == u.id
    &&& m.user_name == (if u.username is Some { u.username } else { msg.chat.title })
    &&& m.message_id == msg.message_id
    &&& m.reply_to_message_id == match msg.reply_to_message {
        Some(rm) => Some(rm.message_id),
        None => None,
    }
    &&& m.is_bot_mentioned == mentions_bot(msg, bot_id, bot_username)
    &&& m.is_reply_to_bot == (msg.reply_to_message matches Some(rm) && rm.from matches Some(ru) && ru.id == bot_id)
}

/// The bot's user name as a character sequence.
pub open spec fn name_view(bot_username: Option<&str>) -> Option<Seq<char>> {
    match bot_username {
        Some(b) => Some(b@),
        None => None,
    }
}

/// The inbound message of a Telegram message, or `None` when it has neither
/// text nor a file, has no sender, or comes from a bot.
pub fn parse_message(msg: &Message, bot_id: i64, bot_username: Option<&str>) -> (r: Option<InboundMessage>)
    ensures
        match r {
            None => !accepted(*msg),
            Some(m) => {
                &&& accepted(*msg)
                &&& inbound_of(*msg, bot_id, name_view(bot_username), m)
            },
        },
{
    let raw: &str = match &msg.text {
        Some(t) => t.as_str(),
        None => match &msg.caption {
            Some(c) => c.as_str(),
            None => "",
        },
    };
    proof {
        reveal_strlit("");
    }
    let rc = to_chars(raw);
    let tc = trim_chars(&rc);
    assert(tc@ == trim(raw_text(*msg)));
    if tc.len() == 0 && !message_has_attachments(msg) {
        return None;
    }
    let user = match &msg.from {
        Some(u) => u,
        None => return None,
    };
    if user.is_bot {
        return None;
    }
    let kind = chat_kind(msg.chat.chat_type.as_str());
    let peer = telegram_peer(msg.chat.id, msg.message_thread_id);
    let mentioned = message_mentions_bot(msg, bot_id, bot_username);
    let reply_to_bot = match &msg.reply_to_message {
        Some(rm) => match &rm.from {
            Some(ru) => ru.id == bot_id,
            None => false,
        },
        None => false,
    };
    let user_name = if user.username.is_some() {
        clone_opt(&user.username)
    } else {
        clone_opt(&msg.chat.title)
    };
    Some(InboundMessage {
        peer,
        chat_kind: kind,
        user_id: user.id,
        user_name,
        text: from_chars(&tc),
        message_id: msg.message_id,
        reply_to_message_id: match &msg.reply_to_message {
            Some(rm) => Some(rm.message_id),
            None => None,
        },
        is_bot_mentioned: mentioned,
        is_reply_to_bot: reply_to_bot,
    })
}

/// How a user is shown: `@username`, else the user id.
pub fn display_user(user: &User) -> (r: String)
    ensures
        r@ == match user.username {
            Some(u) => "@"@ + u@,
            None => int_decimal(user.id as int),
        },
{
    match &user.username {
        Some(u) => {
            let mut out = to_chars("@");
            let uc = to_chars(u.as_str());
            append_slice(&mut out, &uc);
            from_chars(&out)
        },
        None => {
            let d = i64_decimal(user.id);
            from_chars(&d)
        },
    }
}

} // verus!
