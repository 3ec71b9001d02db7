//! Bot API values and the rules for sending text within Telegram's limits.

use vstd::prelude::*;

use crate::telegram::format::{format_for_telegram, formatted_text, TelegramFormatMode};
use crate::telegram::split::{
    splittable, split_for_telegram, telegram_chunks, TELEGRAM_MAX_UTF16, TELEGRAM_SPLIT_UTF16,
};
use crate::text::{
    append_str, char_utf16_width, utf16_width, contains, contains_str, from_chars, to_ascii_lower,
    to_ascii_lower_chars, to_chars, utf16_count, lemma_utf16_count_push,
};

verus! {

/// Bot API base URL.
pub const API_BASE: &'static str = "https://api.telegram.org";

pub struct User {
    pub id: i64,
    pub username: Option<String>,
    pub is_bot: bool,
}

pub struct Chat {
    pub id: i64,
    pub chat_type: String,
    pub title: Option<String>,
}

pub struct MessageEntity {
    pub entity_type: String,
    pub offset: u32,
    pub length: u32,
    pub user: Option<User>,
}

pub struct PhotoSize {
    pub file_id: String,
    pub width: i32,
    pub height: i32,
}

pub struct Document {
    pub file_id: String,
    pub file_name: Option<String>,
    pub mime_type: Option<String>,
}

pub struct Voice {
    pub file_id: String,
}

pub struct Audio {
    pub file_id: String,
    pub file_name: Option<String>,
}

pub struct Video {
    pub file_id: String,
    pub file_name: Option<String>,
}

pub struct TelegramFile {
    pub file_id: String,
    pub file_path: Option<String>,
    pub file_size: Option<i64>,
}

pub struct Message {
    pub message_id: i64,
    pub chat: Chat,
    pub from: Option<User>,
    pub text: Option<String>,
    pub caption: Option<String>,
    pub document: Option<Document>,
    pub photo: Option<Vec<PhotoSize>>,
    pub voice: Option<Voice>,
    pub audio: Option<Audio>,
    pub video: Option<Video>,
    pub entities: Option<Vec<MessageEntity>>,
    pub reply_to_message: Option<Box<Message>>,
    pub message_thread_id: Option<i64>,
}

pub struct Update {
    pub update_id: i64,
    pub message: Option<Message>,
    pub edited_message: Option<Message>,
}

/// The Bot API URL of a method.
pub fn method_url(token: &str, method: &str) -> (r: String)
    ensures
        r@ == API_BASE@ + "/bot"@ + token@ + "/"@ + method@,
{
    let mut out = to_chars(API_BASE);
    append_str(&mut out, "/bot");
    append_str(&mut out, token);
    append_str(&mut out, "/");
    append_str(&mut out, method);
    from_chars(&out)
}

/// The download URL of a file.
pub fn file_download_url(token: &str, file_path: &str) -> (r: String)
    ensures
        r@ == API_BASE@ + "/file/bot"@ + token@ + "/"@ + file_path@,
{
    let mut out = to_chars(API_BASE);
    append_str(&mut out, "/file/bot");
    append_str(&mut out, token);
    append_str(&mut out, "/");
    append_str(&mut out, file_path);
    from_chars(&out)
}

/// Whether a Bot API error says the HTML could not be parsed.
pub open spec fn parse_error_text(err: Seq<char>) -> bool {
    let s = to_ascii_lower(err);
    contains(s, "parse"@) || contains(s, "entity"@) || contains(s, "can't find end"@)
}

/// Recognizes a Bot API error about the message's HTML.
pub fn is_telegram_parse_error(err: &str) -> (r: bool)
    ensures
        r == parse_error_text(err@),
{
    let c = to_chars(err);
    let l = to_ascii_lower_chars(&c);
    contains_str(&l, "parse") || contains_str(&l, "entity") || contains_str(&l, "can't find end")
}

/// Whether `s` is at most `limit` UTF-16 code units long.
pub fn fits_utf16(s: &str, limit: usize) -> (r: bool)
    ensures
        r == (utf16_count(s@) <= limit),
{
    let c = to_chars(s);
    let mut n: usize = 0;
    let mut i: usize = 0;
    assert(c@.take(0) =~= Seq::<char>::empty());
    while i < c.len()
        invariant
            i <= c.len(),
            c@ == s@,
            n == utf16_count(c@.take(i as int)),
            n <= limit,
        decreases c.len() - i,
    {
        proof {
            lemma_utf16_count_push(c@.take(i as int), c@[i as int]);
            assert(c@.take(i as int).push(c@[i as int]) =~= c@.take(i + 1));
        }
        let w = char_utf16_width(c[i]);
        if w > limit - n {
            proof {
                assert(c@.take(i + 1) + c@.skip(i + 1) =~= c@);
                crate::text::lemma_utf16_count_append(c@.take(i + 1), c@.skip(i + 1));
            }
            return false;
        }
        n = n + w;
        i += 1;
    }
    assert(c@.take(c.len() as int) =~= c@);
    true
}

/// Every text can be split for limits of two code units or more.
pub proof fn lemma_splittable(text: Seq<char>, max: nat)
    requires
        max >= 2,
    ensures
        splittable(text, max),
{
}

/// The messages a text is sent as: itself when it fits the hard limit,
/// otherwise its chunks at that limit.
pub open spec fn limited_parts(text: Seq<char>) -> Seq<Seq<char>> {
    if utf16_count(text) <= TELEGRAM_MAX_UTF16 {
        seq![text]
    } else {
        telegram_chunks(text, TELEGRAM_MAX_UTF16 as nat)
    }
}

/// Last-resort guard for a formatted text that still exceeds the hard limit:
/// split it at that limit instead of letting the Bot API refuse the message.
/// Nothing is dropped: the parts concatenate to the text, and each fits.
pub fn ensure_telegram_limit(text: &str) -> (r: Vec<String>)
    requires
        text@.len() <= usize::MAX / 2,
    ensures
        crate::progress::string_views(r@) == limited_parts(text@),
        crate::progress::string_views(r@).flatten() == text@,
        r@.len() > 0,
        forall|i: int| 0 <= i < r@.len() ==> utf16_count(#[trigger] r@[i]@) <= TELEGRAM_MAX_UTF16,
{
    if fits_utf16(text, TELEGRAM_MAX_UTF16) {
        let mut v: Vec<String> = Vec::new();
        v.push(text.to_owned());
        proof {
            assert(crate::progress::string_views(v@) =~= seq![text@]);
            seq![text@].lemma_flatten_one_element();
        }
        return v;
    }
    proof {
        lemma_splittable(text@, TELEGRAM_MAX_UTF16 as nat);
        crate::telegram::split::lemma_chunks_nonempty(text@, TELEGRAM_MAX_UTF16 as nat);
        crate::telegram::split::lemma_chunks_concat(text@, TELEGRAM_MAX_UTF16 as nat);
        crate::telegram::split::lemma_chunks_fit(text@, TELEGRAM_MAX_UTF16 as nat);
    }
    let parts = split_for_telegram(text, TELEGRAM_MAX_UTF16);
    proof {
        let c = crate::telegram::split::chunks(text@, TELEGRAM_MAX_UTF16 as nat);
        assert forall|i: int| 0 <= i < parts@.len() implies utf16_count(#[trigger] parts@[i]@)
            <= TELEGRAM_MAX_UTF16 by {
            assert(crate::progress::string_views(parts@)[i] == parts@[i]@);
            assert(parts@[i]@ == c[i]);
            if c[i].len() == 1 {
                assert(c[i].drop_first() =~= Seq::<char>::empty());
                assert(utf16_count(c[i].drop_first()) == 0);
                assert(utf16_count(c[i]) == utf16_width(c[i][0]));
            }
        }
    }
    parts
}

/// How one chunk of a reply is sent.
pub enum PartPlan {
    /// As one message in the requested format.
    Formatted,
    /// As one plain-text message (formatting made it too long and it cannot be split further).
    Plain,
    /// As several messages, one per piece, each in the requested format.
    Pieces(Vec<String>),
}

/// Decides how a chunk is sent: as is when its formatted text fits the limit;
/// otherwise split at half the chunk size, or sent as plain text when that
/// gives a single piece.
pub fn plan_part(text: &str, mode: TelegramFormatMode) -> (r: PartPlan)
    requires
        text@.len() <= usize::MAX / 2,
    ensures
        ({
            let f = formatted_text(text@, mode);
            let sub = telegram_chunks(text@, (TELEGRAM_SPLIT_UTF16 / 2) as nat);
            if utf16_count(f) <= TELEGRAM_MAX_UTF16 {
                r is Formatted
            } else if sub.len() <= 1 {
                r is Plain
            } else {
                r matches PartPlan::Pieces(p) && crate::progress::string_views(p@) == sub
            }
        }),
{
    let msg = format_for_telegram(text, mode);
    if fits_utf16(msg.text.as_str(), TELEGRAM_MAX_UTF16) {
        return PartPlan::Formatted;
    }
    proof {
        lemma_splittable(text@, (TELEGRAM_SPLIT_UTF16 / 2) as nat);
    }
    let sub = split_for_telegram(text, TELEGRAM_SPLIT_UTF16 / 2);
    if sub.len() <= 1 {
        PartPlan::Plain
    } else {
        PartPlan::Pieces(sub)
    }
}

} // verus!
