//! Slash commands in Telegram messages.

use vstd::prelude::*;
use vstd::string::StrSliceExecFns;

use crate::text::{
    chars_eq, first_ws, index_of, is_whitespace, is_ws, lemma_first_ws_at, lemma_index_of_at, lemma_trim_range, slice_of, starts_with, starts_with_str, to_ascii_lower, to_ascii_lower_chars, to_chars, trim, trim_end_index, trim_start_index,
};

verus! {

/// `s` without its leading `/` characters.
pub open spec fn trim_start_slash(s: Seq<char>) -> Seq<char>
    decreases s.len(),
{
    if s.len() > 0 && s[0] == '/' {
        trim_start_slash(s.drop_first())
    } else {
        s
    }
}

/// ASCII case-insensitive equality (`str::eq_ignore_ascii_case`).
pub open spec fn eq_ignore_ascii_case(a: Seq<char>, b: Seq<char>) -> bool {
    to_ascii_lower(a) == to_ascii_lower(b)
}

/// `(command, rest)` of a `/cmd[@bot] rest` message addressed to us.
pub open spec fn slash_command(text: Seq<char>, bot: Option<Seq<char>>) -> Option<(Seq<char>, Seq<char>)> {
    let t = trim(text);
    if !starts_with(t, "/"@) {
        None
    } else {
        let first = t.take(first_ws(t));
        let cmd0 = trim_start_slash(first);
        let at = index_of(cmd0, '@');
        let cmd: Option<Seq<char>> = if at < cmd0.len() {
            match bot {
                Some(b) => if eq_ignore_ascii_case(cmd0.skip(at + 1), b) {
                    Some(cmd0.take(at))
                } else {
                    None
                },
                None => Some(cmd0.take(at)),
            }
        } else {
            Some(cmd0)
        };
        match cmd {
            Some(c) => if c.len() == 0 {
                None
            } else {
                Some((c, trim(t.skip(first.len() as int))))
            },
            None => None,
        }
    }
}

/// Parse `/cmd` or `/cmd@botname` from a Telegram message.
pub fn parse_slash_command<'a>(text: &'a str, bot_username: Option<&str>) -> (r: Option<(&'a str, &'a str)>)
    ensures
        match r {
            Some((c, rest)) => slash_command(
                text@,
                match bot_username {
                    Some(b) => Some(b@),
                    None => None,
                },
            ) == Some((c@, rest@)),
            None => slash_command(
                text@,
                match bot_username {
                    Some(b) => Some(b@),
                    None => None,
                },
            ) is None,
        },
{
    let s = to_chars(text);
    let a = trim_start_index(&s);
    let b0 = trim_end_index(&s);
    let b = if b0 < a { a } else { b0 };
    let t = slice_of(&s, a, b);
    proof {
        lemma_trim_range(s@, a as int, b0 as int);
    }
    if !starts_with_str(&t, "/") {
        return None;
    }
    // end of the first word of `t`
    let mut k: usize = 0;
    while k < t.len() && !is_whitespace(t[k])
        invariant
            k <= t.len(),
            forall|j: int| 0 <= j < k ==> !is_ws(t@[j]),
        decreases t.len() - k,
    {
        k += 1;
    }
    proof {
        lemma_first_ws_at(t@, k as int);
    }
    // skip leading slashes
    let mut p: usize = 0;
    assert(t@.take(k as int).skip(0) =~= t@.take(k as int));
    while p < k && t[p] == '/'
        invariant
            p <= k <= t.len(),
            trim_start_slash(t@.take(k as int)) == trim_start_slash(t@.take(k as int).skip(p as int)),
        decreases k - p,
    {
        assert(t@.take(k as int).skip(p as int).drop_first() =~= t@.take(k as int).skip(p + 1));
        p += 1;
    }
    assert(t@.take(k as int).skip(p as int) =~= t@.subrange(p as int, k as int));
    // find '@' in cmd0 = t[p..k]
    let mut q: usize = p;
    while q < k && t[q] != '@'
        invariant
            p <= q <= k <= t.len(),
            forall|j: int| p <= j < q ==> t@[j] != '@',
        decreases k - q,
    {
        q += 1;
    }
    proof {
        let cmd0 = t@.subrange(p as int, k as int);
        assert forall|j: int| 0 <= j < q - p implies cmd0[j] != '@' by {
            assert(cmd0[j] == t@[p + j]);
        }
        if q < k {
            assert(cmd0[q - p] == t@[q as int]);
        }
        lemma_index_of_at(cmd0, '@', q - p);
    }
    let cmd_end: usize;
    if q < k {
        let mention = slice_of(&t, q + 1, k);
        assert(mention@ =~= t@.subrange(p as int, k as int).skip(q - p + 1));
        match bot_username {
            Some(bot) => {
                let bc = to_chars(bot);
                let ml = to_ascii_lower_chars(&mention);
                let bl = to_ascii_lower_chars(&bc);
                if chars_eq(&ml, &bl) {
                    cmd_end = q;
                } else {
                    return None;
                }
            },
            None => {
                cmd_end = q;
            },
        }
        assert(t@.subrange(p as int, cmd_end as int) =~= t@.subrange(p as int, k as int).take(
            q - p,
        ));
    } else {
        cmd_end = k;
    }
    if cmd_end == p {
        return None;
    }
    // rest = trim(t[k..])
    let tail = slice_of(&t, k, t.len());
    let ra = trim_start_index(&tail);
    let rb0 = trim_end_index(&tail);
    let rb = if rb0 < ra { ra } else { rb0 };
    proof {
        lemma_trim_range(tail@, ra as int, rb0 as int);
        assert(tail@ =~= t@.skip(k as int));
    }
    let cmd_str = text.substring_char(a + p, a + cmd_end);
    let rest_str = text.substring_char(a + k + ra, a + k + rb);
    proof {
        assert(s@.subrange(a as int, b as int) == t@);
        assert(cmd_str@ =~= t@.subrange(p as int, cmd_end as int));
        assert(rest_str@ =~= tail@.subrange(ra as int, rb as int));
    }
    Some((cmd_str, rest_str))
}

/// The help text listing the bot commands.
pub fn telegram_help_text() -> (r: &'static str)
    ensures
        r@ == "Команды BobaClaw:\n/new — новая сессия (сброс истории чата)\n/help — эта справка\n/pair — код pairing (личные сообщения)"@,
{
    "Команды BobaClaw:\n/new — новая сессия (сброс истории чата)\n/help — эта справка\n/pair — код pairing (личные сообщения)"
}

} // verus!
