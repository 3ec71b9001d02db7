//! `web_fetch`: URL policy and HTML-to-text reduction.

use vstd::prelude::*;

use crate::progress::{
    strip_html_tags_chars, strip_tags,
};
use crate::sources::{parse_url, parsed_view, url_parts};
use crate::tools::paths::{segments, split_char};
use crate::web::api::fits_utf8;
use crate::text::{
    append_slice, append_str, decimal, ends_with, ends_with_str, eq_str, starts_with, starts_with_str, u64_decimal, char_utf8_width, contains, contains_str, from_chars, join, join_chars, lemma_utf8_len_push, lemma_views_push, lines, slice_of, split_lines, to_ascii_lower, to_ascii_lower_chars, to_chars, trim, trim_chars, utf8_len, views,
};

verus! {

/// Longest accepted URL, in bytes.
pub const MAX_URL_LEN: usize = 2048;

/// The first 512 bytes of `s` when byte 512 falls on a character boundary,
/// otherwise all of `s` (`s.get(..512).unwrap_or(s)`).
pub open spec fn html_probe(s: Seq<char>) -> Seq<char> {
    if exists|k: int| 0 <= k <= s.len() && utf8_len(s.take(k)) == 512 {
        s.take(choose|k: int| 0 <= k <= s.len() && utf8_len(s.take(k)) == 512)
    } else {
        s
    }
}

/// Text that looks like an HTML document.
pub open spec fn html_like(s: Seq<char>) -> bool {
    let lower = to_ascii_lower(html_probe(s));
    contains(lower, "<html"@) || contains(lower, "<!doctype html"@)
}

proof fn lemma_utf8_prefix_strict(s: Seq<char>, a: int, b: int)
    requires
        0 <= a < b <= s.len(),
    ensures
        utf8_len(s.take(a)) < utf8_len(s.take(b)),
    decreases b - a,
{
    lemma_utf8_len_push(s.take(b - 1), s[b - 1]);
    assert(s.take(b - 1).push(s[b - 1]) =~= s.take(b));
    if a < b - 1 {
        lemma_utf8_prefix_strict(s, a, b - 1);
    }
}

fn html_probe_chars(s: &[char]) -> (r: Vec<char>)
    ensures
        r@ == html_probe(s@),
{
    let mut bytes: usize = 0;
    let mut k: usize = 0;
    assert(s@.take(0) =~= Seq::<char>::empty());
    while k < s.len() && bytes < 512
        invariant
            k <= s.len(),
            bytes == utf8_len(s@.take(k as int)),
            bytes < 516,
            bytes < 512 || k == 0 || utf8_len(s@.take(k - 1)) < 512,
        decreases s.len() - k,
    {
        proof {
            lemma_utf8_len_push(s@.take(k as int), s@[k as int]);
            assert(s@.take(k as int).push(s@[k as int]) =~= s@.take(k + 1));
        }
        bytes = bytes + char_utf8_width(s[k]);
        k += 1;
    }
    if bytes == 512 {
        proof {
            let w = choose|w: int| 0 <= w <= s@.len() && utf8_len(s@.take(w)) == 512;
            if w < k {
                lemma_utf8_prefix_strict(s@, w, k as int);
            }
            if w > k {
                lemma_utf8_prefix_strict(s@, k as int, w);
            }
        }
        let r = slice_of(s, 0, k);
        assert(r@ =~= s@.take(k as int));
        r
    } else {
        proof {
            assert forall|w: int| 0 <= w <= s@.len() implies utf8_len(s@.take(w)) != 512 by {
                if w < k {
                    lemma_utf8_prefix_strict(s@, w, k as int);
                    if w < k - 1 {
                        lemma_utf8_prefix_strict(s@, w, k - 1);
                    }
                } else if w > k {
                    lemma_utf8_prefix_strict(s@, k as int, w);
                }
            }
        }
        slice_of(s, 0, s.len())
    }
}

/// Whether the fetched body looks like an HTML page.
pub fn looks_like_html(s: &str) -> (r: bool)
    ensures
        r == html_like(s@),
{
    let c = to_chars(s);
    let probe = html_probe_chars(&c);
    let lower = to_ascii_lower_chars(&probe);
    contains_str(&lower, "<html") || contains_str(&lower, "<!doctype html")
}

/// Lines trimmed, with runs of blank lines collapsed to one.
pub open spec fn collapsed(ls: Seq<Seq<char>>) -> Seq<Seq<char>>
    decreases ls.len(),
{
    if ls.len() == 0 {
        Seq::empty()
    } else {
        let prev = collapsed(ls.drop_last());
        let t = trim(ls.last());
        if t.len() == 0 && prev.len() > 0 && prev.last().len() == 0 {
            prev
        } else {
            prev.push(t)
        }
    }
}

fn collapse_blank_lines_chars(s: &[char]) -> (r: Vec<char>)
    ensures
        r@ == join(collapsed(lines(s@)), "\n"@),
{
    let ls = split_lines(s);
    let mut out: Vec<Vec<char>> = Vec::new();
    let mut prev_blank = false;
    let mut i: usize = 0;
    assert(views(ls@).take(0) =~= Seq::<Seq<char>>::empty());
    while i < ls.len()
        invariant
            i <= ls.len(),
            views(ls@) == lines(s@),
            views(out@) == collapsed(views(ls@).take(i as int)),
            prev_blank == (out@.len() > 0 && views(out@).last().len() == 0),
        decreases ls.len() - i,
    {
        let t = trim_chars(&ls[i]);
        let blank = t.len() == 0;
        proof {
            assert(views(ls@).take(i + 1).drop_last() =~= views(ls@).take(i as int));
            assert(views(ls@).take(i + 1).last() == ls@[i as int]@);
        }
        if !(blank && prev_blank) {
            proof {
                lemma_views_push(out@, t);
            }
            out.push(t);
            prev_blank = blank;
        }
        i += 1;
    }
    assert(views(ls@).take(ls.len() as int) =~= views(ls@));
    let nl = to_chars("\n");
    join_chars(&out, &nl)
}

/// Trim every line and collapse runs of blank lines.
pub fn collapse_blank_lines(s: &str) -> (r: String)
    ensures
        r@ == join(collapsed(lines(s@)), "\n"@),
{
    let c = to_chars(s);
    let r = collapse_blank_lines_chars(&c);
    from_chars(&r)
}

/// HTML reduced to text: tags dropped, blank-line runs collapsed.
pub open spec fn html_text(html: Seq<char>) -> Seq<char> {
    join(collapsed(lines(strip_tags(html))), "\n"@)
}

pub fn html_to_text(html: &str) -> (r: String)
    ensures
        r@ == html_text(html@),
{
    let c = to_chars(html);
    let stripped = strip_html_tags_chars(&c);
    let r = collapse_blank_lines_chars(&stripped);
    from_chars(&r)
}

/// The message when `web_fetch` is switched off.
pub const WEB_FETCH_DISABLED: &'static str = "web_fetch is disabled — set tools.web_fetch.enabled: true in config.yaml";

/// Whether a lower-cased host names this machine or the local network.
pub open spec fn blocked_host_name(lower: Seq<char>) -> bool {
    lower == "localhost"@ || ends_with(lower, ".localhost"@) || ends_with(lower, ".local"@)
}

/// A decimal digit's value.
pub open spec fn digit_value(c: char) -> int {
    c as int - '0' as int
}

/// The value of a run of decimal digits.
pub open spec fn decimal_value(s: Seq<char>) -> int
    decreases s.len(),
{
    if s.len() == 0 {
        0
    } else {
        decimal_value(s.drop_last()) * 10 + digit_value(s.last())
    }
}

/// One part of a dotted IPv4 address as `std` reads it: one to three decimal
/// digits, no leading zero, at most 255.
pub open spec fn ipv4_part(s: Seq<char>) -> bool {
    &&& 1 <= s.len() <= 3
    &&& forall|i: int| 0 <= i < s.len() ==> '0' <= #[trigger] s[i] <= '9'
    &&& (s.len() > 1 ==> s[0] != '0')
    &&& decimal_value(s) <= 255
}

/// The four parts of a host that is an IPv4 address, if it is one.
pub open spec fn ipv4_parts(host: Seq<char>) -> Option<Seq<int>> {
    let ps = segments(host, '.');
    if ps.len() == 4 && forall|i: int| 0 <= i < 4 ==> ipv4_part(#[trigger] ps[i]) {
        Some(Seq::new(4, |i: int| decimal_value(ps[i])))
    } else {
        None
    }
}

/// Addresses `web_fetch` never fetches: loopback, unspecified, private,
/// link-local, broadcast, and `0.x.x.x`.
pub open spec fn blocked_ipv4(o: Seq<int>) -> bool {
    ||| o[0] == 127
    ||| (o[0] == 0 && o[1] == 0 && o[2] == 0 && o[3] == 0)
    ||| o[0] == 10
    ||| (o[0] == 172 && 16 <= o[1] <= 31)
    ||| (o[0] == 192 && o[1] == 168)
    ||| (o[0] == 169 && o[1] == 254)
    ||| (o[0] == 255 && o[1] == 255 && o[2] == 255 && o[3] == 255)
    ||| o[0] == 0
}

fn part_value(s: &[char]) -> (r: Option<u16>)
    ensures
        match r {
            Some(v) => ipv4_part(s@) && v == decimal_value(s@),
            None => !ipv4_part(s@),
        },
{
    if s.len() < 1 || s.len() > 3 {
        return None;
    }
    if s.len() > 1 && s[0] == '0' {
        return None;
    }
    let mut v: u16 = 0;
    let mut i: usize = 0;
    while i < s.len()
        invariant
            1 <= s.len() <= 3,
            i <= s.len(),
            forall|k: int| 0 <= k < i ==> '0' <= #[trigger] s@[k] <= '9',
            v == decimal_value(s@.take(i as int)),
            v < 1000,
            v <= if i == 0 { 0int } else if i == 1 { 9int } else if i == 2 { 99int } else { 999int },
        decreases s.len() - i,
    {
        let c = s[i];
        if !('0' <= c && c <= '9') {
            return None;
        }
        assert(s@.take(i + 1).drop_last() =~= s@.take(i as int));
        v = v * 10 + (c as u32 - '0' as u32) as u16;
        i += 1;
    }
    assert(s@.take(s.len() as int) =~= s@);
    if v > 255 {
        return None;
    }
    Some(v)
}

/// Reads a host as a dotted IPv4 address.
pub fn ipv4_octets(host: &str) -> (r: Option<Vec<u16>>)
    ensures
        match ipv4_parts(host@) {
            Some(o) => r matches Some(v) && v@.len() == 4 && forall|i: int| 0 <= i < 4 ==> v@[i] as int == o[i],
            None => r is None,
        },
{
    let parts = split_char(&to_chars(host), '.');
    if parts.len() != 4 {
        return None;
    }
    let mut out: Vec<u16> = Vec::new();
    let mut i: usize = 0;
    while i < 4
        invariant
            parts.len() == 4,
            views(parts@) == segments(host@, '.'),
            i <= 4,
            out@.len() == i,
            forall|k: int| 0 <= k < i ==> ipv4_part(#[trigger] segments(host@, '.')[k]) && out@[k] as int
                == decimal_value(segments(host@, '.')[k]),
        decreases 4 - i,
    {
        assert(views(parts@)[i as int] == parts@[i as int]@);
        match part_value(&parts[i]) {
            Some(v) => out.push(v),
            None => {
                return None;
            },
        }
        i += 1;
    }
    Some(out)
}

fn is_blocked_octets(o: &Vec<u16>) -> (r: bool)
    requires
        o@.len() == 4,
    ensures
        r == blocked_ipv4(Seq::new(4, |i: int| o@[i] as int)),
{
    let a = o[0];
    let b = o[1];
    let c = o[2];
    let d = o[3];
    a == 127 || (a == 0 && b == 0 && c == 0 && d == 0) || a == 10 || (a == 172 && 16 <= b && b <= 31) || (a
        == 192 && b == 168) || (a == 169 && b == 254) || (a == 255 && b == 255 && c == 255 && d == 255)
        || a == 0
}

/// What the URL policy says of a parsed URL: its host when it may be fetched,
/// or the refusal. (A bracketed IPv6 host is not an address to `std`'s parser
/// and passes.)
pub open spec fn parsed_policy(p: Result<(Seq<char>, Option<Seq<char>>), Seq<char>>) -> Result<Seq<char>, Seq<char>> {
    match p {
        Err(e) => Err("invalid url: "@ + e),
        Ok((scheme, host)) => if scheme != "http"@ && scheme != "https"@ {
            Err("only http and https URLs are allowed"@)
        } else {
            match host {
                None => Err("url missing host"@),
                Some(h) => if blocked_host_name(to_ascii_lower(h)) {
                    Err("blocked host: "@ + h)
                } else if ipv4_parts(h) matches Some(o) && blocked_ipv4(o) {
                    Err("blocked IP: "@ + h)
                } else {
                    Ok(h)
                },
            }
        },
    }
}

/// What the URL policy says of a URL.
pub open spec fn url_policy(url: Seq<char>) -> Result<Seq<char>, Seq<char>> {
    parsed_policy(url_parts(url))
}

/// Applies the URL policy to what parsing a URL gave (scheme, host present,
/// no local host names, no local or private IPv4 addresses).
pub fn check_parsed_url(parsed: Result<(String, Option<String>), String>) -> (r: Result<String, String>)
    ensures
        match (r, parsed_policy(parsed_view(parsed))) {
            (Ok(a), Ok(b)) => a@ == b,
            (Err(a), Err(b)) => a@ == b,
            _ => false,
        },
{
    match parsed {
        Err(e) => {
            let mut m = to_chars("invalid url: ");
            append_str(&mut m, e.as_str());
            Err(from_chars(&m))
        },
        Ok((scheme, host)) => {
            let sc = to_chars(scheme.as_str());
            if !eq_str(&sc, "http") && !eq_str(&sc, "https") {
                return Err("only http and https URLs are allowed".to_owned());
            }
            match host {
                None => Err("url missing host".to_owned()),
                Some(h) => {
                    let lower = to_ascii_lower_chars(&to_chars(h.as_str()));
                    if eq_str(&lower, "localhost") || ends_with_str(&lower, ".localhost") || ends_with_str(
                        &lower,
                        ".local",
                    ) {
                        let mut m = to_chars("blocked host: ");
                        append_str(&mut m, h.as_str());
                        Err(from_chars(&m))
                    } else {
                        match ipv4_octets(h.as_str()) {
                            Some(o) => {
                                if is_blocked_octets(&o) {
                                    let mut m = to_chars("blocked IP: ");
                                    append_str(&mut m, h.as_str());
                                    proof {
                                        let sq = ipv4_parts(h@)->Some_0;
                                        assert(Seq::new(4, |i: int| o@[i] as int) =~= sq);
                                    }
                                    return Err(from_chars(&m));
                                }
                                proof {
                                    let sq = ipv4_parts(h@)->Some_0;
                                    assert(Seq::new(4, |i: int| o@[i] as int) =~= sq);
                                }
                                Ok(h)
                            },
                            None => Ok(h),
                        }
                    }
                },
            }
        },
    }
}

/// Parses `url` and applies the URL policy.
pub fn check_fetch_url(url: &str) -> (r: Result<String, String>)
    ensures
        match (r, url_policy(url@)) {
            (Ok(a), Ok(b)) => a@ == b,
            (Err(a), Err(b)) => a@ == b,
            _ => false,
        },
{
    let parsed = parse_url(url);
    check_parsed_url(parsed)
}

/// What a `web_fetch` call is refused with, if anything, before the request is
/// sent: the tool is off, the arguments do not decode, the URL is blank, too
/// long, or against the policy.
pub open spec fn fetch_request_check(enabled: bool, url: Result<String, String>) -> Result<(Seq<char>, Seq<char>), Seq<char>> {
    if !enabled {
        Err(WEB_FETCH_DISABLED@)
    } else {
        match url {
            Err(e) => Err("invalid web_fetch arguments: "@ + e@),
            Ok(u) => {
                let t = trim(u@);
                if t.len() == 0 {
                    Err("url must not be empty"@)
                } else if utf8_len(t) > MAX_URL_LEN {
                    Err("url exceeds max length (2048)"@)
                } else {
                    match url_policy(t) {
                        Ok(h) => Ok((t, h)),
                        Err(m) => Err(m),
                    }
                }
            },
        }
    }
}

/// Checks a `web_fetch` call: the trimmed URL and its host, or the refusal.
pub fn check_fetch_request(enabled: bool, url: &Result<String, String>) -> (r: Result<(String, String), String>)
    ensures
        match (r, fetch_request_check(enabled, *url)) {
            (Ok((u, h)), Ok((a, b))) => u@ == a && h@ == b,
            (Err(a), Err(b)) => a@ == b,
            _ => false,
        },
{
    if !enabled {
        return Err(WEB_FETCH_DISABLED.to_owned());
    }
    match url {
        Err(e) => {
            let mut m = to_chars("invalid web_fetch arguments: ");
            append_str(&mut m, e.as_str());
            Err(from_chars(&m))
        },
        Ok(u) => {
            let t = trim_chars(&to_chars(u.as_str()));
            if t.len() == 0 {
                return Err("url must not be empty".to_owned());
            }
            if !fits_utf8(&t, MAX_URL_LEN) {
                return Err("url exceeds max length (2048)".to_owned());
            }
            let ts = from_chars(&t);
            match check_fetch_url(ts.as_str()) {
                Ok(h) => Ok((ts, h)),
                Err(m) => Err(m),
            }
        },
    }
}

/// Content types `web_fetch` accepts (lower-cased): unknown, text, JSON or XML.
pub open spec fn content_type_ok(ct: Seq<char>) -> bool {
    ct.len() == 0 || starts_with(ct, "text/"@) || contains(ct, "json"@) || contains(ct, "xml"@)
}

/// Checks the response's content type (lower-cased).
pub fn check_content_type(ct: &str) -> (r: Result<(), String>)
    ensures
        match r {
            Ok(_) => content_type_ok(ct@),
            Err(e) => !content_type_ok(ct@) && e@ == "unsupported content-type: "@ + ct@,
        },
{
    let c = to_chars(ct);
    if c.len() == 0 || starts_with_str(&c, "text/") || contains_str(&c, "json") || contains_str(&c, "xml") {
        Ok(())
    } else {
        let mut m = to_chars("unsupported content-type: ");
        append_str(&mut m, ct);
        Err(from_chars(&m))
    }
}

/// Checks the response's size against the limit.
pub fn check_body_size(len: usize, max_bytes: usize) -> (r: Result<(), String>)
    ensures
        match r {
            Ok(_) => len <= max_bytes,
            Err(e) => len > max_bytes && e@ == "response exceeds max size ("@ + decimal(len as nat)
                + " bytes, limit "@ + decimal(max_bytes as nat) + ")"@,
        },
{
    if len <= max_bytes {
        Ok(())
    } else {
        let mut m = to_chars("response exceeds max size (");
        append_slice(&mut m, &u64_decimal(len as u64));
        append_str(&mut m, " bytes, limit ");
        append_slice(&mut m, &u64_decimal(max_bytes as u64));
        append_str(&mut m, ")");
        Err(from_chars(&m))
    }
}

/// The text of a fetched body: HTML reduced to text, anything else as is.
pub open spec fn fetched_text(ct: Seq<char>, body: Seq<char>) -> Seq<char> {
    if contains(ct, "html"@) || html_like(body) {
        html_text(body)
    } else {
        body
    }
}

/// The reply of `web_fetch`.
pub open spec fn fetch_reply_text(url: Seq<char>, status: Seq<char>, ct: Seq<char>, body: Seq<char>) -> Seq<char> {
    "url: "@ + url + "\nstatus: "@ + status + "\ncontent-type: "@ + ct + "\n\n"@ + fetched_text(ct, body)
}

/// Formats a fetched page: its URL, status, content type and text.
pub fn fetch_reply(url: &str, status: &str, ct: &str, body: &str) -> (r: String)
    ensures
        r@ == fetch_reply_text(url@, status@, ct@, body@),
{
    let text = if contains_str(&to_chars(ct), "html") || looks_like_html(body) {
        html_to_text(body)
    } else {
        body.to_owned()
    };
    let mut m = to_chars("url: ");
    append_str(&mut m, url);
    append_str(&mut m, "\nstatus: ");
    append_str(&mut m, status);
    append_str(&mut m, "\ncontent-type: ");
    append_str(&mut m, ct);
    append_str(&mut m, "\n\n");
    append_str(&mut m, text.as_str());
    from_chars(&m)
}

} // verus!
