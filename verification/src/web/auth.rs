//! Bearer-token gate for the web API.

use vstd::prelude::*;

use crate::text::{to_ascii_lower, to_ascii_lower_chars, to_chars, trim, trim_chars, from_chars, slice_of, chars_eq, index_of};

verus! {

/// Token policy for the web API: `None` when no token is configured (loopback-only use).
pub struct WebAuth {
    token: Option<String>,
}

impl View for WebAuth {
    type V = Option<Seq<char>>;

    closed spec fn view(&self) -> Option<Seq<char>> {
        match self.token {
            Some(t) => Some(t@),
            None => None,
        }
    }
}

/// `std::hint::black_box`: the identity function, opaque to the optimizer.
#[verifier::external_body]
fn black_box_byte(x: u8) -> (r: u8)
    ensures
        r == x,
{
    std::hint::black_box(x)
}

/// Compares without an early exit on the first differing byte (the length is not secret).
pub fn constant_time_eq(a: &[u8], b: &[u8]) -> (r: bool)
    ensures
        r == (a@ == b@),
{
    if a.len() != b.len() {
        return false;
    }
    let mut diff: u8 = 0;
    let mut i: usize = 0;
    while i < a.len()
        invariant
            i <= a.len() == b.len(),
            (diff == 0) == (forall|k: int| 0 <= k < i ==> a@[k] == b@[k]),
        decreases a.len() - i,
    {
        let x = a[i];
        let y = b[i];
        let d = diff;
        assert(((d | (x ^ y)) == 0) == (d == 0 && x == y)) by (bit_vector);
        diff = d | (x ^ y);
        i += 1;
    }
    let r = black_box_byte(diff) == 0;
    assert(r ==> a@ =~= b@);
    r
}

/// The bearer token of an `Authorization` header value: `Bearer <token>` with the
/// scheme in any ASCII case, split at the first space of the trimmed value.
pub open spec fn bearer_of(value: Seq<char>) -> Option<Seq<char>> {
    let v = trim(value);
    let sp = index_of(v, ' ');
    if sp >= v.len() {
        None
    } else if to_ascii_lower(v.take(sp)) != "bearer"@ {
        None
    } else {
        let t = trim(v.skip(sp + 1));
        if t.len() == 0 {
            None
        } else {
            Some(t)
        }
    }
}

/// Reads the bearer token of an `Authorization` header value.
pub fn bearer_token(value: &str) -> (r: Option<String>)
    ensures
        match r {
            Some(t) => bearer_of(value@) == Some(t@),
            None => bearer_of(value@) is None,
        },
{
    let c = to_chars(value);
    let v = trim_chars(&c);
    let mut sp: usize = 0;
    while sp < v.len() && v[sp] != ' '
        invariant
            sp <= v.len(),
            forall|k: int| 0 <= k < sp ==> v@[k] != ' ',
        decreases v.len() - sp,
    {
        sp += 1;
    }
    proof {
        crate::text::lemma_index_of_at(v@, ' ', sp as int);
    }
    if sp >= v.len() {
        return None;
    }
    let scheme = slice_of(&v, 0, sp);
    assert(scheme@ =~= v@.take(sp as int));
    let lower = to_ascii_lower_chars(&scheme);
    let bearer = to_chars("bearer");
    if !chars_eq(&lower, &bearer) {
        return None;
    }
    let rest = slice_of(&v, sp + 1, v.len());
    assert(rest@ =~= v@.skip(sp + 1));
    let t = trim_chars(&rest);
    if t.len() == 0 {
        return None;
    }
    Some(from_chars(&t))
}

impl WebAuth {
    /// A token policy; an empty token counts as none.
    pub fn new(token: Option<String>) -> (r: Self)
        ensures
            r@ == match token {
                Some(t) => if t@.len() > 0 {
                    Some(t@)
                } else {
                    None
                },
                None => None,
            },
    {
        let token = match token {
            Some(t) => if t.as_str().is_empty() {
                None
            } else {
                Some(t)
            },
            None => None,
        };
        WebAuth { token }
    }

    /// Whether a token is required.
    pub fn token_configured(&self) -> (r: bool)
        ensures
            r == self@ is Some,
    {
        self.token.is_some()
    }

    /// Whether a request with this `Authorization` header value (if any) may
    /// proceed: always without a token; otherwise only with the same bearer token.
    pub fn authorize(&self, authorization: Option<&str>) -> (r: bool)
        ensures
            r == match self@ {
                None => true,
                Some(expected) => match authorization {
                    Some(v) => bearer_of(v@) == Some(expected),
                    None => false,
                },
            },
    {
        let expected = match &self.token {
            None => return true,
            Some(t) => t,
        };
        let value = match authorization {
            Some(v) => v,
            None => return false,
        };
        let presented = match bearer_token(value) {
            Some(p) => p,
            None => return false,
        };
        let pc = to_chars(presented.as_str());
        let ec = to_chars(expected.as_str());
        chars_eq(&pc, &ec)
    }
}

/// Why the web API may not be served.
pub enum BindRefusal {
    /// A non-loopback bind address without a token.
    OpenNonLoopback { bind: String },
}

impl BindRefusal {
    /// The error text.
    pub fn message(&self) -> (r: String)
        ensures
            match self {
                BindRefusal::OpenNonLoopback { bind } => r@ == "channels.web: refusing to serve the web UI on non-loopback bind "@
                    + bind@ + " without a token; set the env var named by channels.web.auth_token_env or bind to 127.0.0.1"@,
            },
    {
        match self {
            BindRefusal::OpenNonLoopback { bind } => {
                let mut out = to_chars("channels.web: refusing to serve the web UI on non-loopback bind ");
                crate::text::append_str(&mut out, bind.as_str());
                crate::text::append_str(
                    &mut out,
                    " without a token; set the env var named by channels.web.auth_token_env or bind to 127.0.0.1",
                );
                from_chars(&out)
            },
        }
    }
}

/// Refuses to expose the web API on a non-loopback address without a token.
pub fn check_bind_policy(bind: &str, bind_is_loopback: bool, auth: &WebAuth) -> (r: Result<(), BindRefusal>)
    ensures
        r is Ok == (auth@ is Some || bind_is_loopback),
        r matches Err(BindRefusal::OpenNonLoopback { bind: b }) ==> b@ == bind@,
{
    if auth.token_configured() || bind_is_loopback {
        Ok(())
    } else {
        Err(BindRefusal::OpenNonLoopback { bind: bind.to_owned() })
    }
}

} // verus!
