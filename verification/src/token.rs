//! Token acquisition: deciding what the session-init response means.
//!
//! The anti-automation session token is embedded in the served HTML/JS as a
//! key named `SNlM0e`, quoted with either quote style, followed by a colon
//! and a quoted value. The extraction is the leftmost occurrence of that
//! pattern; the capture is the quoted value.

use vstd::prelude::*;
use vstd::string::StringExecFns;
use vstd::utf8::encode_utf8;
use vstd::utf8::valid_utf8;

use crate::error::Error;
use crate::text::contains_bytes;
use crate::text::bytes_match_at;
use crate::text::is_ascii_ws;
use crate::text::matches_at;
use crate::text::contains_seq;
use crate::text::string_from_utf8;
use crate::text::subrange_vec;
use crate::text::dec_digits;
use crate::text::u32_to_string;

verus! {

/// Whether `b` is one of the two quote bytes.
pub open spec fn is_quote(b: u8) -> bool {
    b == 0x22 || b == 0x27
}

fn is_quote_exec(b: u8) -> (r: bool)
    ensures
        r == is_quote(b),
{
    b == 0x22 || b == 0x27
}

/// The bytes of the fixed, case-sensitive token key.
pub open spec fn key_bytes() -> Seq<u8> {
    encode_utf8("SNlM0e"@)
}

/// The first position at or after `p` holding a byte that is not ASCII
/// whitespace, or `s.len()`.
pub open spec fn scan_non_ws(s: Seq<u8>, p: int) -> int
    decreases s.len() - p,
    when 0 <= p <= s.len()
{
    if p >= s.len() {
        p
    } else if is_ascii_ws(s[p]) {
        scan_non_ws(s, p + 1)
    } else {
        p
    }
}

/// The first position at or after `p` holding a quote byte, or `s.len()`.
pub open spec fn scan_quote(s: Seq<u8>, p: int) -> int
    decreases s.len() - p,
    when 0 <= p <= s.len()
{
    if p >= s.len() {
        p
    } else if !is_quote(s[p]) {
        scan_quote(s, p + 1)
    } else {
        p
    }
}

proof fn lemma_scan_non_ws_is(s: Seq<u8>, p: int, m: int)
    requires
        0 <= p <= m <= s.len(),
        forall|k: int| p <= k < m ==> is_ascii_ws(s[k]),
        m == s.len() || !is_ascii_ws(s[m]),
    ensures
        scan_non_ws(s, p) == m,
    decreases m - p,
{
    if p < m {
        lemma_scan_non_ws_is(s, p + 1, m);
    }
}

proof fn lemma_scan_quote_is(s: Seq<u8>, p: int, m: int)
    requires
        0 <= p <= m <= s.len(),
        forall|k: int| p <= k < m ==> !is_quote(s[k]),
        m == s.len() || is_quote(s[m]),
    ensures
        scan_quote(s, p) == m,
    decreases m - p,
{
    if p < m {
        lemma_scan_quote_is(s, p + 1, m);
    }
}

/// The capture of a token-pattern match beginning exactly at `i`: a quote,
/// the key, a quote, optional whitespace, a colon, optional whitespace, a
/// quote, and then a non-empty run of non-quote bytes closed by a quote.
/// `None` when no match begins at `i`.
pub open spec fn match_at_pos(s: Seq<u8>, i: int) -> Option<Seq<u8>> {
    let kl = key_bytes().len() as int;
    if !(0 <= i && i + kl + 2 <= s.len() && is_quote(s[i]) && matches_at(s, key_bytes(), i + 1)
        && is_quote(s[i + kl + 1])) {
        None
    } else {
        let j = scan_non_ws(s, i + kl + 2);
        if !(j < s.len() && s[j] == 58u8) {
            None
        } else {
            let k = scan_non_ws(s, j + 1);
            if !(k < s.len() && is_quote(s[k])) {
                None
            } else {
                let l = scan_quote(s, k + 1);
                if !(l < s.len() && l > k + 1) {
                    None
                } else {
                    Some(s.subrange(k + 1, l))
                }
            }
        }
    }
}

/// The capture of the leftmost token-pattern match at or after `i`.
pub open spec fn capture_from(s: Seq<u8>, i: int) -> Option<Seq<u8>>
    decreases s.len() - i,
    when 0 <= i <= s.len()
{
    if i >= s.len() {
        None
    } else {
        match match_at_pos(s, i) {
            Some(c) => Some(c),
            None => capture_from(s, i + 1),
        }
    }
}

/// The token captured by the leftmost match of the key pattern in `s`, if
/// any.
pub open spec fn snlm0e_capture(s: Seq<u8>) -> Option<Seq<u8>> {
    capture_from(s, 0)
}

fn try_match_at(s: &[u8], key: &[u8], i: usize) -> (r: Option<(usize, usize)>)
    requires
        i < s@.len(),
        key@ == key_bytes(),
    ensures
        match r {
            Some(ab) => ab.0 <= ab.1 <= s@.len() && match_at_pos(s@, i as int) == Some(
                s@.subrange(ab.0 as int, ab.1 as int),
            ),
            None => match_at_pos(s@, i as int) is None,
        },
{
    let n = s.len();
    let kl = key.len();
    if n - i < 2 || n - i - 2 < kl {
        return None;
    }
    if !is_quote_exec(s[i]) {
        return None;
    }
    if !bytes_match_at(s, key, i + 1) {
        return None;
    }
    if !is_quote_exec(s[i + kl + 1]) {
        return None;
    }
    let mut j = i + kl + 2;
    while j < n && crate::text::is_ws_exec(s[j])
        invariant
            i + kl + 2 <= j <= n,
            n == s@.len(),
            forall|k: int| i + kl + 2 <= k < j ==> is_ascii_ws(s@[k]),
        decreases n - j,
    {
        j += 1;
    }
    proof {
        lemma_scan_non_ws_is(s@, i + kl + 2, j as int);
    }
    if j >= n || s[j] != 58 {
        return None;
    }
    let mut k = j + 1;
    while k < n && crate::text::is_ws_exec(s[k])
        invariant
            j + 1 <= k <= n,
            n == s@.len(),
            forall|m: int| j + 1 <= m < k ==> is_ascii_ws(s@[m]),
        decreases n - k,
    {
        k += 1;
    }
    proof {
        lemma_scan_non_ws_is(s@, j + 1 as int, k as int);
    }
    if k >= n || !is_quote_exec(s[k]) {
        return None;
    }
    let mut l = k + 1;
    while l < n && !is_quote_exec(s[l])
        invariant
            k + 1 <= l <= n,
            n == s@.len(),
            forall|m: int| k + 1 <= m < l ==> !is_quote(s@[m]),
        decreases n - l,
    {
        l += 1;
    }
    proof {
        lemma_scan_quote_is(s@, k + 1 as int, l as int);
    }
    if l >= n || l == k + 1 {
        return None;
    }
    Some((k + 1, l))
}

/// The token captured by the leftmost match of the key pattern in `body`,
/// if any.
pub fn extract_snlm0e(body: &[u8]) -> (r: Option<Vec<u8>>)
    ensures
        match r {
            Some(c) => snlm0e_capture(body@) == Some(c@),
            None => snlm0e_capture(body@) is None,
        },
{
    let key = "SNlM0e".as_bytes();
    let n = body.len();
    let mut i: usize = 0;
    while i < n
        invariant
            i <= n,
            n == body@.len(),
            key@ == key_bytes(),
            snlm0e_capture(body@) == capture_from(body@, i as int),
        decreases n - i,
    {
        match try_match_at(body, key, i) {
            Some(ab) => {
                let (a, b) = ab;
                return Some(subrange_vec(body, a, b));
            },
            None => {},
        }
        i += 1;
    }
    None
}

/// What a session-init response means, decided from the HTTP status and the
/// body bytes alone.
pub enum InitOutcome {
    /// Status 401 or 403: bad or expired cookies.
    AuthStatus,
    /// A success status whose body carries a login-page marker: the server
    /// returned a sign-in page.
    AuthLogin,
    /// Any other non-success status.
    HttpError,
    /// No token found and the body mentions 429: rate limit likely exceeded.
    RateLimited,
    /// No token found.
    TokenMissing,
    /// The captured token bytes.
    Token(Seq<u8>),
}

/// Whether `status` is an HTTP success status.
pub open spec fn is_success_status(status: u16) -> bool {
    200 <= status < 300
}

/// Whether the body carries one of the literal substrings that mark a
/// sign-in redirect page.
pub open spec fn login_markers_present(b: Seq<u8>) -> bool {
    contains_seq(b, encode_utf8("\"identifier-shown\""@)) || contains_seq(
        b,
        encode_utf8("SignIn?continue"@),
    ) || contains_seq(b, encode_utf8("Sign in - Google Accounts"@))
}

/// What the session-init response means. Statuses 401 and 403 mean failed
/// authentication; any other non-success status is surfaced as is; a
/// success body carrying a login-page marker still means failed
/// authentication; otherwise the leftmost key-pattern capture is the token,
/// and its absence distinguishes a likely rate limit from a missing token.
pub open spec fn spec_init_outcome(status: u16, b: Seq<u8>) -> InitOutcome {
    if !is_success_status(status) {
        if status == 401 || status == 403 {
            InitOutcome::AuthStatus
        } else {
            InitOutcome::HttpError
        }
    } else if login_markers_present(b) {
        InitOutcome::AuthLogin
    } else {
        match snlm0e_capture(b) {
            Some(c) => InitOutcome::Token(c),
            None => if contains_seq(b, encode_utf8("429"@)) {
                InitOutcome::RateLimited
            } else {
                InitOutcome::TokenMissing
            },
        }
    }
}

/// Decide what a session-init response means: either the session token, or
/// the typed failure the response calls for, with its exact message.
pub fn evaluate_init_response(status: u16, body: &str) -> (r: Result<String, Error>)
    ensures
        match spec_init_outcome(status, encode_utf8(body@)) {
            InitOutcome::AuthStatus => (r matches Err(Error::Authentication(m)) && m@
                == "Authentication failed (status "@ + dec_digits(status as int)
                + "). Check cookies."@),
            InitOutcome::AuthLogin => (r matches Err(Error::Authentication(m)) && m@
                == "Authentication failed. Cookies might be invalid or expired."@),
            InitOutcome::HttpError => (r matches Err(Error::Parse(m)) && m@ == "HTTP error: "@
                + dec_digits(status as int)),
            InitOutcome::RateLimited => (r matches Err(Error::Parse(m)) && m@
                == "SNlM0e not found. Rate limit likely exceeded."@),
            InitOutcome::TokenMissing => (r matches Err(Error::Parse(m)) && m@
                == "SNlM0e value not found in response. Check cookie validity."@),
            InitOutcome::Token(c) => if valid_utf8(c) {
                r matches Ok(t) && encode_utf8(t@) == c
            } else {
                r matches Err(Error::Parse(m)) && m@
                    == "SNlM0e value not found in response. Check cookie validity."@
            },
        },
{
    if !(200 <= status && status < 300) {
        if status == 401 || status == 403 {
            let mut m = "Authentication failed (status ".to_owned();
            m.append(u32_to_string(status as u32).as_str());
            m.append("). Check cookies.");
            return Err(Error::Authentication(m));
        }
        let mut m = "HTTP error: ".to_owned();
        m.append(u32_to_string(status as u32).as_str());
        return Err(Error::Parse(m));
    }
    let bytes = body.as_bytes();
    if contains_bytes(bytes, "\"identifier-shown\"".as_bytes()) || contains_bytes(
        bytes,
        "SignIn?continue".as_bytes(),
    ) || contains_bytes(bytes, "Sign in - Google Accounts".as_bytes()) {
        return Err(Error::Authentication(
            "Authentication failed. Cookies might be invalid or expired.".to_owned(),
        ));
    }
    match extract_snlm0e(bytes) {
        Some(cap) => {
            proof {
                broadcast use vstd::utf8::encode_utf8_valid_utf8;
            }
            match string_from_utf8(cap) {
                Some(t) => Ok(t),
                None => Err(Error::Parse(
                    "SNlM0e value not found in response. Check cookie validity.".to_owned(),
                )),
            }
        },
        None => {
            if contains_bytes(bytes, "429".as_bytes()) {
                Err(Error::Parse("SNlM0e not found. Rate limit likely exceeded.".to_owned()))
            } else {
                Err(Error::Parse(
                    "SNlM0e value not found in response. Check cookie validity.".to_owned(),
                ))
            }
        },
    }
}

} // verus!
