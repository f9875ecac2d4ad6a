//! The ChatGPT sign-in: reading the authorization code from the browser's
//! redirect to the local callback, the page sent back to the browser, and
//! whether stored sign-in data is still valid.
//!
//! Listening for the redirect, exchanging the code for tokens and storing
//! them are the caller's business.
use vstd::prelude::*;
use vstd::string::StrSliceExecFns;
use vstd::utf8::{decode_utf8, encode_utf8, valid_utf8};

use crate::text::{
    append_str, append_vec, chars_of, decimal, decimal_vec, lines, lines_vec, lit, opt_view, seq_eq,
    split_by, split_once, split_once_vec, split_vec, split_ws, split_ws_vec, string_of, views_v, CharClass,
};

verus! {

/// The value of an ASCII hexadecimal digit, either case.
pub open spec fn hex_value(b: u8) -> Option<u8> {
    if 48 <= b <= 57 {
        Some((b - 48) as u8)
    } else if 65 <= b <= 70 {
        Some((b - 55) as u8)
    } else if 97 <= b <= 102 {
        Some((b - 87) as u8)
    } else {
        None
    }
}

/// Percent-decoding of bytes: each `%` followed by two hexadecimal digits
/// becomes the byte they write; every other byte, a lone `%` included, is
/// kept.
pub open spec fn percent_decode_bytes(b: Seq<u8>) -> Seq<u8>
    decreases b.len(),
{
    if b.len() == 0 {
        b
    } else if b[0] == 37u8 && b.len() >= 3 && hex_value(b[1]) is Some && hex_value(b[2]) is Some {
        let hi = match hex_value(b[1]) {
            Some(h) => h,
            None => 0u8,
        };
        let lo = match hex_value(b[2]) {
            Some(l) => l,
            None => 0u8,
        };
        seq![(hi * 16 + lo) as u8] + percent_decode_bytes(b.skip(3))
    } else {
        seq![b[0]] + percent_decode_bytes(b.skip(1))
    }
}

/// What `urlencoding::decode` gives for a text: its UTF-8 bytes
/// percent-decoded, read back as text, or nothing when they are not UTF-8.
pub open spec fn url_decoded(v: Seq<char>) -> Option<Seq<char>> {
    let bytes = percent_decode_bytes(encode_utf8(v));
    if valid_utf8(bytes) {
        Some(decode_utf8(bytes))
    } else {
        None
    }
}

/// Calls `urlencoding::decode` and keeps the decoded text: the text's UTF-8
/// bytes with every `%` and two hexadecimal digits replaced by the byte they
/// write, checked as UTF-8; a decoding that is not UTF-8 gives `None`.  The
/// crate returns a text without `%` unchanged.
#[verifier::external_body]
fn percent_decode(v: &str) -> (r: Option<String>)
    ensures
        opt_view(r) == url_decoded(v@),
        !v@.contains('%') ==> opt_view(r) == Some(v@),
{
    urlencoding::decode(v).ok().map(|s| s.into_owned())
}

/// The first line of a request, empty when it has none.
pub open spec fn first_line(request: Seq<char>) -> Seq<char> {
    if lines(request).len() > 0 {
        lines(request)[0]
    } else {
        Seq::empty()
    }
}

/// The query of a request line: what follows the first `?` of its second
/// word (the path).
pub open spec fn request_query(line: Seq<char>) -> Option<Seq<char>> {
    let words = split_ws(line);
    if words.len() < 2 {
        None
    } else {
        match split_once(words[1], '?') {
            Some((_, q)) => Some(q),
            None => None,
        }
    }
}

/// The value of the first `code=` pair, percent-decoded when that gives
/// UTF-8 and as it stands otherwise.
pub open spec fn code_in(pairs: Seq<Seq<char>>) -> Option<Seq<char>>
    decreases pairs.len(),
{
    if pairs.len() == 0 {
        None
    } else {
        match split_once(pairs[0], '=') {
            Some((k, v)) => if k == "code"@ {
                Some(
                    match url_decoded(v) {
                        Some(d) => d,
                        None => v,
                    },
                )
            } else {
                code_in(pairs.drop_first())
            },
            None => code_in(pairs.drop_first()),
        }
    }
}

/// The authorization code a redirect request carries, or the message that
/// quotes its first line when it carries none.
pub open spec fn callback_code_of(request: Seq<char>) -> Result<Seq<char>, Seq<char>> {
    let line = first_line(request);
    match request_query(line) {
        Some(q) => match code_in(split_by(q, (seq!['&'], false, false))) {
            Some(c) => Ok(c),
            None => Err("No `code` in callback URL: "@ + line),
        },
        None => Err("No `code` in callback URL: "@ + line),
    }
}

fn code_in_vec(pairs: &Vec<Vec<char>>) -> (r: Option<String>)
    ensures
        opt_view(r) == code_in(views_v(pairs@)),
{
    let ghost pv = views_v(pairs@);
    let mut i: usize = 0;
    assert(pv.skip(0) =~= pv);
    while i < pairs.len()
        invariant
            i <= pairs.len(),
            pv == views_v(pairs@),
            code_in(pv) == code_in(pv.skip(i as int)),
        decreases pairs.len() - i,
    {
        assert(pv.skip(i as int).drop_first() =~= pv.skip(i + 1));
        assert(pv.skip(i as int)[0] == pairs@[i as int]@);
        if let Some((k, v)) = split_once_vec(&pairs[i], '=') {
            if seq_eq(&k, &chars_of("code")) {
                let vs = string_of(&v);
                return match percent_decode(vs.as_str()) {
                    Some(d) => Some(d),
                    None => Some(vs),
                };
            }
        }
        i += 1;
    }
    assert(pv.skip(pairs.len() as int) =~= Seq::<Seq<char>>::empty());
    None
}

/// The authorization code a redirect request carries (see
/// `callback_code_of`).
pub fn callback_code(request: &str) -> (r: Result<String, String>)
    ensures
        match callback_code_of(request@) {
            Ok(c) => r matches Ok(x) && x@ == c,
            Err(m) => r matches Err(e) && e@ == m,
        },
{
    let ls = lines_vec(&chars_of(request));
    let line = if ls.len() > 0 {
        crate::text::copy_vec(&ls[0])
    } else {
        Vec::new()
    };
    assert(line@ == first_line(request@));
    let mut message = chars_of("No `code` in callback URL: ");
    append_vec(&mut message, &line);
    let words = split_ws_vec(&line);
    if words.len() < 2 {
        return Err(string_of(&message));
    }
    assert(words@[1]@ == split_ws(line@)[1]);
    match split_once_vec(&words[1], '?') {
        None => Err(string_of(&message)),
        Some((_, q)) => {
            let pairs = split_vec(&q, &CharClass::single('&'));
            match code_in_vec(&pairs) {
                Some(c) => Ok(c),
                None => Err(string_of(&message)),
            }
        },
    }
}

/// The page the browser is shown once the redirect has arrived.
pub open spec fn callback_page() -> Seq<char> {
    "<html><body style=\"font-family:sans-serif;margin:80px auto;max-width:420px;text-align:center\"><h2>&#10003; Authentication complete</h2><p>You can close this tab and return to Orchestrix.</p></body></html>"@
}

/// The HTTP response carrying `callback_page`, with its length in bytes.
pub open spec fn callback_response_text() -> Seq<char> {
    "HTTP/1.1 200 OK\r\nContent-Type: text/html\r\nContent-Length: "@ + decimal(encode_utf8(callback_page()).len())
        + "\r\nConnection: close\r\n\r\n"@ + callback_page()
}

pub fn callback_response() -> (r: String)
    ensures
        r@ == callback_response_text(),
{
    let page = "<html><body style=\"font-family:sans-serif;margin:80px auto;max-width:420px;text-align:center\"><h2>&#10003; Authentication complete</h2><p>You can close this tab and return to Orchestrix.</p></body></html>";
    let n = page.as_bytes_vec().len();
    let mut out = chars_of("HTTP/1.1 200 OK\r\nContent-Type: text/html\r\nContent-Length: ");
    append_vec(&mut out, &decimal_vec(n as u64));
    append_str(&mut out, "\r\nConnection: close\r\n\r\n");
    append_str(&mut out, page);
    string_of(&out)
}

// ---------------------------------------------------------------------------
// Stored sign-in
// ---------------------------------------------------------------------------

/// The tokens of a sign-in and when they expire (seconds since the epoch).
#[derive(Debug)]
pub struct ChatGPTAuthData {
    pub access_token: String,
    pub refresh_token: String,
    pub expires_at: i64,
    pub account_id: Option<String>,
}

/// Whether the app is signed in, whether the sign-in has expired, and the
/// account.
#[derive(Debug)]
pub struct ChatGPTAuthStatus {
    pub authenticated: bool,
    pub is_expired: bool,
    pub account_id: Option<String>,
}

/// The status of the stored sign-in, if any, at `now` (seconds since the
/// epoch): it counts as expired from 30 seconds before its expiry.
pub fn chatgpt_auth_status(auth: Option<ChatGPTAuthData>, now: i64) -> (r: ChatGPTAuthStatus)
    requires
        auth matches Some(a) ==> a.expires_at >= i64::MIN + 30,
    ensures
        match auth {
            Some(a) => r.authenticated && r.is_expired == (a.expires_at - 30 < now) && opt_view(r.account_id)
                == opt_view(a.account_id),
            None => !r.authenticated && !r.is_expired && r.account_id is None,
        },
{
    match auth {
        Some(a) => ChatGPTAuthStatus { authenticated: true, is_expired: a.expires_at - 30 < now, account_id: a.account_id },
        None => ChatGPTAuthStatus { authenticated: false, is_expired: false, account_id: None },
    }
}

/// The current time in seconds since the epoch: chrono's
/// `Utc::now().timestamp()`.  Nothing is claimed of the value: it depends
/// on the clock.
#[verifier::external_body]
fn unix_now() -> (r: i64) {
    chrono::Utc::now().timestamp()
}

/// The status of the stored sign-in now (see `chatgpt_auth_status`).
pub fn current_chatgpt_auth_status(auth: Option<ChatGPTAuthData>) -> (r: ChatGPTAuthStatus)
    requires
        auth matches Some(a) ==> a.expires_at >= i64::MIN + 30,
    ensures
        match auth {
            Some(a) => r.authenticated && opt_view(r.account_id) == opt_view(a.account_id),
            None => !r.authenticated && !r.is_expired && r.account_id is None,
        },
{
    chatgpt_auth_status(auth, unix_now())
}

} // verus!
