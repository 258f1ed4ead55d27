//! The Zyte API backend's own rules: the request body for each extraction
//! mode, how an HTTP status turns into an error message, how the page text
//! is recovered from the API's answer, and when a failed attempt is retried.

use vstd::prelude::*;
use vstd::string::StringExecFns;
use base64::Engine;
use crate::fetcher::AttemptError;
use crate::text::{decimal, decimal_string, opt_text};

verus! {

/// How Zyte API renders pages.
#[derive(Clone, Copy, Debug, PartialEq, Eq, Structural)]
pub enum ZyteMode {
    /// The raw HTTP response body.
    Http,
    /// The HTML after rendering in a browser.
    Browser,
}

/// The fields of Zyte API's answer that carry the page.
pub struct ZyteResponse {
    pub http_response_body: Option<String>,
    pub browser_html: Option<String>,
}

/// A hexadecimal digit, lower case.
pub open spec fn hex_digit(d: nat) -> char {
    if d < 10 {
        crate::text::digit(d)
    } else if d == 10 { 'a' }
    else if d == 11 { 'b' }
    else if d == 12 { 'c' }
    else if d == 13 { 'd' }
    else if d == 14 { 'e' }
    else { 'f' }
}

/// How one character is written inside a JSON string: quote, backslash and
/// the control characters below U+0020 are escaped, everything else is
/// written as is.
pub open spec fn json_escape(c: char) -> Seq<char> {
    if c == '"' {
        seq!['\\', '"']
    } else if c == '\\' {
        seq!['\\', '\\']
    } else if c == '\u{8}' {
        seq!['\\', 'b']
    } else if c == '\u{9}' {
        seq!['\\', 't']
    } else if c == '\u{a}' {
        seq!['\\', 'n']
    } else if c == '\u{c}' {
        seq!['\\', 'f']
    } else if c == '\u{d}' {
        seq!['\\', 'r']
    } else if (c as u32) < 0x20 {
        seq!['\\', 'u', '0', '0', hex_digit((c as u32 / 16) as nat), hex_digit((c as u32 % 16) as nat)]
    } else {
        seq![c]
    }
}

/// The escaped characters of `s`, in order.
pub open spec fn json_escaped(s: Seq<char>) -> Seq<char>
    decreases s.len(),
{
    if s.len() == 0 {
        Seq::empty()
    } else {
        json_escaped(s.drop_last()) + json_escape(s.last())
    }
}

/// `s` as a JSON string literal.
pub open spec fn json_quote(s: Seq<char>) -> Seq<char> {
    seq!['"'] + json_escaped(s) + seq!['"']
}

/// The body posted to Zyte API for `url`: a JSON object with the URL and the
/// flag for the extraction mode, keys in ascending order.
pub open spec fn request_json(url: Seq<char>, mode: ZyteMode) -> Seq<char> {
    match mode {
        ZyteMode::Http => "{\"httpResponseBody\":true,\"url\":"@ + json_quote(url) + "}"@,
        ZyteMode::Browser => "{\"browserHtml\":true,\"url\":"@ + json_quote(url) + "}"@,
    }
}

/// The canonical reason phrase of an HTTP status code (reqwest's
/// `StatusCode::canonical_reason`); `None` for codes without one.
pub uninterp spec fn status_reason(code: u16) -> Option<Seq<char>>;

/// Standard base64 decoding with padding (base64's `STANDARD.decode`): the
/// bytes, or the text of the decoding error.
pub uninterp spec fn base64_standard_decode(text: Seq<char>) -> Result<Seq<u8>, Seq<char>>;

/// The text of `bytes` read as UTF-8, each invalid sequence replaced by
/// U+FFFD (`String::from_utf8_lossy`).
pub uninterp spec fn utf8_lossy(bytes: Seq<u8>) -> Seq<char>;

/// A status in 200..=299 (`StatusCode::is_success`).
pub open spec fn success_status(code: u16) -> bool {
    200 <= code && code < 300
}

/// A status in 500..=599 (`StatusCode::is_server_error`).
pub open spec fn server_error_status(code: u16) -> bool {
    500 <= code && code < 600
}

/// How a status is displayed: the code, a space, and its reason phrase.
pub open spec fn status_display(code: u16) -> Seq<char> {
    decimal(code as nat) + " "@ + match status_reason(code) {
        Some(r) => r,
        None => "<unknown status code>"@,
    }
}

/// The error for a response with status `code` from `origin`: `None` for a
/// success, a message naming the server error or the non-retryable status
/// otherwise.
pub open spec fn status_failure_text(code: u16, url: Seq<char>, origin: Seq<char>) -> Option<Seq<char>> {
    if success_status(code) {
        None
    } else if server_error_status(code) {
        Some("5xx from "@ + origin + ": "@ + status_display(code) + " for "@ + url)
    } else {
        Some("non-retryable HTTP "@ + status_display(code) + " for "@ + url)
    }
}

/// The page carried by Zyte API's answer: the decoded HTTP body when there
/// is one, else the browser HTML, else an error.
pub open spec fn body_of(body: Option<Seq<char>>, html: Option<Seq<char>>) -> Result<Seq<char>, Seq<char>> {
    match body {
        Some(encoded) => match base64_standard_decode(encoded) {
            Ok(bytes) => Ok(utf8_lossy(bytes)),
            Err(e) => Err(e),
        },
        None => match html {
            Some(h) => Ok(h),
            None => Err("empty response body from Zyte API"@),
        },
    }
}

/// A failed attempt is retried when it was answered with a server error
/// (5xx) status.
pub open spec fn retry_due(outcome: Result<String, AttemptError>) -> bool {
    outcome matches Err(AttemptError::Status { code, .. }) && server_error_status(code)
}

/// `s` as a JSON string literal (serde_json's serialization of a string).
#[verifier::external_body]
fn json_string(s: &str) -> (r: String)
    ensures
        r@ == json_quote(s@),
{
    serde_json::Value::String(s.to_string()).to_string()
}

/// The canonical reason phrase of `code` (reqwest's `StatusCode`).
#[verifier::external_body]
fn reason_phrase(code: u16) -> (r: Option<String>)
    ensures
        opt_text(r) == status_reason(code),
        (code < 100 || code > 999) ==> r is None,
{
    match reqwest::StatusCode::from_u16(code) {
        Ok(s) => s.canonical_reason().map(|p| p.to_string()),
        Err(_) => None,
    }
}

/// Standard base64 decoding (base64's `STANDARD` engine).
#[verifier::external_body]
fn decode_base64(text: &str) -> (r: Result<Vec<u8>, String>)
    ensures
        match r {
            Ok(b) => base64_standard_decode(text@) == Ok::<Seq<u8>, Seq<char>>(b@),
            Err(e) => base64_standard_decode(text@) == Err::<Seq<u8>, Seq<char>>(e@),
        },
{
    base64::engine::general_purpose::STANDARD.decode(text).map_err(|e| e.to_string())
}

/// The bytes read as UTF-8 with invalid sequences replaced
/// (`String::from_utf8_lossy`); exactly the decoded text when the bytes
/// are valid UTF-8.
#[verifier::external_body]
fn lossy_text(bytes: &[u8]) -> (r: String)
    ensures
        r@ == utf8_lossy(bytes@),
        vstd::utf8::valid_utf8(bytes@) ==> r@ == vstd::utf8::decode_utf8(bytes@),
{
    String::from_utf8_lossy(bytes).into_owned()
}

/// The body posted to Zyte API to fetch `url` in `mode`.
pub fn request_body(url: &str, mode: ZyteMode) -> (r: String)
    ensures
        r@ == request_json(url@, mode),
{
    let head = match mode {
        ZyteMode::Http => String::from_str("{\"httpResponseBody\":true,\"url\":"),
        ZyteMode::Browser => String::from_str("{\"browserHtml\":true,\"url\":"),
    };
    head.concat(json_string(url).as_str()).concat("}")
}

/// Whether `code` is in 200..=299.
pub fn is_success(code: u16) -> (b: bool)
    ensures
        b == success_status(code),
{
    200 <= code && code < 300
}

/// Whether `code` is in 500..=599.
pub fn is_server_error(code: u16) -> (b: bool)
    ensures
        b == server_error_status(code),
{
    500 <= code && code < 600
}

/// How `code` is displayed in messages, e.g. `404 Not Found`.
pub fn status_text(code: u16) -> (r: String)
    ensures
        r@ == status_display(code),
{
    let num = decimal_string(code as u64);
    let reason = match reason_phrase(code) {
        Some(p) => p,
        None => String::from_str("<unknown status code>"),
    };
    num.concat(" ").concat(reason.as_str())
}

/// The failure for a response with status `code` for `url` from `origin`
/// (`Zyte API`, or `server` for direct requests); `None` on success.
pub fn status_failure(code: u16, url: &str, origin: &str) -> (r: Option<AttemptError>)
    ensures
        r is None <==> success_status(code),
        r matches Some(e) ==> (e matches AttemptError::Status { code: c, message } && c == code && Some(
            message@,
        ) == status_failure_text(code, url@, origin@)),
{
    if is_success(code) {
        None
    } else if is_server_error(code) {
        let message = String::from_str("5xx from ").concat(origin).concat(": ").concat(
            status_text(code).as_str(),
        ).concat(" for ").concat(url);
        Some(AttemptError::Status { code, message })
    } else {
        let message = String::from_str("non-retryable HTTP ").concat(status_text(code).as_str()).concat(
            " for ",
        ).concat(url);
        Some(AttemptError::Status { code, message })
    }
}

/// The page carried by Zyte API's answer; a failure to recover it is a
/// parse failure.
pub fn extract_body(resp: &ZyteResponse) -> (r: Result<String, AttemptError>)
    ensures
        match r {
            Ok(t) => body_of(opt_text(resp.http_response_body), opt_text(resp.browser_html)) == Ok::<
                Seq<char>,
                Seq<char>,
            >(t@),
            Err(e) => e matches AttemptError::Parse { message } && body_of(
                opt_text(resp.http_response_body),
                opt_text(resp.browser_html),
            ) == Err::<Seq<char>, Seq<char>>(message@),
        },
{
    match &resp.http_response_body {
        Some(encoded) => match decode_base64(encoded.as_str()) {
            Ok(bytes) => Ok(lossy_text(bytes.as_slice())),
            Err(e) => Err(AttemptError::Parse { message: e }),
        },
        None => match &resp.browser_html {
            Some(h) => Ok(h.clone()),
            None => Err(AttemptError::Parse { message: String::from_str("empty response body from Zyte API") }),
        },
    }
}

/// A failed attempt is due for a retry exactly when it was answered with a
/// status from 500 to 599, the server errors that `status_failure` reports.
pub proof fn law_retry_due_on_server_errors(outcome: Result<String, AttemptError>)
    ensures
        retry_due(outcome) <==> (outcome matches Err(AttemptError::Status { code, .. }) && 500 <= code && code
            < 600),
        retry_due(outcome) ==> (outcome matches Err(AttemptError::Status { code, .. }) && server_error_status(
            code,
        ) && !success_status(code)),
{
}

/// What to do after an attempt to fetch a page.
pub enum AttemptVerdict {
    /// The fetch is over with this result.
    Done(Result<String, AttemptError>),
    /// Wait this many seconds, then try once more.
    RetryAfterSecs(u64),
}

/// The verdict after attempt number `attempt` (0 for the first) ended with
/// `outcome`: a first attempt answered with a server error (5xx) is retried
/// once after two seconds; every other outcome is final.
pub fn after_attempt(attempt: u32, outcome: Result<String, AttemptError>) -> (v: AttemptVerdict)
    ensures
        match v {
            AttemptVerdict::RetryAfterSecs(s) => {
                &&& attempt == 0
                &&& retry_due(outcome)
                &&& s == 2
            },
            AttemptVerdict::Done(r) => {
                &&& r == outcome
                &&& !(attempt == 0 && retry_due(outcome))
            },
        },
        (attempt == 0 && (outcome matches Err(AttemptError::Status { code, .. }) && 500 <= code && code < 600))
            <==> (v matches AttemptVerdict::RetryAfterSecs(s) && s == 2),
{
    match outcome {
        Ok(body) => AttemptVerdict::Done(Ok(body)),
        Err(e) => {
            let due = match &e {
                AttemptError::Status { code, .. } => is_server_error(*code),
                _ => false,
            };
            if attempt == 0 && due {
                AttemptVerdict::RetryAfterSecs(2)
            } else {
                AttemptVerdict::Done(Err(e))
            }
        },
    }
}

} // verus!
