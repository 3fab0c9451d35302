//! The requests that the administrator sends at start-up, and the log lines
//! written from their replies.
use vstd::prelude::*;
use vstd::string::*;
use vstd::utf8::*;

use crate::const_::{files, HEADER_NAME};
use crate::http_::{HeaderView, ParsedHeader};
use httparse::Error as HttparseError;

verus! {

/// Number of header slots used to parse the server's replies.
pub const LOG_HEADERS: usize = 10;

/// The request for `filename` that carries the administrator cookie `cookie`.
pub open spec fn admin_request_text(filename: Seq<char>, cookie: Seq<char>) -> Seq<char> {
    "GET "@ + filename + " HTTP/1.1\r\n"@ + HEADER_NAME@ + ": "@ + cookie + "\r\n\r\n"@
}

/// Writes the request for `filename` that carries the administrator cookie `cookie`.
pub fn admin_request(filename: &str, cookie: &str) -> (r: String)
    ensures
        r@ == admin_request_text(filename@, cookie@),
{
    let mut r = String::from_str("GET ");
    r.append(filename);
    r.append(" HTTP/1.1\r\n");
    r.append(HEADER_NAME);
    r.append(": ");
    r.append(cookie);
    r.append("\r\n\r\n");
    r
}

/// Writes the administrator's requests, one for each page of `files::LIST`, in order.
pub fn admin_requests(cookie: &str) -> (r: Vec<String>)
    ensures
        r@.len() == files::list_view().len(),
        forall|i: int| 0 <= i < r@.len() ==> #[trigger] r@[i]@ == admin_request_text(files::list_view()[i], cookie@),
{
    let mut r: Vec<String> = Vec::new();
    let mut i: usize = 0;
    while i < 6
        invariant
            i <= 6,
            r@.len() == i,
            forall|j: int| 0 <= j < i ==> #[trigger] r@[j]@ == admin_request_text(files::list_view()[j], cookie@),
        decreases 6 - i,
    {
        r.push(admin_request(files::LIST[i], cookie));
        i = i + 1;
    }
    r
}

/// The headers that `httparse::Response::parse` finds in `input` with a buffer of
/// `max_headers` header slots, or `None` where it reports an error.
pub uninterp spec fn httparse_response_headers(input: Seq<u8>, max_headers: usize) -> Option<Seq<HeaderView>>;

/// Calls `httparse::Response::parse` on `input` with `max_headers` empty header slots
/// and copies out the headers that it leaves. Claimed of it: the outcome is the one
/// named `httparse_response_headers`, a function of `input` and `max_headers` alone.
#[verifier::external_body]
fn parse_response_headers(input: &[u8], max_headers: usize) -> (r: Result<Vec<ParsedHeader>, HttparseError>)
    ensures
        r matches Ok(hs) ==> httparse_response_headers(input@, max_headers)
            == Some(hs@.map_values(|h: ParsedHeader| h.view_pair())),
        r is Err <==> httparse_response_headers(input@, max_headers) is None,
{
    let mut headers = vec![httparse::EMPTY_HEADER; max_headers];
    let mut response = httparse::Response::new(&mut headers);
    match response.parse(input) {
        Ok(_) => Ok(response.headers.iter().map(
            |h| ParsedHeader { name: h.name.to_string(), value: h.value.to_vec() },
        ).collect()),
        Err(e) => Err(e),
    }
}

/// Calls `std::str::from_utf8` and copies the text out. Claimed of it, as std
/// documents: it succeeds exactly on valid UTF-8, and the text is what the bytes encode.
#[verifier::external_body]
fn utf8_to_string(bytes: &[u8]) -> (r: Option<String>)
    ensures
        r is Some <==> valid_utf8(bytes@),
        r matches Some(s) ==> s@ == decode_utf8(bytes@),
{
    match std::str::from_utf8(bytes) {
        Ok(s) => Some(s.to_string()),
        Err(_) => None,
    }
}

/// The log line for the reply `response`: the name and the value of its second
/// header (the IV and the encrypted request), or `None` where the reply cannot be
/// parsed, has fewer than two headers, or the value is not UTF-8.
pub open spec fn log_line(response: Seq<u8>) -> Option<Seq<char>> {
    match httparse_response_headers(response, LOG_HEADERS) {
        Some(hs) => if hs.len() >= 2 && valid_utf8(hs[1].1) {
            Some(hs[1].0 + ": "@ + decode_utf8(hs[1].1) + "\n"@)
        } else {
            None
        },
        None => None,
    }
}

/// Writes the log line for the server's reply `response` (see `log_line`).
pub fn log_entry(response: &[u8]) -> (r: Option<String>)
    ensures
        match r {
            Some(s) => log_line(response@) == Some(s@),
            None => log_line(response@) is None,
        },
{
    let headers = match parse_response_headers(response, LOG_HEADERS) {
        Ok(hs) => hs,
        Err(_) => return None,
    };
    if headers.len() < 2 {
        return None;
    }
    let header = &headers[1];
    let encrypted = match utf8_to_string(header.value.as_slice()) {
        Some(s) => s,
        None => return None,
    };
    let mut line = String::from_str(header.name.as_str());
    line.append(": ");
    line.append(encrypted.as_str());
    line.append("\n");
    Some(line)
}

} // verus!
