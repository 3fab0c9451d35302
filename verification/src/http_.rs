//! Routing of HTTP requests and writing of the replies.
use vstd::prelude::*;
use vstd::slice::slice_to_vec;
use vstd::string::*;

use crate::const_::{files, ACCUEIL, HEADER_NAME, MAX_NB_HEADERS};
use crate::error::Error;
use http::Error as HttpError;
use httparse::Error as HttparseError;
use crate::text::{bytes_eq, extend_bytes, str_eq};

verus! {

// ---------------------------------------------------------------------------
// Requests

/// One header of a parsed request or reply: its name and its raw value.
pub struct ParsedHeader {
    pub name: String,
    pub value: Vec<u8>,
}

/// What the HTTP parser found in a request. On an incomplete request the
/// parser may leave `method` or `path` empty, and `headers` then holds every
/// slot of the header buffer, unused slots having an empty name and value.
pub struct ParsedRequest {
    pub method: Option<String>,
    pub path: Option<String>,
    pub headers: Vec<ParsedHeader>,
}

/// A header, as its name and value.
pub type HeaderView = (Seq<char>, Seq<u8>);

/// A parsed request, as method, path and headers.
pub type RequestView = (Option<Seq<char>>, Option<Seq<char>>, Seq<HeaderView>);

pub open spec fn opt_string_view(s: Option<String>) -> Option<Seq<char>> {
    match s {
        Some(s) => Some(s@),
        None => None,
    }
}

impl ParsedHeader {
    pub open spec fn view_pair(self) -> HeaderView {
        (self.name@, self.value@)
    }
}

impl View for ParsedRequest {
    type V = RequestView;

    open spec fn view(&self) -> RequestView {
        (
            opt_string_view(self.method),
            opt_string_view(self.path),
            self.headers@.map_values(|h: ParsedHeader| h.view_pair()),
        )
    }
}

/// What `httparse::Request::parse` finds in `input` with a buffer of
/// `max_headers` header slots, or `None` where it reports an error.
pub uninterp spec fn httparse_request(input: Seq<u8>, max_headers: usize) -> Option<RequestView>;

/// Calls `httparse::Request::parse` on `input` with `max_headers` empty header
/// slots and copies out what it found. Claimed of it: the outcome is the one
/// named `httparse_request`, a function of `input` and `max_headers` alone.
#[verifier::external_body]
fn parse_request(input: &[u8], max_headers: usize) -> (r: Result<ParsedRequest, HttparseError>)
    ensures
        r matches Ok(req) ==> httparse_request(input@, max_headers) == Some(req@),
        r is Err <==> httparse_request(input@, max_headers) is None,
{
    let mut headers = vec![httparse::EMPTY_HEADER; max_headers];
    let mut request = httparse::Request::new(&mut headers);
    match request.parse(input) {
        Ok(_) => Ok(ParsedRequest {
            method: request.method.map(|m| m.to_string()),
            path: request.path.map(|p| p.to_string()),
            headers: request.headers.iter().map(
                |h| ParsedHeader { name: h.name.to_string(), value: h.value.to_vec() },
            ).collect(),
        }),
        Err(e) => Err(e),
    }
}

/// Whether one of `headers` is the administrator cookie header with the value `cookie`.
pub open spec fn has_admin_cookie(headers: Seq<HeaderView>, cookie: Seq<u8>) -> bool {
    exists|i: int| 0 <= i < headers.len() && headers[i].0 == HEADER_NAME@ && headers[i].1 == cookie
}

/// The page that a request for `path` is answered with, or why there is none.
pub open spec fn route(path: Option<Seq<char>>, admin: bool) -> Result<Seq<char>, Error> {
    match path {
        Some(p) => if p == files::FLAG@ {
            if admin { Ok(files::FLAG@) } else { Err(Error::Forbidden) }
        } else if p == files::WELCOME@ {
            Ok(ACCUEIL@)
        } else if files::in_list(p) {
            Ok(p)
        } else {
            Err(Error::NoSuchFile)
        },
        None => Err(Error::NoSuchFile),
    }
}

/// The page that a parsed request is answered with, or why there is none.
pub open spec fn route_request(req: RequestView, cookie: Seq<u8>) -> Result<Seq<char>, Error> {
    if req.0 != Some("GET"@) {
        Err(Error::HttpMethod)
    } else {
        route(req.1, has_admin_cookie(req.2, cookie))
    }
}

/// The page that the request in `input` is answered with, or why there is none.
pub open spec fn route_input(input: Seq<u8>, cookie: Seq<u8>) -> Result<Seq<char>, Error> {
    match httparse_request(input, MAX_NB_HEADERS) {
        None => Err(Error::HttpParsing),
        Some(req) => route_request(req, cookie),
    }
}

/// Relates a page name in an executable result to one in a specification.
pub open spec fn same_outcome(r: Result<String, Error>, s: Result<Seq<char>, Error>) -> bool {
    match r {
        Ok(page) => s == Ok::<Seq<char>, Error>(page@),
        Err(e) => s == Err::<Seq<char>, Error>(e),
    }
}

/// Whether `headers` carry the administrator cookie `admin_cookie`.
pub fn is_admin(headers: &[ParsedHeader], admin_cookie: &[u8]) -> (r: bool)
    ensures
        r == has_admin_cookie(headers@.map_values(|h: ParsedHeader| h.view_pair()), admin_cookie@),
{
    let ghost hs = headers@.map_values(|h: ParsedHeader| h.view_pair());
    let n = headers.len();
    let mut i: usize = 0;
    while i < n
        invariant
            n == headers@.len(),
            hs == headers@.map_values(|h: ParsedHeader| h.view_pair()),
            i <= n,
            forall|j: int| 0 <= j < i ==> !(hs[j].0 == HEADER_NAME@ && hs[j].1 == admin_cookie@),
        decreases n - i,
    {
        let h = &headers[i];
        if str_eq(h.name.as_str(), HEADER_NAME) && bytes_eq(h.value.as_slice(), admin_cookie) {
            assert(hs[i as int].0 == HEADER_NAME@ && hs[i as int].1 == admin_cookie@);
            return true;
        }
        i = i + 1;
    }
    false
}

/// The flag page, for a request that carries the administrator cookie.
pub fn serve_flag(request: &ParsedRequest, admin_cookie: &[u8]) -> (r: Result<String, Error>)
    ensures
        same_outcome(r, route(Some(files::FLAG@), has_admin_cookie(request@.2, admin_cookie@))),
{
    if !is_admin(request.headers.as_slice(), admin_cookie) {
        return Err(Error::Forbidden);
    }
    Ok(String::from_str(files::FLAG))
}

/// Chooses the page for a GET request, checking the administrator cookie for the flag.
pub fn deal_with_path(request: &ParsedRequest, admin_cookie: &[u8]) -> (r: Result<String, Error>)
    ensures
        same_outcome(r, route(request@.1, has_admin_cookie(request@.2, admin_cookie@))),
{
    match &request.path {
        Some(path) => {
            let p = path.as_str();
            if str_eq(p, files::FLAG) {
                serve_flag(request, admin_cookie)
            } else if str_eq(p, files::WELCOME) {
                Ok(String::from_str(ACCUEIL))
            } else if files::list_contains(p) {
                Ok(String::from_str(p))
            } else {
                Err(Error::NoSuchFile)
            }
        },
        None => Err(Error::NoSuchFile),
    }
}

/// Parses the request in `input` and names the page it is answered with; the
/// caller reads that page (see `files::get`) or reports why there is none.
pub fn handle_http(input: &[u8], admin_cookie: &[u8]) -> (r: Result<String, Error>)
    ensures
        same_outcome(r, route_input(input@, admin_cookie@)),
        r matches Ok(page) ==> files::is_known(page@),
{
    let request = match parse_request(input, MAX_NB_HEADERS) {
        Ok(request) => request,
        Err(_) => return Err(Error::HttpParsing),
    };
    let is_get = match &request.method {
        Some(m) => str_eq(m.as_str(), "GET"),
        None => false,
    };
    if !is_get {
        return Err(Error::HttpMethod);
    }
    let r = deal_with_path(&request, admin_cookie);
    proof {
        reveal_strlit("/");
        reveal_strlit("/welcome.html");
    }
    r
}

// ---------------------------------------------------------------------------
// Replies

/// Name of the header that gives the length of a reply's body.
pub const CONTENT_LENGTH: &'static str = "Content-Length";

/// Body of the reply to a request for the flag without the administrator cookie.
pub const FORBIDDEN_PAGE: &'static str = "An admin cookie is required in order to connect to this page!";
/// Body of the reply to a request whose method is not GET.
pub const METHOD_PAGE: &'static str = "Only GET requests are supported!";
/// Body of the reply to a request for a page that does not exist.
pub const NOT_FOUND_PAGE: &'static str = "This file does not exist!";
/// Body of the reply to bytes that are not an HTTP request.
pub const NOT_HTTP_PAGE: &'static str = "This is not valid HTTP!";
/// Body of the reply when anything else went wrong.
pub const UNEXPECTED_PAGE: &'static str = "Unexpected error. Not part of the challenge.";

/// One header line of a reply head, as `http` hands it out: the name is absent on
/// the second and later values of a name, and the value is absent where it is not
/// visible ASCII.
pub struct HeaderLine {
    pub name: Option<Vec<u8>>,
    pub value: Option<Vec<u8>>,
}

/// The head of a reply: the version and the status as `http` prints them for
/// debugging (`HTTP/1.1`, `404`), and the header lines in order.
pub struct ResponseHead {
    pub version: Vec<u8>,
    pub status: Vec<u8>,
    pub headers: Vec<HeaderLine>,
}

pub type HeaderLineView = (Option<Seq<u8>>, Option<Seq<u8>>);

pub type ResponseHeadView = (Seq<u8>, Seq<u8>, Seq<HeaderLineView>);

pub open spec fn opt_bytes_view(v: Option<Vec<u8>>) -> Option<Seq<u8>> {
    match v {
        Some(v) => Some(v@),
        None => None,
    }
}

impl HeaderLine {
    pub open spec fn view_pair(self) -> HeaderLineView {
        (opt_bytes_view(self.name), opt_bytes_view(self.value))
    }
}

impl View for ResponseHead {
    type V = ResponseHeadView;

    open spec fn view(&self) -> ResponseHeadView {
        (self.version@, self.status@, self.headers@.map_values(|h: HeaderLine| h.view_pair()))
    }
}

/// The bytes of `HTTP/1.1`, the version that `http` gives a reply by default.
pub open spec fn http11() -> Seq<u8> {
    seq![72u8, 84u8, 84u8, 80u8, 47u8, 49u8, 46u8, 49u8]
}

/// The decimal writing of `n`, without leading zeros.
pub open spec fn decimal(n: nat) -> Seq<u8>
    decreases n,
{
    if n < 10 {
        seq![(48 + n) as u8]
    } else {
        decimal(n / 10).push((48 + n % 10) as u8)
    }
}

/// The first line of a reply with status `code`: `HTTP/1.1 <code>` and a line break.
pub open spec fn status_line(code: u16) -> Seq<u8> {
    http11() + seq![32u8] + decimal(code as nat) + seq![13u8, 10u8]
}

/// Whether `c` may stand in a header name as written here: an ASCII letter, a digit
/// or `-` (a part of the characters that `http` accepts in header names).
pub open spec fn is_name_char(c: char) -> bool {
    ('a' <= c && c <= 'z') || ('A' <= c && c <= 'Z') || ('0' <= c && c <= '9') || c == '-'
}

/// Whether `s` is a header name made of letters, digits and `-`, of a length that
/// `http` accepts.
pub open spec fn is_plain_name(s: Seq<char>) -> bool {
    1 <= s.len() <= 65535 && forall|i: int| 0 <= i < s.len() ==> is_name_char(#[trigger] s[i])
}

/// Whether every character of `s` is visible ASCII or a space.
pub open spec fn is_visible_text(s: Seq<char>) -> bool {
    forall|i: int| 0 <= i < s.len() ==> ' ' <= #[trigger] s[i] && s[i] <= '~'
}

/// The byte of the ASCII character `c`, an upper-case letter turned to lower case.
pub open spec fn lower_byte(c: char) -> u8 {
    if 'A' <= c && c <= 'Z' {
        (c as int + 32) as u8
    } else {
        c as u8
    }
}

/// The bytes of the ASCII text `s` in lower case, as `http` stores header names.
pub open spec fn lowercase(s: Seq<char>) -> Seq<u8> {
    Seq::new(s.len(), |i: int| lower_byte(s[i]))
}

/// The bytes of the ASCII text `s`.
pub open spec fn ascii_bytes(s: Seq<char>) -> Seq<u8> {
    Seq::new(s.len(), |i: int| s[i] as u8)
}

/// Whether the builder takes status `code`, the header `length_name` and the header
/// `name: value` as written.
pub open spec fn plain_head_args(code: u16, length_name: Seq<char>, name: Seq<char>, value: Seq<char>) -> bool {
    &&& 100 <= code <= 999
    &&& is_plain_name(length_name)
    &&& is_plain_name(name)
    &&& lowercase(length_name) != lowercase(name)
    &&& is_visible_text(value)
}

/// The header lines of a reply head whose headers were taken as written.
pub open spec fn plain_head_lines(length_name: Seq<char>, length: usize, name: Seq<char>, value: Seq<char>) -> Seq<HeaderLineView> {
    seq![
        (Some(lowercase(length_name)), Some(decimal(length as nat))),
        (Some(lowercase(name)), Some(ascii_bytes(value))),
    ]
}

/// The head of the reply that `http::Response::builder()` makes with status `code`,
/// a header `length_name` whose value is `length`, and a header `name: value`;
/// `None` where the builder reports an error.
pub uninterp spec fn http_response_head(
    code: u16,
    length_name: Seq<char>,
    length: usize,
    name: Seq<char>,
    value: Seq<char>,
) -> Option<ResponseHeadView>;

/// Builds a reply head with `http::Response::builder()`: status `code`, then the header
/// `length_name: length`, then the header `name: value`, and copies out its version and
/// status as printed by `{:?}` and its header lines in the order of the header map.
/// Claimed of it: the outcome is the one named `http_response_head`, a function of the
/// arguments alone; the builder refuses status codes outside 100 to 999
/// (`StatusCode::from_u16`); the version is the default `HTTP/1.1` (`Version::default`),
/// and the status prints as its decimal number (`Debug` of `StatusCode` prints the `u16`).
/// For a valid code, two header names of letters, digits and `-` that differ once
/// lowered, and a value of visible ASCII, the builder succeeds and the header lines are,
/// in insertion order, the lowered first name with the decimal `length` (`itoa`) and the
/// lowered second name with the value: `HeaderName::from_bytes` lowers letters through
/// `HEADER_CHARS`, `HeaderValue::from_str` and `to_str` accept visible ASCII, and the
/// header map iterates its entries in the order they were appended.
#[verifier::external_body]
fn response_head(code: u16, length_name: &str, length: usize, name: &str, value: &str) -> (r: Result<ResponseHead, HttpError>)
    ensures
        r matches Ok(head) ==> http_response_head(code, length_name@, length, name@, value@) == Some(head@),
        r is Err <==> http_response_head(code, length_name@, length, name@, value@) is None,
        r is Ok ==> 100 <= code <= 999,
        r matches Ok(head) ==> head.version@ == http11() && head.status@ == decimal(code as nat),
        r is Ok <== plain_head_args(code, length_name@, name@, value@),
        r matches Ok(head) ==> (plain_head_args(code, length_name@, name@, value@)
            ==> head@.2 == plain_head_lines(length_name@, length, name@, value@)),
{
    let response = http::Response::builder().status(code).header(length_name, length).header(name, value).body(())?;
    let (parts, _) = response.into_parts();
    Ok(ResponseHead {
        version: format!("{:?}", parts.version).into_bytes(),
        status: format!("{:?}", parts.status).into_bytes(),
        headers: parts.headers.into_iter().map(|(n, v)| HeaderLine {
            name: n.map(|n| n.as_str().as_bytes().to_vec()),
            value: v.to_str().ok().map(|s| s.as_bytes().to_vec()),
        }).collect(),
    })
}

/// The status code that answers `buffer`.
pub open spec fn reply_code(buffer: Result<Vec<u8>, Error>) -> u16 {
    match buffer {
        Ok(_) => 200,
        Err(Error::Forbidden) => 403,
        Err(Error::HttpMethod) => 405,
        Err(Error::NoSuchFile) => 404,
        Err(Error::HttpParsing) => 404,
        Err(_) => 500,
    }
}

/// The body that answers `buffer`.
pub open spec fn reply_body(buffer: Result<Vec<u8>, Error>) -> Seq<u8> {
    match buffer {
        Ok(page) => page@,
        Err(Error::Forbidden) => FORBIDDEN_PAGE.spec_bytes(),
        Err(Error::HttpMethod) => METHOD_PAGE.spec_bytes(),
        Err(Error::NoSuchFile) => NOT_FOUND_PAGE.spec_bytes(),
        Err(Error::HttpParsing) => NOT_HTTP_PAGE.spec_bytes(),
        Err(_) => UNEXPECTED_PAGE.spec_bytes(),
    }
}

/// The bytes of one header line: `name: value` and a line break, or nothing where
/// the name or the value is absent.
pub open spec fn header_line_bytes(h: HeaderLineView) -> Seq<u8> {
    match h {
        (Some(name), Some(value)) => name + seq![58u8, 32u8] + value + seq![13u8, 10u8],
        _ => Seq::empty(),
    }
}

/// The bytes of a sequence of header lines.
pub open spec fn header_lines_bytes(hs: Seq<HeaderLineView>) -> Seq<u8>
    decreases hs.len(),
{
    if hs.len() == 0 {
        Seq::empty()
    } else {
        header_lines_bytes(hs.drop_last()) + header_line_bytes(hs.last())
    }
}

/// The bytes of a reply: `version status`, the header lines, an empty line, the body.
pub open spec fn reply_bytes(head: ResponseHeadView, body: Seq<u8>) -> Seq<u8> {
    head.0 + seq![32u8] + head.1 + seq![13u8, 10u8] + header_lines_bytes(head.2) + seq![13u8, 10u8] + body
}

/// The status code and body that answer `buffer`: the page, or the message of an error.
pub fn reply_parts(buffer: Result<Vec<u8>, Error>) -> (r: (u16, Vec<u8>))
    ensures
        r.0 == reply_code(buffer),
        r.1@ == reply_body(buffer),
{
    match buffer {
        Ok(reply) => (200, reply),
        Err(Error::Forbidden) => (403, slice_to_vec(FORBIDDEN_PAGE.as_bytes())),
        Err(Error::HttpMethod) => (405, slice_to_vec(METHOD_PAGE.as_bytes())),
        Err(Error::NoSuchFile) => (404, slice_to_vec(NOT_FOUND_PAGE.as_bytes())),
        Err(Error::HttpParsing) => (404, slice_to_vec(NOT_HTTP_PAGE.as_bytes())),
        Err(_) => (500, slice_to_vec(UNEXPECTED_PAGE.as_bytes())),
    }
}

/// Builds the reply that answers `buffer`, logging the encrypted request in the
/// header `hex_iv: hex_request`.
pub fn build_http_reply(buffer: Result<Vec<u8>, Error>, hex_iv: &str, hex_request: &str) -> (r: Result<(ResponseHead, Vec<u8>), HttpError>)
    ensures
        ({
            let head = http_response_head(
                reply_code(buffer), CONTENT_LENGTH@, reply_body(buffer).len() as usize, hex_iv@, hex_request@);
            &&& r is Ok <==> head is Some
            &&& r matches Ok((h, body)) ==> head == Some(h@) && body@ == reply_body(buffer)
            &&& r matches Ok((h, _)) ==> h.version@ == http11() && h.status@ == decimal(reply_code(buffer) as nat)
        }),
        plain_header(hex_iv@, hex_request@) ==> (r matches Ok((h, _))
            && h@.2 == plain_head_lines(CONTENT_LENGTH@, reply_body(buffer).len() as usize, hex_iv@, hex_request@)),
{
    proof {
        lemma_content_length_is_plain();
    }
    let (code, body) = reply_parts(buffer);
    match response_head(code, CONTENT_LENGTH, body.len(), hex_iv, hex_request) {
        Ok(head) => Ok((head, body)),
        Err(e) => Err(e),
    }
}

/// Writes a reply: its head, then `body`.
pub fn serialize_reply(head: &ResponseHead, body: Vec<u8>) -> (r: Vec<u8>)
    ensures
        r@ == reply_bytes(head@, body@),
{
    let ghost hs = head@.2;
    let mut out: Vec<u8> = Vec::new();
    extend_bytes(&mut out, head.version.as_slice());
    out.push(32u8);
    extend_bytes(&mut out, head.status.as_slice());
    out.push(13u8);
    out.push(10u8);
    let ghost start = out@;
    let n = head.headers.len();
    let mut i: usize = 0;
    while i < n
        invariant
            n == head.headers@.len(),
            hs == head.headers@.map_values(|h: HeaderLine| h.view_pair()),
            i <= n,
            out@ == start + header_lines_bytes(hs.subrange(0, i as int)),
        decreases n - i,
    {
        let line = &head.headers[i];
        let ghost before = out@;
        match (&line.name, &line.value) {
            (Some(name), Some(value)) => {
                extend_bytes(&mut out, name.as_slice());
                out.push(58u8);
                out.push(32u8);
                extend_bytes(&mut out, value.as_slice());
                out.push(13u8);
                out.push(10u8);
            },
            _ => {},
        }
        assert(hs.subrange(0, i + 1).drop_last() =~= hs.subrange(0, i as int));
        assert(out@ =~= before + header_line_bytes(hs[i as int]));
        i = i + 1;
    }
    assert(hs.subrange(0, n as int) =~= hs);
    out.push(13u8);
    out.push(10u8);
    let mut body = body;
    let ghost b = body@;
    out.append(&mut body);
    assert(out@ =~= reply_bytes(head@, b));
    out
}

/// Whether `name: value` is a header that `http` takes as written: a plain name other
/// than `Content-Length` and a value of visible ASCII.
pub open spec fn plain_header(name: Seq<char>, value: Seq<char>) -> bool {
    is_plain_name(name) && is_visible_text(value) && lowercase(name) != lowercase(CONTENT_LENGTH@)
}

/// The reply with status `code` and body `body` that carries the header `name: value`:
/// the status line, `content-length` with the decimal length of the body, the header,
/// an empty line and the body.
pub open spec fn plain_reply(code: u16, name: Seq<char>, value: Seq<char>, body: Seq<u8>) -> Seq<u8> {
    status_line(code)
        + header_line_bytes((Some(lowercase(CONTENT_LENGTH@)), Some(decimal(body.len()))))
        + header_line_bytes((Some(lowercase(name)), Some(ascii_bytes(value))))
        + seq![13u8, 10u8] + body
}

/// `Content-Length` is a plain header name.
pub proof fn lemma_content_length_is_plain()
    ensures
        is_plain_name(CONTENT_LENGTH@),
        lowercase(CONTENT_LENGTH@).len() == 14,
{
    reveal_strlit("Content-Length");
    assert(CONTENT_LENGTH == "Content-Length");
}

/// The bytes that answer `buffer`, with `hex_iv: hex_request` among the headers,
/// or `None` where `http` refuses to build the reply.
pub open spec fn reply_for(buffer: Result<Vec<u8>, Error>, hex_iv: Seq<char>, hex_request: Seq<char>) -> Option<Seq<u8>> {
    match http_response_head(
        reply_code(buffer), CONTENT_LENGTH@, reply_body(buffer).len() as usize, hex_iv, hex_request)
    {
        Some(head) => Some(reply_bytes(head, reply_body(buffer))),
        None => None,
    }
}

/// Builds the reply that answers `buffer` and writes it out as bytes.
pub fn build_reply(buffer: Result<Vec<u8>, Error>, hex_iv: &str, hex_request: &str) -> (r: Result<Vec<u8>, HttpError>)
    ensures
        match r {
            Ok(bytes) => reply_for(buffer, hex_iv@, hex_request@) == Some(bytes@),
            Err(_) => reply_for(buffer, hex_iv@, hex_request@) is None,
        },
        r matches Ok(bytes) ==> bytes@.len() >= status_line(reply_code(buffer)).len()
            && bytes@.subrange(0, status_line(reply_code(buffer)).len() as int) == status_line(reply_code(buffer)),
        plain_header(hex_iv@, hex_request@) ==> (r matches Ok(bytes)
            && bytes@ == plain_reply(reply_code(buffer), hex_iv@, hex_request@, reply_body(buffer))),
{
    match build_http_reply(buffer, hex_iv, hex_request) {
        Ok((head, body)) => {
            let ghost hs = head@.2;
            let ghost hd = head@;
            let ghost b = body@;
            let body_len = body.len();
            let bytes = serialize_reply(&head, body);
            proof {
                let line = status_line(reply_code(buffer));
                assert(bytes@.subrange(0, line.len() as int) =~= line);
                if plain_header(hex_iv@, hex_request@) {
                    assert(body_len == b.len());
                    assert(hs[0] == (Some(lowercase(CONTENT_LENGTH@)), Some(decimal(b.len()))));
                    assert(hs.drop_last() =~= seq![hs[0]]);
                    assert(hs.drop_last().drop_last() =~= Seq::<HeaderLineView>::empty());
                    assert(header_lines_bytes(hs.drop_last().drop_last()) == Seq::<u8>::empty());
                    assert(header_lines_bytes(hs.drop_last()) =~= header_line_bytes(hs[0]));
                    assert(header_lines_bytes(hs) =~= header_line_bytes(hs[0]) + header_line_bytes(hs[1]));
                    assert(hd.0 + seq![32u8] + hd.1 + seq![13u8, 10u8] == line);
                    assert(bytes@ =~= plain_reply(reply_code(buffer), hex_iv@, hex_request@, reply_body(buffer)));
                }
            }
            Ok(bytes)
        },
        Err(e) => Err(e),
    }
}

// ---------------------------------------------------------------------------
// Laws

/// The flag is handed out only for a GET request that carries the administrator
/// cookie header with the administrator's cookie.
pub proof fn lemma_flag_needs_cookie(input: Seq<u8>, cookie: Seq<u8>)
    requires
        route_input(input, cookie) == Ok::<Seq<char>, Error>(files::FLAG@),
    ensures
        httparse_request(input, MAX_NB_HEADERS) matches Some(req) && req.0 == Some("GET"@)
            && has_admin_cookie(req.2, cookie),
{
    reveal_strlit("/flag.txt");
    reveal_strlit("/welcome.html");
    assert(files::FLAG == "/flag.txt" && ACCUEIL == "/welcome.html");
    assert(ACCUEIL@.len() != files::FLAG@.len());
}

/// A GET request for a listed page that carries the administrator cookie is answered
/// with that page (the welcome page for `/`): the administrator can read every page.
pub proof fn lemma_admin_reads_every_page(req: RequestView, cookie: Seq<u8>, page: Seq<char>)
    requires
        req.0 == Some("GET"@),
        req.1 == Some(page),
        files::in_list(page),
        has_admin_cookie(req.2, cookie),
    ensures
        route_request(req, cookie) == Ok::<Seq<char>, Error>(
            if page == files::WELCOME@ { ACCUEIL@ } else { page }),
{
    reveal_strlit("/flag.txt");
    reveal_strlit("/");
    assert(files::FLAG == "/flag.txt" && files::WELCOME == "/");
    assert(files::FLAG@.len() != files::WELCOME@.len());
}

/// The cookie matters only for the flag: a request for any other path is answered
/// the same whatever cookie the server holds.
pub proof fn lemma_cookie_only_guards_flag(req: RequestView, cookie1: Seq<u8>, cookie2: Seq<u8>)
    requires
        req.1 != Some(files::FLAG@),
    ensures
        route_request(req, cookie1) == route_request(req, cookie2),
{
}

/// A reply is its status line, its header lines and an empty line, followed by the
/// body, sent unchanged.
pub proof fn lemma_reply_ends_with_body(head: ResponseHeadView, body: Seq<u8>)
    ensures
        reply_bytes(head, body).len() >= body.len(),
        reply_bytes(head, body).subrange(
            reply_bytes(head, body).len() - body.len(), reply_bytes(head, body).len() as int) == body,
        reply_bytes(head, body).subrange(0, head.0.len() as int) == head.0,
{
    let r = reply_bytes(head, body);
    assert(r.subrange(r.len() - body.len(), r.len() as int) =~= body);
    assert(r.subrange(0, head.0.len() as int) =~= head.0);
}

} // verus!
