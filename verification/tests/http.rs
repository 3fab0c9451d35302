use ecw::files;
use ecw::http_::{reply_parts, serialize_reply, HeaderLine, ResponseHead};
use ecw::{build_reply, handle_http, Error};

const COOKIE: &[u8] = b"s3cr3tC00k";

fn route(req: &[u8]) -> Result<String, Error> {
    handle_http(req, COOKIE)
}

#[test]
fn test_http_parsing() {
    let req = b"GET /lol HTTP/1.1\r\ncookie: lel\r\n\r\n";
    let mut headers = [httparse::EMPTY_HEADER; 10];
    let mut parser = httparse::Request::new(&mut headers);
    parser.parse(req).unwrap();
}

#[test]
#[should_panic]
fn test_http_parsing_failure() {
    let req = b"G\x04ET /lol HTTP/1.1\r\ncookie: lel\r\n\r\n";
    let mut headers = [httparse::EMPTY_HEADER; 10];
    let mut parser = httparse::Request::new(&mut headers);
    parser.parse(req).unwrap();
}

#[test]
fn get_known_pages() {
    assert_eq!(files::get("/planes").unwrap(), "pages/planes");
    assert_eq!(files::get("/flag.txt").unwrap(), "pages/flag.txt");
    assert_eq!(files::get("/").unwrap(), "pages/");
    assert_eq!(files::get("/welcome.html").unwrap(), "pages/welcome.html");
    assert_eq!(files::get("/logs.txt").unwrap(), "pages/logs.txt");
}

#[test]
fn get_unknown_page() {
    let e = files::get("/etc/passwd").unwrap_err();
    assert_eq!(e.kind(), std::io::ErrorKind::NotFound);
    assert!(files::get("/planes/").is_err());
    assert!(files::get("").is_err());
}

#[test]
fn lol_page_does_not_exist() {
    assert!(matches!(route(b"GET /lol HTTP/1.1\r\ncookie: lel\r\n\r\n"), Err(Error::NoSuchFile)));
}

#[test]
fn invalid_request_is_not_http() {
    assert!(matches!(route(b"G\x04ET /lol HTTP/1.1\r\ncookie: lel\r\n\r\n"), Err(Error::HttpParsing)));
}

#[test]
fn only_get_is_served() {
    assert!(matches!(route(b"POST /planes HTTP/1.1\r\n\r\n"), Err(Error::HttpMethod)));
    assert!(matches!(route(b"get /planes HTTP/1.1\r\n\r\n"), Err(Error::HttpMethod)));
}

#[test]
fn root_serves_welcome_page() {
    assert_eq!(route(b"GET / HTTP/1.1\r\n\r\n").unwrap(), "/welcome.html");
}

#[test]
fn listed_pages_are_served() {
    assert_eq!(route(b"GET /planes HTTP/1.1\r\nHost: x\r\n\r\n").unwrap(), "/planes");
    assert_eq!(route(b"GET /randomgenerator.rs HTTP/1.1\r\n\r\n").unwrap(), "/randomgenerator.rs");
    assert_eq!(route(b"GET /logs.txt HTTP/1.1\r\n\r\n").unwrap(), "/logs.txt");
    assert!(matches!(route(b"GET /welcome.html HTTP/1.1\r\n\r\n"), Err(Error::NoSuchFile)));
}

#[test]
fn flag_needs_the_admin_cookie() {
    assert!(matches!(route(b"GET /flag.txt HTTP/1.1\r\n\r\n"), Err(Error::Forbidden)));
    assert!(matches!(route(b"GET /flag.txt HTTP/1.1\r\ncookie: lel\r\n\r\n"), Err(Error::Forbidden)));
    assert!(matches!(route(b"GET /flag.txt HTTP/1.1\r\nCookie: s3cr3tC00k\r\n\r\n"), Err(Error::Forbidden)));
    assert_eq!(route(b"GET /flag.txt HTTP/1.1\r\ncookie: s3cr3tC00k\r\n\r\n").unwrap(), "/flag.txt");
    assert_eq!(route(b"GET /flag.txt HTTP/1.1\r\nHost: a\r\ncookie: s3cr3tC00k\r\n\r\n").unwrap(), "/flag.txt");
}

#[test]
fn cookie_does_not_change_other_pages() {
    let with = route(b"GET /planes HTTP/1.1\r\ncookie: s3cr3tC00k\r\n\r\n").unwrap();
    let without = route(b"GET /planes HTTP/1.1\r\n\r\n").unwrap();
    assert_eq!(with, without);
}

#[test]
fn every_served_page_is_known() {
    for req in [&b"GET / HTTP/1.1\r\n\r\n"[..], b"GET /planes HTTP/1.1\r\n\r\n", b"GET /flag.txt HTTP/1.1\r\ncookie: s3cr3tC00k\r\n\r\n"] {
        let page = route(req).unwrap();
        assert!(files::get(&page).is_ok());
    }
}

#[test]
fn reply_to_a_page() {
    let r = build_reply(Ok(b"hi".to_vec()), "ab", "cd").unwrap();
    assert_eq!(r, b"HTTP/1.1 200\r\ncontent-length: 2\r\nab: cd\r\n\r\nhi".to_vec());
}

#[test]
fn reply_to_errors() {
    let r = build_reply(Err(Error::Forbidden), "00", "ff").unwrap();
    let body = b"An admin cookie is required in order to connect to this page!";
    let mut expected = format!("HTTP/1.1 403\r\ncontent-length: {}\r\n00: ff\r\n\r\n", body.len()).into_bytes();
    expected.extend_from_slice(body);
    assert_eq!(r, expected);
    let r = build_reply(Err(Error::HttpMethod), "00", "ff").unwrap();
    assert!(r.starts_with(b"HTTP/1.1 405\r\n"));
    assert!(r.ends_with(b"Only GET requests are supported!"));
    let r = build_reply(Err(Error::NoSuchFile), "00", "ff").unwrap();
    assert!(r.starts_with(b"HTTP/1.1 404\r\n"));
    assert!(r.ends_with(b"This file does not exist!"));
    let r = build_reply(Err(Error::HttpParsing), "00", "ff").unwrap();
    assert!(r.starts_with(b"HTTP/1.1 404\r\n"));
    assert!(r.ends_with(b"This is not valid HTTP!"));
    let r = build_reply(Err(Error::FileError("/planes".to_string())), "00", "ff").unwrap();
    assert!(r.starts_with(b"HTTP/1.1 500\r\n"));
    assert!(r.ends_with(b"Unexpected error. Not part of the challenge."));
}

#[test]
fn reply_with_invalid_header_name_fails() {
    assert!(build_reply(Ok(b"hi".to_vec()), "not a name", "cd").is_err());
    assert!(build_reply(Ok(b"hi".to_vec()), "ab", "bad\nvalue").is_err());
}

#[test]
fn reply_parts_pick_status_and_body() {
    let (code, body) = reply_parts(Err(Error::Read));
    assert_eq!(code, 500);
    assert_eq!(body, b"Unexpected error. Not part of the challenge.".to_vec());
    let (code, body) = reply_parts(Ok(vec![1, 2, 3]));
    assert_eq!(code, 200);
    assert_eq!(body, vec![1, 2, 3]);
}

#[test]
fn serialized_reply_skips_incomplete_header_lines() {
    let head = ResponseHead {
        version: b"HTTP/1.1".to_vec(),
        status: b"200".to_vec(),
        headers: vec![
            HeaderLine { name: Some(b"a".to_vec()), value: Some(b"1".to_vec()) },
            HeaderLine { name: None, value: Some(b"2".to_vec()) },
            HeaderLine { name: Some(b"b".to_vec()), value: None },
        ],
    };
    assert_eq!(serialize_reply(&head, b"body".to_vec()), b"HTTP/1.1 200\r\na: 1\r\n\r\nbody".to_vec());
}

#[test]
fn error_messages() {
    assert_eq!(Error::HttpParsing.message(), "Http parsing failed");
    assert_eq!(Error::Forbidden.message(), "This resource requires admin privilege");
    assert_eq!(Error::FileError("x".to_string()).message(), "Problem with file 0");
    assert_eq!(Error::Write.message(), "Error writing hex string");
}

#[test]
fn reply_status_line_is_version_and_code() {
    for (buffer, line) in [
        (Ok(vec![]), &b"HTTP/1.1 200\r\n"[..]),
        (Err(Error::Forbidden), b"HTTP/1.1 403\r\n"),
        (Err(Error::Write), b"HTTP/1.1 500\r\n"),
    ] {
        assert!(build_reply(buffer, "ab", "cd").unwrap().starts_with(line));
    }
}

#[test]
fn reply_header_names_are_lowered() {
    let r = build_reply(Ok(b"hi".to_vec()), "X-Iv-01", "some value").unwrap();
    assert_eq!(r, b"HTTP/1.1 200\r\ncontent-length: 2\r\nx-iv-01: some value\r\n\r\nhi".to_vec());
}
