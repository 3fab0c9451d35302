use ecw::serve::{read_step, ReadOutcome};
use ecw::flags::{build_cookie, build_flag, flag_with};
use ecw::init::{admin_request, admin_requests, log_entry};
use ecw::serve::{build_reply, bytes_to_hex, connection_step, get_current_and_increase, get_encrypted_req, Action, Event};
use ecw::update_iv;

#[test]
fn counter_counts_connections() {
    let mut c = 0usize;
    assert_eq!(get_current_and_increase(&mut c), 0);
    assert_eq!(get_current_and_increase(&mut c), 1);
    assert_eq!(c, 2);
}

#[test]
fn logged_reply_carries_the_encrypted_request() {
    let iv = [1u8; 16];
    let req = b"GET /planes HTTP/1.1\r\n\r\n";
    let reply = build_reply(req, iv, Ok(b"plane".to_vec())).unwrap();
    let hex_iv = bytes_to_hex(&iv).unwrap();
    let hex_req = bytes_to_hex(&get_encrypted_req(req, iv).unwrap()).unwrap();
    let expected = format!("HTTP/1.1 200\r\ncontent-length: 5\r\n{}: {}\r\n\r\nplane", hex_iv, hex_req);
    assert_eq!(reply, expected.into_bytes());
    assert_eq!(hex_req.len(), 64);
}

#[test]
fn connection_step_answers_and_renews_the_iv() {
    let iv = [2u8; 16];
    let (same, action) = connection_step(iv, Event::Received { request: b"x".to_vec(), page: Err(ecw::Error::NoSuchFile) });
    assert_eq!(same, iv);
    match action {
        Action::Send(bytes) => assert_eq!(bytes, build_reply(b"x", iv, Err(ecw::Error::NoSuchFile)).unwrap()),
        _ => panic!("expected a reply"),
    }
    let (next, action) = connection_step(iv, Event::Sent);
    assert_eq!(next, update_iv(&iv));
    assert!(matches!(action, Action::Read));
}

#[test]
fn connection_step_on_failures() {
    let iv = [4u8; 16];
    let (same, action) = connection_step(iv, Event::ReadFailed);
    assert_eq!(same, iv);
    assert!(matches!(action, Action::Close));
    assert!(matches!(connection_step(iv, Event::SendFailed { broken_pipe: true }).1, Action::Close));
    assert!(matches!(connection_step(iv, Event::SendFailed { broken_pipe: false }).1, Action::Fail));
}

#[test]
fn admin_request_text() {
    assert_eq!(admin_request("/planes", "abc"), "GET /planes HTTP/1.1\r\ncookie: abc\r\n\r\n");
    let all = admin_requests("abc");
    assert_eq!(all.len(), 6);
    assert_eq!(all[1], "GET /flag.txt HTTP/1.1\r\ncookie: abc\r\n\r\n");
    assert_eq!(all[2], "GET / HTTP/1.1\r\ncookie: abc\r\n\r\n");
}

#[test]
fn admin_requests_are_answered_with_their_pages() {
    let cookie = "Zz09abcDEF";
    let all = admin_requests(cookie);
    assert_eq!(ecw::handle_http(all[1].as_bytes(), cookie.as_bytes()).unwrap(), "/flag.txt");
    assert_eq!(ecw::handle_http(all[2].as_bytes(), cookie.as_bytes()).unwrap(), "/welcome.html");
    assert_eq!(ecw::handle_http(all[0].as_bytes(), cookie.as_bytes()).unwrap(), "/planes");
}

#[test]
fn log_entry_from_reply() {
    let iv = [1u8; 16];
    let reply = build_reply(b"GET / HTTP/1.1\r\n\r\n", iv, Ok(b"hello".to_vec())).unwrap();
    let hex_iv = bytes_to_hex(&iv).unwrap();
    let hex_req = bytes_to_hex(&get_encrypted_req(b"GET / HTTP/1.1\r\n\r\n", iv).unwrap()).unwrap();
    assert_eq!(log_entry(&reply).unwrap(), format!("{}: {}\n", hex_iv, hex_req));
}

#[test]
fn log_entry_refuses_bad_replies() {
    assert!(log_entry(b"\x01\x02garbage").is_none());
    assert!(log_entry(b"HTTP/1.1 200\r\nonly: one\r\n\r\n").is_none());
}

#[test]
fn flag_and_cookie_shape() {
    let flag = build_flag();
    assert!(flag.starts_with("ECW{iLikePlanes_"));
    assert!(flag.ends_with('}'));
    assert_eq!(flag.len(), "ECW{iLikePlanes_}".len() + 10);
    let cookie = build_cookie();
    assert_eq!(cookie.len(), 10);
    assert!(cookie.chars().all(|c| c.is_ascii_alphanumeric()));
    assert_eq!(flag_with("abc"), "ECW{iLikePlanes_abc}");
}

#[test]
fn read_step_cases() {
    let mut buf = vec![1u8];
    assert!(read_step(&mut buf, ReadOutcome::Bytes(vec![2, 3])).is_none());
    assert_eq!(buf, vec![1, 2, 3]);
    assert!(matches!(read_step(&mut buf, ReadOutcome::Bytes(vec![])), Some(Ok(()))));
    assert!(matches!(read_step(&mut buf, ReadOutcome::WouldBlock), Some(Ok(()))));
    assert!(matches!(read_step(&mut buf, ReadOutcome::Failed), Some(Err(ecw::Error::Read))));
    assert_eq!(buf, vec![1, 2, 3]);
}
