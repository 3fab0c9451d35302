//! Laws of the server, stated over the inputs and results of its operations.
use vstd::prelude::*;

use crate::const_::{files, ACCUEIL, HEADER_NAME, MAX_NB_HEADERS};
use crate::crypto::{next_iv, padded_len, pkcs7_pad, sha256};
use crate::flags::flag_text;
use crate::init::{admin_request_text, httparse_response_headers, log_line, LOG_HEADERS};
use crate::serve::{be_bytes, first_iv, hex, logged_reply, HEX_DIGITS};
use crate::const_::LOG_KEY;
use crate::crypto::aes128_cbc_pkcs7;
use vstd::string::StringSliceAdditionalSpecFns;
use vstd::utf8::*;
use crate::error::Error;
use crate::http_::{
    decimal, header_line_bytes, http11, httparse_request, lowercase, ascii_bytes, plain_reply, reply_body,
    reply_code, route_input, status_line, RequestView, CONTENT_LENGTH, FORBIDDEN_PAGE, METHOD_PAGE,
    NOT_FOUND_PAGE, NOT_HTTP_PAGE, UNEXPECTED_PAGE,
};

verus! {

/// The names of the served pages, as written in the source, and the constants agree.
proof fn reveal_names()
    ensures
        files::AVIONS@ == "/planes"@,
        files::FLAG@ == "/flag.txt"@,
        files::WELCOME@ == "/"@,
        files::GEN_ALEA@ == "/randomgenerator.rs"@,
        files::USELESS@ == "/uselessfile_lol.html"@,
        files::LOGS@ == "/logs.txt"@,
        ACCUEIL@ == "/welcome.html"@,
        HEADER_NAME@ == "cookie"@,
        files::FOLDER@ == "pages"@,
        "/planes"@.len() == 7,
        "/flag.txt"@.len() == 9,
        "/"@.len() == 1,
        "/randomgenerator.rs"@.len() == 19,
        "/uselessfile_lol.html"@.len() == 21,
        "/logs.txt"@.len() == 9,
        "/welcome.html"@.len() == 13,
        "/flag.txt"@ != "/logs.txt"@,
{
    reveal_strlit("/planes");
    reveal_strlit("/flag.txt");
    reveal_strlit("/");
    reveal_strlit("/randomgenerator.rs");
    reveal_strlit("/uselessfile_lol.html");
    reveal_strlit("/logs.txt");
    reveal_strlit("/welcome.html");
    reveal_strlit("cookie");
    reveal_strlit("pages");
    assert(files::AVIONS == "/planes" && files::FLAG == "/flag.txt" && files::WELCOME == "/");
    assert(files::GEN_ALEA == "/randomgenerator.rs" && files::USELESS == "/uselessfile_lol.html");
    assert(files::LOGS == "/logs.txt" && ACCUEIL == "/welcome.html" && HEADER_NAME == "cookie");
    assert(files::FOLDER == "pages");
    assert("/flag.txt"@[1] != "/logs.txt"@[1]);
}

/// Whether `name` is one of the six pages that can be asked for by name.
pub open spec fn is_listed_name(name: Seq<char>) -> bool {
    ||| name == "/planes"@
    ||| name == "/flag.txt"@
    ||| name == "/"@
    ||| name == "/randomgenerator.rs"@
    ||| name == "/uselessfile_lol.html"@
    ||| name == "/logs.txt"@
}

/// `files::get` serves exactly the six listed pages and the welcome page, each under
/// `pages`: a name is in the list exactly when it is one of the six.
pub proof fn law_get_serves_the_listed_pages(name: Seq<char>)
    ensures
        files::in_list(name) <==> is_listed_name(name),
        files::is_known(name) <==> (is_listed_name(name) || name == "/welcome.html"@),
        files::page_path(name) == "pages"@ + name,
{
    reveal_names();
    if is_listed_name(name) {
        if name == "/planes"@ {
            assert(files::list_view()[0] == name);
        } else if name == "/flag.txt"@ {
            assert(files::list_view()[1] == name);
        } else if name == "/"@ {
            assert(files::list_view()[2] == name);
        } else if name == "/randomgenerator.rs"@ {
            assert(files::list_view()[3] == name);
        } else if name == "/uselessfile_lol.html"@ {
            assert(files::list_view()[4] == name);
        } else {
            assert(files::list_view()[5] == name);
        }
    }
    if files::in_list(name) {
        let i = choose|i: int| 0 <= i < files::list_view().len() && files::list_view()[i] == name;
        assert(0 <= i < 6);
    }
}

/// A request that is not a GET is refused as such, whatever its path and headers.
pub proof fn law_only_get_is_served(input: Seq<u8>, cookie: Seq<u8>, req: RequestView)
    requires
        httparse_request(input, MAX_NB_HEADERS) == Some(req),
        req.0 != Some("GET"@),
    ensures
        route_input(input, cookie) == Err::<Seq<char>, Error>(Error::HttpMethod),
{
}

/// Bytes that the parser refuses are answered as not HTTP.
pub proof fn law_unparsable_is_not_http(input: Seq<u8>, cookie: Seq<u8>)
    requires
        httparse_request(input, MAX_NB_HEADERS) is None,
    ensures
        route_input(input, cookie) == Err::<Seq<char>, Error>(Error::HttpParsing),
{
}

/// A GET request for the flag that carries, anywhere among its headers, the header
/// `cookie` with the administrator's cookie is answered with the flag.
pub proof fn law_flag_with_cookie_anywhere(input: Seq<u8>, cookie: Seq<u8>, req: RequestView, i: int)
    requires
        httparse_request(input, MAX_NB_HEADERS) == Some(req),
        req.0 == Some("GET"@),
        req.1 == Some("/flag.txt"@),
        0 <= i < req.2.len(),
        req.2[i].0 == "cookie"@,
        req.2[i].1 == cookie,
    ensures
        route_input(input, cookie) == Ok::<Seq<char>, Error>("/flag.txt"@),
{
    reveal_names();
}

/// A GET request for the flag that carries no header `cookie` with the administrator's
/// cookie is refused.
pub proof fn law_flag_without_cookie_is_forbidden(input: Seq<u8>, cookie: Seq<u8>, req: RequestView)
    requires
        httparse_request(input, MAX_NB_HEADERS) == Some(req),
        req.0 == Some("GET"@),
        req.1 == Some("/flag.txt"@),
        forall|i: int| 0 <= i < req.2.len() ==> !(req.2[i].0 == "cookie"@ && req.2[i].1 == cookie),
    ensures
        route_input(input, cookie) == Err::<Seq<char>, Error>(Error::Forbidden),
{
    reveal_names();
}

/// A GET request for `/` is answered with the welcome page, whatever its headers.
pub proof fn law_root_is_the_welcome_page(input: Seq<u8>, cookie: Seq<u8>, req: RequestView)
    requires
        httparse_request(input, MAX_NB_HEADERS) == Some(req),
        req.0 == Some("GET"@),
        req.1 == Some("/"@),
    ensures
        route_input(input, cookie) == Ok::<Seq<char>, Error>("/welcome.html"@),
{
    reveal_names();
}

/// A GET request for a listed page other than `/` and the flag is answered with that
/// page, whatever its headers.
pub proof fn law_listed_page_is_served(input: Seq<u8>, cookie: Seq<u8>, req: RequestView, name: Seq<char>)
    requires
        httparse_request(input, MAX_NB_HEADERS) == Some(req),
        req.0 == Some("GET"@),
        req.1 == Some(name),
        is_listed_name(name),
        name != "/"@,
        name != "/flag.txt"@,
    ensures
        route_input(input, cookie) == Ok::<Seq<char>, Error>(name),
{
    law_get_serves_the_listed_pages(name);
    reveal_names();
}

/// A GET request for any other path, or for none, finds no such page.
pub proof fn law_unlisted_page_does_not_exist(input: Seq<u8>, cookie: Seq<u8>, req: RequestView)
    requires
        httparse_request(input, MAX_NB_HEADERS) == Some(req),
        req.0 == Some("GET"@),
        !(req.1 matches Some(p) && is_listed_name(p)),
    ensures
        route_input(input, cookie) == Err::<Seq<char>, Error>(Error::NoSuchFile),
{
    reveal_names();
    if let Some(p) = req.1 {
        law_get_serves_the_listed_pages(p);
    }
}

/// Each IV is the first 16 bytes of the SHA-256 digest of the one before, byte for byte.
pub proof fn law_next_iv_is_digest_prefix(iv: Seq<u8>)
    requires
        sha256(iv).len() == 32,
    ensures
        next_iv(iv).len() == 16,
        forall|k: int| 0 <= k < 16 ==> #[trigger] next_iv(iv)[k] == sha256(iv)[k],
{
}

/// A page is answered with status 200 and sent whole: its length is the content
/// length, and the reply ends with every byte of it.
pub proof fn law_page_is_sent_whole(page: Vec<u8>, hex_iv: Seq<char>, hex_request: Seq<char>)
    ensures
        reply_code(Ok::<Vec<u8>, Error>(page)) == 200,
        reply_body(Ok::<Vec<u8>, Error>(page)) == page@,
        ({
            let r = plain_reply(200, hex_iv, hex_request, reply_body(Ok::<Vec<u8>, Error>(page)));
            &&& r.len() >= page@.len()
            &&& r.subrange(r.len() - page@.len(), r.len() as int) == page@
        }),
{
    let r = plain_reply(200, hex_iv, hex_request, page@);
    assert(r.subrange(r.len() - page@.len(), r.len() as int) =~= page@);
}

/// Errors are answered with fixed statuses and messages: 403 for the flag without the
/// cookie, 405 for another method, 404 for an unknown page or bytes that are not HTTP,
/// 500 for anything else.
pub proof fn law_error_replies(e: Error)
    ensures
        reply_code(Err::<Vec<u8>, Error>(Error::Forbidden)) == 403,
        reply_code(Err::<Vec<u8>, Error>(Error::HttpMethod)) == 405,
        reply_code(Err::<Vec<u8>, Error>(Error::NoSuchFile)) == 404,
        reply_code(Err::<Vec<u8>, Error>(Error::HttpParsing)) == 404,
        !(e is Forbidden || e is HttpMethod || e is NoSuchFile || e is HttpParsing)
            ==> reply_code(Err::<Vec<u8>, Error>(e)) == 500,
        reply_body(Err::<Vec<u8>, Error>(Error::Forbidden))
            == "An admin cookie is required in order to connect to this page!".spec_bytes(),
        reply_body(Err::<Vec<u8>, Error>(Error::HttpMethod)) == "Only GET requests are supported!".spec_bytes(),
        reply_body(Err::<Vec<u8>, Error>(Error::NoSuchFile)) == "This file does not exist!".spec_bytes(),
        reply_body(Err::<Vec<u8>, Error>(Error::HttpParsing)) == "This is not valid HTTP!".spec_bytes(),
        !(e is Forbidden || e is HttpMethod || e is NoSuchFile || e is HttpParsing)
            ==> reply_body(Err::<Vec<u8>, Error>(e)) == "Unexpected error. Not part of the challenge.".spec_bytes(),
{
    assert(FORBIDDEN_PAGE == "An admin cookie is required in order to connect to this page!");
    assert(METHOD_PAGE == "Only GET requests are supported!");
    assert(NOT_FOUND_PAGE == "This file does not exist!");
    assert(NOT_HTTP_PAGE == "This is not valid HTTP!");
    assert(UNEXPECTED_PAGE == "Unexpected error. Not part of the challenge.");
}

/// Each byte is written as two lower-case hexadecimal digits, the high half first, in
/// the order of the bytes.
pub proof fn law_hex_writing(bytes: Seq<u8>)
    ensures
        hex(bytes).len() == 2 * bytes.len(),
        forall|i: int| 0 <= i < bytes.len() ==> {
            &&& #[trigger] hex(bytes)[2 * i] == "0123456789abcdef"@[bytes[i] as int / 16]
            &&& hex(bytes)[2 * i + 1] == "0123456789abcdef"@[bytes[i] as int % 16]
        },
    decreases bytes.len(),
{
    assert(HEX_DIGITS == "0123456789abcdef");
    crate::serve::lemma_hex_len(bytes);
    if bytes.len() > 0 {
        let rest = bytes.drop_last();
        law_hex_writing(rest);
        crate::serve::lemma_hex_len(rest);
        let h = hex(bytes);
        assert(h == hex(rest) + seq![
            crate::serve::hex_digit(bytes.last() as int / 16),
            crate::serve::hex_digit(bytes.last() as int % 16),
        ]);
        assert forall|i: int| 0 <= i < bytes.len() implies {
            &&& #[trigger] h[2 * i] == "0123456789abcdef"@[bytes[i] as int / 16]
            &&& h[2 * i + 1] == "0123456789abcdef"@[bytes[i] as int % 16]
        } by {
            if i < rest.len() {
                assert(rest[i] == bytes[i]);
                assert(hex(rest)[2 * i] == "0123456789abcdef"@[rest[i] as int / 16]);
                assert(hex(rest)[2 * i + 1] == "0123456789abcdef"@[rest[i] as int % 16]);
            }
        }
    }
}

/// PKCS#7 padding keeps the data and adds from 1 to 16 bytes, each worth the number
/// of bytes added, up to the padded length.
pub proof fn law_pkcs7_padding(data: Seq<u8>)
    ensures
        pkcs7_pad(data).len() == padded_len(data.len()),
        pkcs7_pad(data).len() % 16 == 0,
        data.len() < pkcs7_pad(data).len() <= data.len() + 16,
        pkcs7_pad(data).subrange(0, data.len() as int) == data,
        forall|i: int| data.len() <= i < pkcs7_pad(data).len() ==>
            #[trigger] pkcs7_pad(data)[i] == (pkcs7_pad(data).len() - data.len()) as u8,
{
    assert(pkcs7_pad(data).subrange(0, data.len() as int) =~= data);
}

/// The reply to a logged request is its status line, `content-length` with the length
/// of the body, the header named by the hexadecimal IV whose value is the hexadecimal
/// AES-128-CBC encryption of the request under the log key and that IV, an empty line
/// and the body.
pub proof fn law_logged_reply_layout(buffer: Seq<u8>, iv: Seq<u8>, page: Result<Vec<u8>, Error>)
    ensures
        logged_reply(buffer, iv, page) == http11() + seq![32u8] + decimal(reply_code(page) as nat) + seq![13u8, 10u8]
            + "content-length"@.map_values(|c: char| c as u8) + seq![58u8, 32u8]
            + decimal(reply_body(page).len()) + seq![13u8, 10u8]
            + lowercase(hex(iv)) + seq![58u8, 32u8]
            + ascii_bytes(hex(aes128_cbc_pkcs7(LOG_KEY@, iv, buffer))) + seq![13u8, 10u8]
            + seq![13u8, 10u8] + reply_body(page),
{
    reveal_strlit("Content-Length");
    reveal_strlit("content-length");
    assert(CONTENT_LENGTH == "Content-Length");
    assert(lowercase(CONTENT_LENGTH@) =~= "content-length"@.map_values(|c: char| c as u8));
    let lhs = logged_reply(buffer, iv, page);
    let rhs = http11() + seq![32u8] + decimal(reply_code(page) as nat) + seq![13u8, 10u8]
        + "content-length"@.map_values(|c: char| c as u8) + seq![58u8, 32u8]
        + decimal(reply_body(page).len()) + seq![13u8, 10u8]
        + lowercase(hex(iv)) + seq![58u8, 32u8]
        + ascii_bytes(hex(aes128_cbc_pkcs7(LOG_KEY@, iv, buffer))) + seq![13u8, 10u8]
        + seq![13u8, 10u8] + reply_body(page);
    assert(lhs =~= rhs);
}

/// The log line of a reply is the name of its second header, `: `, the text of that
/// header's value and a line break; there is none where the reply cannot be parsed,
/// has fewer than two headers, or that value is not UTF-8.
pub proof fn law_log_line_is_second_header(response: Seq<u8>)
    ensures
        match httparse_response_headers(response, 10) {
            Some(hs) => if hs.len() >= 2 && valid_utf8(hs[1].1) {
                log_line(response) == Some(hs[1].0 + ": "@ + decode_utf8(hs[1].1) + "\n"@)
            } else {
                log_line(response) is None
            },
            None => log_line(response) is None,
        },
{
    assert(LOG_HEADERS == 10);
}

/// The administrator's request for a page is a GET request line for it and the header
/// `cookie` with the administrator's cookie.
pub proof fn law_admin_request(filename: Seq<char>, cookie: Seq<char>)
    ensures
        admin_request_text(filename, cookie)
            == "GET "@ + filename + " HTTP/1.1\r\n"@ + "cookie: "@ + cookie + "\r\n\r\n"@,
{
    reveal_names();
    reveal_strlit(": ");
    reveal_strlit("cookie: ");
    reveal_strlit("cookie");
    assert(HEADER_NAME@ + ": "@ =~= "cookie: "@);
    assert(admin_request_text(filename, cookie) =~= "GET "@ + filename + " HTTP/1.1\r\n"@ + "cookie: "@ + cookie + "\r\n\r\n"@);
}

/// A flag is its random part between `ECW{iLikePlanes_` and `}`.
pub proof fn law_flag_frame(suffix: Seq<char>)
    ensures
        flag_text(suffix).len() == suffix.len() + 17,
        flag_text(suffix).subrange(0, 16) == "ECW{iLikePlanes_"@,
        flag_text(suffix).subrange(16, 16 + suffix.len() as int) == suffix,
        flag_text(suffix).last() == '}',
{
    reveal_strlit("ECW{iLikePlanes_");
    reveal_strlit("}");
    assert(flag_text(suffix).subrange(0, 16) =~= "ECW{iLikePlanes_"@);
    assert(flag_text(suffix).subrange(16, 16 + suffix.len() as int) =~= suffix);
}

/// A connection's first IV is the renewal of its number written in eight bytes, most
/// significant first: read back in that order, the bytes give the number.
pub proof fn law_first_iv(counter: usize)
    ensures
        first_iv(counter) == next_iv(be_bytes(counter as u64)),
        be_bytes(counter as u64).len() == 8,
        ({
            let b = be_bytes(counter as u64);
            b[0] * 0x100000000000000 + b[1] * 0x1000000000000 + b[2] * 0x10000000000 + b[3] * 0x100000000
                + b[4] * 0x1000000 + b[5] * 0x10000 + b[6] * 0x100 + b[7] == counter as int
        }),
{
    let x = counter as u64;
    let b = be_bytes(x);
    assert(b[0] == (x >> 56u64) as u8 && b[7] == x as u8);
    assert(
        ((x >> 56u64) as u8) * 0x100000000000000 + ((x >> 48u64) as u8) * 0x1000000000000
            + ((x >> 40u64) as u8) * 0x10000000000 + ((x >> 32u64) as u8) * 0x100000000
            + ((x >> 24u64) as u8) * 0x1000000 + ((x >> 16u64) as u8) * 0x10000
            + ((x >> 8u64) as u8) * 0x100 + (x as u8) == x
    ) by (bit_vector);
}

} // verus!
