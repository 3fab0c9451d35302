//! What the server computes for each connection and each request on it.
use vstd::prelude::*;
use vstd::slice::slice_to_vec;
use vstd::string::*;

use crate::const_::{IV_SIZE, LOG_KEY};
use crate::crypto::{aes128_cbc_pkcs7, aes_cbc_cipher, next_iv, padded_len, update_iv};
use crate::error::Error;
use crate::http_::{is_plain_name, is_visible_text, lemma_content_length_is_plain, lowercase, plain_reply, reply_body, reply_code};
use http::Error as HttpError;

verus! {

/// The characters of the hexadecimal digits, in order.
pub const HEX_DIGITS: &'static str = "0123456789abcdef";

/// The lower-case hexadecimal digit of `n`, for `n < 16`.
pub open spec fn hex_digit(n: int) -> char {
    HEX_DIGITS@[n]
}

/// The lower-case hexadecimal writing of `bytes`, two digits per byte.
pub open spec fn hex(bytes: Seq<u8>) -> Seq<char>
    decreases bytes.len(),
{
    if bytes.len() == 0 {
        Seq::empty()
    } else {
        hex(bytes.drop_last()) + seq![hex_digit(bytes.last() as int / 16), hex_digit(bytes.last() as int % 16)]
    }
}

/// The hexadecimal writing has two digits per byte.
pub proof fn lemma_hex_len(bytes: Seq<u8>)
    ensures
        hex(bytes).len() == 2 * bytes.len(),
    decreases bytes.len(),
{
    if bytes.len() > 0 {
        lemma_hex_len(bytes.drop_last());
    }
}

/// Whether `c` is a lower-case hexadecimal digit.
pub open spec fn is_hex_char(c: char) -> bool {
    ('0' <= c && c <= '9') || ('a' <= c && c <= 'f')
}

/// The hexadecimal writing is made of lower-case hexadecimal digits only.
pub proof fn lemma_hex_chars(bytes: Seq<u8>)
    ensures
        forall|i: int| 0 <= i < hex(bytes).len() ==> is_hex_char(#[trigger] hex(bytes)[i]),
    decreases bytes.len(),
{
    lemma_hex_len(bytes);
    if bytes.len() > 0 {
        reveal_strlit("0123456789abcdef");
        assert(HEX_DIGITS == "0123456789abcdef");
        assert(forall|n: int| 0 <= n < 16 ==> is_hex_char(#[trigger] HEX_DIGITS@[n]));
        let rest = bytes.drop_last();
        lemma_hex_chars(rest);
        lemma_hex_len(rest);
        let x = bytes.last() as int;
        let h = hex(bytes);
        assert(h == hex(rest) + seq![hex_digit(x / 16), hex_digit(x % 16)]);
        assert forall|i: int| 0 <= i < h.len() implies is_hex_char(#[trigger] h[i]) by {
            if i < hex(rest).len() {
                assert(h[i] == hex(rest)[i]);
            }
        }
    }
}

/// A hexadecimal writing of 1 to 32767 bytes is a plain header name, and every
/// hexadecimal writing is a visible header value.
pub proof fn lemma_hex_header(bytes: Seq<u8>)
    ensures
        is_visible_text(hex(bytes)),
        1 <= bytes.len() <= 32767 ==> is_plain_name(hex(bytes)),
        lowercase(hex(bytes)).len() == 2 * bytes.len(),
{
    lemma_hex_chars(bytes);
    lemma_hex_len(bytes);
}

/// Different bytes are written differently: the hexadecimal writing is injective,
/// so a logged request can be read back from its hexadecimal form.
pub proof fn lemma_hex_injective(a: Seq<u8>, b: Seq<u8>)
    requires
        hex(a) == hex(b),
    ensures
        a == b,
    decreases a.len(),
{
    lemma_hex_len(a);
    lemma_hex_len(b);
    if a.len() > 0 {
        reveal_strlit("0123456789abcdef");
        assert(HEX_DIGITS == "0123456789abcdef");
        let (x, y) = (a.last() as int, b.last() as int);
        let n = hex(a).len();
        assert(hex(a) == hex(a.drop_last()) + seq![hex_digit(x / 16), hex_digit(x % 16)]);
        assert(hex(b) == hex(b.drop_last()) + seq![hex_digit(y / 16), hex_digit(y % 16)]);
        assert(hex(a)[n - 2] == hex_digit(x / 16) && hex(a)[n - 1] == hex_digit(x % 16));
        assert(hex(b)[n - 2] == hex_digit(y / 16) && hex(b)[n - 1] == hex_digit(y % 16));
        assert(forall|i: int, j: int| 0 <= i < 16 && 0 <= j < 16 && i != j ==> HEX_DIGITS@[i] != HEX_DIGITS@[j]);
        assert(x / 16 == y / 16 && x % 16 == y % 16);
        assert(x == y);
        assert(hex(a.drop_last()) =~= hex(a).subrange(0, n - 2));
        assert(hex(b.drop_last()) =~= hex(b).subrange(0, n - 2));
        lemma_hex_injective(a.drop_last(), b.drop_last());
        assert(a =~= a.drop_last().push(a.last()));
        assert(b =~= b.drop_last().push(b.last()));
    }
}

/// The bytes of `x`, most significant first.
pub open spec fn be_bytes(x: u64) -> Seq<u8> {
    seq![
        (x >> 56u64) as u8, (x >> 48u64) as u8, (x >> 40u64) as u8, (x >> 32u64) as u8,
        (x >> 24u64) as u8, (x >> 16u64) as u8, (x >> 8u64) as u8, x as u8,
    ]
}

/// The bytes of `x`, most significant first.
pub fn u64_to_be_bytes(x: u64) -> (r: [u8; 8])
    ensures
        r@ == be_bytes(x),
{
    let r = [
        (x >> 56u64) as u8, (x >> 48u64) as u8, (x >> 40u64) as u8, (x >> 32u64) as u8,
        (x >> 24u64) as u8, (x >> 16u64) as u8, (x >> 8u64) as u8, x as u8,
    ];
    assert(r@ =~= be_bytes(x));
    r
}

/// The IV that the connection numbered `counter` starts with.
pub open spec fn first_iv(counter: usize) -> Seq<u8> {
    next_iv(be_bytes(counter as u64))
}

/// The IV that the connection numbered `counter` starts with: the renewal of the
/// big-endian bytes of its number.
pub fn connection_iv(counter: usize) -> (r: [u8; IV_SIZE])
    ensures
        r@ == first_iv(counter),
{
    let bytes = u64_to_be_bytes(counter as u64);
    update_iv(&bytes)
}

/// Takes the number of the next connection and counts it.
pub fn get_current_and_increase(counter: &mut usize) -> (r: usize)
    requires
        *old(counter) < usize::MAX,
    ensures
        r == *old(counter),
        *final(counter) == *old(counter) + 1,
{
    let current_counter: usize = *counter;
    *counter = current_counter + 1;
    current_counter
}

/// Encrypts a request for the log under `LOG_KEY` and `iv`.
pub fn get_encrypted_req(buffer: &[u8], iv: [u8; IV_SIZE]) -> (r: Result<Vec<u8>, Error>)
    requires
        buffer@.len() <= usize::MAX - 16,
    ensures
        r matches Ok(c) && c@ == aes128_cbc_pkcs7(LOG_KEY@, iv@, buffer@)
            && c@.len() == padded_len(buffer@.len()),
{
    aes_cbc_cipher(&LOG_KEY, &iv, buffer)
}

/// Writes `buffer` in lower-case hexadecimal, two digits per byte.
pub fn bytes_to_hex(buffer: &[u8]) -> (r: Result<String, Error>)
    ensures
        r matches Ok(s) && s@ == hex(buffer@),
        r matches Ok(s) && s@.len() == 2 * buffer@.len(),
{
    proof {
        reveal_strlit("0123456789abcdef");
    }
    let mut buffer_hex = String::new();
    let n = buffer.len();
    let mut i: usize = 0;
    while i < n
        invariant
            n == buffer@.len(),
            i <= n,
            buffer_hex@ == hex(buffer@.subrange(0, i as int)),
            buffer_hex@.len() == 2 * i,
            HEX_DIGITS@ == "0123456789abcdef"@,
            HEX_DIGITS@.len() == 16,
            HEX_DIGITS.is_ascii(),
        decreases n - i,
    {
        let byte = buffer[i];
        let hi = (byte / 16) as usize;
        let lo = (byte % 16) as usize;
        buffer_hex.append(HEX_DIGITS.substring_ascii(hi, hi + 1));
        buffer_hex.append(HEX_DIGITS.substring_ascii(lo, lo + 1));
        assert(buffer@.subrange(0, i + 1).drop_last() =~= buffer@.subrange(0, i as int));
        i = i + 1;
        assert(buffer_hex@ =~= hex(buffer@.subrange(0, i as int)));
    }
    assert(buffer@.subrange(0, n as int) =~= buffer@);
    Ok(buffer_hex)
}

/// The reply to the request `buffer`, which was answered with `http_result`: its
/// encryption under `iv` is logged in the header `hex(iv): hex(encryption)`, beside
/// `content-length`.
pub open spec fn logged_reply(buffer: Seq<u8>, iv: Seq<u8>, http_result: Result<Vec<u8>, Error>) -> Seq<u8> {
    plain_reply(
        reply_code(http_result),
        hex(iv),
        hex(aes128_cbc_pkcs7(LOG_KEY@, iv, buffer)),
        reply_body(http_result),
    )
}

/// Builds the reply to the request `buffer`: `http_result` is what the request was
/// answered with, and the request, encrypted under `iv`, is logged in a header
/// named by the hexadecimal IV.
pub fn build_reply(buffer: &[u8], iv: [u8; IV_SIZE], http_result: Result<Vec<u8>, Error>) -> (r: Result<Vec<u8>, HttpError>)
    requires
        buffer@.len() <= usize::MAX - 16,
    ensures
        r matches Ok(bytes) && bytes@ == logged_reply(buffer@, iv@, http_result),
{
    let encrypted_req = match get_encrypted_req(buffer, iv) {
        Ok(c) => c,
        Err(_) => {
            proof {
                assert(false);
            }
            Vec::new()
        },
    };
    let hex_iv = match bytes_to_hex(&iv) {
        Ok(s) => s,
        Err(_) => String::new(),
    };
    let hex_request = match bytes_to_hex(encrypted_req.as_slice()) {
        Ok(s) => s,
        Err(_) => String::new(),
    };
    proof {
        lemma_hex_header(iv@);
        lemma_hex_header(encrypted_req@);
        lemma_content_length_is_plain();
    }
    crate::http_::build_reply(http_result, hex_iv.as_str(), hex_request.as_str())
}

/// What one read from the client's socket gave.
pub enum ReadOutcome {
    /// Nothing more is waiting to be read.
    WouldBlock,
    /// The read failed.
    Failed,
    /// These bytes were read; none means the client closed its side.
    Bytes(Vec<u8>),
}

/// One step of reading a request into `buf`: `None` where reading goes on, or how it
/// ended. Read bytes are appended; an empty read or nothing waiting ends the request,
/// and a failed read ends it with `Error::Read`.
pub fn read_step(buf: &mut Vec<u8>, outcome: ReadOutcome) -> (r: Option<Result<(), Error>>)
    ensures
        match outcome {
            ReadOutcome::WouldBlock => r == Some(Ok::<(), Error>(())) && final(buf)@ == old(buf)@,
            ReadOutcome::Failed => r == Some(Err::<(), Error>(Error::Read)) && final(buf)@ == old(buf)@,
            ReadOutcome::Bytes(b) => if b@.len() == 0 {
                r == Some(Ok::<(), Error>(())) && final(buf)@ == old(buf)@
            } else {
                r is None && final(buf)@ == old(buf)@ + b@
            },
        },
{
    match outcome {
        ReadOutcome::WouldBlock => Some(Ok(())),
        ReadOutcome::Failed => Some(Err(Error::Read)),
        ReadOutcome::Bytes(b) => {
            if b.len() == 0 {
                Some(Ok(()))
            } else {
                let mut b = b;
                buf.append(&mut b);
                None
            }
        },
    }
}

/// Written to the client when no reply can be built, before the connection fails.
pub const UNEXPECTED_REPLY: &'static str = "Unexpected error. Not part of the chellenge";

/// What happened on a connection.
pub enum Event {
    /// Reading the next request failed.
    ReadFailed,
    /// The request `request` arrived, and `page` is what it is answered with.
    Received { request: Vec<u8>, page: Result<Vec<u8>, Error> },
    /// The reply was written.
    Sent,
    /// Writing the reply failed; `broken_pipe` tells whether the client had gone.
    SendFailed { broken_pipe: bool },
}

/// What the server does next on a connection.
pub enum Action {
    /// Read the next request.
    Read,
    /// Write these bytes, then report how it went.
    Send(Vec<u8>),
    /// Write these bytes, then fail.
    FailAfterSending(Vec<u8>),
    /// Close the connection.
    Close,
    /// Fail.
    Fail,
}

/// One step of a connection, whose next request is logged under `iv`: the IV after
/// the event and what to do next. A request is answered with its logged reply (see
/// `build_reply`), or, where no reply can be built, with an apology and a failure; the
/// IV is renewed once a reply has been written; a failed read closes the connection,
/// and a failed write closes it if the client has gone and fails otherwise.
pub fn connection_step(iv: [u8; IV_SIZE], event: Event) -> (r: ([u8; IV_SIZE], Action))
    requires
        event matches Event::Received { request, .. } ==> request@.len() <= usize::MAX - 16,
    ensures
        match event {
            Event::ReadFailed => r.0@ == iv@ && r.1 is Close,
            Event::Received { request, page } => r.0@ == iv@
                && (r.1 matches Action::Send(v) && v@ == logged_reply(request@, iv@, page)),
            Event::Sent => r.0@ == next_iv(iv@) && r.1 is Read,
            Event::SendFailed { broken_pipe } => r.0@ == iv@ && if broken_pipe {
                r.1 is Close
            } else {
                r.1 is Fail
            },
        },
{
    match event {
        Event::ReadFailed => (iv, Action::Close),
        Event::Received { request, page } => match build_reply(request.as_slice(), iv, page) {
            Ok(bytes) => (iv, Action::Send(bytes)),
            Err(_) => (iv, Action::FailAfterSending(slice_to_vec(UNEXPECTED_REPLY.as_bytes()))),
        },
        Event::Sent => (update_iv(&iv), Action::Read),
        Event::SendFailed { broken_pipe } => if broken_pipe {
            (iv, Action::Close)
        } else {
            (iv, Action::Fail)
        },
    }
}

} // verus!
