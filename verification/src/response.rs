//! Building the HTTP response.
//!
//! Every response the server produces has status 200: a request either
//! succeeds fully or the connection is abandoned before anything is
//! written. The header block is, byte for byte,
//! `HTTP/1.1 200 OK \r\nContent-Type: {type}\r\nContent-Length: {len}\r\n\r\n`
//! (with the literal space after `200 OK`), and the body follows verbatim.

use vstd::prelude::*;
use vstd::string::*;
use vstd::utf8::encode_utf8;
use crate::mime::extension_of;
use crate::mime::mimetype_of;
use crate::mime::get_mimetype_from_path;

verus! {

/// The character writing the decimal digit `d`.
pub open spec fn digit_char(d: int) -> char {
    if d == 0 {
        '0'
    } else if d == 1 {
        '1'
    } else if d == 2 {
        '2'
    } else if d == 3 {
        '3'
    } else if d == 4 {
        '4'
    } else if d == 5 {
        '5'
    } else if d == 6 {
        '6'
    } else if d == 7 {
        '7'
    } else if d == 8 {
        '8'
    } else {
        '9'
    }
}

/// The decimal numeral of `n`: most significant digit first, no leading
/// zero except for `n == 0` itself.
pub open spec fn dec_str(n: nat) -> Seq<char>
    decreases n,
{
    if n < 10 {
        seq![digit_char(n as int)]
    } else {
        dec_str(n / 10).push(digit_char((n % 10) as int))
    }
}

pub open spec fn is_digit(c: char) -> bool {
    '0' <= c && c <= '9'
}

pub open spec fn digit_value(c: char) -> int {
    c as int - '0' as int
}

/// The number a sequence of digits denotes in decimal.
pub open spec fn numeral_value(s: Seq<char>) -> int
    decreases s.len(),
{
    if s.len() == 0 {
        0
    } else {
        numeral_value(s.drop_last()) * 10 + digit_value(s.last())
    }
}

pub proof fn lemma_digit_char_value(d: int)
    requires
        0 <= d < 10,
    ensures
        is_digit(digit_char(d)),
        digit_value(digit_char(d)) == d,
{
}

/// The numeral written for `n` is made of digits only and reads back as
/// exactly `n`: the `Content-Length` value names the precise body length.
pub proof fn lemma_dec_str_value(n: nat)
    ensures
        dec_str(n).len() >= 1,
        forall|i: int| 0 <= i < dec_str(n).len() ==> is_digit(#[trigger] dec_str(n)[i]),
        numeral_value(dec_str(n)) == n,
        dec_str(n)[0] == '0' <==> n == 0,
    decreases n,
{
    if n < 10 {
        lemma_digit_char_value(n as int);
        assert(dec_str(n).last() == digit_char(n as int));
        assert(dec_str(n).drop_last() =~= Seq::<char>::empty());
        assert(numeral_value(dec_str(n).drop_last()) == 0);
        assert(numeral_value(dec_str(n)) == digit_value(digit_char(n as int)));
    } else {
        lemma_dec_str_value(n / 10);
        lemma_digit_char_value((n % 10) as int);
        assert(dec_str(n).drop_last() =~= dec_str(n / 10));
        assert(numeral_value(dec_str(n)) == numeral_value(dec_str(n / 10)) * 10 + digit_value(
            digit_char((n % 10) as int),
        ));
    }
}

/// The response header block for a body of `len` bytes served as
/// `content_type`.
pub open spec fn response_header(content_type: Seq<char>, len: nat) -> Seq<char> {
    "HTTP/1.1 200 OK \r\nContent-Type: "@ + content_type + "\r\nContent-Length: "@ + dec_str(len)
        + "\r\n\r\n"@
}

/// The bytes put on the wire for one successful request: the encoded header
/// block followed by the raw body.
pub open spec fn wire_response(content_type: Seq<char>, body: Seq<u8>) -> Seq<u8> {
    encode_utf8(response_header(content_type, body.len())) + body
}

/// The header block followed by the body forms a syntactically well-formed
/// HTTP/1.1 response with status 200: a status line, a `Content-Type` line
/// carrying the content type, a `Content-Length` line whose digits read
/// back as exactly the body length, and a blank line, each CRLF-terminated,
/// with the raw body bytes and nothing else after them.
pub proof fn lemma_response_well_formed(content_type: Seq<char>, body: Seq<u8>)
    ensures
        response_header(content_type, body.len()) == "HTTP/1.1 200 OK "@ + "\r\n"@ + (
        "Content-Type: "@ + content_type) + "\r\n"@ + ("Content-Length: "@ + dec_str(body.len()))
            + "\r\n"@ + "\r\n"@,
        forall|i: int|
            0 <= i < dec_str(body.len()).len() ==> is_digit(#[trigger] dec_str(body.len())[i]),
        numeral_value(dec_str(body.len())) == body.len(),
        wire_response(content_type, body) == encode_utf8(
            response_header(content_type, body.len()),
        ) + body,
{
    lemma_dec_str_value(body.len());
    reveal_strlit("HTTP/1.1 200 OK \r\nContent-Type: ");
    reveal_strlit("HTTP/1.1 200 OK ");
    reveal_strlit("\r\n");
    reveal_strlit("Content-Type: ");
    reveal_strlit("\r\nContent-Length: ");
    reveal_strlit("Content-Length: ");
    reveal_strlit("\r\n\r\n");
    assert("HTTP/1.1 200 OK \r\nContent-Type: "@ =~= "HTTP/1.1 200 OK "@ + "\r\n"@
        + "Content-Type: "@);
    assert("\r\nContent-Length: "@ =~= "\r\n"@ + "Content-Length: "@);
    assert("\r\n\r\n"@ =~= "\r\n"@ + "\r\n"@);
    assert(response_header(content_type, body.len()) =~= "HTTP/1.1 200 OK "@ + "\r\n"@ + (
    "Content-Type: "@ + content_type) + "\r\n"@ + ("Content-Length: "@ + dec_str(body.len()))
        + "\r\n"@ + "\r\n"@);
}

/// Round trip: the response built for a path with extension `html` and a
/// body of N bytes declares `text/html` as its content type and N as its
/// `Content-Length`, and carries exactly those N bytes, unmodified, after
/// the header block.
pub proof fn lemma_round_trip_html(path: Seq<char>, body: Seq<u8>)
    requires
        extension_of(path) == "html"@,
    ensures
        mimetype_of(path) == "text/html"@,
        ({
            let w = wire_response(mimetype_of(path), body);
            let h = encode_utf8(response_header("text/html"@, body.len()));
            &&& w.len() == h.len() + body.len()
            &&& w.subrange(0, h.len() as int) == h
            &&& w.subrange(h.len() as int, w.len() as int) == body
        }),
        numeral_value(dec_str(body.len())) == body.len(),
{
    lemma_dec_str_value(body.len());
    let w = wire_response(mimetype_of(path), body);
    let h = encode_utf8(response_header("text/html"@, body.len()));
    assert(w.subrange(0, h.len() as int) =~= h);
    assert(w.subrange(h.len() as int, w.len() as int) =~= body);
}

/// The decimal digit `d` as a one-character string.
fn digit_str(d: usize) -> (r: &'static str)
    requires
        d < 10,
    ensures
        r@ == seq![digit_char(d as int)],
{
    let r: &'static str = if d == 0 {
        "0"
    } else if d == 1 {
        "1"
    } else if d == 2 {
        "2"
    } else if d == 3 {
        "3"
    } else if d == 4 {
        "4"
    } else if d == 5 {
        "5"
    } else if d == 6 {
        "6"
    } else if d == 7 {
        "7"
    } else if d == 8 {
        "8"
    } else {
        "9"
    };
    proof {
        reveal_strlit("0");
        reveal_strlit("1");
        reveal_strlit("2");
        reveal_strlit("3");
        reveal_strlit("4");
        reveal_strlit("5");
        reveal_strlit("6");
        reveal_strlit("7");
        reveal_strlit("8");
        reveal_strlit("9");
        assert(r@ =~= seq![digit_char(d as int)]);
    }
    r
}

/// Writes `n` in decimal.
fn usize_to_string(n: usize) -> (r: String)
    ensures
        r@ == dec_str(n as nat),
    decreases n,
{
    let d: usize = n % 10;
    let digit = digit_str(d);
    if n < 10 {
        digit.to_owned()
    } else {
        let mut r = usize_to_string(n / 10);
        r.append(digit);
        proof {
            assert(r@ =~= dec_str(n as nat));
        }
        r
    }
}

/// The header block for a body served as `content_type`: status line,
/// `Content-Type`, exact `Content-Length`, and the closing blank line.
pub fn create_http_response(content_type: &str, body: &Vec<u8>) -> (r: String)
    ensures
        r@ == response_header(content_type@, body@.len()),
{
    let mut r = "HTTP/1.1 200 OK \r\nContent-Type: ".to_owned();
    r.append(content_type);
    r.append("\r\nContent-Length: ");
    let len_str = usize_to_string(body.len());
    r.append(len_str.as_str());
    r.append("\r\n\r\n");
    proof {
        assert(r@ =~= response_header(content_type@, body@.len()));
    }
    r
}

/// The full wire response for a file at `path` with content `body`: the
/// header block resolved from the path's extension, then the body.
pub fn build_response(path: &String, body: &Vec<u8>) -> (r: Vec<u8>)
    ensures
        r@ == wire_response(mimetype_of(path@), body@),
{
    let mimetype = get_mimetype_from_path(path);
    let header = create_http_response(mimetype, body);
    let mut r = header.as_str().as_bytes_vec();
    let mut i: usize = 0;
    while i < body.len()
        invariant
            i <= body@.len(),
            r@ == encode_utf8(response_header(mimetype_of(path@), body@.len())) + body@.subrange(
                0,
                i as int,
            ),
        decreases body@.len() - i,
    {
        let b = body[i];
        r.push(b);
        proof {
            assert(r@ =~= encode_utf8(response_header(mimetype_of(path@), body@.len()))
                + body@.subrange(0, i + 1));
        }
        i = i + 1;
    }
    proof {
        assert(body@.subrange(0, body@.len() as int) =~= body@);
    }
    r
}

} // verus!
