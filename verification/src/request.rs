//! The HTTP/1.1 request that carries a payload to a target.

use vstd::prelude::*;
use vstd::string::StringExecFns;
use vstd::utf8::encode_utf8;
use crate::decimal::{
    decimal_text, digits_value, is_digits, lemma_decimal_text_reads_back, push_decimal,
};
use crate::response::{
    body_of, lemma_body_after_first, lemma_first_delimiter_after_line,
    lemma_first_delimiter_ends_line, DELIMITER_LEN,
};
use crate::url::{ParsedTarget, Target};

verus! {

/// The request line and the headers, each with its line end, and the blank line that
/// ends them, of a request whose body is `length` bytes long.
pub open spec fn head_text(target: Target, length: nat) -> Seq<char> {
    "POST "@ + target.path + " HTTP/1.1\r\n"@
        + "Host: "@ + target.host + "\r\n"@
        + "Content-Type: application/json\r\n"@
        + "Content-Length: "@ + decimal_text(length) + "\r\n"@
        + "Connection: close\r\n"@
        + "\r\n"@
}

/// The whole request: the head, with the body's length in bytes, and then the body.
pub open spec fn request_text(target: Target, payload: Seq<char>) -> Seq<char> {
    head_text(target, encode_utf8(payload).len()) + payload
}

/// Builds the HTTP/1.1 request that posts `payload` to `target`.
///
/// The `Host` header names the host without the port, `Content-Length` counts the
/// bytes of `payload` as they are sent, in UTF-8, and the connection is asked to be
/// closed after the response. Host and path go into the head as they are.
pub fn build(target: &ParsedTarget, payload: &str) -> (request: String)
    ensures
        request@ == request_text(target@, payload@),
{
    let mut request = String::from_str("POST ");
    request.append(target.path.as_str());
    request.append(" HTTP/1.1\r\n");
    request.append("Host: ");
    request.append(target.host.as_str());
    request.append("\r\n");
    request.append("Content-Type: application/json\r\n");
    request.append("Content-Length: ");
    push_decimal(&mut request, payload.as_bytes().len());
    request.append("\r\n");
    request.append("Connection: close\r\n");
    request.append("\r\n");
    request.append(payload);
    request
}

/// The bytes of two texts one after the other are the bytes of their concatenation.
pub proof fn lemma_encode_utf8_concat(a: Seq<char>, b: Seq<char>)
    ensures
        encode_utf8(a + b) == encode_utf8(a) + encode_utf8(b),
    decreases a.len(),
{
    if a.len() > 0 {
        lemma_encode_utf8_concat(a.drop_first(), b);
        assert((a + b).drop_first() =~= a.drop_first() + b);
    }
}

/// The bytes sent are the bytes of the head and then the bytes of the payload, and the
/// digits after `Content-Length: ` write how many bytes the payload has.
pub proof fn lemma_content_length_exact(target: Target, payload: Seq<char>)
    ensures
        ({
            let length = encode_utf8(payload).len();
            &&& encode_utf8(request_text(target, payload)) == encode_utf8(
                head_text(target, length),
            ) + encode_utf8(payload)
            &&& is_digits(decimal_text(length))
            &&& digits_value(decimal_text(length)) == length
        }),
{
    let length = encode_utf8(payload).len();
    lemma_encode_utf8_concat(head_text(target, length), payload);
    lemma_decimal_text_reads_back(length);
}

/// True when `s` holds neither a carriage return nor a line feed, so that it cannot
/// end the line it is written into.
pub open spec fn is_single_line(s: Seq<char>) -> bool {
    !s.contains('\r') && !s.contains('\n')
}

/// Where host and path hold no line break, the head of the request is five lines and
/// no more: the first blank line is the one that the builder wrote, and what follows
/// it is the payload, whatever the payload holds.
pub proof fn lemma_body_of_request(target: Target, payload: Seq<char>)
    requires
        is_single_line(target.host),
        is_single_line(target.path),
    ensures
        body_of(request_text(target, payload)) == Some(payload),
{
    reveal_strlit("POST ");
    reveal_strlit(" HTTP/1.1\r\n");
    reveal_strlit("Host: ");
    reveal_strlit("\r\n");
    reveal_strlit("Content-Type: application/json\r\n");
    reveal_strlit("Content-Length: ");
    reveal_strlit("Connection: close\r\n");
    let length = encode_utf8(payload).len();
    let digits = decimal_text(length);
    lemma_decimal_text_reads_back(length);
    let request = request_text(target, payload);
    let end = seq!['\r', '\n'];
    let blank = seq!['\r', '\n', '\r', '\n'];
    let request_line = "POST "@ + target.path + " HTTP/1.1\r\n"@.take(9);
    let host = "Host: "@ + target.host;
    let content_type = "Content-Type: application/json\r\n"@.take(30);
    let content_length = "Content-Length: "@ + digits;
    let connection = "Connection: close\r\n"@.take(17);
    let after_connection = connection + blank + payload;
    let after_content_length = content_length + end + after_connection;
    let after_content_type = content_type + end + after_content_length;
    let after_host = host + end + after_content_type;
    assert(request =~= request_line + end + after_host);
    assert(!request_line.contains('\r'));
    assert(!host.contains('\r'));
    assert(!content_length.contains('\r'));
    let k5 = connection.len() as int;
    let k4 = content_length.len() + 2 + k5;
    let k3 = content_type.len() + 2 + k4;
    let k2 = host.len() + 2 + k3;
    lemma_first_delimiter_ends_line(connection, payload);
    lemma_first_delimiter_after_line(content_length, after_connection, k5);
    lemma_first_delimiter_after_line(content_type, after_content_length, k4);
    lemma_first_delimiter_after_line(host, after_content_type, k3);
    lemma_first_delimiter_after_line(request_line, after_host, k2);
    let first = request.len() - payload.len() - DELIMITER_LEN;
    lemma_body_after_first(request, first);
    assert(request.skip(first + DELIMITER_LEN) =~= payload);
}

} // verus!
