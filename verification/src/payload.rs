//! Writing a response out as the text that goes over the wire.

use vstd::prelude::*;
use vstd::utf8::encode_utf8;
use crate::context::Context;
use crate::pairs::Pairs;
use crate::status::{status_string, status_text};
use crate::text::{decimal, decimal_text};
use crate::version::HttpVersion;

verus! {

/// The lines of the headers `headers`: for each, in order, its key, a colon
/// and a space, its value, and the end of the line.
pub open spec fn header_lines(headers: Seq<(Seq<char>, Seq<char>)>) -> Seq<char>
    decreases headers.len(),
{
    if headers.len() == 0 {
        Seq::empty()
    } else {
        header_lines(headers.drop_last()) + headers.last().0 + ": "@ + headers.last().1 + "\r\n"@
    }
}

/// The text of a response: the status line, the headers, the content type,
/// the length of the body in bytes, an empty line, and the body.
pub open spec fn payload(
    version: HttpVersion,
    status: nat,
    headers: Seq<(Seq<char>, Seq<char>)>,
    content_type: Seq<char>,
    body: Seq<char>,
) -> Seq<char> {
    "HTTP/"@ + version.label() + " "@ + decimal(status) + " "@ + status_text(status) + "\r\n"@
        + header_lines(headers) + "Content-Type: "@ + content_type + "\r\n"@ + "Content-Length: "@
        + decimal(encode_utf8(body).len()) + "\r\n\r\n"@ + body
}

/// Appends the lines of `headers` to `out`.
fn push_header_lines(out: &mut String, headers: &Pairs)
    ensures
        final(out)@ == old(out)@ + header_lines(headers@),
{
    let n: usize = headers.len();
    let mut i: usize = 0;
    while i < n
        invariant
            n == headers@.len(),
            i <= n,
            out@ == old(out)@ + header_lines(headers@.take(i as int)),
        decreases n - i,
    {
        assert(headers@.take(i + 1).drop_last() == headers@.take(i as int));
        assert(headers@.take(i + 1).last() == headers@[i as int]);
        match headers.entry(i) {
            Some((key, value)) => {
                out.append(key);
                out.append(": ");
                out.append(value);
                out.append("\r\n");
            },
            None => {},
        }
        i += 1;
    }
    assert(headers@.take(n as int) == headers@);
}

/// The text of the response of `context`, for a request of the version
/// `http_version`.
pub fn response_payload(context: &Context, http_version: HttpVersion) -> (r: String)
    ensures
        r@ == payload(
            http_version,
            context.response.status as nat,
            context.response.header@,
            context.response.content_type@,
            context.response.body@,
        ),
{
    let response = &context.response;
    let mut out = String::new();
    out.append("HTTP/");
    out.append(http_version.text());
    out.append(" ");
    out.append(decimal_text(response.status).as_str());
    out.append(" ");
    out.append(status_string(response.status).as_str());
    out.append("\r\n");
    push_header_lines(&mut out, &response.header);
    out.append("Content-Type: ");
    out.append(response.content_type.as_str());
    out.append("\r\n");
    out.append("Content-Length: ");
    out.append(decimal_text(response.body.as_str().as_bytes().len()).as_str());
    out.append("\r\n\r\n");
    out.append(response.body.as_str());
    out
}

} // verus!
