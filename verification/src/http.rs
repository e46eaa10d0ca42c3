//! The HTTP response model and its serialization.
//!
//! A [`Response`] is a status code, a reason phrase, an ordered header list
//! (duplicates allowed, order preserved) and a body of raw bytes.
//! [`serialize_response`] lays it out on the wire: status line, one line per
//! header, a blank line, then the body verbatim.

use vstd::prelude::*;
use vstd::string::StrSliceExecFns;
use vstd::string::StringExecFns;
use vstd::string::StringSliceAdditionalSpecFns;
use vstd::utf8::encode_utf8;

use crate::strutil::dec_rep;
use crate::strutil::u64_to_string;

verus! {

/// An HTTP response: status code, reason phrase, ordered headers, body bytes.
pub struct Response {
    pub status: u16,
    pub reason: String,
    pub headers: Vec<(String, String)>,
    pub body: Vec<u8>,
}

/// Every `Content-Length` header of `r`, if present, names exactly the byte
/// length of `r`'s body.
pub open spec fn content_length_consistent(r: Response) -> bool {
    forall|i: int|
        0 <= i < r.headers@.len() && (#[trigger] r.headers@[i]).0@ == "Content-Length"@
            ==> r.headers@[i].1@ == dec_rep(r.body@.len() as nat)
}

/// The serialized form of one header: `name: value` followed by CRLF.
pub open spec fn spec_header_line(h: (String, String)) -> Seq<char> {
    h.0@ + ": "@ + h.1@ + "\r\n"@
}

/// The serialized header block: each header in order, one line each.
pub open spec fn spec_header_block(hs: Seq<(String, String)>) -> Seq<char>
    decreases hs.len(),
{
    if hs.len() == 0 {
        Seq::empty()
    } else {
        spec_header_line(hs[0]) + spec_header_block(hs.drop_first())
    }
}

/// The full response head as characters: status line, header block, and the
/// blank line that ends the head.
pub open spec fn spec_head(r: Response) -> Seq<char> {
    "HTTP/1.1 "@ + dec_rep(r.status as nat) + " "@ + r.reason@ + "\r\n"@ + spec_header_block(
        r.headers@,
    ) + "\r\n"@
}

/// The full wire form of `r`: the UTF-8 bytes of the head, then the body
/// bytes verbatim.
pub open spec fn spec_serialized(r: Response) -> Seq<u8> {
    encode_utf8(spec_head(r)) + r.body@
}

/// The header block of a concatenation is the concatenation of the blocks.
pub proof fn lemma_header_block_concat(a: Seq<(String, String)>, b: Seq<(String, String)>)
    ensures
        spec_header_block(a + b) =~= spec_header_block(a) + spec_header_block(b),
    decreases a.len(),
{
    if a.len() == 0 {
        assert(a + b =~= b);
    } else {
        lemma_header_block_concat(a.drop_first(), b);
        assert((a + b).drop_first() =~= a.drop_first() + b);
        assert(spec_header_block(a + b) =~= spec_header_line(a[0]) + spec_header_block(
            a.drop_first() + b,
        ));
    }
}

/// Converts text to the body bytes it occupies on the wire.
pub fn text_body(s: &str) -> (out: Vec<u8>)
    ensures
        out@ == encode_utf8(s@),
{
    s.as_bytes_vec()
}

/// `r` is a plain text-bodied response: the given status, reason and body,
/// and the single header `Connection: close`.
pub open spec fn is_simple_response(
    r: Response,
    status: int,
    reason: Seq<char>,
    body_text: Seq<char>,
) -> bool {
    &&& r.status == status
    &&& r.reason@ == reason
    &&& r.headers@.len() == 1
    &&& r.headers@[0].0@ == "Connection"@
    &&& r.headers@[0].1@ == "close"@
    &&& r.body@ == encode_utf8(body_text)
}

/// Builds a response with the given status and text body and the single
/// header `Connection: close`, which every response advertises.
fn simple_response(status: u16, reason: &str, body_text: &str) -> (r: Response)
    ensures
        is_simple_response(r, status as int, reason@, body_text@),
        content_length_consistent(r),
{
    let mut headers: Vec<(String, String)> = Vec::new();
    headers.push(("Connection".to_owned(), "close".to_owned()));
    let r = Response { status, reason: reason.to_owned(), headers, body: text_body(body_text) };
    proof {
        reveal_strlit("Connection");
        reveal_strlit("Content-Length");
        assert("Connection"@.len() == 10);
        assert("Content-Length"@.len() == 14);
        assert((r.headers@[0]).0@ != "Content-Length"@);
    }
    r
}

/// The response to a malformed request line: 400 with the fixed body
/// `Invalid request line`.
pub fn bad_request_response() -> (r: Response)
    ensures
        is_simple_response(r, 400, "Bad Request"@, "Invalid request line"@),
        content_length_consistent(r),
{
    simple_response(400, "Bad Request", "Invalid request line")
}

/// The response to a path that fails resolution or containment: 403 with the
/// fixed body `Access denied`.
pub fn forbidden_response() -> (r: Response)
    ensures
        is_simple_response(r, 403, "Forbidden"@, "Access denied"@),
        content_length_consistent(r),
{
    simple_response(403, "Forbidden", "Access denied")
}

/// The response to a path that names no filesystem entry: 404 with a fixed
/// HTML body.
pub fn not_found_response() -> (r: Response)
    ensures
        is_simple_response(r, 404, "Not Found"@, "<html><body><h1>404 Not Found</h1></body></html>"@),
        content_length_consistent(r),
{
    simple_response(404, "Not Found", "<html><body><h1>404 Not Found</h1></body></html>")
}

/// The response to a file read that fails after a successful probe: 500 with
/// a fixed HTML body.
pub fn internal_error_response() -> (r: Response)
    ensures
        is_simple_response(r, 500, "Internal Server Error"@, "<html><body><h1>500 Internal Server Error</h1></body></html>"@),
        content_length_consistent(r),
{
    simple_response(
        500,
        "Internal Server Error",
        "<html><body><h1>500 Internal Server Error</h1></body></html>",
    )
}

/// Serializes `HTTP/1.1 <status> <reason>\r\n`, each header as
/// `<key>: <value>\r\n`, a blank line, then the body bytes verbatim.
/// Header order is preserved as given.
pub fn serialize_response(r: &Response) -> (out: Vec<u8>)
    ensures
        out@ == spec_serialized(*r),
{
    let mut head = String::new();
    head.append("HTTP/1.1 ");
    let status_s = u64_to_string(r.status as u64);
    head.append(status_s.as_str());
    head.append(" ");
    head.append(r.reason.as_str());
    head.append("\r\n");
    let ghost status_line: Seq<char> = head@;
    let mut i: usize = 0;
    while i < r.headers.len()
        invariant
            i <= r.headers@.len(),
            head@ == status_line + spec_header_block(r.headers@.take(i as int)),
        decreases r.headers@.len() - i,
    {
        head.append(r.headers[i].0.as_str());
        head.append(": ");
        head.append(r.headers[i].1.as_str());
        head.append("\r\n");
        proof {
            let hs = r.headers@;
            assert(hs.take(i + 1) =~= hs.take(i as int) + seq![hs[i as int]]);
            lemma_header_block_concat(hs.take(i as int), seq![hs[i as int]]);
            let single = seq![hs[i as int]];
            assert(single.drop_first() =~= Seq::<(String, String)>::empty());
            assert(spec_header_block(single.drop_first()) =~= Seq::<char>::empty());
            assert(spec_header_block(single) =~= spec_header_line(single[0]) + spec_header_block(
                single.drop_first(),
            ));
            assert(spec_header_block(single) =~= spec_header_line(hs[i as int]));
            assert(head@ =~= status_line + spec_header_block(hs.take(i + 1)));
        }
        i += 1;
    }
    head.append("\r\n");
    proof {
        assert(r.headers@.take(r.headers@.len() as int) =~= r.headers@);
        assert(head@ =~= spec_head(*r));
    }
    let mut out = head.as_str().as_bytes_vec();
    let mut j: usize = 0;
    while j < r.body.len()
        invariant
            j <= r.body@.len(),
            out@ == encode_utf8(spec_head(*r)) + r.body@.take(j as int),
        decreases r.body@.len() - j,
    {
        out.push(r.body[j]);
        proof {
            assert(r.body@.take(j + 1) =~= r.body@.take(j as int).push(r.body@[j as int]));
            assert(out@ =~= encode_utf8(spec_head(*r)) + r.body@.take(j + 1));
        }
        j += 1;
    }
    proof {
        assert(r.body@.take(r.body@.len() as int) =~= r.body@);
    }
    out
}

} // verus!
