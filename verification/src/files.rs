//! Serving a resolved path: file bodies, directory listings, and the
//! choice between them. The filesystem probe and the reads themselves
//! happen outside the library; their outcomes arrive here as an
//! [`FsEntry`], and every response built from one is verified, down to the
//! exact header list and body bytes.

use vstd::prelude::*;
use vstd::string::StrSliceExecFns;
use vstd::string::StringExecFns;
use vstd::utf8::encode_utf8;

use crate::date::date_wf;
use crate::date::http_date_format;
use crate::date::spec_http_date;
use crate::date::HttpDate;
use crate::http::content_length_consistent;
use crate::http::internal_error_response;
use crate::http::is_simple_response;
use crate::http::not_found_response;
use crate::http::text_body;
use crate::http::Response;
use crate::paths::join_under_root;
use crate::paths::spec_joined;
use crate::paths::strip_leading_slashes;
use crate::strutil::dec_rep;
use crate::strutil::u64_to_string;

verus! {

/// The MIME essence that mime_guess derives from a path's extension.
pub uninterp spec fn mime_essence_of(path: Seq<char>) -> Seq<char>;

/// `path` holds no `.` at all, so no component of it can carry an
/// extension.
pub open spec fn dotless(path: Seq<char>) -> bool {
    forall|i: int| 0 <= i < path.len() ==> path[i] != '.'
}

/// Relies on mime_guess's `from_path`, `first_or_octet_stream` and mime's
/// `essence_str`: the MIME type guessed from the path's extension, with
/// `application/octet-stream` when no mapping is known. The guess is a
/// fixed table lookup on the extension, so it depends on the path alone;
/// a path without a `.` has no extension, so on it the guess is empty and
/// the fallback is returned.
#[verifier::external_body]
fn guess_mime(path: &str) -> (r: String)
    ensures
        r@ == mime_essence_of(path@),
        dotless(path@) ==> r@ == "application/octet-stream"@,
{
    mime_guess::from_path(path).first_or_octet_stream().essence_str().to_owned()
}

/// The upper-case form of an ASCII letter; any other character unchanged.
pub open spec fn ascii_upper(c: char) -> char {
    if 'a' <= c && c <= 'z' {
        (c as u8 - 32) as char
    } else {
        c
    }
}

/// The method token spells `HEAD`, in any case.
pub open spec fn is_head_method(m: Seq<char>) -> bool {
    &&& m.len() == 4
    &&& ascii_upper(m[0]) == 'H'
    &&& ascii_upper(m[1]) == 'E'
    &&& ascii_upper(m[2]) == 'A'
    &&& ascii_upper(m[3]) == 'D'
}

fn upper_char(c: char) -> (r: char)
    ensures
        r == ascii_upper(c),
{
    if 'a' <= c && c <= 'z' {
        (c as u8 - 32) as char
    } else {
        c
    }
}

/// Decides whether the method token spells `HEAD`, ignoring ASCII case.
pub fn method_is_head(m: &str) -> (r: bool)
    ensures
        r == is_head_method(m@),
{
    if m.unicode_len() != 4 {
        return false;
    }
    let c0 = upper_char(m.get_char(0));
    let c1 = upper_char(m.get_char(1));
    let c2 = upper_char(m.get_char(2));
    let c3 = upper_char(m.get_char(3));
    c0 == 'H' && c1 == 'E' && c2 == 'A' && c3 == 'D'
}

/// `r` is the successful response for the file at `path` with content
/// `bytes`: status 200 and the five headers of a served file, in order,
/// with the body empty for `HEAD` and the file bytes otherwise. The
/// `Content-Length` names the file's size either way, as a `GET` would.
pub open spec fn is_file_ok_response(
    r: Response,
    path: Seq<char>,
    bytes: Seq<u8>,
    method: Seq<char>,
    now: HttpDate,
) -> bool {
    &&& r.status == 200
    &&& r.reason@ == "OK"@
    &&& r.headers@.len() == 5
    &&& r.headers@[0].0@ == "Content-Type"@ && r.headers@[0].1@ == mime_essence_of(path)
    &&& r.headers@[1].0@ == "Content-Length"@ && r.headers@[1].1@ == dec_rep(bytes.len() as nat)
    &&& r.headers@[2].0@ == "Date"@ && r.headers@[2].1@ == spec_http_date(now)
    &&& r.headers@[3].0@ == "Server"@ && r.headers@[3].1@ == "RustHTTP/1.0"@
    &&& r.headers@[4].0@ == "Connection"@ && r.headers@[4].1@ == "close"@
    &&& r.body@ == if is_head_method(method) {
        Seq::<u8>::empty()
    } else {
        bytes
    }
}

/// Builds the response for the file at `path`, whose read outcome is
/// `content`: a failed read yields the fixed 500 page, a successful one the
/// file response, with an empty body when the method is `HEAD`.
pub fn file_response(path: &str, content: Option<Vec<u8>>, method: &str, now: &HttpDate) -> (r:
    Response)
    requires
        date_wf(*now),
    ensures
        content matches Some(bytes) ==> is_file_ok_response(r, path@, bytes@, method@, *now),
        content is Some && dotless(path@) ==> r.headers@[0].1@ == "application/octet-stream"@,
        content is None ==> is_simple_response(
            r,
            500,
            "Internal Server Error"@,
            "<html><body><h1>500 Internal Server Error</h1></body></html>"@,
        ),
{
    let bytes = match content {
        Some(b) => b,
        None => {
            return internal_error_response();
        },
    };
    let mut headers: Vec<(String, String)> = Vec::new();
    headers.push(("Content-Type".to_owned(), guess_mime(path)));
    headers.push(("Content-Length".to_owned(), u64_to_string(bytes.len() as u64)));
    headers.push(("Date".to_owned(), http_date_format(now)));
    headers.push(("Server".to_owned(), "RustHTTP/1.0".to_owned()));
    headers.push(("Connection".to_owned(), "close".to_owned()));
    let body = if method_is_head(method) {
        Vec::new()
    } else {
        bytes
    };
    Response { status: 200, reason: "OK".to_owned(), headers, body }
}

/// The list items of a directory listing: `<li>` around each child name,
/// in order.
pub open spec fn spec_listing_items(names: Seq<Seq<char>>) -> Seq<char>
    decreases names.len(),
{
    if names.len() == 0 {
        Seq::empty()
    } else {
        "<li>"@ + names[0] + "</li>"@ + spec_listing_items(names.drop_first())
    }
}

/// The item run of a concatenation is the concatenation of the item runs.
pub proof fn lemma_listing_items_concat(a: Seq<Seq<char>>, b: Seq<Seq<char>>)
    ensures
        spec_listing_items(a + b) =~= spec_listing_items(a) + spec_listing_items(b),
    decreases a.len(),
{
    if a.len() == 0 {
        assert(a + b =~= b);
    } else {
        lemma_listing_items_concat(a.drop_first(), b);
        assert((a + b).drop_first() =~= a.drop_first() + b);
        assert(spec_listing_items(a + b) =~= "<li>"@ + a[0] + "</li>"@ + spec_listing_items(
            a.drop_first() + b,
        ));
    }
}

/// The HTML page listing the immediate children of the directory at `dir`.
pub open spec fn spec_listing_html(dir: Seq<char>, names: Seq<Seq<char>>) -> Seq<char> {
    "<html><head><title>Directory Listing for "@ + dir + "</title></head><body>"@
        + "<h1>Directory listing for "@ + dir + "</h1><ul>"@ + spec_listing_items(names)
        + "</ul></body></html>"@
}

/// Renders the directory listing page for `dir_path` with the given child
/// names, in the order given.
pub fn directory_listing_html(dir_path: &str, names: &Vec<String>) -> (page: String)
    ensures
        page@ == spec_listing_html(dir_path@, names.deep_view()),
{
    let mut page = "<html><head><title>Directory Listing for ".to_owned();
    page.append(dir_path);
    page.append("</title></head><body>");
    page.append("<h1>Directory listing for ");
    page.append(dir_path);
    page.append("</h1><ul>");
    let ghost prefix: Seq<char> = page@;
    let mut i: usize = 0;
    while i < names.len()
        invariant
            i <= names@.len(),
            page@ == prefix + spec_listing_items(names.deep_view().take(i as int)),
        decreases names@.len() - i,
    {
        page.append("<li>");
        page.append(names[i].as_str());
        page.append("</li>");
        proof {
            let nv = names.deep_view();
            assert(nv.take(i + 1) =~= nv.take(i as int) + seq![nv[i as int]]);
            lemma_listing_items_concat(nv.take(i as int), seq![nv[i as int]]);
            let single = seq![nv[i as int]];
            assert(single.drop_first() =~= Seq::<Seq<char>>::empty());
            assert(spec_listing_items(single.drop_first()) =~= Seq::<char>::empty());
            assert(spec_listing_items(single) =~= "<li>"@ + nv[i as int] + "</li>"@);
            assert(page@ =~= prefix + spec_listing_items(nv.take(i + 1)));
        }
        i += 1;
    }
    page.append("</ul></body></html>");
    proof {
        let nv = names.deep_view();
        assert(nv.take(nv.len() as int) =~= nv);
        assert(page@ =~= spec_listing_html(dir_path@, nv));
    }
    page
}

/// `r` is the listing response for the directory at `dir` with the given
/// child names: status 200, the four headers of a listing, and the listing
/// page as body.
pub open spec fn is_listing_response(
    r: Response,
    dir: Seq<char>,
    names: Seq<Seq<char>>,
    now: HttpDate,
) -> bool {
    &&& r.status == 200
    &&& r.reason@ == "OK"@
    &&& r.headers@.len() == 4
    &&& r.headers@[0].0@ == "Content-Type"@ && r.headers@[0].1@ == "text/html"@
    &&& r.headers@[1].0@ == "Content-Length"@ && r.headers@[1].1@ == dec_rep(r.body@.len() as nat)
    &&& r.headers@[2].0@ == "Date"@ && r.headers@[2].1@ == spec_http_date(now)
    &&& r.headers@[3].0@ == "Connection"@ && r.headers@[3].1@ == "close"@
    &&& r.body@ == encode_utf8(spec_listing_html(dir, names))
}

/// Builds the listing response for the directory at `dir_path` with the
/// given child names.
pub fn listing_response(dir_path: &str, names: &Vec<String>, now: &HttpDate) -> (r: Response)
    requires
        date_wf(*now),
    ensures
        is_listing_response(r, dir_path@, names.deep_view(), *now),
        content_length_consistent(r),
{
    let page = directory_listing_html(dir_path, names);
    let body = text_body(page.as_str());
    let mut headers: Vec<(String, String)> = Vec::new();
    headers.push(("Content-Type".to_owned(), "text/html".to_owned()));
    headers.push(("Content-Length".to_owned(), u64_to_string(body.len() as u64)));
    headers.push(("Date".to_owned(), http_date_format(now)));
    headers.push(("Connection".to_owned(), "close".to_owned()));
    let r = Response { status: 200, reason: "OK".to_owned(), headers, body };
    proof {
        reveal_strlit("Content-Type");
        reveal_strlit("Content-Length");
        reveal_strlit("Date");
        reveal_strlit("Connection");
        assert("Content-Type"@.len() == 12);
        assert("Content-Length"@.len() == 14);
        assert("Date"@.len() == 4);
        assert("Connection"@.len() == 10);
        assert((r.headers@[0]).0@ != "Content-Length"@);
        assert((r.headers@[1]).0@ == "Content-Length"@);
        assert((r.headers@[2]).0@ != "Content-Length"@);
        assert((r.headers@[3]).0@ != "Content-Length"@);
    }
    r
}

/// What the filesystem said about a resolved path: nothing there, a file
/// whose read succeeded or failed, or a directory with its `index.html`
/// read outcome (when one exists) and its immediate child names.
pub enum FsEntry {
    Missing,
    File { content: Option<Vec<u8>> },
    Dir { index: Option<Option<Vec<u8>>>, children: Vec<String> },
}

/// The path of the `index.html` child of the directory at `dir`.
pub open spec fn spec_index_path(dir: Seq<char>) -> Seq<char> {
    spec_joined(dir, "index.html"@)
}

/// Builds the response for a probed path: 404 when nothing is there, the
/// file response for a file, and for a directory either its `index.html`
/// served as a file or the listing of its children.
pub fn response_for_entry(resolved_path: &str, entry: FsEntry, method: &str, now: &HttpDate) -> (r:
    Response)
    requires
        date_wf(*now),
    ensures
        entry matches FsEntry::Missing ==> is_simple_response(
            r,
            404,
            "Not Found"@,
            "<html><body><h1>404 Not Found</h1></body></html>"@,
        ),
        entry matches FsEntry::File { content: Some(bytes) } ==> is_file_ok_response(
            r,
            resolved_path@,
            bytes@,
            method@,
            *now,
        ),
        dotless(resolved_path@) ==> (entry matches FsEntry::File { content: Some(bytes) }
            ==> r.headers@[0].1@ == "application/octet-stream"@),
        entry matches FsEntry::File { content: None } ==> is_simple_response(
            r,
            500,
            "Internal Server Error"@,
            "<html><body><h1>500 Internal Server Error</h1></body></html>"@,
        ),
        entry matches FsEntry::Dir { index: Some(Some(bytes)), .. } ==> is_file_ok_response(
            r,
            spec_index_path(resolved_path@),
            bytes@,
            method@,
            *now,
        ),
        entry matches FsEntry::Dir { index: Some(None), .. } ==> is_simple_response(
            r,
            500,
            "Internal Server Error"@,
            "<html><body><h1>500 Internal Server Error</h1></body></html>"@,
        ),
        entry matches FsEntry::Dir { index: None, children } ==> is_listing_response(
            r,
            resolved_path@,
            children.deep_view(),
            *now,
        ),
{
    match entry {
        FsEntry::Missing => not_found_response(),
        FsEntry::File { content } => file_response(resolved_path, content, method, now),
        FsEntry::Dir { index: Some(content), .. } => {
            let index_path = join_under_root(resolved_path, "index.html");
            proof {
                reveal_strlit("index.html");
                assert(strip_leading_slashes("index.html"@) =~= "index.html"@);
            }
            file_response(index_path.as_str(), content, method, now)
        },
        FsEntry::Dir { index: None, children } => listing_response(resolved_path, &children, now),
    }
}

/// Serving a file answers `HEAD` and `GET` with the same headers: only the
/// body differs, empty for `HEAD` and the file's bytes otherwise.
pub proof fn lemma_head_matches_get(
    r_head: Response,
    r_get: Response,
    path: Seq<char>,
    bytes: Seq<u8>,
    head_method: Seq<char>,
    get_method: Seq<char>,
    now: HttpDate,
)
    requires
        is_file_ok_response(r_head, path, bytes, head_method, now),
        is_file_ok_response(r_get, path, bytes, get_method, now),
        is_head_method(head_method),
        !is_head_method(get_method),
    ensures
        r_head.status == r_get.status,
        r_head.headers@.len() == r_get.headers@.len(),
        forall|i: int|
            0 <= i < r_head.headers@.len() ==> (#[trigger] r_head.headers@[i]).0@
                == r_get.headers@[i].0@ && r_head.headers@[i].1@ == r_get.headers@[i].1@,
        r_head.body@ =~= Seq::<u8>::empty(),
        r_get.body@ == bytes,
{
}

/// A served file round-trips: the response body is byte-identical to the
/// file's content, and the `Content-Length` header names exactly that
/// byte count.
pub proof fn lemma_file_round_trip(
    r: Response,
    path: Seq<char>,
    bytes: Seq<u8>,
    method: Seq<char>,
    now: HttpDate,
)
    requires
        is_file_ok_response(r, path, bytes, method, now),
        !is_head_method(method),
    ensures
        r.body@ == bytes,
        r.headers@[1].0@ == "Content-Length"@,
        r.headers@[1].1@ == dec_rep(r.body@.len() as nat),
{
}

} // verus!
