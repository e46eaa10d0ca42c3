//! The admin channel: Basic-Auth credential verification over a received
//! request text, and the statistics page rendered on success. Base64 and
//! UTF-8 decoding are delegated to their crates behind trusted wrappers;
//! every decision taken on their results, and every byte of every admin
//! response, is verified.

use vstd::prelude::*;
use vstd::string::StrSliceExecFns;
use vstd::string::StringExecFns;
use vstd::utf8::decode_utf8;
use vstd::utf8::encode_utf8;
use vstd::utf8::valid_utf8;

use base64::Engine;

use crate::http::content_length_consistent;
use crate::http::Response;
use crate::request::is_ws;
use crate::strutil::dec_rep;
use crate::strutil::u64_to_string;

verus! {

/// A line with its single trailing carriage return removed, as when the
/// line was ended by `\r\n`.
pub open spec fn strip_cr(l: Seq<char>) -> Seq<char> {
    if l.len() > 0 && l.last() == '\r' {
        l.drop_last()
    } else {
        l
    }
}

/// The lines of `s` from position `i` on, with `cur` the line under
/// construction: split at `\n`, a `\r` before the `\n` dropped, and a final
/// segment kept as it stands (empty final segments do not count).
pub open spec fn lines_acc(s: Seq<char>, i: int, cur: Seq<char>) -> Seq<Seq<char>>
    decreases s.len() - i,
{
    if i < 0 || i >= s.len() {
        if cur.len() > 0 {
            seq![cur]
        } else {
            Seq::empty()
        }
    } else if s[i] == '\n' {
        seq![strip_cr(cur)] + lines_acc(s, i + 1, Seq::empty())
    } else {
        lines_acc(s, i + 1, cur.push(s[i]))
    }
}

/// The lines of `s`, as `str::lines` yields them.
pub open spec fn lines_of(s: Seq<char>) -> Seq<Seq<char>> {
    lines_acc(s, 0, Seq::empty())
}

/// Splits `s` into its lines: terminated by `\n` or `\r\n`, with a final
/// unterminated segment kept.
pub fn lines_vec(s: &str) -> (ls: Vec<String>)
    ensures
        ls.deep_view() == lines_of(s@),
{
    let n = s.unicode_len();
    let mut ls: Vec<String> = Vec::new();
    let mut cur_start: usize = 0;
    let mut i: usize = 0;
    proof {
        assert(s@.subrange(0, 0) =~= Seq::<char>::empty());
    }
    while i < n
        invariant
            n == s@.len(),
            cur_start <= i <= n,
            lines_of(s@) =~= ls.deep_view() + lines_acc(
                s@,
                i as int,
                s@.subrange(cur_start as int, i as int),
            ),
        decreases n - i,
    {
        let ghost cur: Seq<char> = s@.subrange(cur_start as int, i as int);
        let c = s.get_char(i);
        if c == '\n' {
            let end = if i > cur_start && s.get_char(i - 1) == '\r' {
                i - 1
            } else {
                i
            };
            let line = s.substring_char(cur_start, end).to_owned();
            proof {
                if i > cur_start && s@[i - 1] == '\r' {
                    assert(cur.last() == '\r');
                    assert(cur.drop_last() =~= s@.subrange(cur_start as int, i - 1));
                }
                assert(strip_cr(cur) =~= s@.subrange(cur_start as int, end as int));
                assert(lines_acc(s@, i as int, cur) =~= seq![strip_cr(cur)] + lines_acc(
                    s@,
                    i + 1,
                    Seq::<char>::empty(),
                ));
            }
            let ghost old_views = ls.deep_view();
            ls.push(line);
            proof {
                assert(ls.deep_view() =~= old_views.push(strip_cr(cur)));
                assert(old_views.push(strip_cr(cur)) + lines_acc(s@, i + 1, Seq::<char>::empty())
                    =~= old_views + (seq![strip_cr(cur)] + lines_acc(
                    s@,
                    i + 1,
                    Seq::<char>::empty(),
                )));
            }
            cur_start = i + 1;
            proof {
                assert(s@.subrange(i + 1, i + 1) =~= Seq::<char>::empty());
            }
        } else {
            proof {
                assert(lines_acc(s@, i as int, cur) =~= lines_acc(s@, i + 1, cur.push(s@[
                    i as int])));
                assert(s@.subrange(cur_start as int, i + 1) =~= cur.push(s@[i as int]));
            }
        }
        i += 1;
    }
    if cur_start < n {
        let line = s.substring_char(cur_start, n).to_owned();
        let ghost cur = s@.subrange(cur_start as int, n as int);
        proof {
            assert(lines_acc(s@, n as int, cur) =~= seq![cur]);
        }
        let ghost old_views = ls.deep_view();
        ls.push(line);
        proof {
            assert(ls.deep_view() =~= old_views.push(cur));
            assert(lines_of(s@) =~= ls.deep_view());
        }
    } else {
        proof {
            assert(lines_acc(s@, n as int, s@.subrange(n as int, n as int))
                =~= Seq::<Seq<char>>::empty());
            assert(lines_of(s@) =~= ls.deep_view());
        }
    }
    ls
}

/// Decides whether `p` is a prefix of `s`.
pub fn has_prefix(s: &str, p: &str) -> (r: bool)
    ensures
        r == p@.is_prefix_of(s@),
{
    let pn = p.unicode_len();
    let sn = s.unicode_len();
    if pn > sn {
        return false;
    }
    let mut i: usize = 0;
    while i < pn
        invariant
            pn == p@.len(),
            sn == s@.len(),
            pn <= sn,
            i <= pn,
            forall|k: int| 0 <= k < i ==> p@[k] == s@[k],
        decreases pn - i,
    {
        if p.get_char(i) != s.get_char(i) {
            proof {
                assert(p@.is_prefix_of(s@) ==> p@[i as int] == s@.subrange(0, pn as int)[i as int]);
            }
            return false;
        }
        i += 1;
    }
    proof {
        assert(p@ =~= s@.subrange(0, pn as int));
    }
    true
}

/// `l` without leading whitespace.
pub open spec fn trim_start_ws(l: Seq<char>) -> Seq<char>
    decreases l.len(),
{
    if l.len() > 0 && is_ws(l[0]) {
        trim_start_ws(l.drop_first())
    } else {
        l
    }
}

/// `l` without trailing whitespace.
pub open spec fn trim_end_ws(l: Seq<char>) -> Seq<char>
    decreases l.len(),
{
    if l.len() > 0 && is_ws(l.last()) {
        trim_end_ws(l.drop_last())
    } else {
        l
    }
}

/// `l` without leading or trailing whitespace.
pub open spec fn trim_ws(l: Seq<char>) -> Seq<char> {
    trim_end_ws(trim_start_ws(l))
}

fn is_ws_char(c: char) -> (r: bool)
    ensures
        r == is_ws(c),
{
    c == ' ' || c == '\t' || c == '\r' || c == '\n'
}

/// Removes leading and trailing whitespace from `s`.
pub fn trim_ws_str(s: &str) -> (t: String)
    ensures
        t@ == trim_ws(s@),
{
    let n = s.unicode_len();
    let mut a: usize = 0;
    proof {
        assert(s@.subrange(0, n as int) =~= s@);
    }
    while a < n && is_ws_char(s.get_char(a))
        invariant
            n == s@.len(),
            a <= n,
            trim_start_ws(s@) =~= trim_start_ws(s@.subrange(a as int, n as int)),
        decreases n - a,
    {
        proof {
            let tail = s@.subrange(a as int, n as int);
            assert(tail.drop_first() =~= s@.subrange(a + 1, n as int));
        }
        a += 1;
    }
    proof {
        let tail = s@.subrange(a as int, n as int);
        assert(trim_start_ws(tail) =~= tail);
    }
    let mut b: usize = n;
    while b > a && is_ws_char(s.get_char(b - 1))
        invariant
            n == s@.len(),
            a <= b <= n,
            trim_start_ws(s@) =~= s@.subrange(a as int, n as int),
            trim_end_ws(s@.subrange(a as int, n as int)) =~= trim_end_ws(
                s@.subrange(a as int, b as int),
            ),
        decreases b,
    {
        proof {
            let part = s@.subrange(a as int, b as int);
            assert(part.last() == s@[b - 1]);
            assert(part.drop_last() =~= s@.subrange(a as int, b - 1));
        }
        b -= 1;
    }
    proof {
        let part = s@.subrange(a as int, b as int);
        assert(trim_end_ws(part) =~= part);
    }
    s.substring_char(a, b).to_owned()
}

/// The header prefix that announces Basic authentication.
pub open spec fn auth_prefix() -> Seq<char> {
    "Authorization: Basic "@
}

/// The first line carrying the Basic-Auth header, if any.
pub open spec fn first_auth_line(ls: Seq<Seq<char>>) -> Option<Seq<char>>
    decreases ls.len(),
{
    if ls.len() == 0 {
        None
    } else if auth_prefix().is_prefix_of(ls[0]) {
        Some(ls[0])
    } else {
        first_auth_line(ls.drop_first())
    }
}

/// The Basic-Auth token of a request text: what follows the header prefix
/// on the first line that carries it, trimmed of surrounding whitespace.
pub open spec fn auth_token_of(text: Seq<char>) -> Option<Seq<char>> {
    match first_auth_line(lines_of(text)) {
        None => None,
        Some(l) => Some(trim_ws(l.subrange(auth_prefix().len() as int, l.len() as int))),
    }
}

/// Scans the request text for its Basic-Auth token.
pub fn find_auth_token(text: &str) -> (r: Option<String>)
    ensures
        match r {
            Some(t) => auth_token_of(text@) == Some(t@),
            None => auth_token_of(text@) is None,
        },
{
    let lines = lines_vec(text);
    let prefix = "Authorization: Basic ";
    let pn = prefix.unicode_len();
    let ghost lv = lines.deep_view();
    let mut i: usize = 0;
    proof {
        reveal_strlit("Authorization: Basic ");
        assert(prefix@ =~= auth_prefix());
        assert(lv.subrange(0, lv.len() as int) =~= lv);
    }
    while i < lines.len()
        invariant
            lv == lines.deep_view(),
            lv == lines_of(text@),
            pn == auth_prefix().len(),
            prefix@ == auth_prefix(),
            i <= lv.len(),
            first_auth_line(lv) == first_auth_line(lv.subrange(i as int, lv.len() as int)),
        decreases lv.len() - i,
    {
        let line = &lines[i];
        let ghost rest = lv.subrange(i as int, lv.len() as int);
        proof {
            assert(lv[i as int] == lines@[i as int]@);
            assert(rest[0] == lv[i as int]);
        }
        if has_prefix(line.as_str(), prefix) {
            proof {
                assert(first_auth_line(rest) == Some(lv[i as int]));
            }
            let ln = line.as_str().unicode_len();
            let encoded = line.as_str().substring_char(pn, ln);
            let token = trim_ws_str(encoded);
            proof {
                assert(encoded@ =~= lv[i as int].subrange(
                    auth_prefix().len() as int,
                    lv[i as int].len() as int,
                ));
            }
            return Some(token);
        }
        proof {
            assert(rest.drop_first() =~= lv.subrange(i + 1, lv.len() as int));
            assert(first_auth_line(rest) == first_auth_line(lv.subrange(i + 1, lv.len() as int)));
        }
        i += 1;
    }
    proof {
        assert(lv.subrange(lv.len() as int, lv.len() as int) =~= Seq::<Seq<char>>::empty());
    }
    None
}

/// What base64's standard-alphabet decoding yields on a token: the decoded
/// bytes, or nothing when the token is not valid base64.
pub uninterp spec fn b64_decode_of(token: Seq<char>) -> Option<Seq<u8>>;

/// Relies on base64's `STANDARD` engine `decode`: a fixed decoding of its
/// input alone, returning the decoded bytes or an error for input outside
/// the standard padded alphabet.
#[verifier::external_body]
fn b64_decode(token: &str) -> (r: Option<Vec<u8>>)
    ensures
        match r {
            Some(v) => b64_decode_of(token@) == Some(v@),
            None => b64_decode_of(token@) is None,
        },
{
    match base64::engine::general_purpose::STANDARD.decode(token) {
        Ok(v) => Some(v),
        Err(_) => None,
    }
}

/// Relies on std's `String::from_utf8`: succeeds exactly on valid UTF-8
/// and yields the decoded characters.
#[verifier::external_body]
fn utf8_string(bytes: Vec<u8>) -> (r: Option<String>)
    ensures
        match r {
            Some(s) => valid_utf8(bytes@) && s@ == decode_utf8(bytes@),
            None => !valid_utf8(bytes@),
        },
{
    match String::from_utf8(bytes) {
        Ok(s) => Some(s),
        Err(_) => None,
    }
}

/// The outcome of credential verification on an admin request.
#[derive(Debug, PartialEq, Eq, Structural)]
pub enum AdminAuth {
    /// No line carries the Basic-Auth header.
    MissingHeader,
    /// The token is not valid base64, or decodes to bytes that are not
    /// valid UTF-8.
    BadPayload,
    /// The decoded text differs from `username:password`.
    WrongCredentials,
    /// The decoded text is exactly `username:password`.
    Authorized,
}

/// The credential text a client must present: `username:password`.
pub open spec fn spec_expected_creds(username: Seq<char>, password: Seq<char>) -> Seq<char> {
    username + ":"@ + password
}

/// The verification outcome for a request text against a credential pair.
pub open spec fn spec_admin_auth(
    text: Seq<char>,
    username: Seq<char>,
    password: Seq<char>,
) -> AdminAuth {
    match auth_token_of(text) {
        None => AdminAuth::MissingHeader,
        Some(tok) => match b64_decode_of(tok) {
            None => AdminAuth::BadPayload,
            Some(bytes) => if !valid_utf8(bytes) {
                AdminAuth::BadPayload
            } else if decode_utf8(bytes) != spec_expected_creds(username, password) {
                AdminAuth::WrongCredentials
            } else {
                AdminAuth::Authorized
            },
        },
    }
}

/// Verifies the Basic-Auth credentials carried by `text` against the given
/// pair: the header must be present, its token must decode as base64 and
/// then as UTF-8, and the result must spell `username:password` exactly.
pub fn admin_auth(text: &str, username: &str, password: &str) -> (d: AdminAuth)
    ensures
        d == spec_admin_auth(text@, username@, password@),
{
    let token = match find_auth_token(text) {
        None => {
            return AdminAuth::MissingHeader;
        },
        Some(t) => t,
    };
    let bytes = match b64_decode(token.as_str()) {
        None => {
            return AdminAuth::BadPayload;
        },
        Some(b) => b,
    };
    let decoded = match utf8_string(bytes) {
        None => {
            return AdminAuth::BadPayload;
        },
        Some(s) => s,
    };
    let mut expected = username.to_owned();
    expected.append(":");
    expected.append(password);
    proof {
        reveal_strlit(":");
        assert(expected@ =~= spec_expected_creds(username@, password@));
    }
    if decoded == expected {
        AdminAuth::Authorized
    } else {
        AdminAuth::WrongCredentials
    }
}

/// The credential pair the admin channel is constructed with.
pub fn default_admin_credentials() -> (c: (String, String))
    ensures
        c.0@ == "admin"@,
        c.1@ == "adminpass"@,
{
    ("admin".to_owned(), "adminpass".to_owned())
}

/// `r` is the admin refusal for missing or wrong credentials: 401 with the
/// Basic challenge and an empty body.
pub open spec fn is_admin_unauthorized_response(r: Response) -> bool {
    &&& r.status == 401
    &&& r.reason@ == "Unauthorized"@
    &&& r.headers@.len() == 2
    &&& r.headers@[0].0@ == "WWW-Authenticate"@
    &&& r.headers@[0].1@ == "Basic realm=\"Admin Interface\""@
    &&& r.headers@[1].0@ == "Content-Length"@
    &&& r.headers@[1].1@ == "0"@
    &&& r.body@ =~= Seq::<u8>::empty()
}

/// Builds the 401 challenge response of the admin channel.
pub fn admin_unauthorized_response() -> (r: Response)
    ensures
        is_admin_unauthorized_response(r),
        content_length_consistent(r),
{
    let mut headers: Vec<(String, String)> = Vec::new();
    headers.push(("WWW-Authenticate".to_owned(), "Basic realm=\"Admin Interface\"".to_owned()));
    headers.push(("Content-Length".to_owned(), "0".to_owned()));
    let r = Response { status: 401, reason: "Unauthorized".to_owned(), headers, body: Vec::new() };
    proof {
        reveal_strlit("WWW-Authenticate");
        reveal_strlit("Content-Length");
        reveal_strlit("0");
        assert("WWW-Authenticate"@.len() == 16);
        assert("Content-Length"@.len() == 14);
        assert((r.headers@[0]).0@ != "Content-Length"@);
        assert((r.headers@[1]).0@ == "Content-Length"@);
        assert("0"@ =~= crate::strutil::dec_rep(0));
    }
    r
}

/// `r` is the admin refusal for a payload that fails base64 or UTF-8
/// decoding: 400 with an empty body.
pub open spec fn is_admin_bad_request_response(r: Response) -> bool {
    &&& r.status == 400
    &&& r.reason@ == "Bad Request"@
    &&& r.headers@.len() == 1
    &&& r.headers@[0].0@ == "Content-Length"@
    &&& r.headers@[0].1@ == "0"@
    &&& r.body@ =~= Seq::<u8>::empty()
}

/// Builds the 400 response of the admin channel.
pub fn admin_bad_request_response() -> (r: Response)
    ensures
        is_admin_bad_request_response(r),
        content_length_consistent(r),
{
    let mut headers: Vec<(String, String)> = Vec::new();
    headers.push(("Content-Length".to_owned(), "0".to_owned()));
    let r = Response { status: 400, reason: "Bad Request".to_owned(), headers, body: Vec::new() };
    proof {
        reveal_strlit("Content-Length");
        reveal_strlit("0");
        assert((r.headers@[0]).0@ == "Content-Length"@);
        assert("0"@ =~= crate::strutil::dec_rep(0));
    }
    r
}

/// The statistics text of the admin page.
pub open spec fn spec_stats_text(total: nat, uptime: nat) -> Seq<char> {
    "Total Request: "@ + dec_rep(total) + "\nUptime: "@ + dec_rep(uptime) + " seconds\n"@
}

/// Renders the statistics text: total request count and uptime in seconds.
pub fn render_stats(total: u64, uptime: u64) -> (s: String)
    ensures
        s@ == spec_stats_text(total as nat, uptime as nat),
{
    let mut s = "Total Request: ".to_owned();
    let total_s = u64_to_string(total);
    s.append(total_s.as_str());
    s.append("\nUptime: ");
    let uptime_s = u64_to_string(uptime);
    s.append(uptime_s.as_str());
    s.append(" seconds\n");
    proof {
        assert(s@ =~= spec_stats_text(total as nat, uptime as nat));
    }
    s
}

/// The last lines of a log, most recent first: up to ten of them.
pub open spec fn spec_log_tail(ls: Seq<Seq<char>>) -> Seq<Seq<char>> {
    Seq::new(
        if ls.len() < 10 {
            ls.len()
        } else {
            10 as nat
        },
        |k: int| ls[ls.len() - 1 - k],
    )
}

/// Takes the last lines of the log content, most recent first, at most ten.
pub fn log_tail_lines(content: &str) -> (tail: Vec<String>)
    ensures
        tail.deep_view() == spec_log_tail(lines_of(content@)),
{
    let lines = lines_vec(content);
    let ghost lv = lines.deep_view();
    let mut tail: Vec<String> = Vec::new();
    let mut i: usize = lines.len();
    while i > 0 && tail.len() < 10
        invariant
            lv == lines.deep_view(),
            lv == lines_of(content@),
            i <= lv.len(),
            tail@.len() == lv.len() - i,
            tail@.len() <= 10,
            forall|k: int|
                0 <= k < tail@.len() ==> #[trigger] tail.deep_view()[k] == lv[lv.len() - 1 - k],
        decreases i,
    {
        i -= 1;
        let ghost old_views = tail.deep_view();
        tail.push(lines[i].clone());
        proof {
            assert(lines@[i as int]@ == lv[i as int]);
            assert(tail.deep_view() =~= old_views.push(lv[i as int]));
        }
    }
    proof {
        assert(tail.deep_view() =~= spec_log_tail(lv));
    }
    tail
}

/// The lines joined with a newline between each pair.
pub open spec fn spec_join_nl(ls: Seq<Seq<char>>) -> Seq<char>
    decreases ls.len(),
{
    if ls.len() == 0 {
        Seq::empty()
    } else if ls.len() == 1 {
        ls[0]
    } else {
        ls[0] + "\n"@ + spec_join_nl(ls.drop_first())
    }
}

fn join_nl_from(ls: &Vec<String>, i: usize) -> (r: String)
    requires
        i <= ls@.len(),
    ensures
        r@ == spec_join_nl(ls.deep_view().subrange(i as int, ls.deep_view().len() as int)),
    decreases ls@.len() - i,
{
    let ghost lv = ls.deep_view();
    if i >= ls.len() {
        proof {
            assert(lv.subrange(i as int, lv.len() as int) =~= Seq::<Seq<char>>::empty());
        }
        String::new()
    } else if i + 1 == ls.len() {
        proof {
            assert(lv.subrange(i as int, lv.len() as int).len() == 1);
            assert(lv.subrange(i as int, lv.len() as int)[0] == lv[i as int]);
            assert(ls@[i as int]@ == lv[i as int]);
        }
        ls[i].clone()
    } else {
        let mut s = ls[i].clone();
        s.append("\n");
        let rest = join_nl_from(ls, i + 1);
        s.append(rest.as_str());
        proof {
            let sub = lv.subrange(i as int, lv.len() as int);
            assert(sub[0] == lv[i as int]);
            assert(ls@[i as int]@ == lv[i as int]);
            assert(sub.drop_first() =~= lv.subrange(i + 1, lv.len() as int));
            assert(s@ =~= sub[0] + "\n"@ + spec_join_nl(sub.drop_first()));
        }
        s
    }
}

/// Joins the lines with a newline between each pair.
pub fn join_nl(ls: &Vec<String>) -> (r: String)
    ensures
        r@ == spec_join_nl(ls.deep_view()),
{
    let r = join_nl_from(ls, 0);
    proof {
        assert(ls.deep_view().subrange(0, ls.deep_view().len() as int) =~= ls.deep_view());
    }
    r
}

/// The admin page: statistics and the last ten log lines, most recent
/// first, inside a page that refreshes itself every thirty seconds.
pub open spec fn spec_admin_page(total: nat, uptime: nat, content: Seq<char>) -> Seq<char> {
    "<html><head><meta http-equiv=\"refresh\" content=\"30\"><title>Admin Interface</title></head><body><h1>Admin Interface</h1><pre>"@
        + spec_stats_text(total, uptime) + "\n\nLast 10 Log Entries:\n"@ + spec_join_nl(
        spec_log_tail(lines_of(content)),
    ) + "</pre></body></html>"@
}

/// Renders the admin page for the given statistics and log content.
pub fn render_admin_page(total: u64, uptime: u64, log_content: &str) -> (page: String)
    ensures
        page@ == spec_admin_page(total as nat, uptime as nat, log_content@),
{
    let mut page =
        "<html><head><meta http-equiv=\"refresh\" content=\"30\"><title>Admin Interface</title></head><body><h1>Admin Interface</h1><pre>".to_owned();
    let stats = render_stats(total, uptime);
    page.append(stats.as_str());
    page.append("\n\nLast 10 Log Entries:\n");
    let tail = log_tail_lines(log_content);
    let logs = join_nl(&tail);
    page.append(logs.as_str());
    page.append("</pre></body></html>");
    proof {
        assert(page@ =~= spec_admin_page(total as nat, uptime as nat, log_content@));
    }
    page
}

/// `r` is the authorized admin answer: 200 with the admin page as body.
pub open spec fn is_admin_page_response(
    r: Response,
    total: nat,
    uptime: nat,
    content: Seq<char>,
) -> bool {
    &&& r.status == 200
    &&& r.reason@ == "OK"@
    &&& r.headers@.len() == 3
    &&& r.headers@[0].0@ == "Content-Type"@ && r.headers@[0].1@ == "text/html"@
    &&& r.headers@[1].0@ == "Content-Length"@ && r.headers@[1].1@ == dec_rep(r.body@.len() as nat)
    &&& r.headers@[2].0@ == "Connection"@ && r.headers@[2].1@ == "close"@
    &&& r.body@ == encode_utf8(spec_admin_page(total, uptime, content))
}

/// Builds the authorized admin answer for the given statistics and log
/// content.
pub fn admin_ok_response(total: u64, uptime: u64, log_content: &str) -> (r: Response)
    ensures
        is_admin_page_response(r, total as nat, uptime as nat, log_content@),
        content_length_consistent(r),
{
    let page = render_admin_page(total, uptime, log_content);
    let body = crate::http::text_body(page.as_str());
    let mut headers: Vec<(String, String)> = Vec::new();
    headers.push(("Content-Type".to_owned(), "text/html".to_owned()));
    headers.push(("Content-Length".to_owned(), u64_to_string(body.len() as u64)));
    headers.push(("Connection".to_owned(), "close".to_owned()));
    let r = Response { status: 200, reason: "OK".to_owned(), headers, body };
    proof {
        reveal_strlit("Content-Type");
        reveal_strlit("Content-Length");
        reveal_strlit("Connection");
        assert("Content-Type"@.len() == 12);
        assert("Content-Length"@.len() == 14);
        assert("Connection"@.len() == 10);
        assert((r.headers@[0]).0@ != "Content-Length"@);
        assert((r.headers@[1]).0@ == "Content-Length"@);
        assert((r.headers@[2]).0@ != "Content-Length"@);
    }
    r
}

/// Handles one admin request text: verifies the credentials it carries and
/// answers with the challenge, the refusal, or the statistics page built
/// from the given counters and log content (`None` when the log could not
/// be read).
pub fn admin_response(
    text: &str,
    username: &str,
    password: &str,
    total: u64,
    uptime: u64,
    log_content: Option<&str>,
) -> (r: Response)
    ensures
        spec_admin_auth(text@, username@, password@) == AdminAuth::MissingHeader
            ==> is_admin_unauthorized_response(r),
        spec_admin_auth(text@, username@, password@) == AdminAuth::WrongCredentials
            ==> is_admin_unauthorized_response(r),
        spec_admin_auth(text@, username@, password@) == AdminAuth::BadPayload
            ==> is_admin_bad_request_response(r),
        spec_admin_auth(text@, username@, password@) == AdminAuth::Authorized
            ==> is_admin_page_response(
            r,
            total as nat,
            uptime as nat,
            match log_content {
                Some(c) => c@,
                None => "No logs available"@,
            },
        ),
        content_length_consistent(r),
{
    match admin_auth(text, username, password) {
        AdminAuth::MissingHeader => admin_unauthorized_response(),
        AdminAuth::WrongCredentials => admin_unauthorized_response(),
        AdminAuth::BadPayload => admin_bad_request_response(),
        AdminAuth::Authorized => {
            let content = match log_content {
                Some(c) => c,
                None => "No logs available",
            };
            admin_ok_response(total, uptime, content)
        },
    }
}

/// `needle` occurs somewhere in `hay` as a contiguous run.
pub open spec fn contains_substr(hay: Seq<char>, needle: Seq<char>) -> bool {
    exists|i: int|
        0 <= i && i + needle.len() <= hay.len() && #[trigger] hay.subrange(i, i + needle.len())
            == needle
}

/// The authorized admin page always shows the statistics: its text
/// contains the literal runs `Total Request:` and `Uptime:`, whatever the
/// counters and the log content.
pub proof fn lemma_admin_page_names_stats(total: nat, uptime: nat, content: Seq<char>)
    ensures
        contains_substr(spec_admin_page(total, uptime, content), "Total Request:"@),
        contains_substr(spec_admin_page(total, uptime, content), "Uptime:"@),
{
    let page = spec_admin_page(total, uptime, content);
    let p0 =
        "<html><head><meta http-equiv=\"refresh\" content=\"30\"><title>Admin Interface</title></head><body><h1>Admin Interface</h1><pre>"@;
    let stats = spec_stats_text(total, uptime);
    reveal_strlit("Total Request: ");
    reveal_strlit("Total Request:");
    reveal_strlit("\nUptime: ");
    reveal_strlit("Uptime:");
    let i0 = p0.len() as int;
    assert(page.subrange(i0, i0 + 14) =~= "Total Request:"@);
    assert(contains_substr(page, "Total Request:"@));
    let iu = i0 + 15 + dec_rep(total).len() + 1;
    assert(page.subrange(iu, iu + 7) =~= "Uptime:"@);
    assert(contains_substr(page, "Uptime:"@));
}

} // verus!
