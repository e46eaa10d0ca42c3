//! The per-request decision pipeline. A connection handler reads the
//! request line and drains the headers; everything it then decides is
//! here: [`begin_request`] parses the line and resolves the path, handing
//! back either a finished refusal or the resolved path to probe, and
//! [`crate::files::response_for_entry`] turns the probe's outcome into the
//! response to write. A request path that names no filesystem entry fails
//! canonicalization and is refused 403 here, before anything is probed;
//! the 404 page arises when a path that did resolve no longer stats.

use vstd::prelude::*;

use crate::http::bad_request_response;
use crate::http::forbidden_response;
use crate::http::is_simple_response;
use crate::http::Response;
use crate::paths::resolved_wf;
use crate::paths::safe_path;
use crate::paths::ResolvedPath;
use crate::request::parse_request_line;
use crate::request::tokens_of;

verus! {

/// What a connection handler must do next after the request line is read:
/// send a finished response, or probe the resolved path and serve what is
/// found there. A refusal carries the resolver's message in `note`, for
/// the caller's log; a malformed line carries none.
pub enum HandleStep {
    Respond { response: Response, note: Option<String> },
    Probe { resolved: ResolvedPath, method: String },
}

/// Decides the first half of a request: a malformed request line is
/// answered 400 at once, a path that fails safe resolution 403, and an
/// accepted one comes back as a path to probe, together with the request's
/// method. A probed path always carries the canonical document root the
/// filesystem reported, and lies inside it.
pub fn begin_request(line: &str, document_root: &str) -> (s: HandleStep)
    ensures
        tokens_of(line@).len() < 3 ==> (s matches HandleStep::Respond { response: r, note }
            && is_simple_response(r, 400, "Bad Request"@, "Invalid request line"@)
            && note is None),
        tokens_of(line@).len() >= 3 ==> (s matches HandleStep::Respond { response: r, note }
            ==> is_simple_response(r, 403, "Forbidden"@, "Access denied"@) && note is Some),
        s matches HandleStep::Respond { response: r, .. } ==> is_simple_response(
            r,
            400,
            "Bad Request"@,
            "Invalid request line"@,
        ) || is_simple_response(r, 403, "Forbidden"@, "Access denied"@),
        s matches HandleStep::Respond { note: Some(n), .. } ==> n@
            == "Access denied: directory traversal attempt detected."@
            || "Error canonicalizing path: "@.is_prefix_of(n@)
            || "Error canonicalizing document root: "@.is_prefix_of(n@),
        s matches HandleStep::Probe { .. } ==> tokens_of(line@).len() >= 3,
        s matches HandleStep::Probe { method, .. } ==> method@ == tokens_of(line@)[0],
        s matches HandleStep::Probe { resolved, .. } ==> resolved_wf(resolved),
{
    match parse_request_line(line) {
        None => HandleStep::Respond { response: bad_request_response(), note: None },
        Some(req) => match safe_path(document_root, req.path.as_str()) {
            Ok(rp) => HandleStep::Probe { resolved: rp, method: req.method },
            Err(e) => HandleStep::Respond { response: forbidden_response(), note: Some(e) },
        },
    }
}

} // verus!
