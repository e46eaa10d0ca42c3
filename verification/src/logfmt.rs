//! The exact texts the server hands to its logger: timestamped log lines,
//! request and error reports, and the periodic statistics line.

use vstd::prelude::*;
use vstd::string::StrSliceExecFns;
use vstd::string::StringExecFns;

use crate::date::date_wf;
use crate::date::log_stamp_format;
use crate::date::spec_log_stamp;
use crate::date::HttpDate;
use crate::strutil::dec_rep;
use crate::strutil::u64_to_string;

verus! {

/// A full log line: the timestamp in brackets, the message, a newline.
pub open spec fn spec_log_line(stamp: Seq<char>, message: Seq<char>) -> Seq<char> {
    "["@ + stamp + "] "@ + message + "\n"@
}

/// Formats one log line for the moment `d`: `[DD-MM-YYYY HH:MM:SS] <message>`
/// and a trailing newline.
pub fn format_log_line(d: &HttpDate, message: &str) -> (r: String)
    requires
        date_wf(*d),
    ensures
        r@ == spec_log_line(spec_log_stamp(*d), message@),
{
    let mut r = "[".to_owned();
    let stamp = log_stamp_format(d);
    r.append(stamp.as_str());
    r.append("] ");
    r.append(message);
    r.append("\n");
    proof {
        assert(r@ =~= spec_log_line(spec_log_stamp(*d), message@));
    }
    r
}

/// The report of one handled request.
pub open spec fn spec_request_message(ip: Seq<char>, line: Seq<char>, code: nat) -> Seq<char> {
    "REQUEST from "@ + ip + ": '"@ + line + "' responded with "@ + dec_rep(code)
}

/// Formats the report of one handled request: the peer address, the
/// request line, and the status code sent.
pub fn format_request_message(client_ip: &str, request_line: &str, code: u16) -> (r: String)
    ensures
        r@ == spec_request_message(client_ip@, request_line@, code as nat),
{
    let mut r = "REQUEST from ".to_owned();
    r.append(client_ip);
    r.append(": '");
    r.append(request_line);
    r.append("' responded with ");
    let code_s = u64_to_string(code as u64);
    r.append(code_s.as_str());
    proof {
        assert(r@ =~= spec_request_message(client_ip@, request_line@, code as nat));
    }
    r
}

/// An error report.
pub open spec fn spec_error_message(message: Seq<char>) -> Seq<char> {
    "ERROR: "@ + message
}

/// Formats an error report.
pub fn format_error_message(message: &str) -> (r: String)
    ensures
        r@ == spec_error_message(message@),
{
    let mut r = "ERROR: ".to_owned();
    r.append(message);
    r
}

/// The periodic statistics line.
pub open spec fn spec_stats_message(total: nat, uptime: nat) -> Seq<char> {
    "STATS: Total Requests: "@ + dec_rep(total) + ", Uptime: "@ + dec_rep(uptime) + " seconds"@
}

/// Formats the periodic statistics line: total requests and uptime.
pub fn format_stats_message(total: u64, uptime: u64) -> (r: String)
    ensures
        r@ == spec_stats_message(total as nat, uptime as nat),
{
    let mut r = "STATS: Total Requests: ".to_owned();
    let total_s = u64_to_string(total);
    r.append(total_s.as_str());
    r.append(", Uptime: ");
    let uptime_s = u64_to_string(uptime);
    r.append(uptime_s.as_str());
    r.append(" seconds");
    proof {
        assert(r@ =~= spec_stats_message(total as nat, uptime as nat));
    }
    r
}

} // verus!
