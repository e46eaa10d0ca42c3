//! Calendar time as plain fields, and the two textual date formats the
//! server emits: the HTTP-date of the `Date` header and the timestamp of
//! log lines. Only reading the clock itself is delegated to chrono; all
//! formatting is verified.

use vstd::prelude::*;
use vstd::string::StringExecFns;

use chrono::Datelike;
use chrono::Timelike;

use crate::strutil::dec_rep;
use crate::strutil::u64_to_string;

verus! {

/// A moment of UTC time, as plain calendar fields.
pub struct HttpDate {
    pub year: u16,
    /// January is 1.
    pub month: u8,
    /// First day of the month is 1.
    pub day: u8,
    pub hour: u8,
    pub minute: u8,
    pub second: u8,
    /// Monday is 0, Sunday is 6.
    pub weekday: u8,
}

/// The fields lie in their calendar ranges.
pub open spec fn date_wf(d: HttpDate) -> bool {
    &&& d.year <= 9999
    &&& 1 <= d.month <= 12
    &&& 1 <= d.day <= 31
    &&& d.hour < 24
    &&& d.minute < 60
    &&& d.second < 60
    &&& d.weekday < 7
}

/// Relies on chrono: `Utc::now` gives the current time, whose `Datelike`
/// and `Timelike` accessors yield `month` in 1..=12, `day` in 1..=31,
/// `hour` below 24, `minute` and `second` below 60 (leap seconds are
/// carried in the sub-second part), and `num_days_from_monday` below 7.
/// Nothing is assumed of the year: the clock may be set arbitrarily.
#[verifier::external_body]
fn utc_now_fields() -> (t: (i32, u32, u32, u32, u32, u32, u32))
    ensures
        1 <= t.1 <= 12,
        1 <= t.2 <= 31,
        t.3 < 24,
        t.4 < 60,
        t.5 < 60,
        t.6 < 7,
{
    let now = chrono::Utc::now();
    (
        now.year(),
        now.month(),
        now.day(),
        now.hour(),
        now.minute(),
        now.second(),
        now.weekday().num_days_from_monday(),
    )
}

/// Reads the clock and returns the current UTC moment, with the year
/// clamped to four digits.
pub fn now_http_date() -> (d: HttpDate)
    ensures
        date_wf(d),
{
    let (y, mo, da, h, mi, s, w) = utc_now_fields();
    let year: u16 = if y < 0 {
        0
    } else if y > 9999 {
        9999
    } else {
        y as u16
    };
    HttpDate {
        year,
        month: mo as u8,
        day: da as u8,
        hour: h as u8,
        minute: mi as u8,
        second: s as u8,
        weekday: w as u8,
    }
}

/// The three-letter English weekday name, Monday first.
pub open spec fn spec_weekday_name(w: nat) -> Seq<char>
    recommends
        w < 7,
{
    if w == 0 {
        "Mon"@
    } else if w == 1 {
        "Tue"@
    } else if w == 2 {
        "Wed"@
    } else if w == 3 {
        "Thu"@
    } else if w == 4 {
        "Fri"@
    } else if w == 5 {
        "Sat"@
    } else {
        "Sun"@
    }
}

/// The three-letter English month name, January first.
pub open spec fn spec_month_name(m: nat) -> Seq<char>
    recommends
        1 <= m <= 12,
{
    if m == 1 {
        "Jan"@
    } else if m == 2 {
        "Feb"@
    } else if m == 3 {
        "Mar"@
    } else if m == 4 {
        "Apr"@
    } else if m == 5 {
        "May"@
    } else if m == 6 {
        "Jun"@
    } else if m == 7 {
        "Jul"@
    } else if m == 8 {
        "Aug"@
    } else if m == 9 {
        "Sep"@
    } else if m == 10 {
        "Oct"@
    } else {
        if m == 11 {
            "Nov"@
        } else {
            "Dec"@
        }
    }
}

/// `n` in decimal, zero-padded on the left to at least two digits.
pub open spec fn spec_pad2(n: nat) -> Seq<char> {
    if n < 10 {
        seq!['0'] + dec_rep(n)
    } else {
        dec_rep(n)
    }
}

/// `n` in decimal, zero-padded on the left to at least four digits.
pub open spec fn spec_pad4(n: nat) -> Seq<char> {
    if n < 10 {
        seq!['0', '0', '0'] + dec_rep(n)
    } else if n < 100 {
        seq!['0', '0'] + dec_rep(n)
    } else if n < 1000 {
        seq!['0'] + dec_rep(n)
    } else {
        dec_rep(n)
    }
}

fn weekday_name(w: u8) -> (r: &'static str)
    requires
        w < 7,
    ensures
        r@ == spec_weekday_name(w as nat),
{
    if w == 0 {
        "Mon"
    } else if w == 1 {
        "Tue"
    } else if w == 2 {
        "Wed"
    } else if w == 3 {
        "Thu"
    } else if w == 4 {
        "Fri"
    } else if w == 5 {
        "Sat"
    } else {
        "Sun"
    }
}

fn month_name(m: u8) -> (r: &'static str)
    requires
        1 <= m <= 12,
    ensures
        r@ == spec_month_name(m as nat),
{
    if m == 1 {
        "Jan"
    } else if m == 2 {
        "Feb"
    } else if m == 3 {
        "Mar"
    } else if m == 4 {
        "Apr"
    } else if m == 5 {
        "May"
    } else if m == 6 {
        "Jun"
    } else if m == 7 {
        "Jul"
    } else if m == 8 {
        "Aug"
    } else if m == 9 {
        "Sep"
    } else if m == 10 {
        "Oct"
    } else if m == 11 {
        "Nov"
    } else {
        "Dec"
    }
}

fn pad2(n: u8) -> (r: String)
    ensures
        r@ == spec_pad2(n as nat),
{
    if n < 10 {
        let mut s = "0".to_owned();
        let digits = u64_to_string(n as u64);
        s.append(digits.as_str());
        proof {
            reveal_strlit("0");
            assert(s@ =~= seq!['0'] + dec_rep(n as nat));
        }
        s
    } else {
        u64_to_string(n as u64)
    }
}

fn pad4(n: u16) -> (r: String)
    ensures
        r@ == spec_pad4(n as nat),
{
    let mut s: String;
    if n < 10 {
        s = "000".to_owned();
    } else if n < 100 {
        s = "00".to_owned();
    } else if n < 1000 {
        s = "0".to_owned();
    } else {
        s = "".to_owned();
    }
    let digits = u64_to_string(n as u64);
    s.append(digits.as_str());
    proof {
        reveal_strlit("000");
        reveal_strlit("00");
        reveal_strlit("0");
        reveal_strlit("");
        assert(s@ =~= spec_pad4(n as nat));
    }
    s
}

/// The HTTP-date rendering of `d`, such as `Mon, 10 Mar 2024 02:46:00 GMT`.
pub open spec fn spec_http_date(d: HttpDate) -> Seq<char> {
    spec_weekday_name(d.weekday as nat) + ", "@ + spec_pad2(d.day as nat) + " "@ + spec_month_name(
        d.month as nat,
    ) + " "@ + spec_pad4(d.year as nat) + " "@ + spec_pad2(d.hour as nat) + ":"@ + spec_pad2(
        d.minute as nat,
    ) + ":"@ + spec_pad2(d.second as nat) + " GMT"@
}

/// Formats `d` as an HTTP-date string, e.g. `Mon, 10 Mar 2024 02:46:00 GMT`.
pub fn http_date_format(d: &HttpDate) -> (r: String)
    requires
        date_wf(*d),
    ensures
        r@ == spec_http_date(*d),
{
    let mut s = weekday_name(d.weekday).to_owned();
    s.append(", ");
    let day = pad2(d.day);
    s.append(day.as_str());
    s.append(" ");
    s.append(month_name(d.month));
    s.append(" ");
    let year = pad4(d.year);
    s.append(year.as_str());
    s.append(" ");
    let hour = pad2(d.hour);
    s.append(hour.as_str());
    s.append(":");
    let minute = pad2(d.minute);
    s.append(minute.as_str());
    s.append(":");
    let second = pad2(d.second);
    s.append(second.as_str());
    s.append(" GMT");
    proof {
        assert(s@ =~= spec_http_date(*d));
    }
    s
}

/// The log-line timestamp rendering of `d`: `DD-MM-YYYY HH:MM:SS`.
pub open spec fn spec_log_stamp(d: HttpDate) -> Seq<char> {
    spec_pad2(d.day as nat) + "-"@ + spec_pad2(d.month as nat) + "-"@ + spec_pad4(d.year as nat)
        + " "@ + spec_pad2(d.hour as nat) + ":"@ + spec_pad2(d.minute as nat) + ":"@ + spec_pad2(
        d.second as nat,
    )
}

/// Formats `d` as the timestamp used inside log lines: `DD-MM-YYYY HH:MM:SS`.
pub fn log_stamp_format(d: &HttpDate) -> (r: String)
    requires
        date_wf(*d),
    ensures
        r@ == spec_log_stamp(*d),
{
    let mut s = pad2(d.day);
    s.append("-");
    let month = pad2(d.month);
    s.append(month.as_str());
    s.append("-");
    let year = pad4(d.year);
    s.append(year.as_str());
    s.append(" ");
    let hour = pad2(d.hour);
    s.append(hour.as_str());
    s.append(":");
    let minute = pad2(d.minute);
    s.append(minute.as_str());
    s.append(":");
    let second = pad2(d.second);
    s.append(second.as_str());
    proof {
        assert(s@ =~= spec_log_stamp(*d));
    }
    s
}

} // verus!
