use rusthttp::config::Config;
use rusthttp::date::{http_date_format, log_stamp_format, now_http_date, HttpDate};
use rusthttp::http::{
    bad_request_response, forbidden_response, internal_error_response, not_found_response,
};
use rusthttp::logfmt::{
    format_error_message, format_log_line, format_request_message, format_stats_message,
};
use rusthttp::strutil::u64_to_string;

fn config(host: &str, port: u16, admin_port: u16, root: &str, log: &str) -> Config {
    Config {
        host: host.to_string(),
        port,
        admin_port,
        document_root: root.to_string(),
        max_threads: 4,
        log_file: log.to_string(),
    }
}

#[test]
fn decimal_rendering() {
    assert_eq!(u64_to_string(0), "0");
    assert_eq!(u64_to_string(7), "7");
    assert_eq!(u64_to_string(10), "10");
    assert_eq!(u64_to_string(65535), "65535");
    assert_eq!(u64_to_string(u64::MAX), "18446744073709551615");
}

#[test]
fn http_date_matches_the_documented_example() {
    let d = HttpDate { year: 2024, month: 3, day: 10, hour: 2, minute: 46, second: 0, weekday: 0 };
    assert_eq!(http_date_format(&d), "Mon, 10 Mar 2024 02:46:00 GMT");
}

#[test]
fn http_date_pads_every_field() {
    let d = HttpDate { year: 99, month: 12, day: 1, hour: 23, minute: 5, second: 59, weekday: 6 };
    assert_eq!(http_date_format(&d), "Sun, 01 Dec 0099 23:05:59 GMT");
}

#[test]
fn log_stamp_is_day_month_year() {
    let d = HttpDate { year: 2024, month: 1, day: 5, hour: 9, minute: 8, second: 7, weekday: 4 };
    assert_eq!(log_stamp_format(&d), "05-01-2024 09:08:07");
}

#[test]
fn clock_fields_are_in_range() {
    let d = now_http_date();
    assert!((1..=12).contains(&d.month));
    assert!((1..=31).contains(&d.day));
    assert!(d.hour < 24 && d.minute < 60 && d.second < 60 && d.weekday < 7);
}

#[test]
fn log_line_format() {
    let d = HttpDate { year: 2024, month: 1, day: 5, hour: 9, minute: 8, second: 7, weekday: 4 };
    assert_eq!(format_log_line(&d, "Server started"), "[05-01-2024 09:08:07] Server started\n");
}

#[test]
fn request_report_format() {
    assert_eq!(
        format_request_message("127.0.0.1:5000", "GET / HTTP/1.1", 200),
        "REQUEST from 127.0.0.1:5000: 'GET / HTTP/1.1' responded with 200"
    );
}

#[test]
fn error_report_format() {
    assert_eq!(format_error_message("boom"), "ERROR: boom");
}

#[test]
fn stats_report_format() {
    assert_eq!(
        format_stats_message(12, 340),
        "STATS: Total Requests: 12, Uptime: 340 seconds"
    );
}

#[test]
fn canned_responses_carry_their_fixed_bodies() {
    let r = bad_request_response();
    assert_eq!((r.status, r.body), (400, b"Invalid request line".to_vec()));
    let r = forbidden_response();
    assert_eq!((r.status, r.body), (403, b"Access denied".to_vec()));
    let r = not_found_response();
    assert_eq!(
        (r.status, r.body),
        (404, b"<html><body><h1>404 Not Found</h1></body></html>".to_vec())
    );
    let r = internal_error_response();
    assert_eq!(
        (r.status, r.body),
        (500, b"<html><body><h1>500 Internal Server Error</h1></body></html>".to_vec())
    );
}

#[test]
fn config_validation_reports_the_first_violation() {
    assert!(config("0.0.0.0", 8080, 9090, "/srv", "log.txt").validate().is_ok());
    assert_eq!(
        config("", 8080, 9090, "/srv", "log.txt").validate().unwrap_err(),
        "host cannot be empty"
    );
    assert_eq!(
        config("h", 0, 9090, "/srv", "log.txt").validate().unwrap_err(),
        "port must be a non-zero value"
    );
    assert_eq!(
        config("h", 8080, 0, "/srv", "log.txt").validate().unwrap_err(),
        "admin_port must be a non-zero value"
    );
    assert_eq!(
        config("h", 8080, 9090, "", "log.txt").validate().unwrap_err(),
        "document_root cannot be empty"
    );
    assert_eq!(
        config("h", 8080, 9090, "/srv", "").validate().unwrap_err(),
        "log_file cannot be empty"
    );
}

#[test]
fn listen_addresses_join_host_and_port() {
    let c = config("127.0.0.1", 8080, 9090, "/srv", "log.txt");
    assert_eq!(c.listen_addr(), "127.0.0.1:8080");
    assert_eq!(c.admin_addr(), "127.0.0.1:9090");
}
