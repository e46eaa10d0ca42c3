use rusthttp::date::HttpDate;
use rusthttp::files::{response_for_entry, FsEntry};
use rusthttp::handler::{begin_request, HandleStep};
use rusthttp::http::serialize_response;
use rusthttp::paths::{check_containment, join_under_root, resolve_under_root, safe_path, split_slash};
use rusthttp::request::{parse_request_line, split_ws};

fn noon() -> HttpDate {
    HttpDate { year: 2024, month: 3, day: 10, hour: 2, minute: 46, second: 0, weekday: 0 }
}

#[test]
fn parse_well_formed_request_line() {
    let req = parse_request_line("GET /index.html HTTP/1.1").unwrap();
    assert_eq!(req.method, "GET");
    assert_eq!(req.path, "/index.html");
    assert_eq!(req.version, "HTTP/1.1");
}

#[test]
fn parse_tolerates_extra_whitespace_and_tokens() {
    let req = parse_request_line("  GET\t/a  HTTP/1.1  extra\r\n").unwrap();
    assert_eq!(req.method, "GET");
    assert_eq!(req.path, "/a");
    assert_eq!(req.version, "HTTP/1.1");
}

#[test]
fn parse_rejects_short_request_lines() {
    assert!(parse_request_line("GET").is_none());
    assert!(parse_request_line("GET /x").is_none());
    assert!(parse_request_line("").is_none());
    assert!(parse_request_line("   \r\n").is_none());
}

#[test]
fn split_ws_tokens() {
    let toks = split_ws(" a  bb\tccc \r\n");
    assert_eq!(toks, vec!["a".to_string(), "bb".to_string(), "ccc".to_string()]);
    assert!(split_ws("   ").is_empty());
}

#[test]
fn split_slash_components() {
    let comps = split_slash("/usr//share/");
    assert_eq!(comps, vec!["usr".to_string(), "share".to_string()]);
    assert!(split_slash("/").is_empty());
}

#[test]
fn containment_is_component_wise() {
    assert!(check_containment("/home/user/site/a.html", "/home/user/site"));
    assert!(check_containment("/home/user/site", "/home/user/site"));
    assert!(check_containment("/etc/passwd", "/"));
    assert!(!check_containment("/home/user-evil/a.html", "/home/user"));
    assert!(!check_containment("/home", "/home/user"));
    assert!(!check_containment("/etc/passwd", "/usr"));
}

#[test]
fn resolve_under_root_accepts_contained_paths() {
    let rp = resolve_under_root("/srv/www/a/b.txt", "/srv/www").unwrap();
    assert_eq!(rp.path, "/srv/www/a/b.txt");
    assert_eq!(rp.root, "/srv/www");
}

#[test]
fn resolve_under_root_refuses_outside_paths() {
    let e = resolve_under_root("/etc/passwd", "/srv/www").unwrap_err();
    assert_eq!(e, "Access denied: directory traversal attempt detected.");
}

#[test]
fn join_under_root_strips_leading_separators() {
    assert_eq!(join_under_root("/var/www", "/a/b"), "/var/www/a/b");
    assert_eq!(join_under_root("/var/www/", "///x"), "/var/www/x");
    assert_eq!(join_under_root("/var/www", ""), "/var/www");
    assert_eq!(join_under_root("/var/www", "///"), "/var/www");
}

#[test]
fn safe_path_accepts_path_inside_root() {
    let rp = safe_path("/", "/etc").unwrap();
    assert_eq!(rp.path, "/etc");
    assert_eq!(rp.root, "/");
}

#[test]
fn safe_path_refuses_escape_to_existing_file() {
    // The joined path canonicalizes to /etc/passwd, which exists but lies
    // outside the document root.
    let e = safe_path("/usr", "/../../etc/passwd").unwrap_err();
    assert_eq!(e, "Access denied: directory traversal attempt detected.");
}

#[test]
fn safe_path_refuses_escape_to_missing_file() {
    let e = safe_path("/usr", "/../../no_such_entry_zzz").unwrap_err();
    assert!(e.starts_with("Error canonicalizing path: "));
}

#[test]
fn begin_request_answers_malformed_line_with_400() {
    match begin_request("GET", "/usr") {
        HandleStep::Respond { response: r, note } => {
            assert!(note.is_none());
            assert_eq!(r.status, 400);
            assert_eq!(r.body, b"Invalid request line".to_vec());
            let wire = serialize_response(&r);
            assert_eq!(
                wire,
                b"HTTP/1.1 400 Bad Request\r\nConnection: close\r\n\r\nInvalid request line"
                    .to_vec()
            );
        }
        HandleStep::Probe { .. } => panic!("malformed line must not be probed"),
    }
}

#[test]
fn begin_request_answers_traversal_with_403() {
    match begin_request("GET /../../etc/passwd HTTP/1.1", "/usr") {
        HandleStep::Respond { response: r, note } => {
            assert_eq!(
                note.as_deref(),
                Some("Access denied: directory traversal attempt detected.")
            );
            assert_eq!(r.status, 403);
            assert_eq!(r.body, b"Access denied".to_vec());
        }
        HandleStep::Probe { .. } => panic!("traversal must not be probed"),
    }
}

#[test]
fn begin_request_hands_back_contained_path() {
    match begin_request("GET /etc HTTP/1.1", "/") {
        HandleStep::Probe { resolved, method } => {
            assert_eq!(resolved.path, "/etc");
            assert_eq!(resolved.root, "/");
            assert_eq!(method, "GET");
        }
        HandleStep::Respond { .. } => panic!("resolvable path must be probed"),
    }
}

#[test]
fn missing_entry_yields_404_page() {
    let r = response_for_entry("/srv/www/nonexistent.file", FsEntry::Missing, "GET", &noon());
    assert_eq!(r.status, 404);
    assert_eq!(r.reason, "Not Found");
    assert_eq!(r.body, b"<html><body><h1>404 Not Found</h1></body></html>".to_vec());
}

#[test]
fn file_entry_round_trips_content() {
    let bytes = b"hello".to_vec();
    let r = response_for_entry(
        "/srv/www/hello.txt",
        FsEntry::File { content: Some(bytes.clone()) },
        "GET",
        &noon(),
    );
    assert_eq!(r.status, 200);
    assert_eq!(r.body, bytes);
    assert_eq!(r.headers[0].0, "Content-Type");
    assert_eq!(r.headers[0].1, "text/plain");
    assert_eq!(r.headers[1].0, "Content-Length");
    assert_eq!(r.headers[1].1, "5");
    assert_eq!(r.headers[2].0, "Date");
    assert_eq!(r.headers[2].1, "Mon, 10 Mar 2024 02:46:00 GMT");
    assert_eq!(r.headers[3].1, "RustHTTP/1.0");
    assert_eq!(r.headers[4].1, "close");
}

#[test]
fn head_gets_same_headers_and_empty_body() {
    let bytes = b"hello".to_vec();
    let get = response_for_entry(
        "/srv/www/hello.txt",
        FsEntry::File { content: Some(bytes.clone()) },
        "GET",
        &noon(),
    );
    let head = response_for_entry(
        "/srv/www/hello.txt",
        FsEntry::File { content: Some(bytes) },
        "head",
        &noon(),
    );
    assert_eq!(head.status, 200);
    assert!(head.body.is_empty());
    assert_eq!(head.headers, get.headers);
    assert_eq!(head.headers[1].1, "5");
}

#[test]
fn extensionless_path_falls_back_to_octet_stream() {
    let r = response_for_entry(
        "/srv/www/README",
        FsEntry::File { content: Some(b"notes".to_vec()) },
        "GET",
        &noon(),
    );
    assert_eq!(r.headers[0].1, "application/octet-stream");
}

#[test]
fn mime_type_follows_extension() {
    let r = response_for_entry(
        "/srv/www/page.html",
        FsEntry::File { content: Some(b"<p>".to_vec()) },
        "GET",
        &noon(),
    );
    assert_eq!(r.headers[0].1, "text/html");
    let r = response_for_entry(
        "/srv/www/blob.zzz_unknown",
        FsEntry::File { content: Some(vec![0]) },
        "GET",
        &noon(),
    );
    assert_eq!(r.headers[0].1, "application/octet-stream");
}

#[test]
fn failed_read_yields_500_page() {
    let r = response_for_entry(
        "/srv/www/hello.txt",
        FsEntry::File { content: None },
        "GET",
        &noon(),
    );
    assert_eq!(r.status, 500);
    assert_eq!(
        r.body,
        b"<html><body><h1>500 Internal Server Error</h1></body></html>".to_vec()
    );
}

#[test]
fn directory_with_index_serves_its_content() {
    let r = response_for_entry(
        "/srv/www/docs",
        FsEntry::Dir {
            index: Some(Some(b"<h1>welcome</h1>".to_vec())),
            children: vec!["ignored.txt".to_string()],
        },
        "GET",
        &noon(),
    );
    assert_eq!(r.status, 200);
    assert_eq!(r.body, b"<h1>welcome</h1>".to_vec());
    // The index.html path decides the MIME type: a listing would be built
    // from the children instead.
    assert_eq!(r.headers[0].1, "text/html");
    assert_eq!(r.headers[1].1, "16");
}

#[test]
fn directory_without_index_lists_children() {
    let r = response_for_entry(
        "/srv/www/docs",
        FsEntry::Dir {
            index: None,
            children: vec!["a.txt".to_string(), "b.txt".to_string()],
        },
        "GET",
        &noon(),
    );
    assert_eq!(r.status, 200);
    let body = String::from_utf8(r.body.clone()).unwrap();
    assert_eq!(
        body,
        "<html><head><title>Directory Listing for /srv/www/docs</title></head><body>\
         <h1>Directory listing for /srv/www/docs</h1><ul><li>a.txt</li><li>b.txt</li></ul>\
         </body></html>"
    );
    assert_eq!(r.headers[0].1, "text/html");
    assert_eq!(r.headers[1].1, body.len().to_string());
}

#[test]
fn serialize_preserves_header_order_and_body() {
    let r = rusthttp::http::Response {
        status: 200,
        reason: "OK".to_string(),
        headers: vec![
            ("B".to_string(), "2".to_string()),
            ("A".to_string(), "1".to_string()),
            ("B".to_string(), "3".to_string()),
        ],
        body: vec![0, 255, 10],
    };
    let wire = serialize_response(&r);
    let mut expected = b"HTTP/1.1 200 OK\r\nB: 2\r\nA: 1\r\nB: 3\r\n\r\n".to_vec();
    expected.extend_from_slice(&[0, 255, 10]);
    assert_eq!(wire, expected);
}
