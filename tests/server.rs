use http_server::http::{HttpMethod, HttpRequest, HttpResponse, HttpStatus, StatusKind};
use http_server::parser::{parse_length_field, HttpRequestParser};
use http_server::router::{
    file_read_response, file_write_response, handle_request, response_for_echo_route,
    response_for_user_agent_route, RouteAction,
};

fn parse(text: &str) -> Option<HttpRequest> {
    HttpRequestParser::from_request(text.as_bytes())
}

fn respond(dir: &str, text: &str) -> RouteAction {
    handle_request(dir.as_bytes(), parse(text))
}

fn response_of(action: RouteAction) -> HttpResponse {
    match action {
        RouteAction::Respond(r) => r,
        RouteAction::ReadFile(_) => panic!("expected a response, got a read"),
        RouteAction::WriteFile(_, _) => panic!("expected a response, got a write"),
    }
}

fn wire(r: &HttpResponse) -> String {
    String::from_utf8(r.to_bytes()).unwrap()
}

fn assert_not_found(r: &HttpResponse) {
    assert_eq!(r.status.code(), 404);
    assert!(r.headers.is_empty());
    assert!(r.body.is_none());
}

#[test]
fn status_codes() {
    assert_eq!(HttpStatus::from_status_code(200).unwrap().code(), 200);
    assert_eq!(HttpStatus::from_status_code(201).unwrap().kind(), StatusKind::Created);
    assert_eq!(HttpStatus::from_status_code(404).unwrap().kind(), StatusKind::NotFound);
    assert!(HttpStatus::from_status_code(500).is_none());
    assert!(HttpStatus::from_status_code(0).is_none());
}

#[test]
fn not_found_wire_form() {
    assert_eq!(wire(&HttpResponse::not_found()), "HTTP/1.1 404 Not Found\r\n\r\n");
}

#[test]
fn created_wire_form() {
    let r = HttpResponse::new(201, Vec::new(), None);
    assert_eq!(wire(&r), "HTTP/1.1 201 Created\r\n\r\n");
}

#[test]
fn wire_form_with_headers_and_body() {
    let headers = vec![(b"A".to_vec(), b"1".to_vec()), (b"B".to_vec(), b"two".to_vec())];
    let r = HttpResponse::new(200, headers, Some(b"hi".to_vec()));
    assert_eq!(wire(&r), "HTTP/1.1 200 OK\r\nA: 1\r\nB: two\r\n\r\nhi\r\n\r\n");
}

#[test]
fn parses_request_line_headers_and_body() {
    let req = parse("POST /files/a.txt HTTP/1.1\r\nHost: localhost:4221\r\nContent-Length: 5\r\n\r\nhelloEXTRA").unwrap();
    assert_eq!(req.method, HttpMethod::POST);
    assert_eq!(req.request_target, b"/files/a.txt".to_vec());
    assert_eq!(req.headers.len(), 2);
    assert_eq!(req.headers[0], (b"Host".to_vec(), b"localhost:4221".to_vec()));
    assert_eq!(req.body, Some(b"hello".to_vec()));
}

#[test]
fn no_content_length_means_no_body() {
    let req = parse("GET / HTTP/1.1\r\n\r\nleftover").unwrap();
    assert_eq!(req.method, HttpMethod::GET);
    assert!(req.headers.is_empty());
    assert!(req.body.is_none());
}

#[test]
fn header_values_are_trimmed() {
    let req = parse("GET / HTTP/1.1\r\nX:   padded \t\r\n\r\n").unwrap();
    assert_eq!(req.headers[0], (b"X".to_vec(), b"padded".to_vec()));
}

#[test]
fn duplicate_header_last_wins() {
    let action = respond("", "GET /user-agent HTTP/1.1\r\nUser-Agent: first\r\nUser-Agent: second\r\n\r\n");
    let r = response_of(action);
    assert_eq!(r.body, Some(b"second".to_vec()));
}

#[test]
fn too_few_tokens_fails() {
    assert!(parse("GET\r\n\r\n").is_none());
    assert!(parse("").is_none());
    assert!(parse("   \r\n\r\n").is_none());
}

#[test]
fn header_without_separator_fails() {
    assert!(parse("GET / HTTP/1.1\r\nBroken\r\n\r\n").is_none());
}

#[test]
fn missing_empty_line_fails() {
    assert!(parse("GET / HTTP/1.1\r\nHost: x\r\n").is_none());
}

#[test]
fn bad_content_length_fails() {
    assert!(parse("POST /files/a HTTP/1.1\r\nContent-Length: abc\r\n\r\nabc").is_none());
    assert!(parse("POST /files/a HTTP/1.1\r\nContent-Length: 99999999999999999999999\r\n\r\n").is_none());
}

#[test]
fn length_fields() {
    assert_eq!(parse_length_field(b"0"), Some(0));
    assert_eq!(parse_length_field(b"+12"), Some(12));
    assert_eq!(parse_length_field(b"1234567"), Some(1234567));
    assert_eq!(parse_length_field(b"18446744073709551615"), Some(usize::MAX));
    assert_eq!(parse_length_field(b"18446744073709551616"), None);
    assert_eq!(parse_length_field(b""), None);
    assert_eq!(parse_length_field(b"+"), None);
    assert_eq!(parse_length_field(b"-1"), None);
    assert_eq!(parse_length_field(b"1 2"), None);
}

#[test]
fn short_body_is_answered_not_found() {
    let text = "POST /files/a.txt HTTP/1.1\r\nContent-Length: 10\r\n\r\nshort";
    assert!(parse(text).is_none());
    let r = response_of(respond("/tmp/", text));
    assert_not_found(&r);
    assert_eq!(wire(&r), "HTTP/1.1 404 Not Found\r\n\r\n");
}

#[test]
fn unknown_method_is_not_found() {
    let req = parse("PATCH / HTTP/1.1\r\n\r\n").unwrap();
    assert_eq!(req.method, HttpMethod::Unknown);
    assert_not_found(&response_of(respond("", "PATCH / HTTP/1.1\r\n\r\n")));
}

#[test]
fn undefined_routes_are_not_found() {
    assert_not_found(&response_of(respond("", "GET /nothing HTTP/1.1\r\n\r\n")));
    assert_not_found(&response_of(respond("", "DELETE / HTTP/1.1\r\n\r\n")));
    assert_not_found(&response_of(respond("", "PUT /files/a HTTP/1.1\r\n\r\n")));
    assert_not_found(&response_of(respond("", "POST /echo/x HTTP/1.1\r\n\r\n")));
    assert_not_found(&response_of(respond("", "GET /echo HTTP/1.1\r\n\r\n")));
}

#[test]
fn root_is_ok() {
    let r = response_of(respond("", "GET / HTTP/1.1\r\n\r\n"));
    assert_eq!(wire(&r), "HTTP/1.1 200 OK\r\n\r\n");
}

#[test]
fn echo_wire_form() {
    let r = response_of(respond("", "GET /echo/abc HTTP/1.1\r\n\r\n"));
    assert_eq!(
        wire(&r),
        "HTTP/1.1 200 OK\r\nContent-Type: text/plain\r\nContent-Length: 3\r\n\r\nabc\r\n\r\n"
    );
}

#[test]
fn echo_counts_bytes_not_characters() {
    let r = response_for_echo_route("/echo/h\u{e9}".as_bytes());
    assert_eq!(r.body, Some("h\u{e9}".as_bytes().to_vec()));
    assert_eq!(r.headers[1], (b"Content-Length".to_vec(), b"3".to_vec()));
}

#[test]
fn echo_empty_suffix_is_ok_without_headers() {
    let r = response_of(respond("", "GET /echo/ HTTP/1.1\r\n\r\n"));
    assert_eq!(r.status.code(), 200);
    assert!(r.headers.is_empty());
    assert!(r.body.is_none());
}

#[test]
fn user_agent_route() {
    let req = parse("GET /user-agent HTTP/1.1\r\nHost: localhost:4221\r\nUser-Agent: curl/7.64.1\r\n\r\n").unwrap();
    let r = response_for_user_agent_route(&req);
    assert_eq!(r.status.code(), 200);
    assert_eq!(r.body, Some(b"curl/7.64.1".to_vec()));
    assert_eq!(r.headers[0], (b"Content-Type".to_vec(), b"text/plain".to_vec()));
    assert_eq!(r.headers[1], (b"Content-Length".to_vec(), b"11".to_vec()));
}

#[test]
fn user_agent_missing_is_not_found() {
    assert_not_found(&response_of(respond("", "GET /user-agent HTTP/1.1\r\n\r\n")));
}

#[test]
fn write_then_read_same_path() {
    let post = respond("/srv/", "POST /files/foo.txt HTTP/1.1\r\nContent-Length: 4\r\n\r\nB\x00yz");
    let written = match post {
        RouteAction::WriteFile(path, body) => {
            assert_eq!(path, b"/srv/foo.txt".to_vec());
            assert_eq!(body, b"B\x00yz".to_vec());
            body
        }
        _ => panic!("expected a write"),
    };
    assert_eq!(file_write_response(true).status.code(), 201);
    let get = respond("/srv/", "GET /files/foo.txt HTTP/1.1\r\n\r\n");
    match get {
        RouteAction::ReadFile(path) => assert_eq!(path, b"/srv/foo.txt".to_vec()),
        _ => panic!("expected a read"),
    }
    let r = file_read_response(Some(written.clone()));
    assert_eq!(r.status.code(), 200);
    assert_eq!(r.body, Some(written));
    assert_eq!(r.headers[0], (b"Content-Type".to_vec(), b"application/octet-stream".to_vec()));
    assert_eq!(r.headers[1], (b"Content-Length".to_vec(), b"4".to_vec()));
}

#[test]
fn failed_file_operations_are_not_found() {
    assert_not_found(&file_read_response(None));
    assert_not_found(&file_write_response(false));
}

#[test]
fn post_files_without_name_or_body_is_not_found() {
    assert_not_found(&response_of(respond("/srv/", "POST /files/ HTTP/1.1\r\nContent-Length: 1\r\n\r\nx")));
    assert_not_found(&response_of(respond("/srv/", "POST /files/foo.txt HTTP/1.1\r\n\r\n")));
}

#[test]
fn get_files_without_name_is_not_found() {
    assert_not_found(&response_of(respond("/srv/", "GET /files/ HTTP/1.1\r\n\r\n")));
}

#[test]
fn framing_helpers() {
    assert!(HttpRequestParser::ends_head(b"\r\n"));
    assert!(!HttpRequestParser::ends_head(b"Host: x\r\n"));
    assert!(!HttpRequestParser::ends_head(b"\n"));
    assert_eq!(HttpRequestParser::announced_body_length(b"POST /files/a HTTP/1.1\r\nContent-Length: 12\r\n\r\n"), 12);
    assert_eq!(HttpRequestParser::announced_body_length(b"GET / HTTP/1.1\r\n\r\n"), 0);
    assert_eq!(HttpRequestParser::announced_body_length(b"GET / HTTP/1.1\r\nContent-Length: x\r\n\r\n"), 0);
}
