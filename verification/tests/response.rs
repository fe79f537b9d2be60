use http_server::response::append;
use http_server::response::has_content_type;
use http_server::response::write_response;
use http_server::response::Response;
use http_server::response::Status;

fn response(status: Status, extra: &[&str], body: Option<&[u8]>) -> Response {
    Response {
        status,
        extra_headers: extra.iter().map(|line| line.as_bytes().to_vec()).collect(),
        body: body.map(|b| b.to_vec()),
    }
}

#[test]
fn status_codes_and_reasons() {
    assert_eq!(Status::Success.code_number(), 200);
    assert_eq!(Status::Created.code_number(), 201);
    assert_eq!(Status::NotFound.code_number(), 404);
    assert_eq!(Status::Success.reason_phrase(), "OK");
    assert_eq!(Status::Created.reason_phrase(), "Created");
    assert_eq!(Status::NotFound.reason_phrase(), "Not Found");
}

#[test]
fn a_response_without_body_is_status_line_and_empty_line() {
    assert_eq!(
        write_response(&response(Status::Success, &[], None)),
        b"HTTP/1.1 200 OK\r\n\r\n".to_vec()
    );
    assert_eq!(
        write_response(&response(Status::Created, &[], None)),
        b"HTTP/1.1 201 Created\r\n\r\n".to_vec()
    );
    assert_eq!(
        write_response(&response(Status::NotFound, &[], None)),
        b"HTTP/1.1 404 Not Found\r\n\r\n".to_vec()
    );
}

#[test]
fn a_response_without_body_keeps_its_extra_headers() {
    assert_eq!(
        write_response(&response(Status::NotFound, &["Connection: close\r\n"], None)),
        b"HTTP/1.1 404 Not Found\r\nConnection: close\r\n\r\n".to_vec()
    );
}

#[test]
fn a_body_is_declared_as_text_with_its_length() {
    assert_eq!(
        write_response(&response(Status::Success, &[], Some(b"abc"))),
        b"HTTP/1.1 200 OK\r\nContent-Type: text/plain\r\nContent-Length: 3\r\n\r\nabc".to_vec()
    );
}

#[test]
fn an_empty_body_is_still_a_body() {
    assert_eq!(
        write_response(&response(Status::Success, &[], Some(b""))),
        b"HTTP/1.1 200 OK\r\nContent-Type: text/plain\r\nContent-Length: 0\r\n\r\n".to_vec()
    );
}

#[test]
fn extra_headers_come_first_and_verbatim() {
    assert_eq!(
        write_response(&response(
            Status::Success,
            &["Connection: close\r\n", "Content-Encoding: gzip\r\n"],
            Some(b"0123456789ab")
        )),
        b"HTTP/1.1 200 OK\r\nConnection: close\r\nContent-Encoding: gzip\r\nContent-Type: text/plain\r\nContent-Length: 12\r\n\r\n0123456789ab"
            .to_vec()
    );
}

#[test]
fn an_extra_content_type_replaces_text_plain() {
    assert_eq!(
        write_response(&response(
            Status::Success,
            &["Content-Type: application/octet-stream\r\n"],
            Some(b"hello")
        )),
        b"HTTP/1.1 200 OK\r\nContent-Type: application/octet-stream\r\nContent-Length: 5\r\n\r\nhello"
            .to_vec()
    );
}

#[test]
fn the_body_is_sent_raw_with_nothing_behind_it() {
    let body = [0u8, 13, 10, 255, 13, 10];
    let bytes = write_response(&response(Status::Success, &[], Some(&body)));
    assert!(bytes.ends_with(&body));
    assert!(bytes.starts_with(b"HTTP/1.1 200 OK\r\nContent-Type: text/plain\r\nContent-Length: 6\r\n\r\n"));
    assert_eq!(bytes.len(), 64 + 6);
}

#[test]
fn has_content_type_looks_at_the_beginning_of_each_line() {
    let lines = |l: &[&str]| l.iter().map(|s| s.as_bytes().to_vec()).collect::<Vec<_>>();
    assert!(!has_content_type(&lines(&[])));
    assert!(!has_content_type(&lines(&["Connection: close\r\n", "Content-Encoding: gzip\r\n"])));
    assert!(has_content_type(&lines(&["Connection: close\r\n", "Content-Type: a/b\r\n"])));
    assert!(has_content_type(&lines(&["Content-Type:x"])));
    assert!(!has_content_type(&lines(&["content-type: a/b\r\n"])));
    assert!(!has_content_type(&lines(&["X-Content-Type: a/b\r\n"])));
}

#[test]
fn append_adds_at_the_end() {
    let mut out = b"ab".to_vec();
    append(&mut out, b"cd");
    append(&mut out, b"");
    assert_eq!(out, b"abcd".to_vec());
}
