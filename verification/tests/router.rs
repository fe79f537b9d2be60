use http_server::headers::Headers;
use http_server::request::Request;
use http_server::response::write_response;
use http_server::response::Response;
use http_server::response::Status;
use http_server::router::bare_response;
use http_server::router::close_headers;
use http_server::router::decide;
use http_server::router::respond_echo;
use http_server::router::respond_file_read;
use http_server::router::respond_file_written;
use http_server::router::route;
use http_server::router::wants_compression;
use http_server::router::Plan;
use http_server::router::RouteError;
use std::io::Read;

fn request(method: &str, path: &str, headers: &[(&str, &str)], body: &[u8]) -> Request {
    let mut h = Headers::new();
    for (name, value) in headers {
        h.insert(name.as_bytes().to_vec(), value.as_bytes().to_vec());
    }
    Request::new(method.as_bytes().to_vec(), path.as_bytes().to_vec(), h, body.to_vec())
}

fn answer(plan: Result<Plan, RouteError>) -> Response {
    match plan {
        Ok(Plan::Respond(response)) => response,
        Ok(Plan::ReadFile { .. }) => panic!("asks to read a file"),
        Ok(Plan::WriteFile { .. }) => panic!("asks to write a file"),
        Err(e) => panic!("failed: {:?}", e),
    }
}

fn lines(response: &Response) -> Vec<String> {
    response.extra_headers.iter().map(|l| String::from_utf8(l.clone()).unwrap()).collect()
}

fn gunzip(bytes: &[u8]) -> Vec<u8> {
    let mut decoder = flate2::read::GzDecoder::new(bytes);
    let mut out = Vec::new();
    decoder.read_to_end(&mut out).unwrap();
    out
}

#[test]
fn root_is_200_without_body() {
    for method in ["GET", "POST", "DELETE", "get"] {
        let r = answer(route(request(method, "/", &[("Host", "h"), ("Accept-Encoding", "gzip")], b"body")));
        assert_eq!(r.status, Status::Success);
        assert_eq!(r.body, None);
        assert!(r.extra_headers.is_empty());
        let bytes = write_response(&r);
        assert_eq!(bytes, b"HTTP/1.1 200 OK\r\n\r\n".to_vec());
        let text = String::from_utf8(bytes).unwrap();
        assert!(!text.contains("Content-Type"));
        assert!(!text.contains("Content-Length"));
    }
}

#[test]
fn echo_returns_the_text_behind_the_prefix() {
    for s in ["abc", "", "a/b/c", "hello%20world", "gzip", "ünï"] {
        let path = format!("/echo/{}", s);
        let r = answer(route(request("GET", &path, &[], b"")));
        assert_eq!(r.status, Status::Success);
        assert_eq!(r.body, Some(s.as_bytes().to_vec()));
        assert!(r.extra_headers.is_empty());
        let expected = format!(
            "HTTP/1.1 200 OK\r\nContent-Type: text/plain\r\nContent-Length: {}\r\n\r\n{}",
            s.len(),
            s
        );
        assert_eq!(write_response(&r), expected.into_bytes());
    }
}

#[test]
fn echo_ignores_an_encoding_that_is_not_gzip() {
    let r = answer(route(request("GET", "/echo/abc", &[("Accept-Encoding", "deflate, br")], b"")));
    assert_eq!(r.body, Some(b"abc".to_vec()));
    assert!(r.extra_headers.is_empty());
}

#[test]
fn echo_with_gzip_round_trips() {
    for s in ["abc", "", "hello hello hello hello hello", "a/b?c=d"] {
        for accept in ["gzip", "deflate, gzip", "br;q=1.0, gzip;q=0.8"] {
            let path = format!("/echo/{}", s);
            let r = answer(route(request("GET", &path, &[("Accept-Encoding", accept)], b"")));
            assert_eq!(r.status, Status::Success);
            assert_eq!(lines(&r), vec!["Content-Encoding: gzip\r\n".to_string()]);
            let body = r.body.clone().unwrap();
            assert_ne!(body, s.as_bytes().to_vec());
            assert_eq!(gunzip(&body), s.as_bytes().to_vec());
            let bytes = write_response(&r);
            let head = format!(
                "HTTP/1.1 200 OK\r\nContent-Encoding: gzip\r\nContent-Type: text/plain\r\nContent-Length: {}\r\n\r\n",
                body.len()
            );
            assert!(bytes.starts_with(head.as_bytes()));
            assert_eq!(&bytes[head.len()..], body.as_slice());
        }
    }
}

#[test]
fn gzip_applies_to_echo_only() {
    let r = answer(route(request(
        "GET",
        "/user-agent",
        &[("Accept-Encoding", "gzip"), ("User-Agent", "foo/1.0")],
        b"",
    )));
    assert_eq!(r.body, Some(b"foo/1.0".to_vec()));
    assert!(r.extra_headers.is_empty());
    assert!(!wants_compression(&request("GET", "/user-agent", &[("Accept-Encoding", "gzip")], b"")));
    assert!(!wants_compression(&request("GET", "/files/a", &[("Accept-Encoding", "gzip")], b"")));
    assert!(!wants_compression(&request("GET", "/echo/a", &[], b"")));
    assert!(wants_compression(&request("GET", "/echo/a", &[("Accept-Encoding", "gzip")], b"")));
}

#[test]
fn user_agent_is_echoed() {
    let r = answer(route(request("GET", "/user-agent", &[("User-Agent", "foo/1.0")], b"")));
    assert_eq!(r.status, Status::Success);
    assert_eq!(r.body, Some(b"foo/1.0".to_vec()));
    assert_eq!(
        write_response(&r),
        b"HTTP/1.1 200 OK\r\nContent-Type: text/plain\r\nContent-Length: 7\r\n\r\nfoo/1.0".to_vec()
    );
}

#[test]
fn user_agent_without_the_header_has_no_body() {
    let r = answer(route(request("GET", "/user-agent", &[("Host", "h")], b"")));
    assert_eq!(r.status, Status::Success);
    assert_eq!(r.body, None);
    assert_eq!(write_response(&r), b"HTTP/1.1 200 OK\r\n\r\n".to_vec());
}

#[test]
fn user_agent_is_an_exact_path() {
    let r = answer(route(request("GET", "/user-agent/", &[("User-Agent", "x")], b"")));
    assert_eq!(r.status, Status::NotFound);
    let r = answer(route(request("GET", "/user-agentx", &[("User-Agent", "x")], b"")));
    assert_eq!(r.status, Status::NotFound);
}

#[test]
fn get_files_asks_to_read() {
    match route(request("GET", "/files/report.txt", &[], b"")) {
        Ok(Plan::ReadFile { name }) => assert_eq!(name, b"report.txt".to_vec()),
        _ => panic!("expected a read"),
    }
    match route(request("GET", "/files/", &[], b"")) {
        Ok(Plan::ReadFile { name }) => assert_eq!(name, Vec::<u8>::new()),
        _ => panic!("expected a read"),
    }
    match route(request("GET", "/files/a/../b", &[], b"")) {
        Ok(Plan::ReadFile { name }) => assert_eq!(name, b"a/../b".to_vec()),
        _ => panic!("expected a read"),
    }
}

#[test]
fn post_files_asks_to_write_the_body() {
    match route(request("POST", "/files/report.txt", &[("Content-Length", "5")], b"hello")) {
        Ok(Plan::WriteFile { name, contents }) => {
            assert_eq!(name, b"report.txt".to_vec());
            assert_eq!(contents, b"hello".to_vec());
        }
        _ => panic!("expected a write"),
    }
}

#[test]
fn other_methods_on_files_are_not_found() {
    for method in ["PUT", "DELETE", "get", "post", "HEAD", ""] {
        let r = answer(route(request(method, "/files/report.txt", &[], b"x")));
        assert_eq!(r.status, Status::NotFound);
        assert_eq!(r.body, None);
    }
}

#[test]
fn a_file_that_was_found_is_sent_as_octets() {
    let r = respond_file_read(Some(b"hello".to_vec()), false);
    assert_eq!(r.status, Status::Success);
    assert_eq!(r.body, Some(b"hello".to_vec()));
    assert_eq!(lines(&r), vec!["Content-Type: application/octet-stream\r\n".to_string()]);
    assert_eq!(
        write_response(&r),
        b"HTTP/1.1 200 OK\r\nContent-Type: application/octet-stream\r\nContent-Length: 5\r\n\r\nhello"
            .to_vec()
    );
}

#[test]
fn a_missing_file_is_404_without_body() {
    let r = respond_file_read(None, false);
    assert_eq!(r.status, Status::NotFound);
    assert_eq!(r.body, None);
    assert_eq!(write_response(&r), b"HTTP/1.1 404 Not Found\r\n\r\n".to_vec());
}

#[test]
fn a_written_file_is_201_without_body() {
    let r = respond_file_written(false);
    assert_eq!(r.status, Status::Created);
    assert_eq!(r.body, None);
    assert_eq!(write_response(&r), b"HTTP/1.1 201 Created\r\n\r\n".to_vec());
    assert_eq!(
        write_response(&respond_file_written(true)),
        b"HTTP/1.1 201 Created\r\nConnection: close\r\n\r\n".to_vec()
    );
}

#[test]
fn an_unknown_path_is_404_without_body() {
    for path in ["/nope", "/echo", "/files", "/user-agen", "", "echo/abc", "/Echo/abc", "//", "/index.html"] {
        let r = answer(route(request("GET", path, &[("Accept-Encoding", "gzip")], b"")));
        assert_eq!(r.status, Status::NotFound, "{:?}", path);
        assert_eq!(r.body, None);
        assert_eq!(write_response(&r), b"HTTP/1.1 404 Not Found\r\n\r\n".to_vec());
    }
}

#[test]
fn connection_close_is_announced_first() {
    let close = [("Connection", "close")];
    let r = answer(route(request("GET", "/", &close, b"")));
    assert_eq!(write_response(&r), b"HTTP/1.1 200 OK\r\nConnection: close\r\n\r\n".to_vec());
    let r = answer(route(request("GET", "/nope", &close, b"")));
    assert_eq!(write_response(&r), b"HTTP/1.1 404 Not Found\r\nConnection: close\r\n\r\n".to_vec());
    let r = answer(route(request("GET", "/echo/ab", &close, b"")));
    assert_eq!(
        write_response(&r),
        b"HTTP/1.1 200 OK\r\nConnection: close\r\nContent-Type: text/plain\r\nContent-Length: 2\r\n\r\nab"
            .to_vec()
    );
    let r = answer(route(request(
        "GET",
        "/echo/ab",
        &[("Connection", "close"), ("Accept-Encoding", "gzip")],
        b"",
    )));
    assert_eq!(
        lines(&r),
        vec!["Connection: close\r\n".to_string(), "Content-Encoding: gzip\r\n".to_string()]
    );
    let r = respond_file_read(Some(b"x".to_vec()), true);
    assert_eq!(
        write_response(&r),
        b"HTTP/1.1 200 OK\r\nConnection: close\r\nContent-Type: application/octet-stream\r\nContent-Length: 1\r\n\r\nx"
            .to_vec()
    );
    let r = respond_file_read(None, true);
    assert_eq!(write_response(&r), b"HTTP/1.1 404 Not Found\r\nConnection: close\r\n\r\n".to_vec());
}

#[test]
fn close_headers_and_bare_responses() {
    assert_eq!(close_headers(false), Vec::<Vec<u8>>::new());
    assert_eq!(close_headers(true), vec![b"Connection: close\r\n".to_vec()]);
    let r = bare_response(Status::Created, true);
    assert_eq!(r.status, Status::Created);
    assert_eq!(r.body, None);
    assert_eq!(r.extra_headers, vec![b"Connection: close\r\n".to_vec()]);
}

#[test]
fn decide_uses_the_compressed_bytes_it_is_given() {
    let req = request("GET", "/echo/abc", &[("Accept-Encoding", "gzip")], b"");
    let r = answer(decide(req, Some(b"PACKED".to_vec())));
    assert_eq!(r.body, Some(b"PACKED".to_vec()));
    assert_eq!(lines(&r), vec!["Content-Encoding: gzip\r\n".to_string()]);
}

#[test]
fn decide_fails_where_compression_failed() {
    let req = request("GET", "/echo/abc", &[("Accept-Encoding", "gzip")], b"");
    match decide(req, None) {
        Err(RouteError::Compression) => {}
        _ => panic!("expected a compression error"),
    }
}

#[test]
fn decide_ignores_compressed_bytes_where_gzip_is_not_taken() {
    let r = answer(decide(request("GET", "/echo/abc", &[], b""), Some(b"PACKED".to_vec())));
    assert_eq!(r.body, Some(b"abc".to_vec()));
    let r = answer(decide(request("GET", "/", &[("Accept-Encoding", "gzip")], b""), None));
    assert_eq!(r.status, Status::Success);
    let r = answer(decide(request("GET", "/nope", &[("Accept-Encoding", "gzip")], b""), None));
    assert_eq!(r.status, Status::NotFound);
}

#[test]
fn respond_echo_for_each_outcome() {
    let r = respond_echo(b"abc", false, None, false).unwrap();
    assert_eq!(r.body, Some(b"abc".to_vec()));
    let r = respond_echo(b"abc", false, Some(b"zz".to_vec()), true).unwrap();
    assert_eq!(r.body, Some(b"abc".to_vec()));
    assert_eq!(lines(&r), vec!["Connection: close\r\n".to_string()]);
    let r = respond_echo(b"abc", true, Some(b"zz".to_vec()), false).unwrap();
    assert_eq!(r.body, Some(b"zz".to_vec()));
    assert_eq!(r.status, Status::Success);
    assert_eq!(respond_echo(b"abc", true, None, false).err(), Some(RouteError::Compression));
}
