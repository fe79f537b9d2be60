use http_server::frame::get_body;
use http_server::frame::parse_header_line;
use http_server::frame::parse_headers;
use http_server::frame::parse_request;
use http_server::frame::parse_request_line;
use http_server::frame::read_line;
use http_server::frame::Frame;
use http_server::frame::FrameError;
use http_server::headers::Headers;
use http_server::request::Request;

fn complete(buf: &[u8], eof: bool) -> (Request, usize) {
    match parse_request(buf, eof) {
        Frame::Complete { request, consumed } => (request, consumed),
        Frame::Incomplete => panic!("incomplete"),
        Frame::EndOfStream => panic!("end of stream"),
        Frame::Failed(e) => panic!("failed: {:?}", e),
    }
}

fn kind(buf: &[u8], eof: bool) -> &'static str {
    match parse_request(buf, eof) {
        Frame::Complete { .. } => "complete",
        Frame::Incomplete => "incomplete",
        Frame::EndOfStream => "end",
        Frame::Failed(FrameError::MalformedRequestLine) => "malformed",
        Frame::Failed(FrameError::TruncatedBody) => "truncated",
    }
}

#[test]
fn read_line_ends_behind_the_line_feed() {
    assert_eq!(read_line(b"ab\r\ncd\r\n", 0, false), Some(4));
    assert_eq!(read_line(b"ab\r\ncd\r\n", 4, false), Some(8));
    assert_eq!(read_line(b"ab\r\ncd\r\n", 8, false), None);
    assert_eq!(read_line(b"ab\r\ncd\r\n", 8, true), Some(8));
    assert_eq!(read_line(b"ab", 0, false), None);
    assert_eq!(read_line(b"ab", 0, true), Some(2));
    assert_eq!(read_line(b"ab\ncd", 0, true), Some(3));
    assert_eq!(read_line(b"", 0, false), None);
    assert_eq!(read_line(b"", 0, true), Some(0));
}

#[test]
fn request_line_is_its_first_two_words() {
    assert_eq!(
        parse_request_line(b"GET /index.html HTTP/1.1\r\n"),
        Some((b"GET".to_vec(), b"/index.html".to_vec()))
    );
    assert_eq!(parse_request_line(b"POST /x\r\n"), Some((b"POST".to_vec(), b"/x".to_vec())));
    assert_eq!(
        parse_request_line(b"  GET \t /a  b c d\r\n"),
        Some((b"GET".to_vec(), b"/a".to_vec()))
    );
    assert_eq!(parse_request_line(b"GET /"), Some((b"GET".to_vec(), b"/".to_vec())));
}

#[test]
fn request_line_with_fewer_than_two_words_is_none() {
    assert_eq!(parse_request_line(b"GET\r\n"), None);
    assert_eq!(parse_request_line(b"GET   \r\n"), None);
    assert_eq!(parse_request_line(b"\r\n"), None);
    assert_eq!(parse_request_line(b""), None);
    assert_eq!(parse_request_line(b"   "), None);
}

#[test]
fn header_line_splits_on_the_first_colon_and_trims() {
    assert_eq!(
        parse_header_line(b"Host: localhost:4221\r\n"),
        Some((b"Host".to_vec(), b"localhost:4221".to_vec()))
    );
    assert_eq!(
        parse_header_line(b"  User-Agent  :   foo/1.0  \r\n"),
        Some((b"User-Agent".to_vec(), b"foo/1.0".to_vec()))
    );
    assert_eq!(parse_header_line(b"X:\r\n"), Some((b"X".to_vec(), Vec::new())));
    assert_eq!(parse_header_line(b":v\r\n"), Some((Vec::new(), b"v".to_vec())));
    assert_eq!(parse_header_line(b":"), Some((Vec::new(), Vec::new())));
}

#[test]
fn header_line_without_a_colon_is_none() {
    assert_eq!(parse_header_line(b"\r\n"), None);
    assert_eq!(parse_header_line(b""), None);
    assert_eq!(parse_header_line(b"bogus\r\n"), None);
}

#[test]
fn headers_are_read_to_the_empty_line() {
    let buf = b"Host: a\r\nUser-Agent: b\r\n\r\nrest";
    let (headers, start) = parse_headers(buf, 0, false).unwrap();
    assert_eq!(start, 26);
    assert_eq!(headers.get(b"Host"), Some(&b"a".to_vec()));
    assert_eq!(headers.get(b"User-Agent"), Some(&b"b".to_vec()));
    assert_eq!(headers.get(b"rest"), None);
}

#[test]
fn headers_wait_for_the_empty_line() {
    assert!(parse_headers(b"Host: a\r\nUser-Agent: b\r\n", 0, false).is_none());
    assert!(parse_headers(b"Host: a\r\nUser-Ag", 0, false).is_none());
    assert!(parse_headers(b"", 0, false).is_none());
    let (headers, start) = parse_headers(b"Host: a\r\nUser-Ag", 0, true).unwrap();
    assert_eq!(start, 16);
    assert_eq!(headers.get(b"Host"), Some(&b"a".to_vec()));
    assert_eq!(headers.get(b"User-Ag"), None);
    let (headers, start) = parse_headers(b"Host: a\r\nX: y", 0, true).unwrap();
    assert_eq!(start, 13);
    assert_eq!(headers.get(b"X"), Some(&b"y".to_vec()));
}

#[test]
fn a_line_without_a_colon_ends_the_headers() {
    let buf = b"Host: a\r\nbogus\r\nX: y\r\n\r\n";
    let (headers, start) = parse_headers(buf, 0, false).unwrap();
    assert_eq!(start, 16);
    assert_eq!(headers.get(b"Host"), Some(&b"a".to_vec()));
    assert_eq!(headers.get(b"X"), None);
}

#[test]
fn a_later_header_replaces_an_earlier_one() {
    let buf = b"A: 1\r\nB: 2\r\nA: 3\r\n\r\n";
    let (headers, start) = parse_headers(buf, 0, false).unwrap();
    assert_eq!(start, buf.len());
    assert_eq!(headers.get(b"A"), Some(&b"3".to_vec()));
    assert_eq!(headers.get(b"B"), Some(&b"2".to_vec()));
}

#[test]
fn body_is_as_long_as_declared() {
    let mut h = Headers::new();
    h.insert(b"Content-Length".to_vec(), b"5".to_vec());
    assert_eq!(get_body(b"xxhello world", 2, &h), Some(b"hello".to_vec()));
    assert_eq!(get_body(b"xxhello", 2, &h), Some(b"hello".to_vec()));
    assert_eq!(get_body(b"xxhell", 2, &h), None);
    assert_eq!(get_body(b"xx", 2, &h), None);
    assert_eq!(get_body(b"xxhello", 2, &Headers::new()), Some(Vec::new()));
    assert_eq!(get_body(b"", 0, &Headers::new()), Some(Vec::new()));
}

#[test]
fn a_bare_get_is_framed() {
    let buf = b"GET / HTTP/1.1\r\n\r\n";
    let (request, consumed) = complete(buf, false);
    assert_eq!(consumed, 18);
    assert_eq!(request.method, b"GET".to_vec());
    assert_eq!(request.path, b"/".to_vec());
    assert_eq!(request.body, Vec::<u8>::new());
    assert_eq!(request.headers.get(b"Host"), None);
}

#[test]
fn a_request_without_version_is_framed() {
    let (request, consumed) = complete(b"GET /user-agent\r\n\r\n", false);
    assert_eq!(consumed, 19);
    assert_eq!(request.method, b"GET".to_vec());
    assert_eq!(request.path, b"/user-agent".to_vec());
}

#[test]
fn headers_and_body_are_framed() {
    let buf = b"POST /files/report.txt HTTP/1.1\r\nHost: localhost:4221\r\nContent-Length: 5\r\n\r\nhelloGET /";
    let (request, consumed) = complete(buf, false);
    assert_eq!(consumed, buf.len() - 5);
    assert_eq!(request.method, b"POST".to_vec());
    assert_eq!(request.path, b"/files/report.txt".to_vec());
    assert_eq!(request.headers.get(b"Host"), Some(&b"localhost:4221".to_vec()));
    assert_eq!(request.headers.get(b"Content-Length"), Some(&b"5".to_vec()));
    assert_eq!(request.body, b"hello".to_vec());
}

#[test]
fn body_bytes_are_kept_raw() {
    let mut buf = b"POST /files/x HTTP/1.1\r\nContent-Length: 4\r\n\r\n".to_vec();
    buf.extend_from_slice(&[0xff, 0x00, 0x0a, 0x80]);
    let (request, consumed) = complete(&buf, false);
    assert_eq!(consumed, buf.len());
    assert_eq!(request.body, vec![0xff, 0x00, 0x0a, 0x80]);
}

#[test]
fn a_non_numeric_content_length_means_no_body() {
    let buf = b"POST /files/x HTTP/1.1\r\nContent-Length: five\r\n\r\nhello";
    let (request, consumed) = complete(buf, false);
    assert_eq!(consumed, buf.len() - 5);
    assert_eq!(request.body, Vec::<u8>::new());
}

#[test]
fn a_lower_case_content_length_is_not_read() {
    let buf = b"POST /files/x HTTP/1.1\r\ncontent-length: 5\r\n\r\nhello";
    let (request, consumed) = complete(buf, true);
    assert_eq!(consumed, buf.len() - 5);
    assert_eq!(request.body, Vec::<u8>::new());
}

#[test]
fn a_request_is_incomplete_until_it_is_whole() {
    let whole = b"POST /files/a HTTP/1.1\r\nContent-Length: 3\r\nHost: h\r\n\r\nabc";
    for cut in 0..whole.len() {
        assert_eq!(kind(&whole[..cut], false), "incomplete", "cut at {}", cut);
    }
    assert_eq!(kind(whole, false), "complete");
}

#[test]
fn a_framed_request_does_not_depend_on_what_follows() {
    let first = b"GET /echo/one HTTP/1.1\r\nHost: h\r\n\r\n";
    let mut both = first.to_vec();
    both.extend_from_slice(b"GET /echo/two HTTP/1.1\r\n\r\n");
    let (alone, n1) = complete(first, false);
    let (followed, n2) = complete(&both, true);
    assert_eq!(n1, first.len());
    assert_eq!(n2, first.len());
    assert_eq!(alone.path, followed.path);
    assert_eq!(alone.method, followed.method);
    assert_eq!(alone.body, followed.body);
    let (second, n3) = complete(&both[n2..], false);
    assert_eq!(second.path, b"/echo/two".to_vec());
    assert_eq!(n3, both.len() - n2);
}

#[test]
fn an_empty_stream_that_has_ended_is_the_end() {
    assert_eq!(kind(b"", true), "end");
    assert_eq!(kind(b"", false), "incomplete");
}

#[test]
fn a_request_line_with_one_word_is_malformed() {
    assert_eq!(kind(b"GET\r\n\r\n", false), "malformed");
    assert_eq!(kind(b"GET\r\n", false), "malformed");
    assert_eq!(kind(b"\r\n", false), "malformed");
    assert_eq!(kind(b"\n", true), "malformed");
    assert_eq!(kind(b"GET", true), "malformed");
    assert_eq!(kind(b"   \r\nGET / HTTP/1.1\r\n\r\n", true), "malformed");
    assert_eq!(kind(b"GET", false), "incomplete");
}

#[test]
fn a_body_cut_short_by_the_end_is_truncated() {
    let buf = b"POST /files/a HTTP/1.1\r\nContent-Length: 10\r\n\r\nhello";
    assert_eq!(kind(buf, true), "truncated");
    assert_eq!(kind(buf, false), "incomplete");
}

#[test]
fn the_end_of_the_stream_ends_a_line() {
    let (request, consumed) = complete(b"GET /echo/x HTTP/1.1", true);
    assert_eq!(consumed, 20);
    assert_eq!(request.path, b"/echo/x".to_vec());
    let (request, consumed) = complete(b"GET / HTTP/1.1\r\nHost: x", true);
    assert_eq!(consumed, 23);
    assert_eq!(request.headers.get(b"Host"), Some(&b"x".to_vec()));
}

#[test]
fn a_bare_line_feed_ends_a_line() {
    let (request, consumed) = complete(b"GET /a HTTP/1.1\nHost: h\n\nrest", false);
    assert_eq!(consumed, 25);
    assert_eq!(request.path, b"/a".to_vec());
    assert_eq!(request.headers.get(b"Host"), Some(&b"h".to_vec()));
}

#[test]
fn words_and_values_end_at_unicode_white_space() {
    assert_eq!(
        parse_request_line("GET\u{a0}/a\u{2003}HTTP/1.1\r\n".as_bytes()),
        Some((b"GET".to_vec(), b"/a".to_vec()))
    );
    assert_eq!(
        parse_header_line("\u{3000}Host\u{a0}:\u{2028}h\u{85}\r\n".as_bytes()),
        Some((b"Host".to_vec(), b"h".to_vec()))
    );
}
