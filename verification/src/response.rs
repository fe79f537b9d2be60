//! Responses, and the bytes they are sent as.

use crate::number::decimal;
use crate::number::push_decimal;
use crate::text::has_prefix;
use crate::text::starts_with;
use vstd::prelude::*;
use vstd::string::StringSliceAdditionalSpecFns;

verus! {

/// The status of a response. No route answers with any other.
#[derive(Clone, Copy, Debug, PartialEq, Eq, Structural)]
pub enum Status {
    Success,
    Created,
    NotFound,
}

impl Status {
    /// The status code.
    pub open spec fn code(self) -> nat {
        match self {
            Status::Success => 200,
            Status::Created => 201,
            Status::NotFound => 404,
        }
    }

    /// The reason phrase.
    pub open spec fn reason(self) -> Seq<u8> {
        match self {
            Status::Success => "OK".spec_bytes(),
            Status::Created => "Created".spec_bytes(),
            Status::NotFound => "Not Found".spec_bytes(),
        }
    }

    /// The status code.
    pub fn code_number(self) -> (r: usize)
        ensures
            r == self.code(),
    {
        match self {
            Status::Success => 200,
            Status::Created => 201,
            Status::NotFound => 404,
        }
    }

    /// The reason phrase.
    pub fn reason_phrase(self) -> (r: &'static str)
        ensures
            r.spec_bytes() == self.reason(),
    {
        match self {
            Status::Success => "OK",
            Status::Created => "Created",
            Status::NotFound => "Not Found",
        }
    }
}

/// What a route answers: the status, header lines of its own, each ending
/// with CR LF, and the body if there is one.
pub struct Response {
    pub status: Status,
    pub extra_headers: Vec<Vec<u8>>,
    pub body: Option<Vec<u8>>,
}

/// What a `Response` holds.
pub struct ResponseView {
    pub status: Status,
    pub extra_headers: Seq<Seq<u8>>,
    pub body: Option<Seq<u8>>,
}

/// The byte strings that a list of byte vectors holds.
pub open spec fn lines_of(lines: Seq<Vec<u8>>) -> Seq<Seq<u8>> {
    Seq::new(lines.len(), |i: int| lines[i]@)
}

/// The bytes that an optional byte vector holds.
pub open spec fn bytes_of(bytes: Option<Vec<u8>>) -> Option<Seq<u8>> {
    match bytes {
        Some(b) => Some(b@),
        None => None,
    }
}

impl View for Response {
    type V = ResponseView;

    open spec fn view(&self) -> ResponseView {
        ResponseView {
            status: self.status,
            extra_headers: lines_of(self.extra_headers@),
            body: bytes_of(self.body),
        }
    }
}

/// `HTTP/1.1`, the code, the reason phrase, CR LF.
pub open spec fn status_line(status: Status) -> Seq<u8> {
    "HTTP/1.1 ".spec_bytes() + decimal(status.code()) + " ".spec_bytes() + status.reason()
        + "\r\n".spec_bytes()
}

/// The header line that declares a body of `length` bytes.
pub open spec fn content_length_line(length: nat) -> Seq<u8> {
    "Content-Length: ".spec_bytes() + decimal(length) + "\r\n".spec_bytes()
}

/// One of the lines sets the header `Content-Type`.
pub open spec fn sets_content_type(lines: Seq<Seq<u8>>) -> bool {
    exists|i: int| 0 <= i < lines.len() && has_prefix(#[trigger] lines[i], "Content-Type:".spec_bytes())
}

/// The header lines of a response, in the order they are sent. A response
/// with a body declares its type, `text/plain` unless a line of the route
/// says otherwise, and then its length. One without a body has the route's
/// lines and no others.
pub open spec fn header_lines(response: ResponseView) -> Seq<Seq<u8>> {
    match response.body {
        Some(body) => if sets_content_type(response.extra_headers) {
            response.extra_headers.push(content_length_line(body.len()))
        } else {
            response.extra_headers.push("Content-Type: text/plain\r\n".spec_bytes()).push(
                content_length_line(body.len()),
            )
        },
        None => response.extra_headers,
    }
}

/// The lines, one behind the other.
pub open spec fn joined(lines: Seq<Seq<u8>>) -> Seq<u8>
    decreases lines.len(),
{
    if lines.len() == 0 {
        Seq::empty()
    } else {
        joined(lines.drop_last()) + lines.last()
    }
}

/// The body section of a response: the body, or nothing.
pub open spec fn body_bytes(body: Option<Seq<u8>>) -> Seq<u8> {
    match body {
        Some(bytes) => bytes,
        None => Seq::empty(),
    }
}

/// The bytes that a response is sent as: status line, header lines, an empty
/// line, and the body with nothing behind it.
pub open spec fn encoded(response: ResponseView) -> Seq<u8> {
    status_line(response.status) + joined(header_lines(response)) + "\r\n".spec_bytes()
        + body_bytes(response.body)
}

/// Joining one line more appends it.
pub proof fn lemma_joined_push(lines: Seq<Seq<u8>>, line: Seq<u8>)
    ensures
        joined(lines.push(line)) == joined(lines) + line,
{
    assert(lines.push(line).drop_last() == lines);
}

/// A response with a body declares its type and, in the last of its header
/// lines, its length, and ends with the body. A response without a body has
/// the route's header lines only and ends with the empty line.
pub proof fn law_body_is_framed(response: ResponseView)
    ensures
        match response.body {
            Some(body) => {
                &&& sets_content_type(header_lines(response))
                &&& header_lines(response).last() == content_length_line(body.len())
                &&& encoded(response).len() >= body.len()
                &&& encoded(response).subrange(
                    encoded(response).len() - body.len(),
                    encoded(response).len() as int,
                ) == body
            },
            None => {
                &&& header_lines(response) == response.extra_headers
                &&& encoded(response) == status_line(response.status) + joined(
                    response.extra_headers,
                ) + "\r\n".spec_bytes()
            },
        },
{
    if response.body is Some {
        let lines = header_lines(response);
        let extra = response.extra_headers;
        let kind = "Content-Type:".spec_bytes();
        if sets_content_type(extra) {
            let i = choose|i: int| 0 <= i < extra.len() && has_prefix(#[trigger] extra[i], kind);
            assert(has_prefix(lines[i], kind));
        } else {
            broadcast use vstd::string::is_ascii_spec_bytes;

            reveal_strlit("Content-Type:");
            reveal_strlit("Content-Type: text/plain\r\n");
            assert(vstd::string::is_ascii("Content-Type:"));
            assert(vstd::string::is_ascii("Content-Type: text/plain\r\n"));
            let plain = "Content-Type: text/plain\r\n".spec_bytes();
            assert(plain.subrange(0, 13) =~= kind);
            assert(has_prefix(lines[extra.len() as int], kind));
        }
    }
}

/// The three status lines, as they are sent.
pub proof fn law_status_lines()
    ensures
        status_line(Status::Success) == "HTTP/1.1 200 OK\r\n".spec_bytes(),
        status_line(Status::Created) == "HTTP/1.1 201 Created\r\n".spec_bytes(),
        status_line(Status::NotFound) == "HTTP/1.1 404 Not Found\r\n".spec_bytes(),
{
    broadcast use vstd::string::is_ascii_spec_bytes;

    reveal_strlit("HTTP/1.1 ");
    reveal_strlit(" ");
    reveal_strlit("\r\n");
    reveal_strlit("OK");
    reveal_strlit("Created");
    reveal_strlit("Not Found");
    reveal_strlit("HTTP/1.1 200 OK\r\n");
    reveal_strlit("HTTP/1.1 201 Created\r\n");
    reveal_strlit("HTTP/1.1 404 Not Found\r\n");
    assert(vstd::string::is_ascii("HTTP/1.1 "));
    assert(vstd::string::is_ascii(" "));
    assert(vstd::string::is_ascii("\r\n"));
    assert(vstd::string::is_ascii("OK"));
    assert(vstd::string::is_ascii("Created"));
    assert(vstd::string::is_ascii("Not Found"));
    assert(vstd::string::is_ascii("HTTP/1.1 200 OK\r\n"));
    assert(vstd::string::is_ascii("HTTP/1.1 201 Created\r\n"));
    assert(vstd::string::is_ascii("HTTP/1.1 404 Not Found\r\n"));
    reveal_with_fuel(decimal, 3);
    assert(decimal(200) =~= seq![0x32u8, 0x30u8, 0x30u8]);
    assert(decimal(201) =~= seq![0x32u8, 0x30u8, 0x31u8]);
    assert(decimal(404) =~= seq![0x34u8, 0x30u8, 0x34u8]);
    assert(status_line(Status::Success) =~= "HTTP/1.1 200 OK\r\n".spec_bytes());
    assert(status_line(Status::Created) =~= "HTTP/1.1 201 Created\r\n".spec_bytes());
    assert(status_line(Status::NotFound) =~= "HTTP/1.1 404 Not Found\r\n".spec_bytes());
}

/// Appends `bytes` to `out`.
pub fn append(out: &mut Vec<u8>, bytes: &[u8])
    ensures
        final(out)@ == old(out)@ + bytes@,
{
    out.extend_from_slice(bytes);
    assert(out@ =~= old(out)@ + bytes@);
}

/// Whether one of the lines sets the header `Content-Type`.
pub fn has_content_type(lines: &Vec<Vec<u8>>) -> (r: bool)
    ensures
        r == sets_content_type(lines_of(lines@)),
{
    let mut i: usize = 0;
    while i < lines.len()
        invariant
            i <= lines.len(),
            forall|k: int|
                0 <= k < i ==> !has_prefix(
                    #[trigger] lines_of(lines@)[k],
                    "Content-Type:".spec_bytes(),
                ),
        decreases lines.len() - i,
    {
        if starts_with(lines[i].as_slice(), "Content-Type:".as_bytes()) {
            assert(lines_of(lines@)[i as int] == lines@[i as int]@);
            return true;
        }
        i += 1;
    }
    false
}

/// The bytes to send for `response`.
pub fn write_response(response: &Response) -> (out: Vec<u8>)
    ensures
        out@ == encoded(response@),
{
    let mut out: Vec<u8> = Vec::new();
    append(&mut out, "HTTP/1.1 ".as_bytes());
    push_decimal(&mut out, response.status.code_number());
    append(&mut out, " ".as_bytes());
    append(&mut out, response.status.reason_phrase().as_bytes());
    append(&mut out, "\r\n".as_bytes());
    assert(out@ == status_line(response.status));
    let ghost extra = lines_of(response.extra_headers@);
    let mut i: usize = 0;
    while i < response.extra_headers.len()
        invariant
            i <= response.extra_headers.len(),
            extra == lines_of(response.extra_headers@),
            out@ == status_line(response.status) + joined(extra.take(i as int)),
        decreases response.extra_headers.len() - i,
    {
        append(&mut out, response.extra_headers[i].as_slice());
        proof {
            assert(extra.take(i + 1) == extra.take(i as int).push(extra[i as int]));
            lemma_joined_push(extra.take(i as int), extra[i as int]);
        }
        i += 1;
    }
    assert(extra.take(i as int) == extra);
    match &response.body {
        Some(body) => {
            let ghost length = body@.len();
            if !has_content_type(&response.extra_headers) {
                append(&mut out, "Content-Type: text/plain\r\n".as_bytes());
                proof {
                    lemma_joined_push(extra, "Content-Type: text/plain\r\n".spec_bytes());
                    lemma_joined_push(
                        extra.push("Content-Type: text/plain\r\n".spec_bytes()),
                        content_length_line(length),
                    );
                }
            } else {
                proof {
                    lemma_joined_push(extra, content_length_line(length));
                }
            }
            append(&mut out, "Content-Length: ".as_bytes());
            push_decimal(&mut out, body.len());
            append(&mut out, "\r\n".as_bytes());
            append(&mut out, "\r\n".as_bytes());
            append(&mut out, body.as_slice());
        },
        None => {
            append(&mut out, "\r\n".as_bytes());
        },
    }
    out
}

} // verus!
