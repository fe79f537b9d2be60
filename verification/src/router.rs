//! The router: what to answer to a request.
//!
//! Routes are tried in this order: the root, `/echo/`, `/user-agent`,
//! `/files/`; anything else is not found. The file routes need the file
//! store, which the caller holds: the router says what to read or write, and
//! what to answer once that is done.

use crate::gzip::compress;
use crate::gzip::gzip_result;
use crate::headers::accepts_gzip;
use crate::headers::lookup;
use crate::headers::wants_close;
use crate::request::Request;
use crate::request::RequestView;
use crate::response::bytes_of;
use crate::response::content_length_line;
use crate::response::encoded;
use crate::response::header_lines;
use crate::response::joined;
use crate::response::law_status_lines;
use crate::response::lemma_joined_push;
use crate::response::lines_of;
use crate::response::sets_content_type;
use crate::response::status_line;
use crate::response::Response;
use crate::response::ResponseView;
use crate::response::Status;
use crate::text::copy_bytes;
use crate::text::copy_range;
use crate::text::equal;
use crate::text::has_at;
use crate::text::has_prefix;
use crate::text::starts_with;
use vstd::prelude::*;
use vstd::string::StringSliceAdditionalSpecFns;

verus! {

/// Why a request could not be answered.
#[derive(Clone, Copy, Debug, PartialEq, Eq, Structural)]
pub enum RouteError {
    /// The body could not be compressed.
    Compression,
}

/// What is to be done for a request.
pub enum Plan {
    /// Send this response.
    Respond(Response),
    /// Read the file `name` from the store, then send `file_read_response`.
    ReadFile { name: Vec<u8> },
    /// Write `contents` to the file `name` in the store, then send
    /// `file_written_response`.
    WriteFile { name: Vec<u8>, contents: Vec<u8> },
}

/// What a `Plan` holds.
pub enum PlanView {
    Respond(ResponseView),
    ReadFile { name: Seq<u8> },
    WriteFile { name: Seq<u8>, contents: Seq<u8> },
}

impl View for Plan {
    type V = PlanView;

    open spec fn view(&self) -> PlanView {
        match *self {
            Plan::Respond(response) => PlanView::Respond(response@),
            Plan::ReadFile { name } => PlanView::ReadFile { name: name@ },
            Plan::WriteFile { name, contents } => PlanView::WriteFile {
                name: name@,
                contents: contents@,
            },
        }
    }
}

/// What the outcome of routing holds.
pub open spec fn outcome_of(outcome: Result<Plan, RouteError>) -> Result<PlanView, RouteError> {
    match outcome {
        Ok(plan) => Ok(plan@),
        Err(error) => Err(error),
    }
}

/// The header lines that every response to a request begins with:
/// `Connection: close` where the client asked for it.
pub open spec fn close_lines(close: bool) -> Seq<Seq<u8>> {
    if close {
        seq!["Connection: close\r\n".spec_bytes()]
    } else {
        Seq::empty()
    }
}

/// What follows `prefix` in `path`.
pub open spec fn after_prefix(path: Seq<u8>, prefix: Seq<u8>) -> Seq<u8> {
    path.subrange(prefix.len() as int, path.len() as int)
}

/// The text that an echo request asks for.
pub open spec fn echo_payload(path: Seq<u8>) -> Seq<u8> {
    after_prefix(path, "/echo/".spec_bytes())
}

/// The request is answered with a compressed body: it is an echo request
/// from a client that takes gzip.
pub open spec fn needs_compression(request: RequestView) -> bool {
    has_prefix(request.path, "/echo/".spec_bytes()) && accepts_gzip(request.headers)
}

/// A response without a body.
pub open spec fn bare(status: Status, close: bool) -> ResponseView {
    ResponseView { status, extra_headers: close_lines(close), body: None }
}

/// The answer of the echo route. `compressed` is what compressing the text
/// gave; it counts only where the client takes gzip.
pub open spec fn echo_response(
    payload: Seq<u8>,
    gzip: bool,
    compressed: Option<Seq<u8>>,
    close: bool,
) -> Result<ResponseView, RouteError> {
    if gzip {
        match compressed {
            Some(packed) => Ok(
                ResponseView {
                    status: Status::Success,
                    extra_headers: close_lines(close).push("Content-Encoding: gzip\r\n".spec_bytes()),
                    body: Some(packed),
                },
            ),
            None => Err(RouteError::Compression),
        }
    } else {
        Ok(
            ResponseView {
                status: Status::Success,
                extra_headers: close_lines(close),
                body: Some(payload),
            },
        )
    }
}

/// The answer once the store has been read: the file, or not found.
pub open spec fn file_read_response(found: Option<Seq<u8>>, close: bool) -> ResponseView {
    match found {
        Some(contents) => ResponseView {
            status: Status::Success,
            extra_headers: close_lines(close).push(
                "Content-Type: application/octet-stream\r\n".spec_bytes(),
            ),
            body: Some(contents),
        },
        None => bare(Status::NotFound, close),
    }
}

/// The answer once the store has been written.
pub open spec fn file_written_response(close: bool) -> ResponseView {
    bare(Status::Created, close)
}

/// The response has the header line `Connection: close`.
pub open spec fn announces_close(response: ResponseView) -> bool {
    header_lines(response).contains("Connection: close\r\n".spec_bytes())
}

/// What is to be done for `request`, given what compressing its echo text
/// gave.
pub open spec fn plan_with(request: RequestView, compressed: Option<Seq<u8>>) -> Result<
    PlanView,
    RouteError,
> {
    let close = wants_close(request.headers);
    if request.path == "/".spec_bytes() {
        Ok(PlanView::Respond(bare(Status::Success, close)))
    } else if has_prefix(request.path, "/echo/".spec_bytes()) {
        match echo_response(
            echo_payload(request.path),
            accepts_gzip(request.headers),
            compressed,
            close,
        ) {
            Ok(response) => Ok(PlanView::Respond(response)),
            Err(error) => Err(error),
        }
    } else if request.path == "/user-agent".spec_bytes() {
        Ok(
            PlanView::Respond(
                ResponseView {
                    status: Status::Success,
                    extra_headers: close_lines(close),
                    body: lookup(request.headers, "User-Agent".spec_bytes()),
                },
            ),
        )
    } else if has_prefix(request.path, "/files/".spec_bytes()) {
        let name = after_prefix(request.path, "/files/".spec_bytes());
        if request.method == "GET".spec_bytes() {
            Ok(PlanView::ReadFile { name })
        } else if request.method == "POST".spec_bytes() {
            Ok(PlanView::WriteFile { name, contents: request.body })
        } else {
            Ok(PlanView::Respond(bare(Status::NotFound, close)))
        }
    } else {
        Ok(PlanView::Respond(bare(Status::NotFound, close)))
    }
}

/// What is to be done for `request`. An echo request from a client that
/// takes gzip is answered with what compressing its text gives.
pub open spec fn plan(request: RequestView) -> Result<PlanView, RouteError> {
    plan_with(
        request,
        if needs_compression(request) {
            gzip_result(echo_payload(request.path))
        } else {
            None
        },
    )
}

/// The header lines that every response to a request begins with.
pub fn close_headers(close: bool) -> (r: Vec<Vec<u8>>)
    ensures
        lines_of(r@) == close_lines(close),
{
    let mut lines: Vec<Vec<u8>> = Vec::new();
    if close {
        lines.push(copy_bytes("Connection: close\r\n".as_bytes()));
    }
    assert(lines_of(lines@) =~= close_lines(close));
    lines
}

/// The header lines that every response begins with, and `line` behind them.
fn close_headers_and(close: bool, line: &str) -> (r: Vec<Vec<u8>>)
    ensures
        lines_of(r@) == close_lines(close).push(line.spec_bytes()),
{
    let mut lines = close_headers(close);
    lines.push(copy_bytes(line.as_bytes()));
    assert(lines_of(lines@) =~= close_lines(close).push(line.spec_bytes()));
    lines
}

/// A response without a body.
pub fn bare_response(status: Status, close: bool) -> (r: Response)
    ensures
        r@ == bare(status, close),
{
    Response { status, extra_headers: close_headers(close), body: None }
}

/// The answer of the echo route to a request for `payload`. `gzip` says
/// whether the client takes gzip, and `compressed` is what compressing
/// `payload` gave.
pub fn respond_echo(payload: &[u8], gzip: bool, compressed: Option<Vec<u8>>, close: bool) -> (r:
    Result<Response, RouteError>)
    ensures
        match r {
            Ok(response) => echo_response(payload@, gzip, bytes_of(compressed), close) == Ok::<
                ResponseView,
                RouteError,
            >(response@),
            Err(error) => echo_response(payload@, gzip, bytes_of(compressed), close) == Err::<
                ResponseView,
                RouteError,
            >(error),
        },
{
    if gzip {
        match compressed {
            Some(packed) => Ok(
                Response {
                    status: Status::Success,
                    extra_headers: close_headers_and(close, "Content-Encoding: gzip\r\n"),
                    body: Some(packed),
                },
            ),
            None => Err(RouteError::Compression),
        }
    } else {
        Ok(
            Response {
                status: Status::Success,
                extra_headers: close_headers(close),
                body: Some(copy_bytes(payload)),
            },
        )
    }
}

/// The answer to a request for a file, once the store has been read:
/// `found` holds the file, or nothing where the store has no such file.
pub fn respond_file_read(found: Option<Vec<u8>>, close: bool) -> (r: Response)
    ensures
        r@ == file_read_response(bytes_of(found), close),
{
    match found {
        Some(contents) => Response {
            status: Status::Success,
            extra_headers: close_headers_and(close, "Content-Type: application/octet-stream\r\n"),
            body: Some(contents),
        },
        None => bare_response(Status::NotFound, close),
    }
}

/// The answer to a request to write a file, once the store has been written.
pub fn respond_file_written(close: bool) -> (r: Response)
    ensures
        r@ == file_written_response(close),
{
    bare_response(Status::Created, close)
}

/// Whether `request` is answered with a compressed body.
pub fn wants_compression(request: &Request) -> (r: bool)
    ensures
        r == needs_compression(request@),
{
    starts_with(request.path.as_slice(), "/echo/".as_bytes()) && request.headers.accepts_gzip()
}

/// What follows `prefix` in `path`.
fn strip_prefix(path: &[u8], prefix: &str) -> (r: Vec<u8>)
    requires
        has_prefix(path@, prefix.spec_bytes()),
    ensures
        r@ == after_prefix(path@, prefix.spec_bytes()),
{
    copy_range(path, prefix.as_bytes().len(), path.len())
}

/// Decides what is to be done for `request`, given in `compressed` what
/// compressing its echo text gave.
pub fn decide(request: Request, compressed: Option<Vec<u8>>) -> (r: Result<Plan, RouteError>)
    ensures
        outcome_of(r) == plan_with(request@, bytes_of(compressed)),
{
    let close = request.headers.wants_close();
    if equal(request.path.as_slice(), "/".as_bytes()) {
        Ok(Plan::Respond(bare_response(Status::Success, close)))
    } else if starts_with(request.path.as_slice(), "/echo/".as_bytes()) {
        let payload = strip_prefix(request.path.as_slice(), "/echo/");
        let gzip = request.headers.accepts_gzip();
        match respond_echo(payload.as_slice(), gzip, compressed, close) {
            Ok(response) => Ok(Plan::Respond(response)),
            Err(error) => Err(error),
        }
    } else if equal(request.path.as_slice(), "/user-agent".as_bytes()) {
        let body = match request.headers.get("User-Agent".as_bytes()) {
            Some(agent) => Some(copy_bytes(agent.as_slice())),
            None => None,
        };
        Ok(
            Plan::Respond(
                Response { status: Status::Success, extra_headers: close_headers(close), body },
            ),
        )
    } else if starts_with(request.path.as_slice(), "/files/".as_bytes()) {
        let name = strip_prefix(request.path.as_slice(), "/files/");
        if equal(request.method.as_slice(), "GET".as_bytes()) {
            Ok(Plan::ReadFile { name })
        } else if equal(request.method.as_slice(), "POST".as_bytes()) {
            Ok(Plan::WriteFile { name, contents: request.body })
        } else {
            Ok(Plan::Respond(bare_response(Status::NotFound, close)))
        }
    } else {
        Ok(Plan::Respond(bare_response(Status::NotFound, close)))
    }
}

/// Decides what is to be done for `request`, compressing the echo text
/// where the client takes gzip. Only that compression can fail.
pub fn route(request: Request) -> (r: Result<Plan, RouteError>)
    ensures
        outcome_of(r) == plan(request@),
{
    let compressed = if wants_compression(&request) {
        let payload = strip_prefix(request.path.as_slice(), "/echo/");
        compress(payload.as_slice())
    } else {
        None
    };
    decide(request, compressed)
}

/// The bytes of an ASCII literal are its characters.
proof fn lemma_route_literals()
    ensures
        "/".spec_bytes() =~= seq![0x2fu8],
        "/echo/".spec_bytes() =~= seq![0x2fu8, 0x65u8, 0x63u8, 0x68u8, 0x6fu8, 0x2fu8],
        "/files/".spec_bytes() =~= seq![0x2fu8, 0x66u8, 0x69u8, 0x6cu8, 0x65u8, 0x73u8, 0x2fu8],
        "/user-agent".spec_bytes().len() == 11,
        "/user-agent".spec_bytes()[1] == 0x75u8,
{
    broadcast use vstd::string::is_ascii_spec_bytes;

    reveal_strlit("/");
    reveal_strlit("/echo/");
    reveal_strlit("/files/");
    reveal_strlit("/user-agent");
    assert(vstd::string::is_ascii("/"));
    assert(vstd::string::is_ascii("/echo/"));
    assert(vstd::string::is_ascii("/files/"));
    assert(vstd::string::is_ascii("/user-agent"));
}

/// No path belongs to two routes.
proof fn lemma_route_paths(path: Seq<u8>)
    ensures
        has_prefix(path, "/echo/".spec_bytes()) ==> path != "/".spec_bytes() && path
            != "/user-agent".spec_bytes() && !has_prefix(path, "/files/".spec_bytes()),
        has_prefix(path, "/files/".spec_bytes()) ==> path != "/".spec_bytes() && path
            != "/user-agent".spec_bytes(),
        "/user-agent".spec_bytes() != "/".spec_bytes(),
{
    lemma_route_literals();
    let echo = "/echo/".spec_bytes();
    let files = "/files/".spec_bytes();
    if has_prefix(path, echo) {
        assert(path.subrange(0, 6)[1] == echo[1]);
        if has_prefix(path, files) {
            assert(path.subrange(0, 7)[1] == files[1]);
        }
    }
    if has_prefix(path, files) {
        assert(path.subrange(0, 7)[1] == files[1]);
    }
}

/// How the header lines of the routes begin.
proof fn lemma_route_lines(close: bool)
    ensures
        !sets_content_type(close_lines(close)),
        !sets_content_type(close_lines(close).push("Content-Encoding: gzip\r\n".spec_bytes())),
        sets_content_type(
            close_lines(close).push("Content-Type: application/octet-stream\r\n".spec_bytes()),
        ),
        forall|i: int|
            0 <= i < close_lines(close).len() ==> !has_prefix(
                #[trigger] close_lines(close)[i],
                "Content-Length:".spec_bytes(),
            ),
{
    broadcast use vstd::string::is_ascii_spec_bytes;

    reveal_strlit("Connection: close\r\n");
    reveal_strlit("Content-Encoding: gzip\r\n");
    reveal_strlit("Content-Type: application/octet-stream\r\n");
    reveal_strlit("Content-Type:");
    reveal_strlit("Content-Length:");
    assert(vstd::string::is_ascii("Connection: close\r\n"));
    assert(vstd::string::is_ascii("Content-Encoding: gzip\r\n"));
    assert(vstd::string::is_ascii("Content-Type: application/octet-stream\r\n"));
    assert(vstd::string::is_ascii("Content-Type:"));
    assert(vstd::string::is_ascii("Content-Length:"));
    let kind = "Content-Type:".spec_bytes();
    let length = "Content-Length:".spec_bytes();
    let closing = "Connection: close\r\n".spec_bytes();
    let encoding = "Content-Encoding: gzip\r\n".spec_bytes();
    let octets = "Content-Type: application/octet-stream\r\n".spec_bytes();
    assert(!has_prefix(closing, kind)) by {
        if has_prefix(closing, kind) {
            assert(closing.subrange(0, 13)[3] == kind[3]);
        }
    }
    assert(!has_prefix(closing, length)) by {
        if has_prefix(closing, length) {
            assert(closing.subrange(0, 15)[3] == length[3]);
        }
    }
    assert(!has_prefix(encoding, kind)) by {
        if has_prefix(encoding, kind) {
            assert(encoding.subrange(0, 13)[8] == kind[8]);
        }
    }
    assert(has_prefix(octets, kind)) by {
        assert(octets.subrange(0, 13) =~= kind);
    }
    let with_octets = close_lines(close).push(octets);
    assert(has_prefix(with_octets[with_octets.len() - 1], kind));
}

/// A request to the root is answered 200, whatever its method, headers and
/// body. The response has no body, and no header line but `Connection:
/// close` where the client asked for it: none that declares a type or a
/// length. It is sent as the status line, that header line if any, and the
/// empty line.
pub proof fn law_root(request: RequestView, compressed: Option<Seq<u8>>)
    requires
        request.path == "/".spec_bytes(),
    ensures
        plan_with(request, compressed) matches Ok(PlanView::Respond(response)) && {
            &&& response.status.code() == 200
            &&& response.body is None
            &&& header_lines(response) == close_lines(wants_close(request.headers))
            &&& forall|i: int|
                0 <= i < header_lines(response).len() ==> {
                    &&& !has_prefix(
                        #[trigger] header_lines(response)[i],
                        "Content-Type:".spec_bytes(),
                    )
                    &&& !has_prefix(header_lines(response)[i], "Content-Length:".spec_bytes())
                }
            &&& encoded(response) == "HTTP/1.1 200 OK\r\n".spec_bytes() + (if wants_close(
                request.headers,
            ) {
                "Connection: close\r\n".spec_bytes()
            } else {
                Seq::empty()
            }) + "\r\n".spec_bytes()
        },
{
    law_bare(Status::Success, wants_close(request.headers));
    law_status_lines();
}

/// A response without a body has the code of its status, and no header line
/// that declares a type or a length; it is sent as the status line, then
/// `Connection: close` where the client asked for it, then the empty line.
pub proof fn law_bare(status: Status, close: bool)
    ensures
        bare(status, close).status == status,
        bare(status, close).body is None,
        header_lines(bare(status, close)) == close_lines(close),
        forall|i: int|
            0 <= i < header_lines(bare(status, close)).len() ==> {
                &&& !has_prefix(
                    #[trigger] header_lines(bare(status, close))[i],
                    "Content-Type:".spec_bytes(),
                )
                &&& !has_prefix(
                    header_lines(bare(status, close))[i],
                    "Content-Length:".spec_bytes(),
                )
            },
        encoded(bare(status, close)) == status_line(status) + (if close {
            "Connection: close\r\n".spec_bytes()
        } else {
            Seq::empty()
        }) + "\r\n".spec_bytes(),
{
    lemma_route_lines(close);
    let lines = close_lines(close);
    assert forall|i: int| 0 <= i < lines.len() implies !has_prefix(
        #[trigger] lines[i],
        "Content-Type:".spec_bytes(),
    ) by {
        if has_prefix(lines[i], "Content-Type:".spec_bytes()) {
            assert(sets_content_type(lines));
        }
    }
    if close {
        lemma_joined_push(Seq::empty(), "Connection: close\r\n".spec_bytes());
        assert(lines == Seq::<Seq<u8>>::empty().push("Connection: close\r\n".spec_bytes()));
        assert(joined(lines) == "Connection: close\r\n".spec_bytes());
    }
    assert(encoded(bare(status, close)) =~= status_line(status) + (if close {
        "Connection: close\r\n".spec_bytes()
    } else {
        Seq::empty()
    }) + "\r\n".spec_bytes());
}

/// An echo request from a client that does not take gzip is answered 200
/// with the text behind `/echo/` as the body, declared as `text/plain` and
/// with its length.
pub proof fn law_echo_plain(request: RequestView, text: Seq<u8>, compressed: Option<Seq<u8>>)
    requires
        request.path == "/echo/".spec_bytes() + text,
        !accepts_gzip(request.headers),
    ensures
        plan_with(request, compressed) == Ok::<PlanView, RouteError>(
            PlanView::Respond(
                ResponseView {
                    status: Status::Success,
                    extra_headers: close_lines(wants_close(request.headers)),
                    body: Some(text),
                },
            ),
        ),
        header_lines(
            ResponseView {
                status: Status::Success,
                extra_headers: close_lines(wants_close(request.headers)),
                body: Some(text),
            },
        ) == close_lines(wants_close(request.headers)).push(
            "Content-Type: text/plain\r\n".spec_bytes(),
        ).push(content_length_line(text.len())),
{
    lemma_echo_path(text);
    lemma_route_lines(wants_close(request.headers));
}

/// A client that sends no `Accept-Encoding` does not take gzip.
pub proof fn law_no_accept_encoding(headers: Map<Seq<u8>, Seq<u8>>)
    requires
        lookup(headers, "Accept-Encoding".spec_bytes()) is None,
    ensures
        !accepts_gzip(headers),
{
}

/// A path made of `/echo/` and a text is an echo path, and the text is what
/// it asks for.
proof fn lemma_echo_path(text: Seq<u8>)
    ensures
        has_prefix("/echo/".spec_bytes() + text, "/echo/".spec_bytes()),
        echo_payload("/echo/".spec_bytes() + text) == text,
        "/echo/".spec_bytes() + text != "/".spec_bytes(),
{
    let prefix = "/echo/".spec_bytes();
    let path = prefix + text;
    assert(path.subrange(0, prefix.len() as int) =~= prefix);
    assert(path.subrange(prefix.len() as int, path.len() as int) =~= text);
    lemma_route_paths(path);
}

/// An echo request from a client that takes gzip is answered with what
/// compressing the text behind `/echo/` gives. Where that is a gzip stream,
/// the answer is 200 with the header `Content-Encoding: gzip` and the stream
/// as the body, declared as `text/plain` and with the length of the stream.
/// Where the text cannot be compressed the request is not answered.
pub proof fn law_echo_gzip(request: RequestView, text: Seq<u8>)
    requires
        request.path == "/echo/".spec_bytes() + text,
        accepts_gzip(request.headers),
    ensures
        match gzip_result(text) {
            Some(packed) => {
                &&& plan(request) == Ok::<PlanView, RouteError>(
                    PlanView::Respond(
                        ResponseView {
                            status: Status::Success,
                            extra_headers: close_lines(wants_close(request.headers)).push(
                                "Content-Encoding: gzip\r\n".spec_bytes(),
                            ),
                            body: Some(packed),
                        },
                    ),
                )
                &&& header_lines(
                    ResponseView {
                        status: Status::Success,
                        extra_headers: close_lines(wants_close(request.headers)).push(
                            "Content-Encoding: gzip\r\n".spec_bytes(),
                        ),
                        body: Some(packed),
                    },
                ) == close_lines(wants_close(request.headers)).push(
                    "Content-Encoding: gzip\r\n".spec_bytes(),
                ).push("Content-Type: text/plain\r\n".spec_bytes()).push(
                    content_length_line(packed.len()),
                )
            },
            None => plan(request) == Err::<PlanView, RouteError>(RouteError::Compression),
        },
{
    lemma_echo_path(text);
    lemma_route_lines(wants_close(request.headers));
}

/// A value of `Accept-Encoding` that is `gzip`, or holds it between other
/// text, asks for gzip.
pub proof fn law_accepts_gzip(headers: Map<Seq<u8>, Seq<u8>>, before: Seq<u8>, after: Seq<u8>)
    requires
        lookup(headers, "Accept-Encoding".spec_bytes()) == Some(
            before + "gzip".spec_bytes() + after,
        ),
    ensures
        accepts_gzip(headers),
{
    let token = "gzip".spec_bytes();
    let value = before + token + after;
    assert(value.subrange(before.len() as int, (before.len() + token.len()) as int) =~= token);
    assert(has_at(value, token, before.len() as int));
}

/// A request to `/user-agent` is answered 200 with the value of its header
/// `User-Agent` as the body, and without a body where it has none.
pub proof fn law_user_agent(request: RequestView, compressed: Option<Seq<u8>>)
    requires
        request.path == "/user-agent".spec_bytes(),
    ensures
        plan_with(request, compressed) == Ok::<PlanView, RouteError>(
            PlanView::Respond(
                ResponseView {
                    status: Status::Success,
                    extra_headers: close_lines(wants_close(request.headers)),
                    body: lookup(request.headers, "User-Agent".spec_bytes()),
                },
            ),
        ),
{
    lemma_route_paths(request.path);
}

/// A `POST` to `/files/` and a name asks the store to write the request's
/// body under that name, and is answered 201 without a body once that is
/// done. A `GET` for the same path asks the store for the same name; what
/// the store then hands back is the body of the answer, 200, declared as
/// `application/octet-stream` and with its length.
pub proof fn law_file_round_trip(
    post: RequestView,
    get: RequestView,
    name: Seq<u8>,
    compressed: Option<Seq<u8>>,
    stored: Seq<u8>,
    close: bool,
)
    requires
        post.method == "POST".spec_bytes(),
        post.path == "/files/".spec_bytes() + name,
        get.method == "GET".spec_bytes(),
        get.path == post.path,
    ensures
        plan_with(post, compressed) == Ok::<PlanView, RouteError>(
            PlanView::WriteFile { name, contents: post.body },
        ),
        file_written_response(close) == bare(Status::Created, close),
        plan_with(get, compressed) == Ok::<PlanView, RouteError>(PlanView::ReadFile { name }),
        file_read_response(Some(stored), close).status == Status::Success,
        file_read_response(Some(stored), close).body == Some(stored),
        header_lines(file_read_response(Some(stored), close)) == close_lines(close).push(
            "Content-Type: application/octet-stream\r\n".spec_bytes(),
        ).push(content_length_line(stored.len())),
{
    let prefix = "/files/".spec_bytes();
    let path = prefix + name;
    assert(path.subrange(0, prefix.len() as int) =~= prefix);
    assert(path.subrange(prefix.len() as int, path.len() as int) =~= name);
    lemma_route_paths(path);
    lemma_route_lines(close);
    lemma_methods();
}

/// `GET` is not `POST`.
proof fn lemma_methods()
    ensures
        "GET".spec_bytes() != "POST".spec_bytes(),
{
    broadcast use vstd::string::is_ascii_spec_bytes;

    reveal_strlit("GET");
    reveal_strlit("POST");
    assert(vstd::string::is_ascii("GET"));
    assert(vstd::string::is_ascii("POST"));
    assert("GET".spec_bytes().len() == 3);
    assert("POST".spec_bytes().len() == 4);
}

/// A request for a file that the store does not have is answered 404
/// without a body.
pub proof fn law_missing_file(close: bool)
    ensures
        file_read_response(None, close) == bare(Status::NotFound, close),
        file_read_response(None, close).status.code() == 404,
        file_read_response(None, close).body is None,
{
}

/// A request for a path of `/files/` with a method other than `GET` and
/// `POST`, and a request for a path that belongs to no route, is answered
/// 404 without a body.
pub proof fn law_not_found(request: RequestView, compressed: Option<Seq<u8>>)
    requires
        request.path != "/".spec_bytes(),
        !has_prefix(request.path, "/echo/".spec_bytes()),
        request.path != "/user-agent".spec_bytes(),
        has_prefix(request.path, "/files/".spec_bytes()) ==> request.method != "GET".spec_bytes()
            && request.method != "POST".spec_bytes(),
    ensures
        plan_with(request, compressed) == Ok::<PlanView, RouteError>(
            PlanView::Respond(bare(Status::NotFound, wants_close(request.headers))),
        ),
        bare(Status::NotFound, wants_close(request.headers)).status.code() == 404,
        bare(Status::NotFound, wants_close(request.headers)).body is None,
{
}

/// The header lines that the routes and the encoder add are not
/// `Connection: close`.
proof fn lemma_other_lines(length: nat)
    ensures
        "Content-Encoding: gzip\r\n".spec_bytes() != "Connection: close\r\n".spec_bytes(),
        "Content-Type: application/octet-stream\r\n".spec_bytes()
            != "Connection: close\r\n".spec_bytes(),
        "Content-Type: text/plain\r\n".spec_bytes() != "Connection: close\r\n".spec_bytes(),
        content_length_line(length) != "Connection: close\r\n".spec_bytes(),
{
    broadcast use vstd::string::is_ascii_spec_bytes;

    reveal_strlit("Connection: close\r\n");
    reveal_strlit("Content-Encoding: gzip\r\n");
    reveal_strlit("Content-Type: application/octet-stream\r\n");
    reveal_strlit("Content-Type: text/plain\r\n");
    reveal_strlit("Content-Length: ");
    assert(vstd::string::is_ascii("Connection: close\r\n"));
    assert(vstd::string::is_ascii("Content-Encoding: gzip\r\n"));
    assert(vstd::string::is_ascii("Content-Type: application/octet-stream\r\n"));
    assert(vstd::string::is_ascii("Content-Type: text/plain\r\n"));
    assert(vstd::string::is_ascii("Content-Length: "));
    let closing = "Connection: close\r\n".spec_bytes();
    assert(closing[3] == 0x6eu8);
    assert("Content-Encoding: gzip\r\n".spec_bytes()[3] == 0x74u8);
    assert("Content-Type: application/octet-stream\r\n".spec_bytes()[3] == 0x74u8);
    assert("Content-Type: text/plain\r\n".spec_bytes()[3] == 0x74u8);
    assert(content_length_line(length)[3] == "Content-Length: ".spec_bytes()[3]);
    assert("Content-Length: ".spec_bytes()[3] == 0x74u8);
}

/// A response of the given shape announces the close exactly when `close`
/// is set.
proof fn lemma_announces_close(response: ResponseView, close: bool)
    requires
        response.extra_headers == close_lines(close) || response.extra_headers == close_lines(
            close,
        ).push("Content-Encoding: gzip\r\n".spec_bytes()) || response.extra_headers
            == close_lines(close).push("Content-Type: application/octet-stream\r\n".spec_bytes()),
    ensures
        announces_close(response) == close,
        close ==> header_lines(response)[0] == "Connection: close\r\n".spec_bytes(),
{
    let lines = header_lines(response);
    let closing = "Connection: close\r\n".spec_bytes();
    lemma_other_lines(
        match response.body {
            Some(body) => body.len(),
            None => 0,
        },
    );
    if close {
        assert(lines[0] == closing);
    } else {
        assert forall|i: int| 0 <= i < lines.len() implies lines[i] != closing by {}
    }
}

/// Every response to a request has the header line `Connection: close`, as
/// the first of its header lines, if the request asked for the connection to
/// be closed, and does not have it otherwise. That holds of the answers of
/// the file routes too, whatever the store gave.
pub proof fn law_close_is_announced(
    request: RequestView,
    compressed: Option<Seq<u8>>,
    found: Option<Seq<u8>>,
    close: bool,
)
    ensures
        plan_with(request, compressed) matches Ok(PlanView::Respond(response)) ==> {
            &&& announces_close(response) == wants_close(request.headers)
            &&& wants_close(request.headers) ==> header_lines(response)[0]
                == "Connection: close\r\n".spec_bytes()
        },
        announces_close(file_read_response(found, close)) == close,
        close ==> header_lines(file_read_response(found, close))[0]
            == "Connection: close\r\n".spec_bytes(),
        announces_close(file_written_response(close)) == close,
        close ==> header_lines(file_written_response(close))[0]
            == "Connection: close\r\n".spec_bytes(),
{
    match plan_with(request, compressed) {
        Ok(PlanView::Respond(response)) => {
            lemma_announces_close(response, wants_close(request.headers));
        },
        _ => {},
    }
    lemma_announces_close(file_read_response(found, close), close);
    lemma_announces_close(file_written_response(close), close);
}

/// Only compressing can fail, and it is tried only for an echo request from
/// a client that takes gzip: every other request has its plan, whatever
/// compressing would give.
pub proof fn law_only_compression_fails(request: RequestView, compressed: Option<Seq<u8>>)
    ensures
        plan_with(request, compressed) is Err ==> needs_compression(request) && compressed is None,
        !needs_compression(request) ==> plan(request) == plan_with(request, compressed) && plan(
            request,
        ) is Ok,
        needs_compression(request) ==> (plan(request) is Ok <==> gzip_result(
            echo_payload(request.path),
        ) is Some),
{
    lemma_route_paths(request.path);
}

/// No route answers with a status other than 200, 201 and 404.
pub proof fn law_status_codes(status: Status)
    ensures
        status.code() == 200 || status.code() == 201 || status.code() == 404,
{
}

} // verus!
