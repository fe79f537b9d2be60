//! The frame reader: one request off the front of the bytes received.
//!
//! A request is a request line, header lines, and a body whose length the
//! header `Content-Length` declares. A line ends with its line feed; once
//! the peer has closed, what is left of the stream is a line too.

use crate::headers::content_length;
use crate::headers::Headers;
use crate::request::Request;
use crate::request::RequestView;
use crate::text::after_spaces;
use crate::text::copy_range;
use crate::text::find_byte;
use crate::text::first_index_of;
use crate::text::lemma_after_spaces;
use crate::text::lemma_first_index_of;
use crate::text::lemma_word_end;
use crate::text::skip_spaces;
use crate::text::skip_word;
use crate::text::space_len;
use crate::text::trim;
use crate::text::trimmed;
use crate::text::word_end;
use vstd::prelude::*;
use vstd::slice::slice_subrange;

verus! {

/// Why no request could be framed.
#[derive(Clone, Copy, Debug, PartialEq, Eq, Structural)]
pub enum FrameError {
    /// The request line has fewer than two words.
    MalformedRequestLine,
    /// The stream ended before the declared body had arrived.
    TruncatedBody,
}

/// What the frame reader found at the front of the bytes received.
pub enum Frame {
    /// One request, and the number of bytes it took.
    Complete { request: Request, consumed: usize },
    /// The bytes received so far do not hold a whole request.
    Incomplete,
    /// The stream ended where a request would begin.
    EndOfStream,
    /// The bytes are no request.
    Failed(FrameError),
}

/// What a `Frame` holds.
pub enum FrameView {
    Complete { request: RequestView, consumed: int },
    Incomplete,
    EndOfStream,
    Failed(FrameError),
}

impl View for Frame {
    type V = FrameView;

    open spec fn view(&self) -> FrameView {
        match *self {
            Frame::Complete { request, consumed } => FrameView::Complete {
                request: request@,
                consumed: consumed as int,
            },
            Frame::Incomplete => FrameView::Incomplete,
            Frame::EndOfStream => FrameView::EndOfStream,
            Frame::Failed(error) => FrameView::Failed(error),
        }
    }
}

/// Where the line that begins at `from` ends: just behind its line feed, or
/// at the end of `s` once the stream has ended. `None` while the line feed
/// has not arrived.
pub open spec fn line_end(s: Seq<u8>, from: int, eof: bool) -> Option<int> {
    let feed = first_index_of(s, 0x0a, from);
    if feed < s.len() {
        Some(feed + 1)
    } else if eof {
        Some(s.len() as int)
    } else {
        None
    }
}

/// Method and path of a request line: its first two words.
pub open spec fn request_line(line: Seq<u8>) -> Option<(Seq<u8>, Seq<u8>)> {
    let a = after_spaces(line, 0);
    let b = word_end(line, a);
    let c = after_spaces(line, b);
    let d = word_end(line, c);
    if a < b && c < d {
        Some((line.subrange(a, b), line.subrange(c, d)))
    } else {
        None
    }
}

/// Name and value of a header line: what stands before and behind its first
/// colon, trimmed. `None` for a line without a colon.
pub open spec fn header_line(line: Seq<u8>) -> Option<(Seq<u8>, Seq<u8>)> {
    let colon = first_index_of(line, 0x3a, 0);
    if colon < line.len() {
        Some((trimmed(line.subrange(0, colon)), trimmed(line.subrange(colon + 1, line.len() as int))))
    } else {
        None
    }
}

/// The headers read from `from` on, added to `found`, and where the body
/// begins. Header lines are read up to and including the first line without
/// a colon; a later header of the same name replaces an earlier one. `None`
/// while that last line has not arrived.
pub open spec fn headers_from(
    s: Seq<u8>,
    from: int,
    eof: bool,
    found: Map<Seq<u8>, Seq<u8>>,
) -> Option<(Map<Seq<u8>, Seq<u8>>, int)>
    decreases s.len() - from,
{
    match line_end(s, from, eof) {
        None => None,
        Some(end) => match header_line(s.subrange(from, end)) {
            Some((name, value)) => if from < end {
                headers_from(s, end, eof, found.insert(name, value))
            } else {
                Some((found, end))
            },
            None => Some((found, end)),
        },
    }
}

/// The body that begins at `from`: as many bytes as the headers declare.
/// `None` while `s` holds fewer.
pub open spec fn body_at(s: Seq<u8>, from: int, headers: Map<Seq<u8>, Seq<u8>>) -> Option<Seq<u8>> {
    if from + content_length(headers) <= s.len() {
        Some(s.subrange(from, from + content_length(headers)))
    } else {
        None
    }
}

/// What stands at the front of `s`, the bytes received and not yet used;
/// `eof` says that the peer has closed and no more will come.
pub open spec fn frame(s: Seq<u8>, eof: bool) -> FrameView {
    if eof && s.len() == 0 {
        FrameView::EndOfStream
    } else {
        match line_end(s, 0, eof) {
            None => FrameView::Incomplete,
            Some(start) => match request_line(s.subrange(0, start)) {
                None => FrameView::Failed(FrameError::MalformedRequestLine),
                Some((method, path)) => match headers_from(s, start, eof, Map::empty()) {
                    None => FrameView::Incomplete,
                    Some((headers, body_start)) => match body_at(s, body_start, headers) {
                        Some(body) => FrameView::Complete {
                            request: RequestView { method, path, headers, body },
                            consumed: body_start + body.len(),
                        },
                        None => if eof {
                            FrameView::Failed(FrameError::TruncatedBody)
                        } else {
                            FrameView::Incomplete
                        },
                    },
                },
            },
        }
    }
}

/// A line that has its line feed ends inside `s`, behind where it began.
pub proof fn lemma_line_end(s: Seq<u8>, from: int, eof: bool)
    requires
        0 <= from <= s.len(),
    ensures
        line_end(s, from, eof) matches Some(end) ==> from <= end <= s.len(),
        line_end(s, from, false) matches Some(end) ==> from < end && line_end(s, from, eof) == Some(
            end,
        ),
{
    lemma_first_index_of(s, 0x0a, from);
}

/// The body begins inside `s`.
pub proof fn lemma_headers_from(s: Seq<u8>, from: int, eof: bool, found: Map<Seq<u8>, Seq<u8>>)
    requires
        0 <= from <= s.len(),
    ensures
        headers_from(s, from, eof, found) matches Some((_, start)) ==> from <= start <= s.len(),
    decreases s.len() - from,
{
    lemma_line_end(s, from, eof);
    match line_end(s, from, eof) {
        None => {},
        Some(end) => match header_line(s.subrange(from, end)) {
            Some((name, value)) => {
                if from < end {
                    lemma_headers_from(s, end, eof, found.insert(name, value));
                }
            },
            None => {},
        },
    }
}

/// Reads the line that begins at `from`: the index just behind it.
pub fn read_line(buf: &[u8], from: usize, eof: bool) -> (r: Option<usize>)
    ensures
        match r {
            Some(end) => line_end(buf@, from as int, eof) == Some(end as int),
            None => line_end(buf@, from as int, eof) is None,
        },
{
    let feed = find_byte(buf, 0x0a, from);
    if feed < buf.len() {
        Some(feed + 1)
    } else if eof {
        Some(buf.len())
    } else {
        None
    }
}

/// Splits a request line into method and path.
pub fn parse_request_line(line: &[u8]) -> (r: Option<(Vec<u8>, Vec<u8>)>)
    ensures
        match r {
            Some((method, path)) => request_line(line@) == Some((method@, path@)),
            None => request_line(line@) is None,
        },
{
    let a = skip_spaces(line, 0);
    proof {
        lemma_after_spaces(line@, 0);
    }
    let b = skip_word(line, a);
    proof {
        lemma_word_end(line@, a as int);
    }
    let c = skip_spaces(line, b);
    proof {
        lemma_after_spaces(line@, b as int);
    }
    let d = skip_word(line, c);
    proof {
        lemma_word_end(line@, c as int);
    }
    if a < b && c < d {
        Some((copy_range(line, a, b), copy_range(line, c, d)))
    } else {
        None
    }
}

/// Splits a header line into name and value.
pub fn parse_header_line(line: &[u8]) -> (r: Option<(Vec<u8>, Vec<u8>)>)
    ensures
        match r {
            Some((name, value)) => header_line(line@) == Some((name@, value@)),
            None => header_line(line@) is None,
        },
{
    let colon = find_byte(line, 0x3a, 0);
    if colon < line.len() {
        let name = trim(slice_subrange(line, 0, colon));
        let value = trim(slice_subrange(line, colon + 1, line.len()));
        Some((name, value))
    } else {
        None
    }
}

/// Reads the header lines that begin at `from`: the headers, and where the
/// body begins. `None` while the line that ends the headers has not arrived.
pub fn parse_headers(buf: &[u8], from: usize, eof: bool) -> (r: Option<(Headers, usize)>)
    requires
        from <= buf.len(),
    ensures
        match r {
            Some((headers, start)) => headers_from(buf@, from as int, eof, Map::empty()) == Some(
                (headers@, start as int),
            ) && from <= start <= buf.len(),
            None => headers_from(buf@, from as int, eof, Map::empty()) is None,
        },
{
    let mut headers = Headers::new();
    let mut pos = from;
    loop
        invariant
            from <= pos <= buf.len(),
            headers_from(buf@, from as int, eof, Map::empty()) == headers_from(
                buf@,
                pos as int,
                eof,
                headers@,
            ),
        decreases buf.len() - pos,
    {
        proof {
            lemma_line_end(buf@, pos as int, eof);
        }
        let end = match read_line(buf, pos, eof) {
            Some(end) => end,
            None => {
                return None;
            },
        };
        match parse_header_line(slice_subrange(buf, pos, end)) {
            Some((name, value)) => {
                headers.insert(name, value);
                pos = end;
            },
            None => {
                return Some((headers, end));
            },
        }
    }
}

/// Takes the body that begins at `from`. `None` while fewer bytes have
/// arrived than the headers declare.
pub fn get_body(buf: &[u8], from: usize, headers: &Headers) -> (r: Option<Vec<u8>>)
    requires
        from <= buf.len(),
    ensures
        match r {
            Some(body) => body_at(buf@, from as int, headers@) == Some(body@),
            None => body_at(buf@, from as int, headers@) is None,
        },
{
    let length = headers.content_length();
    if length <= buf.len() - from {
        Some(copy_range(buf, from, from + length))
    } else {
        None
    }
}

/// Reads one request off the front of `buf`, the bytes received and not yet
/// used. `eof` says that the peer has closed.
pub fn parse_request(buf: &[u8], eof: bool) -> (r: Frame)
    ensures
        r@ == frame(buf@, eof),
{
    if eof && buf.len() == 0 {
        return Frame::EndOfStream;
    }
    proof {
        lemma_line_end(buf@, 0, eof);
    }
    let start = match read_line(buf, 0, eof) {
        Some(end) => end,
        None => {
            return Frame::Incomplete;
        },
    };
    let (method, path) = match parse_request_line(slice_subrange(buf, 0, start)) {
        Some(words) => words,
        None => {
            return Frame::Failed(FrameError::MalformedRequestLine);
        },
    };
    let (headers, body_start) = match parse_headers(buf, start, eof) {
        Some(found) => found,
        None => {
            return Frame::Incomplete;
        },
    };
    match get_body(buf, body_start, &headers) {
        Some(body) => {
            let consumed = body_start + body.len();
            Frame::Complete { request: Request::new(method, path, headers, body), consumed }
        },
        None => if eof {
            Frame::Failed(FrameError::TruncatedBody)
        } else {
            Frame::Incomplete
        },
    }
}

/// Method and path are words: neither is empty, and no white space stands
/// in either. The method is the first word of the line, and only white
/// space stands between it and the path.
pub proof fn law_request_line(line: Seq<u8>)
    ensures
        request_line(line) matches Some((method, path)) ==> {
            &&& method.len() > 0
            &&& path.len() > 0
            &&& forall|k: int| 0 <= k < method.len() ==> #[trigger] space_len(method, k) == 0
            &&& forall|k: int| 0 <= k < path.len() ==> #[trigger] space_len(path, k) == 0
            &&& method == line.subrange(
                after_spaces(line, 0),
                after_spaces(line, 0) + method.len(),
            )
            &&& path == line.subrange(
                after_spaces(line, after_spaces(line, 0) + method.len()),
                after_spaces(line, after_spaces(line, 0) + method.len()) + path.len(),
            )
        },
{
    let a = after_spaces(line, 0);
    lemma_after_spaces(line, 0);
    let b = word_end(line, a);
    lemma_word_end(line, a);
    let c = after_spaces(line, b);
    lemma_after_spaces(line, b);
    let d = word_end(line, c);
    lemma_word_end(line, c);
    if a < b && c < d {
        lemma_word_has_no_space(line, a, b);
        lemma_word_has_no_space(line, c, d);
    }
}

/// A part of a text that ends where white space begins, or where the text
/// ends, holds white space only where the text does.
proof fn lemma_word_has_no_space(s: Seq<u8>, a: int, b: int)
    requires
        0 <= a <= b <= s.len(),
        forall|k: int| a <= k < b ==> #[trigger] space_len(s, k) == 0,
        b < s.len() ==> space_len(s, b) > 0,
    ensures
        forall|k: int| 0 <= k < b - a ==> #[trigger] space_len(s.subrange(a, b), k) == 0,
{
    let w = s.subrange(a, b);
    assert forall|k: int| 0 <= k < b - a implies #[trigger] space_len(w, k) == 0 by {
        assert(space_len(s, a + k) == 0);
        assert(w[k] == s[a + k]);
        if k + 1 < w.len() {
            assert(w[k + 1] == s[a + k + 1]);
        }
        if k + 2 < w.len() {
            assert(w[k + 2] == s[a + k + 2]);
        }
    }
}

/// Bytes that arrive later do not move a byte that was found.
proof fn lemma_first_index_of_stable(s: Seq<u8>, more: Seq<u8>, b: u8, from: int)
    requires
        0 <= from <= s.len(),
        first_index_of(s, b, from) < s.len(),
    ensures
        first_index_of(s + more, b, from) == first_index_of(s, b, from),
    decreases s.len() - from,
{
    if from < s.len() {
        assert((s + more)[from] == s[from]);
        if s[from] != b {
            lemma_first_index_of_stable(s, more, b, from + 1);
        }
    }
}

/// Headers that were read whole are read the same whatever follows.
proof fn lemma_headers_from_stable(
    s: Seq<u8>,
    more: Seq<u8>,
    from: int,
    eof: bool,
    found: Map<Seq<u8>, Seq<u8>>,
)
    requires
        0 <= from <= s.len(),
        headers_from(s, from, false, found) is Some,
    ensures
        headers_from(s + more, from, eof, found) == headers_from(s, from, false, found),
    decreases s.len() - from,
{
    lemma_first_index_of(s, 0x0a, from);
    lemma_first_index_of_stable(s, more, 0x0a, from);
    let end = line_end(s, from, false).unwrap();
    assert(line_end(s + more, from, eof) == Some(end));
    assert((s + more).subrange(from, end) == s.subrange(from, end));
    match header_line(s.subrange(from, end)) {
        Some((name, value)) => {
            lemma_headers_from_stable(s, more, end, eof, found.insert(name, value));
        },
        None => {},
    }
}

/// A request or a malformed request line that was found without waiting for
/// the end of the stream stays what it is, whatever arrives behind it and
/// whether or not the stream then ends.
pub proof fn law_frame_stable(s: Seq<u8>, more: Seq<u8>, eof: bool)
    requires
        frame(s, false) is Complete || frame(s, false) is Failed,
    ensures
        frame(s + more, eof) == frame(s, false),
{
    lemma_first_index_of(s, 0x0a, 0);
    lemma_first_index_of_stable(s, more, 0x0a, 0);
    let start = line_end(s, 0, false).unwrap();
    assert(line_end(s + more, 0, eof) == Some(start));
    assert((s + more).subrange(0, start) == s.subrange(0, start));
    if request_line(s.subrange(0, start)) is Some {
        lemma_headers_from(s, start, false, Map::empty());
        lemma_headers_from_stable(s, more, start, eof, Map::empty());
        let (headers, body_start) = headers_from(s, start, false, Map::empty()).unwrap();
        let n = content_length(headers);
        assert((s + more).subrange(body_start, body_start + n) == s.subrange(
            body_start,
            body_start + n,
        ));
    }
}

/// Once the stream has ended the headers are read to their end.
proof fn lemma_headers_from_at_end(s: Seq<u8>, from: int, found: Map<Seq<u8>, Seq<u8>>)
    requires
        0 <= from <= s.len(),
    ensures
        headers_from(s, from, true, found) is Some,
    decreases s.len() - from,
{
    lemma_line_end(s, from, true);
    let end = line_end(s, from, true).unwrap();
    match header_line(s.subrange(from, end)) {
        Some((name, value)) => {
            if from < end {
                lemma_headers_from_at_end(s, end, found.insert(name, value));
            }
        },
        None => {},
    }
}

/// Once the stream has ended nothing is left to wait for: the bytes hold a
/// request, or nothing, or they are no request.
pub proof fn law_frame_at_end(s: Seq<u8>)
    ensures
        frame(s, true) !is Incomplete,
        frame(s, true) is EndOfStream <==> s.len() == 0,
{
    if s.len() > 0 {
        lemma_line_end(s, 0, true);
        lemma_headers_from_at_end(s, line_end(s, 0, true).unwrap(), Map::empty());
    }
}

/// A framed request lies inside the bytes it was read from, and its body is
/// as long as its headers declare: the bytes just before the end of the
/// frame.
pub proof fn law_frame_body(s: Seq<u8>, eof: bool)
    ensures
        frame(s, eof) matches FrameView::Complete { request, consumed } ==> {
            &&& 0 < consumed <= s.len()
            &&& request.body.len() == content_length(request.headers)
            &&& request.body == s.subrange(consumed - request.body.len(), consumed)
        },
{
    if frame(s, eof) is Complete {
        lemma_line_end(s, 0, eof);
        let start = line_end(s, 0, eof).unwrap();
        lemma_headers_from(s, start, eof, Map::empty());
        if start == 0 {
            // An empty line has no words.
            assert(s.subrange(0, 0).len() == 0);
            assert(request_line(s.subrange(0, 0)) is None);
        }
    }
}

} // verus!
