//! The connection loop, as a state machine.
//!
//! One connection is in one of four states. The caller owns the socket and
//! the file store: it does what the state asks for (read from the peer, read
//! or write a file, send bytes, close), and reports what came of it as an
//! event. `step` gives the state that follows.
//!
//! Framing and routing need nothing from outside, so they take no state of
//! their own: bytes that complete a request lead straight to the state that
//! sends its response, or, for a file route, to the state that waits for the
//! file store.

use crate::frame::frame;
use crate::frame::law_frame_at_end;
use crate::frame::law_frame_body;
use crate::frame::law_frame_stable;
use crate::frame::parse_request;
use crate::frame::Frame;
use crate::frame::FrameError;
use crate::frame::FrameView;
use crate::headers::wants_close;
use crate::request::Request;
use crate::request::RequestView;
use crate::response::append;
use crate::response::bytes_of;
use crate::response::encoded;
use crate::response::write_response;
use crate::router::file_read_response;
use crate::router::file_written_response;
use crate::router::outcome_of;
use crate::router::plan;
use crate::router::respond_file_read;
use crate::router::respond_file_written;
use crate::router::route;
use crate::router::Plan;
use crate::router::PlanView;
use crate::router::RouteError;
use crate::text::copy_range;
use vstd::prelude::*;

verus! {

/// Why a connection was given up.
#[derive(Clone, Copy, Debug, PartialEq, Eq, Structural)]
pub enum Failure {
    /// No request could be framed.
    Frame(FrameError),
    /// A response body could not be compressed.
    Compression,
    /// Reading from or writing to the peer or the file store failed.
    Io,
}

/// What the file store is to do.
pub enum StoreJob {
    /// Read the file `name`.
    Read { name: Vec<u8> },
    /// Write `contents` to the file `name`, whether or not it exists.
    Write { name: Vec<u8>, contents: Vec<u8> },
}

/// The state of one connection, and with it what the caller is to do next.
pub enum State {
    /// Read from the peer. `pending` holds what has arrived of the next
    /// request.
    AwaitingRequest { pending: Vec<u8> },
    /// Do `job` on the file store.
    Dispatching { job: StoreJob, close: bool, rest: Vec<u8> },
    /// Send `bytes` to the peer and flush.
    Responding { bytes: Vec<u8>, close: bool, rest: Vec<u8> },
    /// Close the connection. `failure` says why, where it was given up.
    Closed { failure: Option<Failure> },
}

/// What came of the action that the state asked for.
pub enum Event {
    /// These bytes arrived from the peer.
    Received(Vec<u8>),
    /// The peer has closed; no more bytes will arrive.
    EndOfStream,
    /// The store was read: the contents of the file, or nothing where the
    /// store has no such file.
    FileRead(Option<Vec<u8>>),
    /// The store was written.
    FileWritten,
    /// The bytes were sent and flushed.
    Sent,
    /// The action failed.
    Failed,
}

/// What a `StoreJob` holds.
pub enum StoreJobView {
    Read { name: Seq<u8> },
    Write { name: Seq<u8>, contents: Seq<u8> },
}

/// What a `State` holds.
pub enum StateView {
    AwaitingRequest { pending: Seq<u8> },
    Dispatching { job: StoreJobView, close: bool, rest: Seq<u8> },
    Responding { bytes: Seq<u8>, close: bool, rest: Seq<u8> },
    Closed { failure: Option<Failure> },
}

/// What an `Event` holds.
pub enum EventView {
    Received(Seq<u8>),
    EndOfStream,
    FileRead(Option<Seq<u8>>),
    FileWritten,
    Sent,
    Failed,
}

impl View for StoreJob {
    type V = StoreJobView;

    open spec fn view(&self) -> StoreJobView {
        match *self {
            StoreJob::Read { name } => StoreJobView::Read { name: name@ },
            StoreJob::Write { name, contents } => StoreJobView::Write {
                name: name@,
                contents: contents@,
            },
        }
    }
}

impl View for State {
    type V = StateView;

    open spec fn view(&self) -> StateView {
        match *self {
            State::AwaitingRequest { pending } => StateView::AwaitingRequest { pending: pending@ },
            State::Dispatching { job, close, rest } => StateView::Dispatching {
                job: job@,
                close,
                rest: rest@,
            },
            State::Responding { bytes, close, rest } => StateView::Responding {
                bytes: bytes@,
                close,
                rest: rest@,
            },
            State::Closed { failure } => StateView::Closed { failure },
        }
    }
}

impl View for Event {
    type V = EventView;

    open spec fn view(&self) -> EventView {
        match *self {
            Event::Received(data) => EventView::Received(data@),
            Event::EndOfStream => EventView::EndOfStream,
            Event::FileRead(found) => EventView::FileRead(bytes_of(found)),
            Event::FileWritten => EventView::FileWritten,
            Event::Sent => EventView::Sent,
            Event::Failed => EventView::Failed,
        }
    }
}

/// The state of a connection that has just been accepted.
pub open spec fn initial() -> StateView {
    StateView::AwaitingRequest { pending: Seq::empty() }
}

/// The state that carries out what routing gave: a response is sent, a file
/// is read or written first, and a request that cannot be answered gives up
/// the connection. `close` says whether the client asked for the connection
/// to be closed, and `rest` holds the bytes that arrived behind the request.
pub open spec fn planned(outcome: Result<PlanView, RouteError>, close: bool, rest: Seq<u8>) -> StateView {
    match outcome {
        Ok(PlanView::Respond(response)) => StateView::Responding {
            bytes: encoded(response),
            close,
            rest,
        },
        Ok(PlanView::ReadFile { name }) => StateView::Dispatching {
            job: StoreJobView::Read { name },
            close,
            rest,
        },
        Ok(PlanView::WriteFile { name, contents }) => StateView::Dispatching {
            job: StoreJobView::Write { name, contents },
            close,
            rest,
        },
        Err(_) => StateView::Closed { failure: Some(Failure::Compression) },
    }
}

/// The state once `request` has been framed, with `rest` the bytes that
/// arrived behind it.
pub open spec fn dispatched(request: RequestView, rest: Seq<u8>) -> StateView {
    planned(plan(request), wants_close(request.headers), rest)
}

/// The state that the bytes received and not yet used lead to: the next
/// request is dispatched as soon as it is whole.
pub open spec fn settled(pending: Seq<u8>, eof: bool) -> StateView {
    match frame(pending, eof) {
        FrameView::Complete { request, consumed } => dispatched(
            request,
            pending.subrange(consumed, pending.len() as int),
        ),
        FrameView::Incomplete => StateView::AwaitingRequest { pending },
        FrameView::EndOfStream => StateView::Closed { failure: None },
        FrameView::Failed(error) => StateView::Closed { failure: Some(Failure::Frame(error)) },
    }
}

/// The state that follows `state` on `event`. An event that the state did
/// not ask for changes nothing.
pub open spec fn next_state(state: StateView, event: EventView) -> StateView {
    match state {
        StateView::AwaitingRequest { pending } => match event {
            EventView::Received(data) => settled(pending + data, false),
            EventView::EndOfStream => settled(pending, true),
            EventView::Failed => StateView::Closed { failure: Some(Failure::Io) },
            _ => state,
        },
        StateView::Dispatching { job, close, rest } => match event {
            EventView::FileRead(found) => match job {
                StoreJobView::Read { name } => StateView::Responding {
                    bytes: encoded(file_read_response(found, close)),
                    close,
                    rest,
                },
                StoreJobView::Write { name, contents } => state,
            },
            EventView::FileWritten => match job {
                StoreJobView::Write { name, contents } => StateView::Responding {
                    bytes: encoded(file_written_response(close)),
                    close,
                    rest,
                },
                StoreJobView::Read { name } => state,
            },
            EventView::Failed => StateView::Closed { failure: Some(Failure::Io) },
            _ => state,
        },
        StateView::Responding { bytes, close, rest } => match event {
            EventView::Sent => if close {
                StateView::Closed { failure: None }
            } else {
                settled(rest, false)
            },
            EventView::Failed => StateView::Closed { failure: Some(Failure::Io) },
            _ => state,
        },
        StateView::Closed { failure } => state,
    }
}

/// The state of a connection that has just been accepted.
pub fn start() -> (r: State)
    ensures
        r@ == initial(),
{
    State::AwaitingRequest { pending: Vec::new() }
}

/// Carries out what routing gave.
pub fn proceed(outcome: Result<Plan, RouteError>, close: bool, rest: Vec<u8>) -> (r: State)
    ensures
        r@ == planned(outcome_of(outcome), close, rest@),
{
    match outcome {
        Ok(Plan::Respond(response)) => State::Responding {
            bytes: write_response(&response),
            close,
            rest,
        },
        Ok(Plan::ReadFile { name }) => State::Dispatching { job: StoreJob::Read { name }, close, rest },
        Ok(Plan::WriteFile { name, contents }) => State::Dispatching {
            job: StoreJob::Write { name, contents },
            close,
            rest,
        },
        Err(_) => State::Closed { failure: Some(Failure::Compression) },
    }
}

/// Routes `request`; `rest` holds the bytes that arrived behind it.
pub fn dispatch(request: Request, rest: Vec<u8>) -> (r: State)
    ensures
        r@ == dispatched(request@, rest@),
{
    let close = request.headers.wants_close();
    proceed(route(request), close, rest)
}

/// Frames the next request in `pending`, the bytes received and not yet
/// used, and dispatches it. `eof` says that the peer has closed.
pub fn settle(pending: Vec<u8>, eof: bool) -> (r: State)
    ensures
        r@ == settled(pending@, eof),
{
    proof {
        law_frame_body(pending@, eof);
    }
    match parse_request(pending.as_slice(), eof) {
        Frame::Complete { request, consumed } => {
            let rest = copy_range(pending.as_slice(), consumed, pending.len());
            dispatch(request, rest)
        },
        Frame::Incomplete => State::AwaitingRequest { pending },
        Frame::EndOfStream => State::Closed { failure: None },
        Frame::Failed(error) => State::Closed { failure: Some(Failure::Frame(error)) },
    }
}

/// The state that follows `state` on `event`.
pub fn step(state: State, event: Event) -> (r: State)
    ensures
        r@ == next_state(state@, event@),
{
    match state {
        State::AwaitingRequest { pending } => match event {
            Event::Received(data) => {
                let mut pending = pending;
                append(&mut pending, data.as_slice());
                settle(pending, false)
            },
            Event::EndOfStream => settle(pending, true),
            Event::Failed => State::Closed { failure: Some(Failure::Io) },
            _ => State::AwaitingRequest { pending },
        },
        State::Dispatching { job, close, rest } => match event {
            Event::FileRead(found) => match job {
                StoreJob::Read { name } => State::Responding {
                    bytes: write_response(&respond_file_read(found, close)),
                    close,
                    rest,
                },
                StoreJob::Write { name, contents } => State::Dispatching {
                    job: StoreJob::Write { name, contents },
                    close,
                    rest,
                },
            },
            Event::FileWritten => match job {
                StoreJob::Write { name, contents } => State::Responding {
                    bytes: write_response(&respond_file_written(close)),
                    close,
                    rest,
                },
                StoreJob::Read { name } => State::Dispatching {
                    job: StoreJob::Read { name },
                    close,
                    rest,
                },
            },
            Event::Failed => State::Closed { failure: Some(Failure::Io) },
            _ => State::Dispatching { job, close, rest },
        },
        State::Responding { bytes, close, rest } => match event {
            Event::Sent => if close {
                State::Closed { failure: None }
            } else {
                settle(rest, false)
            },
            Event::Failed => State::Closed { failure: Some(Failure::Io) },
            _ => State::Responding { bytes, close, rest },
        },
        State::Closed { failure } => State::Closed { failure },
    }
}

/// Of requests that arrive one behind the other, the first is dispatched as
/// soon as it is whole: what it is does not depend on what follows it, and
/// what follows it is kept for the next cycle.
pub proof fn law_first_request(
    pending: Seq<u8>,
    data: Seq<u8>,
    first: Seq<u8>,
    later: Seq<u8>,
)
    requires
        pending + data == first + later,
        frame(first, false) matches FrameView::Complete { consumed, .. } && consumed == first.len(),
    ensures
        frame(first, false) matches FrameView::Complete { request, .. } && next_state(
            StateView::AwaitingRequest { pending },
            EventView::Received(data),
        ) == dispatched(request, later),
{
    law_frame_stable(first, later, false);
    let all = first + later;
    assert(all.subrange(first.len() as int, all.len() as int) =~= later);
}

/// Once a response has been sent on a connection that stays open, the bytes
/// that arrived behind the request are read as a connection that has just
/// been accepted would read them: the next request is answered
/// independently of the one before.
pub proof fn law_next_request(bytes: Seq<u8>, rest: Seq<u8>)
    ensures
        next_state(
            StateView::Responding { bytes, close: false, rest },
            EventView::Sent,
        ) == next_state(initial(), EventView::Received(rest)),
{
    assert(Seq::<u8>::empty() + rest =~= rest);
}

/// Two requests that arrive one behind the other on a new connection, the
/// first of which does not ask for the connection to be closed, get two
/// responses: first the answer to the first request, then, once that is
/// sent, the answer to the second, each the answer that the router gives to
/// that request alone. (For requests that are answered without the file
/// store; `law_close_is_kept` says how the store comes in.)
pub proof fn law_two_requests(first: Seq<u8>, second: Seq<u8>)
    requires
        frame(first, false) matches FrameView::Complete { request, consumed } && consumed
            == first.len() && !wants_close(request.headers) && plan(request) matches Ok(
            PlanView::Respond(_),
        ),
        frame(second, false) matches FrameView::Complete { request, consumed } && consumed
            == second.len() && plan(request) matches Ok(PlanView::Respond(_)),
    ensures
        ({
            let one = frame(first, false)->request;
            let two = frame(second, false)->request;
            let answering_one = next_state(initial(), EventView::Received(first + second));
            let answering_two = next_state(answering_one, EventView::Sent);
            &&& plan(one) matches Ok(PlanView::Respond(response)) && answering_one
                == (StateView::Responding { bytes: encoded(response), close: false, rest: second })
            &&& plan(two) matches Ok(PlanView::Respond(response)) && answering_two
                == (StateView::Responding {
                bytes: encoded(response),
                close: wants_close(two.headers),
                rest: Seq::empty(),
            })
        }),
{
    law_first_request(Seq::empty(), first + second, first, second);
    assert(Seq::<u8>::empty() + (first + second) =~= first + second);
    assert(second.subrange(second.len() as int, second.len() as int) =~= Seq::<u8>::empty());
}

/// A request is answered with the close that it asked for: the state that
/// sends its response, at once or after the file store was used, knows
/// whether the client asked for the connection to be closed, and keeps the
/// bytes that arrived behind the request.
pub proof fn law_close_is_kept(request: RequestView, rest: Seq<u8>, found: Option<Seq<u8>>)
    ensures
        match dispatched(request, rest) {
            StateView::Responding { bytes, close, rest: kept } => {
                &&& close == wants_close(request.headers)
                &&& kept == rest
                &&& plan(request) matches Ok(PlanView::Respond(response)) && bytes == encoded(
                    response,
                )
            },
            StateView::Dispatching { job, close, rest: kept } => {
                &&& close == wants_close(request.headers)
                &&& kept == rest
                &&& job is Read ==> next_state(
                    dispatched(request, rest),
                    EventView::FileRead(found),
                ) == (StateView::Responding {
                    bytes: encoded(file_read_response(found, close)),
                    close,
                    rest,
                })
                &&& job is Write ==> next_state(dispatched(request, rest), EventView::FileWritten)
                    == (StateView::Responding {
                    bytes: encoded(file_written_response(close)),
                    close,
                    rest,
                })
            },
            StateView::Closed { failure } => failure == Some(Failure::Compression) && plan(
                request,
            ) is Err,
            StateView::AwaitingRequest { .. } => false,
        },
{
}

/// The response to a request that asked for the connection to be closed is
/// the last: once it is sent the connection is closed, without a failure,
/// and a closed connection stays closed whatever is reported.
pub proof fn law_close_is_last(
    bytes: Seq<u8>,
    rest: Seq<u8>,
    failure: Option<Failure>,
    event: EventView,
)
    ensures
        next_state(StateView::Responding { bytes, close: true, rest }, EventView::Sent) == (
        StateView::Closed { failure: None }),
        next_state(StateView::Closed { failure }, event) == (StateView::Closed { failure }),
{
}

/// A stream that ends where a request would begin closes the connection
/// without a failure. Wherever it ends, the connection does not go on
/// waiting for the peer.
pub proof fn law_end_of_stream(pending: Seq<u8>)
    ensures
        pending.len() == 0 ==> next_state(
            StateView::AwaitingRequest { pending },
            EventView::EndOfStream,
        ) == (StateView::Closed { failure: None }),
        next_state(StateView::AwaitingRequest { pending }, EventView::EndOfStream)
            !is AwaitingRequest,
{
    law_frame_at_end(pending);
}

} // verus!
