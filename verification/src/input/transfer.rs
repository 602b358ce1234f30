//! What a URL input yields, call after call, from a given server.
//!
//! The server is described by how it answers a request. A call is the loop
//! that a caller of [`UrlInput`](super::url::UrlInput) goes through: it
//! performs each request and hands back what came of it.
//!
//! The transfer of a body does not fail in this description. What a call makes
//! of a transfer that fails is said by [`UrlInputView::chunk_step`] alone.

use vstd::prelude::*;
use crate::input::url::{ResponseHead, UrlEventView, UrlInputView, UrlRequest, STATUS_OK};
use crate::input::{drained, ChunkResult, InputErrorView, StepView};

verus! {

/// How the server answers every GET request to the URL.
pub struct Server {
    /// The head of the response, or why no response arrives.
    pub answer: Result<ResponseHead, Seq<char>>,
    /// The chunks in which the transport delivers the body, in order.
    pub body: Seq<Seq<u8>>,
}

/// The connection in the caller's hands.
pub struct Connection {
    /// The server at the other end.
    pub server: Server,
    /// The chunks of the current response that have not been taken yet.
    pub pending: Seq<Seq<u8>>,
    /// How many requests have been issued.
    pub requests: nat,
}

impl Connection {
    /// A connection on which nothing has been requested yet.
    pub open spec fn to(server: Server) -> Self {
        Connection { server, pending: Seq::empty(), requests: 0 }
    }

    /// What comes of a request, and the connection after it.
    pub open spec fn perform(self, request: UrlRequest) -> (UrlEventView, Self) {
        match request {
            UrlRequest::Get => (
                UrlEventView::Response(self.server.answer),
                Connection {
                    pending: self.server.body,
                    requests: self.requests + 1,
                    ..self
                },
            ),
            UrlRequest::NextChunk => if self.pending.len() > 0 {
                (
                    UrlEventView::Body(Ok(Some(self.pending[0]))),
                    Connection { pending: self.pending.drop_first(), ..self },
                )
            } else {
                (UrlEventView::Body(Ok(None)), self)
            },
        }
    }
}

/// How far a step of `chunk` is from the end of its call.
pub open spec fn chunk_distance(step: StepView<UrlRequest, Option<Seq<u8>>>) -> nat {
    match step {
        StepView::Done(_) => 0,
        StepView::Perform(UrlRequest::NextChunk) => 1,
        StepView::Perform(UrlRequest::Get) => 2,
    }
}

/// How far a step of `reset` is from the end of its call. A reset that is
/// handed a chunk starts over.
pub open spec fn reset_distance(step: StepView<UrlRequest, ()>) -> nat {
    match step {
        StepView::Done(_) => 0,
        StepView::Perform(UrlRequest::Get) => 1,
        StepView::Perform(UrlRequest::NextChunk) => 2,
    }
}

/// The rest of a call of `chunk` that has come to `step`.
pub open spec fn finish_chunk(
    input: UrlInputView,
    step: StepView<UrlRequest, Option<Seq<u8>>>,
    connection: Connection,
) -> (UrlInputView, Connection, ChunkResult)
    decreases chunk_distance(step),
{
    match step {
        StepView::Done(result) => (input, connection, result),
        StepView::Perform(request) => {
            let (event, connection) = connection.perform(request);
            let (input, step) = input.chunk_step(event);
            finish_chunk(input, step, connection)
        },
    }
}

/// The rest of a call of `reset` that has come to `step`.
pub open spec fn finish_reset(
    input: UrlInputView,
    step: StepView<UrlRequest, ()>,
    connection: Connection,
) -> (UrlInputView, Connection, Result<(), InputErrorView>)
    decreases reset_distance(step),
{
    match step {
        StepView::Done(result) => (input, connection, result),
        StepView::Perform(request) => {
            let (event, connection) = connection.perform(request);
            let (input, step) = input.reset_step(event);
            finish_reset(input, step, connection)
        },
    }
}

/// One call of `chunk`, from its start to its result.
pub open spec fn chunk_call(input: UrlInputView, connection: Connection) -> (
    UrlInputView,
    Connection,
    ChunkResult,
) {
    let (input, step) = input.chunk_step(UrlEventView::Call);
    finish_chunk(input, step, connection)
}

/// One call of `reset`, from its start to its result.
pub open spec fn reset_call(input: UrlInputView, connection: Connection) -> (
    UrlInputView,
    Connection,
    Result<(), InputErrorView>,
) {
    let (input, step) = input.reset_step(UrlEventView::Call);
    finish_reset(input, step, connection)
}

/// What `n` calls of `chunk` return, one after the other.
pub open spec fn chunk_calls(input: UrlInputView, connection: Connection, n: nat) -> Seq<
    ChunkResult,
>
    decreases n,
{
    if n == 0 {
        Seq::empty()
    } else {
        let (input, connection, result) = chunk_call(input, connection);
        seq![result] + chunk_calls(input, connection, (n - 1) as nat)
    }
}

/// An open input takes one chunk from the transport for every call.
proof fn open_input_streams(input: UrlInputView, connection: Connection)
    requires
        input.open,
    ensures
        chunk_calls(input, connection, connection.pending.len() + 1) == drained(
            connection.pending,
        ),
    decreases connection.pending.len(),
{
    reveal_with_fuel(finish_chunk, 2);
    reveal_with_fuel(chunk_calls, 2);
    if connection.pending.len() > 0 {
        let (next, after, result) = chunk_call(input, connection);
        open_input_streams(next, after);
    }
}

/// A response with status 200 that does not announce an empty body: the calls
/// of `chunk` return the chunks of the body, in order and as the transport
/// delivers them, and then `None`. One request is issued for all of them.
pub proof fn usable_response_streams(url: Seq<char>, server: Server)
    requires
        server.answer matches Ok(head) && head.status == STATUS_OK && head.content_length != Some(
            0u64,
        ),
    ensures
        ({
            let input = UrlInputView::unopened(url);
            let connection = Connection::to(server);
            &&& chunk_calls(input, connection, server.body.len() + 1) == drained(server.body)
            &&& chunk_call(input, connection).1.requests == 1
            &&& chunk_call(input, connection).0.open
        }),
{
    let input = UrlInputView::unopened(url);
    let connection = Connection::to(server);
    reveal_with_fuel(finish_chunk, 3);
    reveal_with_fuel(chunk_calls, 2);
    let open = UrlInputView { open: true, ..input };
    let answered = connection.perform(UrlRequest::Get).1;
    open_input_streams(open, answered);
}

/// A response with a status other than 200, or one that announces a body of
/// length zero, or no response at all: the first call of `chunk` fails with an
/// open failure that names what is wrong. It does not return the end of a
/// stream, and the input stays unopened.
pub proof fn unusable_response_fails(url: Seq<char>, server: Server)
    requires
        !(server.answer matches Ok(head) && head.status == STATUS_OK && head.content_length
            != Some(0u64)),
    ensures
        ({
            let input = UrlInputView::unopened(url);
            let (after, connection, result) = chunk_call(input, Connection::to(server));
            &&& after == input
            &&& result matches Err(e) && e.is_open_failure()
            &&& result == Err::<Option<Seq<u8>>, InputErrorView>(
                match server.answer {
                    Err(cause) => InputErrorView::Request { cause },
                    Ok(head) => if head.status != STATUS_OK {
                        InputErrorView::Status { code: head.status, url }
                    } else {
                        InputErrorView::EmptyBody { url }
                    },
                },
            )
        }),
{
    reveal_with_fuel(finish_chunk, 3);
}

/// A reset issues the request again, whether or not a response is held, and
/// the transfer starts over from its first byte: after a reset that succeeds,
/// the calls of `chunk` return what they return on an input that has never
/// been read.
pub proof fn reset_requests_again(input: UrlInputView, connection: Connection, n: nat)
    ensures
        ({
            let (again, fresh_connection, outcome) = reset_call(input, connection);
            let fresh = UrlInputView::unopened(input.url);
            &&& fresh_connection.requests == connection.requests + 1
            &&& outcome == fresh.opened(connection.server.answer).1
            &&& again == fresh.opened(connection.server.answer).0
            &&& outcome is Ok ==> chunk_calls(again, fresh_connection, n) == chunk_calls(
                fresh,
                Connection::to(connection.server),
                n,
            )
        }),
{
    reveal_with_fuel(finish_reset, 3);
    let (again, fresh_connection, outcome) = reset_call(input, connection);
    let fresh = UrlInputView::unopened(input.url);
    if outcome is Ok && n > 0 {
        reveal_with_fuel(finish_chunk, 3);
        reveal_with_fuel(chunk_calls, 2);
        let start = Connection::to(connection.server);
        let answered = start.perform(UrlRequest::Get).1;
        later_calls_ignore_the_count(again, fresh_connection, answered, n);
    }
}

/// What the calls on an open input return does not depend on how many
/// requests have been issued.
proof fn later_calls_ignore_the_count(input: UrlInputView, a: Connection, b: Connection, n: nat)
    requires
        input.open,
        a.pending == b.pending,
    ensures
        chunk_calls(input, a, n) == chunk_calls(input, b, n),
    decreases n,
{
    reveal_with_fuel(finish_chunk, 2);
    if n > 0 {
        let (next_a, after_a, result_a) = chunk_call(input, a);
        let (next_b, after_b, result_b) = chunk_call(input, b);
        later_calls_ignore_the_count(next_a, after_a, after_b, (n - 1) as nat);
    }
}

} // verus!
