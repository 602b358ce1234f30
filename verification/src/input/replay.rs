//! What a file input yields, call after call, over a given file.
//!
//! The file is described by what its readers deliver. A call is the loop that
//! a caller of [`FileInput`](super::file::FileInput) goes through: it performs
//! each request on its reader and hands back what came of it.
//!
//! Reads do not fail in this description. What a call makes of a read that
//! fails is said by [`FileInputView::chunk_step`] alone.

use vstd::prelude::*;
use crate::input::file::{
    handle_for, read_request, same_path, CompressionView, FileEventView, FileInputView,
    FileRequest, Handle, ReadRequest,
};
use crate::input::{drained, ChunkResult, InputErrorView, StepView, BUF_SIZE};

verus! {

/// One entry of an archive.
pub struct Member {
    /// The entry's path, if the entry can be read and its path is text.
    pub path: Option<Seq<char>>,
    /// The bytes of the entry.
    pub content: Seq<u8>,
}

/// A file, as its readers deliver it.
pub struct Stored {
    /// Whether the file can be opened.
    pub openable: bool,
    /// Whether the entries of the archive can be listed; if not, why.
    pub listing: Result<(), Seq<char>>,
    /// The entries of the archive, in the archive's order.
    pub members: Seq<Member>,
    /// The bytes of a plain file, or the bytes that a gzip file decodes to.
    pub content: Seq<u8>,
    /// How many bytes the short reads come to, one number for each read. A
    /// read delivers at least one byte while there is one, and never more than
    /// it was asked for.
    pub grants: Seq<nat>,
}

/// The reader in the caller's hands.
pub struct Reader {
    /// The file that is read.
    pub stored: Stored,
    /// How many entries of the archive have been reached.
    pub listed: nat,
    /// What is left of the stream under the reader.
    pub rest: Seq<u8>,
    /// What is left of the file's grants.
    pub grants: Seq<nat>,
}

/// The smaller of the two numbers.
pub open spec fn least(a: nat, b: nat) -> nat {
    if a <= b {
        a
    } else {
        b
    }
}

/// The length of the first line of `rest`, its newline included; the length of
/// `rest` if it holds no newline.
pub open spec fn line_bytes(rest: Seq<u8>) -> nat
    decreases rest.len(),
{
    if rest.len() == 0 {
        0
    } else if rest[0] == 10u8 {
        1
    } else {
        1 + line_bytes(rest.drop_first())
    }
}

/// How many bytes a read delivers from a stream that still holds `rest`.
pub open spec fn delivered(request: ReadRequest, rest: Seq<u8>, grant: nat) -> nat {
    match request {
        ReadRequest::Line => line_bytes(rest),
        ReadRequest::Fill(limit) => least(limit as nat, rest.len()),
        ReadRequest::UpTo(limit) => {
            let most = least(limit as nat, rest.len());
            if grant < 1 {
                least(1, most)
            } else {
                least(grant, most)
            }
        },
    }
}

/// The grant for the next read.
pub open spec fn next_grant(grants: Seq<nat>) -> nat {
    if grants.len() > 0 {
        grants[0]
    } else {
        0
    }
}

/// The grants for the reads after the next.
pub open spec fn later_grants(grants: Seq<nat>) -> Seq<nat> {
    if grants.len() > 0 {
        grants.drop_first()
    } else {
        grants
    }
}

/// The pieces in which a stream that holds `content` is delivered to reads of
/// one kind, up to its end.
pub open spec fn pieces(request: ReadRequest, content: Seq<u8>, grants: Seq<nat>) -> Seq<Seq<u8>>
    decreases content.len(),
{
    let n = delivered(request, content, next_grant(grants));
    if 0 < n <= content.len() {
        seq![content.take(n as int)] + pieces(
            request,
            content.skip(n as int),
            later_grants(grants),
        )
    } else {
        Seq::empty()
    }
}

impl Reader {
    /// A reader that has not touched the file yet.
    pub open spec fn over(stored: Stored) -> Self {
        Reader { stored, listed: 0, rest: Seq::empty(), grants: Seq::empty() }
    }

    /// What comes of a request, and the reader after it.
    pub open spec fn perform(self, request: FileRequest) -> (FileEventView, Self) {
        match request {
            FileRequest::OpenFile => (
                FileEventView::Opened(self.stored.openable),
                Reader {
                    listed: 0,
                    rest: self.stored.content,
                    grants: self.stored.grants,
                    ..self
                },
            ),
            FileRequest::ListEntries => (
                FileEventView::Listed(self.stored.listing),
                Reader { listed: 0, ..self },
            ),
            FileRequest::NextEntry => if self.listed < self.stored.members.len() {
                (
                    FileEventView::Entry(self.stored.members[self.listed as int].path),
                    Reader {
                        listed: self.listed + 1,
                        rest: self.stored.members[self.listed as int].content,
                        ..self
                    },
                )
            } else {
                (FileEventView::EndOfArchive, self)
            },
            FileRequest::Read(request) => {
                let n = delivered(request, self.rest, next_grant(self.grants));
                (
                    FileEventView::Read(Ok(self.rest.take(n as int))),
                    Reader {
                        rest: self.rest.skip(n as int),
                        grants: later_grants(self.grants),
                        ..self
                    },
                )
            },
        }
    }
}

/// How far a step is from the end of its call.
pub open spec fn distance<T>(step: StepView<FileRequest, T>) -> nat {
    match step {
        StepView::Done(_) => 0,
        StepView::Perform(FileRequest::Read(_)) => 1,
        StepView::Perform(FileRequest::NextEntry) => 2,
        StepView::Perform(FileRequest::ListEntries) => 3,
        StepView::Perform(FileRequest::OpenFile) => 4,
    }
}

/// The rest of a call of `chunk` that has come to `step`.
pub open spec fn finish_chunk(
    input: FileInputView,
    step: StepView<FileRequest, Option<Seq<u8>>>,
    reader: Reader,
) -> (FileInputView, Reader, ChunkResult)
    decreases distance(step), reader.stored.members.len() - reader.listed,
{
    match step {
        StepView::Done(result) => (input, reader, result),
        StepView::Perform(request) => {
            let (event, reader) = reader.perform(request);
            let (input, step) = input.chunk_step(event);
            finish_chunk(input, step, reader)
        },
    }
}

/// How far a step of `reset` is from the end of its call. A reset that is
/// handed a read starts over.
pub open spec fn reset_distance(step: StepView<FileRequest, ()>) -> nat {
    match step {
        StepView::Perform(FileRequest::Read(_)) => 5,
        _ => distance(step),
    }
}

/// The rest of a call of `reset` that has come to `step`.
pub open spec fn finish_reset(
    input: FileInputView,
    step: StepView<FileRequest, ()>,
    reader: Reader,
) -> (FileInputView, Reader, Result<(), InputErrorView>)
    decreases reset_distance(step), reader.stored.members.len() - reader.listed,
{
    match step {
        StepView::Done(result) => (input, reader, result),
        StepView::Perform(request) => {
            let (event, reader) = reader.perform(request);
            let (input, step) = input.reset_step(event);
            finish_reset(input, step, reader)
        },
    }
}

/// One call of `chunk`, from its start to its result.
pub open spec fn chunk_call(input: FileInputView, reader: Reader) -> (
    FileInputView,
    Reader,
    ChunkResult,
) {
    let (input, step) = input.chunk_step(FileEventView::Call);
    finish_chunk(input, step, reader)
}

/// One call of `reset`, from its start to its result.
pub open spec fn reset_call(input: FileInputView, reader: Reader) -> (
    FileInputView,
    Reader,
    Result<(), InputErrorView>,
) {
    let (input, step) = input.reset_step(FileEventView::Call);
    finish_reset(input, step, reader)
}

/// What `n` calls of `chunk` return, one after the other.
pub open spec fn chunk_calls(input: FileInputView, reader: Reader, n: nat) -> Seq<ChunkResult>
    decreases n,
{
    if n == 0 {
        Seq::empty()
    } else {
        let (input, reader, result) = chunk_call(input, reader);
        seq![result] + chunk_calls(input, reader, (n - 1) as nat)
    }
}

/// The index of the first entry, at or after `from`, that has the wanted path.
pub open spec fn first_member(members: Seq<Member>, wanted: Seq<char>, from: nat) -> Option<nat>
    decreases members.len() - from,
{
    if from >= members.len() {
        None
    } else if members[from as int].path matches Some(path) && same_path(path, wanted) {
        Some(from)
    } else {
        first_member(members, wanted, from + 1)
    }
}

/// The stream that opening binds the input to, or why opening fails.
///
/// A file that cannot be opened fails. A plain or gzip file is bound to its
/// own stream. An archive is bound to the first entry that has the wanted
/// path; it fails if its entries cannot be listed or none of them has that
/// path.
pub open spec fn opened_stream(input: FileInputView, stored: Stored) -> Result<
    Seq<u8>,
    InputErrorView,
> {
    if !stored.openable {
        Err(InputErrorView::OpenFile { path: input.path })
    } else {
        match input.compression {
            Some(CompressionView::TarGz(wanted)) => match stored.listing {
                Err(cause) => Err(InputErrorView::Archive { cause }),
                Ok(()) => match first_member(stored.members, wanted, 0) {
                    Some(k) => Ok(stored.members[k as int].content),
                    None => Err(InputErrorView::MemberNotFound),
                },
            },
            _ => Ok(stored.content),
        }
    }
}

/// The chunks that an input yields over a stream that holds `content`.
pub open spec fn chunks_of(input: FileInputView, content: Seq<u8>, grants: Seq<nat>) -> Seq<
    Seq<u8>,
> {
    pieces(read_request(handle_for(input.compression)), content, grants)
}

/// How many newlines `bytes` holds.
pub open spec fn newlines(bytes: Seq<u8>) -> nat
    decreases bytes.len(),
{
    if bytes.len() == 0 {
        0
    } else {
        newlines(bytes.drop_last()) + if bytes.last() == 10u8 {
            1nat
        } else {
            0nat
        }
    }
}

/// What `n` reads of one kind return as chunks, from a stream that still holds
/// `rest`.
spec fn served(request: ReadRequest, rest: Seq<u8>, grants: Seq<nat>, n: nat) -> Seq<ChunkResult>
    decreases n,
{
    if n == 0 {
        Seq::empty()
    } else {
        let k = delivered(request, rest, next_grant(grants));
        seq![
            Ok(
                if k > 0 {
                    Some(rest.take(k as int))
                } else {
                    None
                },
            ),
        ] + served(request, rest.skip(k as int), later_grants(grants), (n - 1) as nat)
    }
}

proof fn line_bytes_bounds(rest: Seq<u8>)
    ensures
        line_bytes(rest) <= rest.len(),
        rest.len() > 0 ==> line_bytes(rest) > 0,
    decreases rest.len(),
{
    if rest.len() > 0 && rest[0] != 10u8 {
        line_bytes_bounds(rest.drop_first());
    }
}

proof fn delivered_bounds(request: ReadRequest, rest: Seq<u8>, grant: nat)
    ensures
        delivered(request, rest, grant) <= rest.len(),
{
    line_bytes_bounds(rest);
}

/// An open input answers every call with one read: the chunk is what the read
/// delivers, and a read that delivers nothing is the end of the stream.
proof fn open_input_serves(input: FileInputView, reader: Reader, n: nat)
    requires
        input.handle is Some,
    ensures
        chunk_calls(input, reader, n) == served(
            read_request(input.handle->0),
            reader.rest,
            reader.grants,
            n,
        ),
    decreases n,
{
    if n > 0 {
        let request = read_request(input.handle->0);
        let k = delivered(request, reader.rest, next_grant(reader.grants));
        delivered_bounds(request, reader.rest, next_grant(reader.grants));
        reveal_with_fuel(finish_chunk, 3);
        let (next, after, result) = chunk_call(input, reader);
        open_input_serves(next, after, (n - 1) as nat);
    }
}

/// Reads of one kind, made until the stream has ended, return its pieces and
/// then its end.
proof fn served_to_the_end(request: ReadRequest, content: Seq<u8>, grants: Seq<nat>)
    ensures
        served(request, content, grants, pieces(request, content, grants).len() + 1) == drained(
            pieces(request, content, grants),
        ),
    decreases content.len(),
{
    let k = delivered(request, content, next_grant(grants));
    delivered_bounds(request, content, next_grant(grants));
    reveal_with_fuel(served, 2);
    if k > 0 {
        served_to_the_end(request, content.skip(k as int), later_grants(grants));
    }
}

/// Passing the entries of the archive, for a call of `chunk`.
proof fn scan_for_chunk(input: FileInputView, reader: Reader, wanted: Seq<char>)
    requires
        input.compression == Some(CompressionView::TarGz(wanted)),
        reader.listed <= reader.stored.members.len(),
    ensures
        match first_member(reader.stored.members, wanted, reader.listed) {
            Some(k) => finish_chunk(
                input,
                StepView::Perform(FileRequest::NextEntry),
                reader,
            ) == chunk_call(
                FileInputView { handle: Some(Handle::TarGz), ..input },
                Reader { listed: k + 1, rest: reader.stored.members[k as int].content, ..reader },
            ),
            None => {
                let end = finish_chunk(input, StepView::Perform(FileRequest::NextEntry), reader);
                end.0 == input && end.2 == Err::<Option<Seq<u8>>, InputErrorView>(
                    InputErrorView::MemberNotFound,
                )
            },
        },
    decreases reader.stored.members.len() - reader.listed,
{
    reveal_with_fuel(finish_chunk, 3);
    if reader.listed < reader.stored.members.len() {
        let next = reader.perform(FileRequest::NextEntry).1;
        if !input.wants(reader.stored.members[reader.listed as int].path) {
            scan_for_chunk(input, next, wanted);
        }
    }
}

/// Passing the entries of the archive, for a call of `reset`.
proof fn scan_for_reset(input: FileInputView, reader: Reader, wanted: Seq<char>)
    requires
        input.compression == Some(CompressionView::TarGz(wanted)),
        reader.listed <= reader.stored.members.len(),
    ensures
        match first_member(reader.stored.members, wanted, reader.listed) {
            Some(k) => finish_reset(input, StepView::Perform(FileRequest::NextEntry), reader) == (
                FileInputView { handle: Some(Handle::TarGz), ..input },
                Reader { listed: k + 1, rest: reader.stored.members[k as int].content, ..reader },
                Ok::<(), InputErrorView>(()),
            ),
            None => {
                let end = finish_reset(input, StepView::Perform(FileRequest::NextEntry), reader);
                end.0 == input && end.2 == Err::<(), InputErrorView>(InputErrorView::MemberNotFound)
            },
        },
    decreases reader.stored.members.len() - reader.listed,
{
    reveal_with_fuel(finish_reset, 3);
    if reader.listed < reader.stored.members.len() {
        let next = reader.perform(FileRequest::NextEntry).1;
        if !input.wants(reader.stored.members[reader.listed as int].path) {
            scan_for_reset(input, next, wanted);
        }
    }
}

/// The reader right after a successful open.
spec fn bound_reader(input: FileInputView, stored: Stored) -> Reader {
    match input.compression {
        Some(CompressionView::TarGz(wanted)) => {
            let k = first_member(stored.members, wanted, 0)->0;
            Reader {
                stored,
                listed: k + 1,
                rest: stored.members[k as int].content,
                grants: stored.grants,
            }
        },
        _ => Reader { stored, listed: 0, rest: stored.content, grants: stored.grants },
    }
}

/// The first call of `chunk` on an unopened input opens it and goes on as a
/// call on the open input; if opening fails, the call fails and the input
/// stays unopened.
proof fn first_call_opens(input: FileInputView, reader: Reader)
    requires
        input.handle is None,
    ensures
        match opened_stream(input, reader.stored) {
            Ok(_) => chunk_call(input, reader) == chunk_call(
                FileInputView { handle: Some(handle_for(input.compression)), ..input },
                bound_reader(input, reader.stored),
            ),
            Err(e) => chunk_call(input, reader).0 == input && chunk_call(input, reader).2 == Err::<
                Option<Seq<u8>>,
                InputErrorView,
            >(e),
        },
{
    reveal_with_fuel(finish_chunk, 4);
    let opened = reader.perform(FileRequest::OpenFile).1;
    if reader.stored.openable {
        match input.compression {
            Some(CompressionView::TarGz(wanted)) => {
                let listing = opened.perform(FileRequest::ListEntries).1;
                if reader.stored.listing is Ok {
                    scan_for_chunk(input, listing, wanted);
                }
            },
            _ => {},
        }
    }
}

/// A call of `reset` gives up the handle and opens the input again.
proof fn reset_opens(input: FileInputView, reader: Reader)
    ensures
        match opened_stream(input, reader.stored) {
            Ok(_) => reset_call(input, reader) == (
                FileInputView { handle: Some(handle_for(input.compression)), ..input },
                bound_reader(input, reader.stored),
                Ok::<(), InputErrorView>(()),
            ),
            Err(e) => reset_call(input, reader).0 == (FileInputView { handle: None, ..input })
                && reset_call(input, reader).2 == Err::<(), InputErrorView>(e),
        },
{
    reveal_with_fuel(finish_reset, 4);
    let closed = FileInputView { handle: None, ..input };
    let opened = reader.perform(FileRequest::OpenFile).1;
    if reader.stored.openable {
        match input.compression {
            Some(CompressionView::TarGz(wanted)) => {
                let listing = opened.perform(FileRequest::ListEntries).1;
                if reader.stored.listing is Ok {
                    scan_for_reset(closed, listing, wanted);
                }
            },
            _ => {},
        }
    }
}

/// Over a file that can be opened, an input yields the chunks of the stream
/// that it is bound to, in order, and then the end of the stream: as many
/// calls return a chunk as the stream has pieces, and the next call returns
/// `None`. Over a file that cannot be opened, or an archive without the
/// wanted member, the first call fails with an open failure, it does not
/// report the end of a stream, and the input stays unopened.
pub proof fn yields_the_stream(input: FileInputView, stored: Stored)
    requires
        input.handle is None,
    ensures
        match opened_stream(input, stored) {
            Ok(content) => chunk_calls(
                input,
                Reader::over(stored),
                chunks_of(input, content, stored.grants).len() + 1,
            ) == drained(chunks_of(input, content, stored.grants)),
            Err(e) => e.is_open_failure() && chunk_call(input, Reader::over(stored)).2 == Err::<
                Option<Seq<u8>>,
                InputErrorView,
            >(e) && chunk_call(input, Reader::over(stored)).0 == input,
        },
{
    let reader = Reader::over(stored);
    first_call_opens(input, reader);
    match opened_stream(input, stored) {
        Ok(content) => {
            let open = FileInputView { handle: Some(handle_for(input.compression)), ..input };
            let bound = bound_reader(input, stored);
            let n = chunks_of(input, content, stored.grants).len() + 1;
            assert(chunk_calls(input, reader, n) == chunk_calls(open, bound, n)) by {
                reveal_with_fuel(chunk_calls, 2);
            }
            open_input_serves(open, bound, n);
            served_to_the_end(
                read_request(handle_for(input.compression)),
                content,
                stored.grants,
            );
        },
        Err(e) => {},
    }
}

/// The pieces of a stream, put together in order, are the stream, byte for
/// byte. No piece is empty, and none is longer than the limit of the reads.
pub proof fn pieces_rebuild_the_stream(request: ReadRequest, content: Seq<u8>, grants: Seq<nat>)
    requires
        request.limit() != Some(0nat),
    ensures
        pieces(request, content, grants).flatten() == content,
        forall|i: int|
            0 <= i < pieces(request, content, grants).len() ==> (#[trigger] pieces(
                request,
                content,
                grants,
            )[i]).len() > 0,
        forall|i: int|
            0 <= i < pieces(request, content, grants).len() && request.limit() is Some ==> (
            #[trigger] pieces(request, content, grants)[i]).len() <= request.limit()->0,
    decreases content.len(),
{
    let k = delivered(request, content, next_grant(grants));
    delivered_bounds(request, content, next_grant(grants));
    line_bytes_bounds(content);
    let all = pieces(request, content, grants);
    if k > 0 {
        let later = pieces(request, content.skip(k as int), later_grants(grants));
        pieces_rebuild_the_stream(request, content.skip(k as int), later_grants(grants));
        assert(all.drop_first() == later);
    }
}

proof fn newlines_concat(a: Seq<u8>, b: Seq<u8>)
    ensures
        newlines(a + b) == newlines(a) + newlines(b),
    decreases b.len(),
{
    if b.len() > 0 {
        assert((a + b).drop_last() == a + b.drop_last());
        newlines_concat(a, b.drop_last());
    }
}

/// The first line of a text that holds a newline ends with the first newline
/// and holds no other.
pub proof fn first_line(rest: Seq<u8>, at: int)
    requires
        0 <= at < rest.len(),
        rest[at] == 10u8,
    ensures
        0 < line_bytes(rest) <= at + 1,
        rest[line_bytes(rest) - 1] == 10u8,
        newlines(rest.take(line_bytes(rest) as int)) == 1,
    decreases rest.len(),
{
    if rest[0] == 10u8 {
        reveal_with_fuel(newlines, 2);
    } else {
        let tail = rest.drop_first();
        first_line(tail, at - 1);
        let n = line_bytes(tail) as int;
        assert(rest.take(n + 1) == seq![rest[0]] + tail.take(n));
        newlines_concat(seq![rest[0]], tail.take(n));
        reveal_with_fuel(newlines, 2);
    }
}

/// A text of newline-terminated lines is delivered to line reads in as many
/// pieces as it has lines, and every piece is one line with its newline.
pub proof fn lines_of_a_text(content: Seq<u8>, grants: Seq<nat>)
    requires
        content.len() > 0 ==> content.last() == 10u8,
    ensures
        pieces(ReadRequest::Line, content, grants).len() == newlines(content),
        forall|i: int|
            0 <= i < pieces(ReadRequest::Line, content, grants).len() ==> {
                let line = #[trigger] pieces(ReadRequest::Line, content, grants)[i];
                line.len() > 0 && line.last() == 10u8 && newlines(line) == 1
            },
    decreases content.len(),
{
    if content.len() > 0 {
        first_line(content, content.len() - 1);
        let k = line_bytes(content) as int;
        lines_of_a_text(content.skip(k), later_grants(grants));
        assert(content.take(k) + content.skip(k) == content);
        newlines_concat(content.take(k), content.skip(k));
    }
}

/// A plain file of `n` newline-terminated lines: `n` calls of `chunk` return
/// one line each, in order, the next call returns `None`, and the chunks put
/// together are the file, byte for byte.
pub proof fn plain_file_yields_its_lines(path: Seq<char>, stored: Stored)
    requires
        stored.openable,
        stored.content.len() > 0 ==> stored.content.last() == 10u8,
    ensures
        ({
            let input = FileInputView::unopened(path, None);
            let lines = chunks_of(input, stored.content, stored.grants);
            &&& lines.len() == newlines(stored.content)
            &&& chunk_calls(input, Reader::over(stored), lines.len() + 1) == drained(lines)
            &&& lines.flatten() == stored.content
            &&& forall|i: int|
                0 <= i < lines.len() ==> (#[trigger] lines[i]).len() > 0 && lines[i].last() == 10u8
        }),
{
    let input = FileInputView::unopened(path, None);
    yields_the_stream(input, stored);
    pieces_rebuild_the_stream(ReadRequest::Line, stored.content, stored.grants);
    lines_of_a_text(stored.content, stored.grants);
}

/// A gzip file: the chunks, put together in the order in which they are
/// yielded, are the bytes that the file decodes to; no chunk is empty or longer
/// than the buffer; after the last chunk the next call returns `None`.
pub proof fn gzip_file_yields_what_it_decodes_to(path: Seq<char>, stored: Stored)
    requires
        stored.openable,
    ensures
        ({
            let input = FileInputView::unopened(path, Some(CompressionView::Gz));
            let chunks = chunks_of(input, stored.content, stored.grants);
            &&& chunk_calls(input, Reader::over(stored), chunks.len() + 1) == drained(chunks)
            &&& chunks.flatten() == stored.content
            &&& forall|i: int| 0 <= i < chunks.len() ==> 0 < (#[trigger] chunks[i]).len() <= BUF_SIZE
        }),
{
    let input = FileInputView::unopened(path, Some(CompressionView::Gz));
    yields_the_stream(input, stored);
    pieces_rebuild_the_stream(ReadRequest::UpTo(BUF_SIZE), stored.content, stored.grants);
}

/// An archive that holds the wanted member: the chunks, put together in
/// order, are the bytes of the first entry with the wanted path, and of no
/// other entry.
pub proof fn archive_yields_the_member(
    path: Seq<char>,
    wanted: Seq<char>,
    stored: Stored,
    k: nat,
)
    requires
        stored.openable,
        stored.listing is Ok,
        first_member(stored.members, wanted, 0) == Some(k),
    ensures
        ({
            let input = FileInputView::unopened(path, Some(CompressionView::TarGz(wanted)));
            let chunks = chunks_of(input, stored.members[k as int].content, stored.grants);
            &&& chunk_calls(input, Reader::over(stored), chunks.len() + 1) == drained(chunks)
            &&& chunks.flatten() == stored.members[k as int].content
            &&& forall|i: int| 0 <= i < chunks.len() ==> 0 < (#[trigger] chunks[i]).len() <= BUF_SIZE
        }),
{
    let input = FileInputView::unopened(path, Some(CompressionView::TarGz(wanted)));
    yields_the_stream(input, stored);
    pieces_rebuild_the_stream(
        ReadRequest::Fill(BUF_SIZE),
        stored.members[k as int].content,
        stored.grants,
    );
}

/// An archive that does not hold the wanted member: the first call of `chunk`
/// fails with an open failure. It does not return the end of a stream, and
/// the input stays unopened.
pub proof fn archive_without_the_member_fails(path: Seq<char>, wanted: Seq<char>, stored: Stored)
    requires
        stored.openable,
        stored.listing is Ok,
        first_member(stored.members, wanted, 0) is None,
    ensures
        ({
            let input = FileInputView::unopened(path, Some(CompressionView::TarGz(wanted)));
            let (after, reader, result) = chunk_call(input, Reader::over(stored));
            &&& result == Err::<Option<Seq<u8>>, InputErrorView>(InputErrorView::MemberNotFound)
            &&& InputErrorView::MemberNotFound.is_open_failure()
            &&& after == input
        }),
{
    let input = FileInputView::unopened(path, Some(CompressionView::TarGz(wanted)));
    yields_the_stream(input, stored);
}

/// After a reset that succeeds, the calls of `chunk` return what they return
/// on an input that is read for the first time, whatever the input had been
/// through before. A reset that fails leaves the input unopened.
pub proof fn reset_replays(input: FileInputView, reader: Reader, n: nat)
    ensures
        ({
            let (again, rewound, outcome) = reset_call(input, reader);
            let fresh = FileInputView::unopened(input.path, input.compression);
            match opened_stream(input, reader.stored) {
                Ok(_) => outcome == Ok::<(), InputErrorView>(()) && chunk_calls(again, rewound, n)
                    == chunk_calls(fresh, Reader::over(reader.stored), n),
                Err(e) => outcome == Err::<(), InputErrorView>(e) && again == fresh,
            }
        }),
{
    let fresh = FileInputView::unopened(input.path, input.compression);
    reset_opens(input, reader);
    first_call_opens(fresh, Reader::over(reader.stored));
    if opened_stream(input, reader.stored) is Ok && n > 0 {
        reveal_with_fuel(chunk_calls, 2);
    }
}

} // verus!
