//! The hosts-file sink: every entry of a list becomes one line that maps the
//! entry to the unroutable address, as in `/etc/hosts`.

use vstd::prelude::*;
use vstd::string::*;
use vstd::utf8::*;
use crate::filter_controller::{ChannelMessage, ChannelMessageView};
use crate::text::{chars_of, push_char, string_from_utf8, trim_end, trimmed_end};

verus! {

/// The number of characters of `text` before its first newline, or all of them
/// if it has none.
pub open spec fn line_len(text: Seq<char>) -> nat
    decreases text.len(),
{
    if text.len() == 0 || text[0] == '\n' {
        0
    } else {
        1 + line_len(text.drop_first())
    }
}

/// What follows the first line of `text` and its newline.
pub open spec fn after_line(text: Seq<char>) -> Seq<char> {
    if line_len(text) < text.len() {
        text.skip((line_len(text) + 1) as int)
    } else {
        Seq::empty()
    }
}

/// The entries of `text`: the pieces between its newlines, in order. Text
/// after the last newline is an entry too, unless there is none.
pub open spec fn entries(text: Seq<char>) -> Seq<Seq<char>>
    decreases text.len(),
{
    if text.len() == 0 {
        Seq::empty()
    } else {
        seq![text.take(line_len(text) as int)] + entries(after_line(text))
    }
}

/// The record of one entry: the address, a space, the entry without the white
/// space at its end, and a newline.
pub open spec fn record(entry: Seq<char>) -> Seq<char> {
    "0.0.0.0 "@ + trim_end(entry) + seq!['\n']
}

/// The records of the entries, one after the other.
pub open spec fn render(entries: Seq<Seq<char>>) -> Seq<char>
    decreases entries.len(),
{
    if entries.len() == 0 {
        Seq::empty()
    } else {
        record(entries[0]) + render(entries.drop_first())
    }
}

/// What is written to the hosts file for `text`: one record for each of its
/// entries.
pub open spec fn records(text: Seq<char>) -> Seq<char> {
    render(entries(text))
}

/// The index at which the line that starts at `from` ends: that of its newline,
/// or the length of `chars` if no newline follows.
fn line_end(chars: &Vec<char>, from: usize) -> (end: usize)
    requires
        from <= chars.len(),
    ensures
        from <= end <= chars.len(),
        end - from == line_len(chars@.skip(from as int)),
{
    let mut end: usize = from;
    while end < chars.len() && chars[end] != '\n'
        invariant
            from <= end <= chars.len(),
            line_len(chars@.skip(from as int)) == (end - from) + line_len(chars@.skip(end as int)),
        decreases chars.len() - end,
    {
        assert(chars@.skip(end as int).drop_first() == chars@.skip(end + 1));
        end = end + 1;
    }
    end
}

/// Appends `chars[from..to]` to `out`.
fn push_range(out: &mut String, chars: &Vec<char>, from: usize, to: usize)
    requires
        from <= to <= chars.len(),
    ensures
        final(out)@ == old(out)@ + chars@.subrange(from as int, to as int),
{
    let mut i: usize = from;
    while i < to
        invariant
            from <= i <= to <= chars.len(),
            out@ == old(out)@ + chars@.subrange(from as int, i as int),
        decreases to - i,
    {
        push_char(out, chars[i]);
        assert(chars@.subrange(from as int, i + 1) == chars@.subrange(from as int, i as int).push(
            chars@[i as int],
        ));
        i = i + 1;
    }
}

/// The records of a text that begins with an entry.
proof fn records_unfold(text: Seq<char>)
    requires
        text.len() > 0,
    ensures
        records(text) == record(text.take(line_len(text) as int)) + records(after_line(text)),
{
    let head = seq![text.take(line_len(text) as int)];
    let tail = entries(after_line(text));
    assert((head + tail).drop_first() == tail);
}

/// The first line of a text that holds a newline ends at its first newline.
proof fn line_len_with_newline(text: Seq<char>, at: int)
    requires
        0 <= at < text.len(),
        text[at] == '\n',
    ensures
        line_len(text) <= at,
        text[line_len(text) as int] == '\n',
    decreases text.len(),
{
    if text[0] != '\n' {
        line_len_with_newline(text.drop_first(), at - 1);
    }
}

/// What follows a line does not change where the line ends.
proof fn line_len_of_prefix(text: Seq<char>, more: Seq<char>)
    requires
        line_len(text) < text.len(),
    ensures
        line_len(text + more) == line_len(text),
    decreases text.len(),
{
    if text[0] != '\n' {
        assert((text + more).drop_first() == text.drop_first() + more);
        line_len_of_prefix(text.drop_first(), more);
    }
}

/// Where a text is cut between two lines does not matter: the records of two
/// texts, of which the first is empty or ends with a newline, are the records
/// of the two texts put together.
pub proof fn records_of_whole_lines(first: Seq<char>, rest: Seq<char>)
    requires
        first.len() > 0 ==> first.last() == '\n',
    ensures
        records(first + rest) == records(first) + records(rest),
    decreases first.len(),
{
    if first.len() > 0 {
        let n = line_len(first) as int;
        line_len_with_newline(first, first.len() - 1);
        line_len_of_prefix(first, rest);
        let whole = first + rest;
        assert(whole.take(n) == first.take(n));
        assert(after_line(whole) == after_line(first) + rest);
        records_unfold(first);
        records_unfold(whole);
        records_of_whole_lines(after_line(first), rest);
    }
}

/// Turns a text of newline-delimited entries into hosts-file records.
pub fn hosts_records(text: &str) -> (out: String)
    ensures
        out@ == records(text@),
{
    let chars = chars_of(text);
    let mut out = String::new();
    let mut start: usize = 0;
    assert(chars@.skip(0) == chars@);
    while start < chars.len()
        invariant
            start <= chars.len(),
            chars@ == text@,
            out@ + records(chars@.skip(start as int)) == records(text@),
        decreases chars.len() - start,
    {
        let end = line_end(&chars, start);
        let stop = trimmed_end(&chars, start, end);
        let ghost rest = chars@.skip(start as int);
        out.append("0.0.0.0 ");
        push_range(&mut out, &chars, start, stop);
        push_char(&mut out, '\n');
        let next: usize = if end < chars.len() {
            end + 1
        } else {
            end
        };
        proof {
            records_unfold(rest);
            assert(rest.take(line_len(rest) as int) == chars@.subrange(start as int, end as int));
            assert(after_line(rest) == chars@.skip(next as int));
        }
        start = next;
    }
    out
}

/// Where the pump stands between two steps.
#[derive(Debug, Clone, Copy, PartialEq, Eq)]
pub enum PumpState {
    /// An iteration is about to begin: the pump waits for the value of the
    /// cancellation flag.
    Polling,
    /// The pump waits for the next chunk of the input.
    Reading,
    /// The pump waits for the end of a write to the sink.
    Writing,
    /// The loop is over, for good.
    Stopped,
}

/// What has happened since the last step.
#[derive(Debug, PartialEq, Eq)]
pub enum PumpEvent {
    /// The cancellation flag was read: `true` to go on, `false` to stop.
    Flag(bool),
    /// The input's `chunk` returned: a chunk, the end of the stream, or the
    /// description of a failure.
    Chunk(Result<Option<Vec<u8>>, String>),
    /// The write to the sink is over: it succeeded, or failed for this reason.
    Written(Result<(), String>),
}

/// The mathematical value of a [`PumpEvent`].
pub enum PumpEventView {
    Flag(bool),
    Chunk(Result<Option<Seq<u8>>, Seq<char>>),
    Written(Result<(), Seq<char>>),
}

impl View for PumpEvent {
    type V = PumpEventView;

    open spec fn view(&self) -> PumpEventView {
        match *self {
            PumpEvent::Flag(go_on) => PumpEventView::Flag(go_on),
            PumpEvent::Chunk(Ok(Some(bytes))) => PumpEventView::Chunk(Ok(Some(bytes@))),
            PumpEvent::Chunk(Ok(None)) => PumpEventView::Chunk(Ok(None)),
            PumpEvent::Chunk(Err(cause)) => PumpEventView::Chunk(Err(cause@)),
            PumpEvent::Written(Ok(())) => PumpEventView::Written(Ok(())),
            PumpEvent::Written(Err(cause)) => PumpEventView::Written(Err(cause@)),
        }
    }
}

/// What the pump asks its caller to do.
#[derive(Debug, PartialEq, Eq)]
pub enum PumpAction {
    /// Read the cancellation flag.
    Poll,
    /// Lock the input, call its `chunk`, release the lock.
    Read,
    /// Lock the sink, append the whole text to it, release the lock.
    Write(String),
    /// Send the message on the channel, then read the cancellation flag.
    Report(ChannelMessage),
    /// Send the message on the channel, then leave the loop.
    Abort(ChannelMessage),
    /// Leave the loop.
    Stop,
}

/// The mathematical value of a [`PumpAction`].
pub enum PumpActionView {
    Poll,
    Read,
    Write(Seq<char>),
    Report(ChannelMessageView),
    Abort(ChannelMessageView),
    Stop,
}

impl View for PumpAction {
    type V = PumpActionView;

    open spec fn view(&self) -> PumpActionView {
        match *self {
            PumpAction::Poll => PumpActionView::Poll,
            PumpAction::Read => PumpActionView::Read,
            PumpAction::Write(text) => PumpActionView::Write(text@),
            PumpAction::Report(message) => PumpActionView::Report(message@),
            PumpAction::Abort(message) => PumpActionView::Abort(message@),
            PumpAction::Stop => PumpActionView::Stop,
        }
    }
}

/// One step of the pump.
///
/// An iteration begins with the cancellation flag: if it says stop, the loop
/// is over before anything is read or written. Otherwise the next chunk is
/// asked for. A chunk that is text is turned into records, which are written;
/// a chunk that is not text is passed over, and the next iteration begins. The
/// end of the stream ends the loop. A failure of the input is reported and ends
/// the loop. A failed write is reported, and the next iteration begins.
/// An event that the pump does not wait for stops it, and a stopped pump
/// stays stopped.
pub open spec fn pump_step(state: PumpState, event: PumpEventView) -> (PumpState, PumpActionView) {
    match (state, event) {
        (PumpState::Polling, PumpEventView::Flag(true)) => (PumpState::Reading, PumpActionView::Read),
        (PumpState::Reading, PumpEventView::Chunk(Ok(Some(bytes)))) => if valid_utf8(bytes) {
            (PumpState::Writing, PumpActionView::Write(records(decode_utf8(bytes))))
        } else {
            (PumpState::Polling, PumpActionView::Poll)
        },
        (PumpState::Reading, PumpEventView::Chunk(Err(cause))) => (
            PumpState::Stopped,
            PumpActionView::Abort(ChannelMessageView::Error(cause)),
        ),
        (PumpState::Writing, PumpEventView::Written(Ok(()))) => (
            PumpState::Polling,
            PumpActionView::Poll,
        ),
        (PumpState::Writing, PumpEventView::Written(Err(cause))) => (
            PumpState::Polling,
            PumpActionView::Report(ChannelMessageView::Error(cause)),
        ),
        _ => (PumpState::Stopped, PumpActionView::Stop),
    }
}

/// Translates the entries that an input yields into the format of a hosts
/// file, one step at a time: see [`pump_step`].
///
/// A pump starts in [`PumpState::Polling`], and its caller starts by reading
/// the cancellation flag.
pub fn hostsfile_adapter(state: PumpState, event: PumpEvent) -> (r: (PumpState, PumpAction))
    ensures
        (r.0, r.1@) == pump_step(state, event@),
{
    match (state, event) {
        (PumpState::Polling, PumpEvent::Flag(true)) => (PumpState::Reading, PumpAction::Read),
        (PumpState::Reading, PumpEvent::Chunk(Ok(Some(bytes)))) => {
            match string_from_utf8(bytes) {
                Some(text) => (
                    PumpState::Writing,
                    PumpAction::Write(hosts_records(text.as_str())),
                ),
                None => (PumpState::Polling, PumpAction::Poll),
            }
        },
        (PumpState::Reading, PumpEvent::Chunk(Err(cause))) => (
            PumpState::Stopped,
            PumpAction::Abort(ChannelMessage::Error(cause)),
        ),
        (PumpState::Writing, PumpEvent::Written(Ok(()))) => (PumpState::Polling, PumpAction::Poll),
        (PumpState::Writing, PumpEvent::Written(Err(cause))) => (
            PumpState::Polling,
            PumpAction::Report(ChannelMessage::Error(cause)),
        ),
        _ => (PumpState::Stopped, PumpAction::Stop),
    }
}

} // verus!
