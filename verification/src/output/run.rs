//! What the pump does from start to end, in given surroundings.
//!
//! The surroundings say how the flag, the input and the sink answer. A run is
//! the loop that a caller of [`hostsfile_adapter`](super::hostsfile::hostsfile_adapter)
//! goes through: it performs each action and hands back what came of it.

use vstd::prelude::*;
use vstd::utf8::*;
use crate::filter_controller::ChannelMessageView;
use crate::output::hostsfile::{pump_step, records, PumpActionView, PumpEventView, PumpState};

verus! {

/// What one call of an input's `chunk` returns.
pub type ChunkOutcome = Result<Option<Seq<u8>>, Seq<char>>;

/// How the world around a pump answers.
pub struct Surroundings {
    /// The values of the cancellation flag, one for each time it is read. When
    /// they are used up the flag says go on.
    pub flags: Seq<bool>,
    /// What the calls of `chunk` return, in order. When they are used up the
    /// stream is at its end.
    pub chunks: Seq<ChunkOutcome>,
    /// How the writes end, in order. When they are used up writes succeed.
    pub writes: Seq<Result<(), Seq<char>>>,
}

/// What a pump has done to the world around it.
pub struct Effects {
    /// The texts of the writes that succeeded, one after the other.
    pub sink: Seq<char>,
    /// The messages sent on the channel, in order.
    pub messages: Seq<ChannelMessageView>,
    /// How many times `chunk` was called.
    pub reads: nat,
}

impl Surroundings {
    /// The value of the flag when it is read next.
    pub open spec fn flag(self) -> bool {
        self.flags.len() > 0 ==> self.flags[0]
    }

    /// The surroundings after the flag was read.
    pub open spec fn polled(self) -> Self {
        Surroundings {
            flags: if self.flags.len() > 0 {
                self.flags.drop_first()
            } else {
                self.flags
            },
            ..self
        }
    }

    /// What `chunk` returns when it is called next.
    pub open spec fn chunk(self) -> ChunkOutcome {
        if self.chunks.len() > 0 {
            self.chunks[0]
        } else {
            Ok(None)
        }
    }

    /// The surroundings after `chunk` was called.
    pub open spec fn read(self) -> Self {
        Surroundings {
            chunks: if self.chunks.len() > 0 {
                self.chunks.drop_first()
            } else {
                self.chunks
            },
            ..self
        }
    }

    /// How the next write ends.
    pub open spec fn write(self) -> Result<(), Seq<char>> {
        if self.writes.len() > 0 {
            self.writes[0]
        } else {
            Ok(())
        }
    }

    /// The surroundings after a write.
    pub open spec fn written(self) -> Self {
        Surroundings {
            writes: if self.writes.len() > 0 {
                self.writes.drop_first()
            } else {
                self.writes
            },
            ..self
        }
    }

    /// Surroundings in which nobody asks the pump to stop, every write
    /// succeeds, and the input yields these chunks and then ends.
    pub open spec fn steady(chunks: Seq<Seq<u8>>) -> Self {
        Surroundings {
            flags: Seq::empty(),
            chunks: Seq::new(chunks.len(), |i: int| Ok(Some(chunks[i]))),
            writes: Seq::empty(),
        }
    }
}

impl Effects {
    /// Nothing was read, written or sent.
    pub open spec fn none() -> Self {
        Effects { sink: Seq::empty(), messages: Seq::empty(), reads: 0 }
    }

    /// These effects, after `text` was written.
    pub open spec fn after_write(self, text: Seq<char>) -> Self {
        Effects { sink: text + self.sink, ..self }
    }

    /// These effects, after `message` was sent.
    pub open spec fn after_message(self, message: ChannelMessageView) -> Self {
        Effects { messages: seq![message] + self.messages, ..self }
    }

    /// These effects, after `chunk` was called once.
    pub open spec fn after_read(self) -> Self {
        Effects { reads: self.reads + 1, ..self }
    }
}

/// How far an action is from the end of its iteration.
pub open spec fn weight(action: PumpActionView) -> nat {
    match action {
        PumpActionView::Stop => 0,
        PumpActionView::Abort(_) => 0,
        PumpActionView::Read => 1,
        PumpActionView::Poll => 2,
        PumpActionView::Report(_) => 3,
        PumpActionView::Write(_) => 4,
    }
}

/// What a pump in `state` that has just asked for `action` does to its
/// surroundings until its loop is over.
pub open spec fn run(state: PumpState, action: PumpActionView, around: Surroundings) -> Effects
    decreases around.chunks.len(), weight(action),
{
    match action {
        PumpActionView::Stop => Effects::none(),
        PumpActionView::Abort(message) => Effects::none().after_message(message),
        PumpActionView::Poll => {
            let (next, action) = pump_step(state, PumpEventView::Flag(around.flag()));
            run(next, action, around.polled())
        },
        PumpActionView::Report(message) => {
            let (next, action) = pump_step(state, PumpEventView::Flag(around.flag()));
            run(next, action, around.polled()).after_message(message)
        },
        PumpActionView::Read => {
            let (next, action) = pump_step(state, PumpEventView::Chunk(around.chunk()));
            run(next, action, around.read()).after_read()
        },
        PumpActionView::Write(text) => {
            let (next, action) = pump_step(state, PumpEventView::Written(around.write()));
            let rest = run(next, action, around.written());
            if around.write() is Ok {
                rest.after_write(text)
            } else {
                rest
            }
        },
    }
}

/// The whole loop of a fresh pump.
pub open spec fn pump(around: Surroundings) -> Effects {
    run(PumpState::Polling, PumpActionView::Poll, around)
}

/// What the chunk adds to the sink: its records if it is text, nothing if it
/// is not.
pub open spec fn chunk_records(chunk: Seq<u8>) -> Seq<char> {
    if valid_utf8(chunk) {
        records(decode_utf8(chunk))
    } else {
        Seq::empty()
    }
}

/// What the chunks add to the sink, one after the other.
pub open spec fn all_records(chunks: Seq<Seq<u8>>) -> Seq<char>
    decreases chunks.len(),
{
    if chunks.len() == 0 {
        Seq::empty()
    } else {
        chunk_records(chunks[0]) + all_records(chunks.drop_first())
    }
}

/// A stopped pump stays stopped, whatever is handed to it.
pub proof fn stopped_for_good(event: PumpEventView)
    ensures
        pump_step(PumpState::Stopped, event) == (PumpState::Stopped, PumpActionView::Stop),
{
}

/// If the flag says stop when the pump reads it for the first time, the loop
/// is over at once: the input is not read, the sink is not written to and
/// nothing is sent.
pub proof fn cancelled_before_first_iteration(around: Surroundings)
    requires
        !around.flag(),
    ensures
        pump_step(PumpState::Polling, PumpEventView::Flag(false)) == (
            PumpState::Stopped,
            PumpActionView::Stop,
        ),
        pump(around) == Effects::none(),
{
    reveal_with_fuel(run, 2);
}

/// The pump stops at the top of the iteration in which the flag says stop:
/// the chunks of the iterations before are read and their records written,
/// and nothing is read or written after, whatever the flag says later and
/// whatever the input still holds.
pub proof fn stops_when_told(
    before: Seq<Seq<u8>>,
    later_flags: Seq<bool>,
    later_chunks: Seq<ChunkOutcome>,
)
    ensures
        pump(
            Surroundings {
                flags: Seq::new(before.len(), |i: int| true) + seq![false] + later_flags,
                chunks: Surroundings::steady(before).chunks + later_chunks,
                writes: Seq::empty(),
            },
        ) == (Effects { sink: all_records(before), messages: Seq::empty(), reads: before.len() }),
    decreases before.len(),
{
    let around = Surroundings {
        flags: Seq::new(before.len(), |i: int| true) + seq![false] + later_flags,
        chunks: Surroundings::steady(before).chunks + later_chunks,
        writes: Seq::empty(),
    };
    reveal_with_fuel(run, 4);
    if before.len() > 0 {
        let rest = before.drop_first();
        let next = Surroundings {
            flags: Seq::new(rest.len(), |i: int| true) + seq![false] + later_flags,
            chunks: Surroundings::steady(rest).chunks + later_chunks,
            writes: Seq::empty(),
        };
        assert(around.polled().flags =~= next.flags);
        assert(around.polled().read().chunks =~= next.chunks);
        stops_when_told(rest, later_flags, later_chunks);
    }
}

/// The pump treats every chunk on its own: what a stream adds to the sink is
/// what its first part adds, followed by what the rest adds.
pub proof fn all_records_concat(first: Seq<Seq<u8>>, rest: Seq<Seq<u8>>)
    ensures
        all_records(first + rest) == all_records(first) + all_records(rest),
    decreases first.len(),
{
    if first.len() > 0 {
        assert((first + rest).drop_first() == first.drop_first() + rest);
        all_records_concat(first.drop_first(), rest);
    }
}

/// Left alone, the pump reads its input to the end and writes the records of
/// every chunk that is text, in the order of the chunks. It calls `chunk` once
/// more than there are chunks, and sends nothing.
pub proof fn pumps_every_chunk(chunks: Seq<Seq<u8>>)
    ensures
        pump(Surroundings::steady(chunks)) == (Effects {
            sink: all_records(chunks),
            messages: Seq::empty(),
            reads: chunks.len() + 1,
        }),
    decreases chunks.len(),
{
    let around = Surroundings::steady(chunks);
    reveal_with_fuel(run, 4);
    if chunks.len() > 0 {
        let rest = chunks.drop_first();
        assert(around.polled().read().chunks =~= Surroundings::steady(rest).chunks);
        pumps_every_chunk(rest);
        if valid_utf8(chunks[0]) {
            assert(pump(around) == pump(Surroundings::steady(rest)).after_write(
                chunk_records(chunks[0]),
            ).after_read());
        }
    }
}

/// A failure of the input ends the loop and is reported once: the records of
/// the chunks before it are in the sink, its description is the one message
/// that is sent, and `chunk` is not called again, whatever it would return.
pub proof fn input_failure_is_reported_once(
    before: Seq<Seq<u8>>,
    cause: Seq<char>,
    later: Seq<ChunkOutcome>,
)
    ensures
        pump(
            Surroundings {
                chunks: Surroundings::steady(before).chunks + seq![Err(cause)] + later,
                ..Surroundings::steady(before)
            },
        ) == (Effects {
            sink: all_records(before),
            messages: seq![ChannelMessageView::Error(cause)],
            reads: before.len() + 1,
        }),
    decreases before.len(),
{
    let around = Surroundings {
        chunks: Surroundings::steady(before).chunks + seq![Err(cause)] + later,
        ..Surroundings::steady(before)
    };
    reveal_with_fuel(run, 4);
    if before.len() > 0 {
        let rest = before.drop_first();
        let next = Surroundings {
            chunks: Surroundings::steady(rest).chunks + seq![Err(cause)] + later,
            ..Surroundings::steady(rest)
        };
        assert(around.polled().read().chunks =~= next.chunks);
        input_failure_is_reported_once(rest, cause, later);
    }
}

/// A write that fails is reported and does not end the loop: the pump goes on
/// with the next chunk as if the failed write had not been asked for.
pub proof fn failed_write_is_reported(chunk: Seq<u8>, cause: Seq<char>, rest: Seq<Seq<u8>>)
    requires
        valid_utf8(chunk),
    ensures
        pump(
            Surroundings { writes: seq![Err(cause)], ..Surroundings::steady(seq![chunk] + rest) },
        ) == (Effects {
            sink: all_records(rest),
            messages: seq![ChannelMessageView::Error(cause)],
            reads: rest.len() + 2,
        }),
{
    let around = Surroundings {
        writes: seq![Err(cause)],
        ..Surroundings::steady(seq![chunk] + rest)
    };
    reveal_with_fuel(run, 4);
    assert(around.polled().read().chunks =~= Surroundings::steady(rest).chunks);
    assert(around.polled().read().written().writes =~= Surroundings::steady(rest).writes);
    pumps_every_chunk(rest);
    assert(run(PumpState::Polling, PumpActionView::Poll, Surroundings::steady(rest)) == pump(
        Surroundings::steady(rest),
    ));
    assert(pump(around).messages == seq![ChannelMessageView::Error(cause)] + pump(
        Surroundings::steady(rest),
    ).messages);
}

/// A chunk that is not text, in the middle of a stream, does not end the loop:
/// every chunk before it and after it is read, and the records of those that
/// are text are written as if the bad chunk had not been there.
pub proof fn invalid_chunk_is_passed_over(before: Seq<Seq<u8>>, bad: Seq<u8>, after: Seq<Seq<u8>>)
    requires
        !valid_utf8(bad),
    ensures
        pump(Surroundings::steady(before + seq![bad] + after)) == (Effects {
            sink: all_records(before) + all_records(after),
            messages: Seq::empty(),
            reads: before.len() + after.len() + 2,
        }),
{
    pumps_every_chunk(before + seq![bad] + after);
    all_records_concat(before + seq![bad], after);
    all_records_concat(before, seq![bad]);
    assert(all_records(seq![bad]) == Seq::<char>::empty()) by {
        reveal_with_fuel(all_records, 2);
    }
}

} // verus!
