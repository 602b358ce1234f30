//! From the file to the hosts file: what the pump writes when its input is a
//! plain file of lines.

use vstd::prelude::*;
use vstd::utf8::*;
use crate::input::file::{FileInputView, ReadRequest};
use crate::input::replay::{chunks_of, first_line, line_bytes, pieces, later_grants, Stored};
use crate::output::hostsfile::{records, records_of_whole_lines};
use crate::output::run::{all_records, pump, pumps_every_chunk, Surroundings};

verus! {

/// A newline is a character of one byte, and that byte is no part of any
/// other character.
proof fn newline_is_one_byte()
    ensures
        valid_utf8(seq![10u8]),
        decode_utf8(seq![10u8]) == seq!['\n'],
        !is_continuation_byte(10u8),
{
    assert(10u8 & 0x80 == 0 && 10u8 & 0xC0 != 0x80 && 10u8 & 0x7F == 10) by (bit_vector);
    let one = seq![10u8];
    reveal_with_fuel(valid_utf8, 2);
    reveal_with_fuel(decode_utf8, 2);
    assert(decode_utf8(one) == seq![decode_first_scalar(one) as char] + decode_utf8(
        pop_first_scalar(one),
    ));
}

/// A text can be cut after any of its newlines: both parts are text, and the
/// characters of the whole are those of the first part, which end with the
/// newline, followed by those of the second.
proof fn cut_after_newline(bytes: Seq<u8>, at: int)
    requires
        valid_utf8(bytes),
        0 <= at < bytes.len(),
        bytes[at] == 10u8,
    ensures
        valid_utf8(bytes.take(at + 1)),
        valid_utf8(bytes.skip(at + 1)),
        decode_utf8(bytes) == decode_utf8(bytes.take(at + 1)) + decode_utf8(bytes.skip(at + 1)),
        decode_utf8(bytes.take(at + 1)).len() > 0,
        decode_utf8(bytes.take(at + 1)).last() == '\n',
{
    newline_is_one_byte();
    let len = bytes.len() as int;
    let first = bytes.subrange(0, at);
    let second = bytes.subrange(at, len);
    is_char_boundary_iff_not_is_continuation_byte(bytes, at);
    valid_utf8_split(bytes, at);
    decode_utf8_split(bytes, at);
    // The second part begins with the newline, which is a character by itself.
    reveal_with_fuel(is_char_boundary, 2);
    valid_utf8_split(second, 1);
    decode_utf8_split(second, 1);
    assert(second.subrange(1, second.len() as int) == bytes.skip(at + 1));
    // The first part with the newline is the line.
    let line = bytes.take(at + 1);
    assert(line == first + seq![10u8]);
    valid_utf8_concat(first, seq![10u8]);
    is_char_boundary_iff_not_is_continuation_byte(line, at);
    decode_utf8_split(line, at);
    assert(line.subrange(0, at) == first);
    assert(line.subrange(at, line.len() as int) == seq![10u8]);
}

/// The records of the lines of a text, taken line by line, are the records of
/// the text.
pub proof fn records_line_by_line(content: Seq<u8>, grants: Seq<nat>)
    requires
        valid_utf8(content),
        content.len() > 0 ==> content.last() == 10u8,
    ensures
        all_records(pieces(ReadRequest::Line, content, grants)) == records(decode_utf8(content)),
    decreases content.len(),
{
    if content.len() > 0 {
        first_line(content, content.len() - 1);
        let k = line_bytes(content) as int;
        cut_after_newline(content, k - 1);
        let line = content.take(k);
        let rest = content.skip(k);
        records_line_by_line(rest, later_grants(grants));
        records_of_whole_lines(decode_utf8(line), decode_utf8(rest));
        let all = pieces(ReadRequest::Line, content, grants);
        assert(all.drop_first() == pieces(ReadRequest::Line, rest, later_grants(grants)));
    } else {
        assert(records(decode_utf8(content)) == Seq::<char>::empty()) by {
            reveal_with_fuel(decode_utf8, 1);
        }
    }
}

/// A plain file that holds text in newline-terminated lines is republished
/// whole: the pump, fed with the chunks that the file input yields, writes the
/// records of the file's text, one record for each line and in the order of
/// the lines, and sends nothing.
pub proof fn plain_file_is_republished(path: Seq<char>, stored: Stored)
    requires
        stored.openable,
        valid_utf8(stored.content),
        stored.content.len() > 0 ==> stored.content.last() == 10u8,
    ensures
        ({
            let lines = chunks_of(
                FileInputView::unopened(path, None),
                stored.content,
                stored.grants,
            );
            let done = pump(Surroundings::steady(lines));
            &&& done.sink == records(decode_utf8(stored.content))
            &&& done.messages.len() == 0
        }),
{
    let lines = chunks_of(FileInputView::unopened(path, None), stored.content, stored.grants);
    pumps_every_chunk(lines);
    records_line_by_line(stored.content, stored.grants);
}

} // verus!
