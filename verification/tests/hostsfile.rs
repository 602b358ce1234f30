use std::io::{Cursor, Write};

use hostsfeed::filter_controller::ChannelMessage;
use hostsfeed::output::hostsfile::{
    hosts_records, hostsfile_adapter, PumpAction, PumpEvent, PumpState,
};
use hostsfeed::text::{chars_of, push_decimal, whitespace};

/// An input over text in memory that yields one line for each call.
struct CursorInput {
    data: Vec<u8>,
    at: usize,
}

impl CursorInput {
    fn new(data: &str) -> Self {
        CursorInput { data: data.as_bytes().to_vec(), at: 0 }
    }

    fn chunk(&mut self) -> Result<Option<Vec<u8>>, String> {
        if self.at == self.data.len() {
            return Ok(None);
        }
        let rest = &self.data[self.at..];
        let n = match rest.iter().position(|b| *b == b'\n') {
            Some(i) => i + 1,
            None => rest.len(),
        };
        self.at += n;
        Ok(Some(rest[..n].to_vec()))
    }
}

/// What a run of the pump did.
struct Ran {
    messages: Vec<ChannelMessage>,
    reads: usize,
    writes: usize,
    polls: usize,
}

/// Runs the pump: performs each action and hands back what came of it.
fn run(
    flags: &mut dyn FnMut() -> bool,
    chunks: &mut dyn FnMut() -> Result<Option<Vec<u8>>, String>,
    sink: &mut dyn Write,
) -> Ran {
    let mut ran = Ran { messages: Vec::new(), reads: 0, writes: 0, polls: 0 };
    let mut state = PumpState::Polling;
    let mut action = PumpAction::Poll;
    loop {
        let event = match action {
            PumpAction::Poll => {
                ran.polls += 1;
                PumpEvent::Flag(flags())
            }
            PumpAction::Read => {
                ran.reads += 1;
                PumpEvent::Chunk(chunks())
            }
            PumpAction::Write(text) => {
                ran.writes += 1;
                PumpEvent::Written(sink.write_all(text.as_bytes()).map_err(|e| e.to_string()))
            }
            PumpAction::Report(message) => {
                ran.messages.push(message);
                ran.polls += 1;
                PumpEvent::Flag(flags())
            }
            PumpAction::Abort(message) => {
                ran.messages.push(message);
                return ran;
            }
            PumpAction::Stop => return ran,
        };
        let (next, then) = hostsfile_adapter(state, event);
        state = next;
        action = then;
    }
}

/// Runs the pump over scripted chunks with the flag left alone.
fn run_script(script: Vec<Result<Option<Vec<u8>>, String>>, sink: &mut dyn Write) -> Ran {
    let mut script = script.into_iter();
    run(&mut || true, &mut || script.next().unwrap_or(Ok(None)), sink)
}

/// A sink that refuses its first `failures` writes.
struct Stubborn {
    failures: usize,
    taken: Vec<u8>,
}

impl Write for Stubborn {
    fn write(&mut self, buf: &[u8]) -> std::io::Result<usize> {
        if self.failures > 0 {
            self.failures -= 1;
            return Err(std::io::Error::new(std::io::ErrorKind::Other, "disk full"));
        }
        self.taken.extend_from_slice(buf);
        Ok(buf.len())
    }

    fn flush(&mut self) -> std::io::Result<()> {
        Ok(())
    }
}

#[test]
fn test_hostfile_adapter() {
    // create input data
    let input_data = "domain.one\ndomain.two\n";
    let mut input = CursorInput::new(input_data);
    // set up output sink
    let mut output = Cursor::new(vec![0, 32]);

    let ran = run(&mut || true, &mut || input.chunk(), &mut output);
    let o = output.clone().into_inner();
    let expect = "0.0.0.0 domain.one\n0.0.0.0 domain.two\n";
    let got = String::from_utf8_lossy(&o);
    assert_eq!(got, expect);
    assert!(ran.messages.is_empty());
    assert_eq!(ran.reads, 3);
    assert_eq!(ran.writes, 2);
}

#[test]
fn pump_writes_the_same_for_one_chunk_of_two_lines() {
    let mut sink = Vec::new();
    let ran = run_script(vec![Ok(Some(b"domain.one\ndomain.two\n".to_vec()))], &mut sink);
    assert_eq!(String::from_utf8(sink).unwrap(), "0.0.0.0 domain.one\n0.0.0.0 domain.two\n");
    assert_eq!(ran.writes, 1);
    assert_eq!(ran.reads, 2);
}

#[test]
fn pump_stops_before_the_first_iteration_when_cancelled() {
    let mut input = CursorInput::new("domain.one\ndomain.two\n");
    let mut sink = Vec::new();
    let ran = run(&mut || false, &mut || input.chunk(), &mut sink);
    assert!(sink.is_empty());
    assert_eq!(ran.reads, 0);
    assert_eq!(ran.writes, 0);
    assert_eq!(ran.polls, 1);
    assert!(ran.messages.is_empty());
    assert_eq!(input.at, 0);
}

#[test]
fn pump_stops_at_the_top_of_the_iteration_in_which_the_flag_falls() {
    let mut input = CursorInput::new("a\nb\nc\n");
    let mut sink = Vec::new();
    let mut polls = 0;
    let ran = run(
        &mut || {
            polls += 1;
            polls <= 2
        },
        &mut || input.chunk(),
        &mut sink,
    );
    assert_eq!(String::from_utf8(sink).unwrap(), "0.0.0.0 a\n0.0.0.0 b\n");
    assert_eq!(ran.reads, 2);
    assert_eq!(ran.polls, 3);
}

#[test]
fn stopped_pump_stays_stopped() {
    assert_eq!(
        hostsfile_adapter(PumpState::Stopped, PumpEvent::Flag(true)),
        (PumpState::Stopped, PumpAction::Stop)
    );
    assert_eq!(
        hostsfile_adapter(PumpState::Stopped, PumpEvent::Chunk(Ok(Some(b"a\n".to_vec())))),
        (PumpState::Stopped, PumpAction::Stop)
    );
    assert_eq!(
        hostsfile_adapter(PumpState::Stopped, PumpEvent::Written(Ok(()))),
        (PumpState::Stopped, PumpAction::Stop)
    );
}

#[test]
fn pump_stops_on_an_event_it_does_not_wait_for() {
    assert_eq!(
        hostsfile_adapter(PumpState::Polling, PumpEvent::Written(Ok(()))),
        (PumpState::Stopped, PumpAction::Stop)
    );
    assert_eq!(
        hostsfile_adapter(PumpState::Reading, PumpEvent::Flag(true)),
        (PumpState::Stopped, PumpAction::Stop)
    );
    assert_eq!(
        hostsfile_adapter(PumpState::Writing, PumpEvent::Chunk(Ok(None))),
        (PumpState::Stopped, PumpAction::Stop)
    );
}

#[test]
fn pump_steps_one_by_one() {
    assert_eq!(
        hostsfile_adapter(PumpState::Polling, PumpEvent::Flag(true)),
        (PumpState::Reading, PumpAction::Read)
    );
    assert_eq!(
        hostsfile_adapter(PumpState::Polling, PumpEvent::Flag(false)),
        (PumpState::Stopped, PumpAction::Stop)
    );
    assert_eq!(
        hostsfile_adapter(PumpState::Reading, PumpEvent::Chunk(Ok(Some(b"x.y \n".to_vec())))),
        (PumpState::Writing, PumpAction::Write("0.0.0.0 x.y\n".to_string()))
    );
    assert_eq!(
        hostsfile_adapter(PumpState::Reading, PumpEvent::Chunk(Ok(None))),
        (PumpState::Stopped, PumpAction::Stop)
    );
    assert_eq!(
        hostsfile_adapter(PumpState::Reading, PumpEvent::Chunk(Err("gone".to_string()))),
        (PumpState::Stopped, PumpAction::Abort(ChannelMessage::Error("gone".to_string())))
    );
    assert_eq!(
        hostsfile_adapter(PumpState::Writing, PumpEvent::Written(Ok(()))),
        (PumpState::Polling, PumpAction::Poll)
    );
    assert_eq!(
        hostsfile_adapter(PumpState::Writing, PumpEvent::Written(Err("full".to_string()))),
        (PumpState::Polling, PumpAction::Report(ChannelMessage::Error("full".to_string())))
    );
}

#[test]
fn invalid_chunk_in_the_middle_is_passed_over() {
    let mut sink = Vec::new();
    let ran = run_script(
        vec![
            Ok(Some(b"before.one\n".to_vec())),
            Ok(Some(vec![b'b', b'a', b'd', 0xff, b'\n'])),
            Ok(Some(b"after.one\n".to_vec())),
            Ok(Some(b"after.two\n".to_vec())),
        ],
        &mut sink,
    );
    assert_eq!(
        String::from_utf8(sink).unwrap(),
        "0.0.0.0 before.one\n0.0.0.0 after.one\n0.0.0.0 after.two\n"
    );
    assert_eq!(ran.reads, 5);
    assert_eq!(ran.writes, 3);
    assert!(ran.messages.is_empty());
}

#[test]
fn chunk_of_bytes_that_are_not_text_is_not_handed_on_as_text() {
    // A truncated two-byte sequence: the pump must ask for the flag, not write.
    assert_eq!(
        hostsfile_adapter(PumpState::Reading, PumpEvent::Chunk(Ok(Some(vec![b'a', 0xc3])))),
        (PumpState::Polling, PumpAction::Poll)
    );
    // The same two bytes completed are text.
    assert_eq!(
        hostsfile_adapter(PumpState::Reading, PumpEvent::Chunk(Ok(Some(vec![b'a', 0xc3, 0xa9])))),
        (PumpState::Writing, PumpAction::Write("0.0.0.0 a\u{e9}\n".to_string()))
    );
}

#[test]
fn input_failure_is_reported_once_and_ends_the_loop() {
    let mut sink = Vec::new();
    let ran = run_script(
        vec![
            Ok(Some(b"one\n".to_vec())),
            Err("Error reading line from file: broken".to_string()),
            Ok(Some(b"never\n".to_vec())),
        ],
        &mut sink,
    );
    assert_eq!(String::from_utf8(sink).unwrap(), "0.0.0.0 one\n");
    assert_eq!(
        ran.messages,
        vec![ChannelMessage::Error("Error reading line from file: broken".to_string())]
    );
    assert_eq!(ran.reads, 2);
}

#[test]
fn failed_write_is_reported_and_the_loop_goes_on() {
    let mut sink = Stubborn { failures: 1, taken: Vec::new() };
    let ran = run_script(
        vec![Ok(Some(b"lost\n".to_vec())), Ok(Some(b"kept\n".to_vec()))],
        &mut sink,
    );
    assert_eq!(String::from_utf8(sink.taken).unwrap(), "0.0.0.0 kept\n");
    assert_eq!(ran.messages, vec![ChannelMessage::Error("disk full".to_string())]);
    assert_eq!(ran.reads, 3);
    assert_eq!(ran.writes, 2);
}

#[test]
fn records_of_entries() {
    assert_eq!(hosts_records(""), "");
    assert_eq!(hosts_records("\n"), "0.0.0.0 \n");
    assert_eq!(hosts_records("domain.one"), "0.0.0.0 domain.one\n");
    assert_eq!(hosts_records("domain.one\n"), "0.0.0.0 domain.one\n");
    assert_eq!(hosts_records("a \nb"), "0.0.0.0 a\n0.0.0.0 b\n");
    assert_eq!(hosts_records("a\n\nb\n"), "0.0.0.0 a\n0.0.0.0 \n0.0.0.0 b\n");
    assert_eq!(hosts_records("a\r\nb\t \r\n"), "0.0.0.0 a\n0.0.0.0 b\n");
    assert_eq!(hosts_records("  lead.ing \n"), "0.0.0.0   lead.ing\n");
    assert_eq!(hosts_records("   \n"), "0.0.0.0 \n");
    assert_eq!(hosts_records("b\u{fc}cher.example\u{a0}\u{3000}\n"), "0.0.0.0 b\u{fc}cher.example\n");
}

#[test]
fn records_are_the_lines_trimmed_at_the_end() {
    let text = "one.example\ntwo.example  \n\u{2003}three.example\u{2003}\nfour";
    let mut expect = String::new();
    for line in text.split('\n') {
        expect.push_str("0.0.0.0 ");
        expect.push_str(line.trim_end());
        expect.push('\n');
    }
    assert_eq!(hosts_records(text), expect);
}

#[test]
fn records_do_not_depend_on_a_cut_between_lines() {
    let first = "a.example\nb.example \n";
    let rest = "c.example\nd";
    let mut parts = hosts_records(first);
    parts.push_str(&hosts_records(rest));
    assert_eq!(hosts_records("a.example\nb.example \nc.example\nd"), parts);
}

#[test]
fn whitespace_is_what_std_calls_whitespace() {
    for code in 0..=0x10ffffu32 {
        if let Some(c) = char::from_u32(code) {
            assert_eq!(whitespace(c), c.is_whitespace(), "U+{:04X}", code);
        }
    }
}

#[test]
fn chars_of_a_text() {
    assert_eq!(chars_of(""), Vec::<char>::new());
    assert_eq!(chars_of("a\u{e9}\u{1f600}\n"), vec!['a', '\u{e9}', '\u{1f600}', '\n']);
}

#[test]
fn decimal_numbers() {
    for (n, expect) in [(0u16, "0"), (7, "7"), (10, "10"), (200, "200"), (404, "404"), (65535, "65535")] {
        let mut out = String::from("n=");
        push_decimal(&mut out, n);
        assert_eq!(out, format!("n={}", expect));
    }
    for n in 0..=u16::MAX {
        let mut out = String::new();
        push_decimal(&mut out, n);
        assert_eq!(out, n.to_string());
    }
}
