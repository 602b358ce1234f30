use std::future::Future;
use std::io::Cursor;

use async_compression::tokio::bufread::{GzipDecoder, GzipEncoder};
use futures::StreamExt;
use hostsfeed::input::file::{
    Compression, FileEvent, FileInput, FileRequest, Handle, ReadRequest,
};
use hostsfeed::input::{InputError, Step, BUF_SIZE};
use hostsfeed::output::hostsfile::{hostsfile_adapter, PumpAction, PumpEvent, PumpState};
use tokio::io::{AsyncBufReadExt, AsyncReadExt, BufReader};
use tokio_tar::{Archive, Builder, Entries, Entry, Header};

type Raw = BufReader<Cursor<Vec<u8>>>;
type Packed = GzipDecoder<Raw>;

fn block_on<F: Future>(future: F) -> F::Output {
    tokio::runtime::Builder::new_current_thread()
        .build()
        .unwrap()
        .block_on(future)
}

async fn gzipped(content: &[u8]) -> Vec<u8> {
    let mut encoder = GzipEncoder::new(BufReader::new(Cursor::new(content.to_vec())));
    let mut packed = Vec::new();
    encoder.read_to_end(&mut packed).await.unwrap();
    packed
}

async fn archived(members: &[(&str, Vec<u8>)]) -> Vec<u8> {
    let mut builder = Builder::new(Vec::new());
    for (path, content) in members {
        let mut header = Header::new_gnu();
        header.set_size(content.len() as u64);
        header.set_mode(0o644);
        header.set_cksum();
        builder
            .append_data(&mut header, path, Cursor::new(content.clone()))
            .await
            .unwrap();
    }
    let plain = builder.into_inner().await.unwrap();
    gzipped(&plain).await
}

/// The live reader of an open input.
enum Live {
    File(Raw),
    Gz(Packed),
    TarGz(Entry<Archive<Packed>>),
}

/// A file input over bytes in memory, read by the readers that read files.
struct Source {
    /// The bytes of the file; `None` if it cannot be opened.
    stored: Option<Vec<u8>>,
    core: FileInput,
    file: Option<Raw>,
    entries: Option<Entries<Packed>>,
    entry: Option<Entry<Archive<Packed>>>,
    live: Option<Live>,
    opens: usize,
}

impl Source {
    fn new(stored: Option<Vec<u8>>, compression: Option<Compression>) -> Source {
        Source {
            stored,
            core: FileInput::new("memory/list".to_string(), compression),
            file: None,
            entries: None,
            entry: None,
            live: None,
            opens: 0,
        }
    }

    async fn perform(&mut self, request: FileRequest) -> FileEvent {
        match request {
            FileRequest::OpenFile => {
                self.opens += 1;
                self.live = None;
                self.entries = None;
                self.entry = None;
                self.file = self.stored.clone().map(|bytes| BufReader::new(Cursor::new(bytes)));
                FileEvent::Opened(self.file.is_some())
            }
            FileRequest::ListEntries => {
                let file = self.file.take().unwrap();
                let mut archive = Archive::new(GzipDecoder::new(file));
                match archive.entries() {
                    Ok(entries) => {
                        self.entries = Some(entries);
                        FileEvent::Listed(Ok(()))
                    }
                    Err(e) => FileEvent::Listed(Err(e.to_string())),
                }
            }
            FileRequest::NextEntry => match self.entries.as_mut().unwrap().next().await {
                Some(Ok(entry)) => {
                    let path = match entry.path() {
                        Ok(path) => path.to_str().map(String::from),
                        Err(_) => None,
                    };
                    self.entry = Some(entry);
                    FileEvent::Entry(path)
                }
                Some(Err(_)) => FileEvent::Entry(None),
                None => FileEvent::EndOfArchive,
            },
            FileRequest::Read(request) => {
                let read = match (request, self.live.as_mut().unwrap()) {
                    (ReadRequest::Line, Live::File(file)) => {
                        let mut line = String::new();
                        file.read_line(&mut line).await.map(|_| line.into_bytes())
                    }
                    (ReadRequest::UpTo(limit), Live::Gz(decoder)) => {
                        let mut buf = vec![0; limit];
                        decoder.read(&mut buf[..]).await.map(|n| {
                            buf.truncate(n);
                            buf
                        })
                    }
                    (ReadRequest::Fill(limit), Live::TarGz(entry)) => {
                        let mut buf = Vec::with_capacity(limit);
                        entry.take(limit as u64).read_to_end(&mut buf).await.map(|_| buf)
                    }
                    _ => panic!("a read that does not fit the reader"),
                };
                FileEvent::Read(read.map_err(|e| e.to_string()))
            }
        }
    }

    fn settle(&mut self) {
        match self.core.handle() {
            None => self.live = None,
            Some(_) if self.live.is_some() => {}
            Some(Handle::File) => self.live = self.file.take().map(Live::File),
            Some(Handle::Gz) => {
                self.live = self.file.take().map(|f| Live::Gz(GzipDecoder::new(f)))
            }
            Some(Handle::TarGz) => {
                self.live = self.entry.take().map(Live::TarGz);
                self.entries = None;
            }
        }
    }

    async fn chunk(&mut self) -> Result<Option<Vec<u8>>, InputError> {
        let mut step = self.core.chunk(FileEvent::Call);
        loop {
            self.settle();
            match step {
                Step::Perform(request) => {
                    let event = self.perform(request).await;
                    step = self.core.chunk(event);
                }
                Step::Done(result) => return result,
            }
        }
    }

    async fn reset(&mut self) -> Result<(), InputError> {
        let mut step = self.core.reset(FileEvent::Call);
        loop {
            self.settle();
            match step {
                Step::Perform(request) => {
                    let event = self.perform(request).await;
                    step = self.core.reset(event);
                }
                Step::Done(result) => return result,
            }
        }
    }

    async fn drain(&mut self) -> Vec<Vec<u8>> {
        let mut chunks = Vec::new();
        while let Some(bytes) = self.chunk().await.unwrap() {
            chunks.push(bytes);
        }
        chunks
    }
}

/// Bytes that do not compress to nothing.
fn noise(n: usize) -> Vec<u8> {
    let mut x: u32 = 0x2545_f491;
    (0..n)
        .map(|_| {
            x ^= x << 13;
            x ^= x >> 17;
            x ^= x << 5;
            (x >> 24) as u8
        })
        .collect()
}

fn hosts(n: usize) -> Vec<u8> {
    let mut content = Vec::new();
    for i in 0..n {
        content.extend_from_slice(format!("host-{}.example\n", i).as_bytes());
    }
    content
}

#[test]
fn buffered_reader_yields_the_lines_of_a_plain_file() {
    block_on(async {
        let content = hosts(500);
        let mut source = Source::new(Some(content.clone()), None);
        let chunks = source.drain().await;
        assert_eq!(chunks.len(), 500);
        assert_eq!(chunks[0], b"host-0.example\n");
        assert_eq!(chunks[499], b"host-499.example\n");
        assert_eq!(chunks.concat(), content);
        assert_eq!(source.chunk().await, Ok(None));
        assert_eq!(source.opens, 1);
    });
}

#[test]
fn buffered_reader_refuses_a_line_that_is_not_text() {
    block_on(async {
        let mut source = Source::new(Some(b"good\nb\xffd\nnever\n".to_vec()), None);
        assert_eq!(source.chunk().await, Ok(Some(b"good\n".to_vec())));
        let e = source.chunk().await.unwrap_err();
        assert!(!e.is_open_failure());
        match &e {
            InputError::ReadLine { .. } => {}
            other => panic!("{:?}", other),
        }
        assert!(e.message().starts_with("Error reading line from file: "));
    });
}

#[test]
fn gzip_decoder_yields_what_was_compressed() {
    block_on(async {
        for content in [noise(10_000), hosts(2_000), b"one\n".to_vec(), Vec::new()] {
            let packed = gzipped(&content).await;
            let mut source = Source::new(Some(packed), Some(Compression::Gz));
            let chunks = source.drain().await;
            assert!(chunks.iter().all(|c| !c.is_empty() && c.len() <= BUF_SIZE));
            assert_eq!(chunks.concat(), content);
            assert_eq!(source.core.handle(), Some(Handle::Gz));
        }
    });
}

#[test]
fn gzip_decoder_fails_on_a_file_that_is_not_gzip() {
    block_on(async {
        let mut source = Source::new(Some(hosts(10)), Some(Compression::Gz));
        let e = source.chunk().await.unwrap_err();
        match &e {
            InputError::ReadChunk { .. } => {}
            other => panic!("{:?}", other),
        }
        assert!(e.message().starts_with("Error reading chunk from file: "));
    });
}

#[test]
fn tar_reader_yields_the_wanted_member() {
    block_on(async {
        let wanted = hosts(400);
        let packed = archived(&[
            ("README.md", b"lists of hosts".to_vec()),
            ("lists/other.txt", noise(3_000)),
            ("list.txt", wanted.clone()),
            ("lists/last.txt", b"last\n".to_vec()),
        ])
        .await;
        let mut source =
            Source::new(Some(packed), Some(Compression::TarGz("list.txt".to_string())));
        let chunks = source.drain().await;
        assert_eq!(source.core.handle(), Some(Handle::TarGz));
        assert_eq!(chunks.concat(), wanted);
        assert!(chunks[..chunks.len() - 1].iter().all(|c| c.len() == BUF_SIZE));
        assert!(chunks[chunks.len() - 1].len() <= BUF_SIZE);
    });
}

#[test]
fn tar_reader_finds_a_member_in_a_directory() {
    block_on(async {
        let packed = archived(&[
            ("list.txt", b"top\n".to_vec()),
            ("lists/list.txt", b"inner\n".to_vec()),
        ])
        .await;
        let mut source =
            Source::new(Some(packed.clone()), Some(Compression::TarGz("lists/list.txt".to_string())));
        assert_eq!(source.drain().await.concat(), b"inner\n");
        let mut source =
            Source::new(Some(packed), Some(Compression::TarGz("lists//list.txt".to_string())));
        assert_eq!(source.drain().await.concat(), b"inner\n");
    });
}

#[test]
fn tar_reader_without_the_wanted_member_is_an_open_failure() {
    block_on(async {
        let packed = archived(&[
            ("README.md", b"lists of hosts".to_vec()),
            ("lists/list.txt", b"inner\n".to_vec()),
        ])
        .await;
        let mut source =
            Source::new(Some(packed), Some(Compression::TarGz("list.txt".to_string())));
        let first = source.chunk().await;
        assert_eq!(first, Err(InputError::MemberNotFound));
        assert!(first.unwrap_err().is_open_failure());
        assert_eq!(source.core.handle(), None);
        assert!(source.live.is_none());
    });
}

#[test]
fn file_that_is_missing_is_an_open_failure() {
    block_on(async {
        let mut source = Source::new(None, Some(Compression::Gz));
        let e = source.chunk().await.unwrap_err();
        assert_eq!(e, InputError::OpenFile { path: "memory/list".to_string() });
        assert_eq!(e.message(), "unable to open file list");
        assert_eq!(source.reset().await, Err(e));
    });
}

#[test]
fn reset_replays_what_the_readers_yield() {
    block_on(async {
        let content = hosts(300);
        let plain = content.clone();
        let gz = gzipped(&content).await;
        let tar = archived(&[("a", noise(100)), ("list.txt", content.clone())]).await;
        for (stored, compression) in [
            (plain, None),
            (gz, Some(Compression::Gz)),
            (tar, Some(Compression::TarGz("list.txt".to_string()))),
        ] {
            let mut source = Source::new(Some(stored), compression);
            let first = source.drain().await;
            assert_eq!(first.concat(), content);
            assert_eq!(source.reset().await, Ok(()));
            assert_eq!(source.drain().await, first);
            // From the middle of the stream as well.
            assert_eq!(source.reset().await, Ok(()));
            assert_eq!(source.chunk().await, Ok(Some(first[0].clone())));
            assert_eq!(source.chunk().await, Ok(Some(first[1].clone())));
            assert_eq!(source.reset().await, Ok(()));
            assert_eq!(source.drain().await, first);
            assert_eq!(source.opens, 4);
        }
    });
}

#[test]
fn pump_republishes_a_plain_file_read_by_its_reader() {
    block_on(async {
        let mut source = Source::new(Some(b"domain.one\ndomain.two\n".to_vec()), None);
        let mut sink: Vec<u8> = Vec::new();
        let mut state = PumpState::Polling;
        let mut action = PumpAction::Poll;
        loop {
            let event = match action {
                PumpAction::Poll => PumpEvent::Flag(true),
                PumpAction::Read => {
                    PumpEvent::Chunk(source.chunk().await.map_err(|e| e.message()))
                }
                PumpAction::Write(text) => {
                    sink.extend_from_slice(text.as_bytes());
                    PumpEvent::Written(Ok(()))
                }
                PumpAction::Report(message) | PumpAction::Abort(message) => {
                    panic!("{:?}", message)
                }
                PumpAction::Stop => break,
            };
            (state, action) = hostsfile_adapter(state, event);
        }
        assert_eq!(state, PumpState::Stopped);
        assert_eq!(
            String::from_utf8(sink).unwrap(),
            "0.0.0.0 domain.one\n0.0.0.0 domain.two\n"
        );
    });
}
