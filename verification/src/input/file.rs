//! Input from a file: plain, gzip-compressed, or one member of a
//! gzip-compressed tar archive.

use vstd::prelude::*;
use vstd::string::*;
use crate::input::{InputError, InputErrorView, Step, StepView, BUF_SIZE};

verus! {

/// How the file is packed.
#[derive(Debug, PartialEq, Eq)]
pub enum Compression {
    /// The file is one gzip stream.
    Gz,
    /// The file is a gzip-compressed tar archive; the list is the member with
    /// this path.
    TarGz(String),
}

/// The mathematical value of a [`Compression`].
pub enum CompressionView {
    Gz,
    TarGz(Seq<char>),
}

impl View for Compression {
    type V = CompressionView;

    open spec fn view(&self) -> CompressionView {
        match *self {
            Compression::Gz => CompressionView::Gz,
            Compression::TarGz(member) => CompressionView::TarGz(member@),
        }
    }
}

impl Clone for Compression {
    fn clone(&self) -> (r: Self)
        ensures
            r@ == self@,
    {
        match self {
            Compression::Gz => Compression::Gz,
            Compression::TarGz(member) => Compression::TarGz(member.clone()),
        }
    }
}

/// The view of an optional compression.
pub open spec fn packing(compression: Option<Compression>) -> Option<CompressionView> {
    match compression {
        Some(c) => Some(c@),
        None => None,
    }
}

/// The reader that an open input is bound to. The reader itself is kept by
/// whoever performs the requests.
#[derive(Debug, Clone, Copy, PartialEq, Eq)]
pub enum Handle {
    /// A buffered reader of the file.
    File,
    /// A gzip decoder over the file.
    Gz,
    /// The reader of the wanted member of the archive.
    TarGz,
}

/// One read from the reader that the input is bound to.
#[derive(Debug, Clone, Copy, PartialEq, Eq)]
pub enum ReadRequest {
    /// One line, its newline included; less at the end of the file only.
    Line,
    /// One read of at most this many bytes.
    UpTo(usize),
    /// As many bytes as are left, but at most this many.
    Fill(usize),
}

/// What a [`FileInput`] asks its caller to do.
#[derive(Debug, Clone, Copy, PartialEq, Eq)]
pub enum FileRequest {
    /// Open the file for reading, from its start.
    OpenFile,
    /// Put a gzip decoder and a tar reader over the file and begin to list
    /// the archive's entries.
    ListEntries,
    /// Advance to the next entry of the archive.
    NextEntry,
    /// Read from the reader that the input is bound to.
    Read(ReadRequest),
}

/// What has happened since the last step.
#[derive(Debug, PartialEq, Eq)]
pub enum FileEvent {
    /// Nothing yet: the operation has just been called.
    Call,
    /// The file was opened (`true`) or could not be opened (`false`).
    Opened(bool),
    /// The listing of the archive has begun, or has failed for this reason.
    Listed(Result<(), String>),
    /// The archive has a next entry. Its path is given if the entry could be
    /// read and its path is text.
    Entry(Option<String>),
    /// The archive has no further entry.
    EndOfArchive,
    /// The read has delivered these bytes (none at the end of the stream), or
    /// has failed for this reason.
    Read(Result<Vec<u8>, String>),
}

/// The mathematical value of a [`FileEvent`].
pub enum FileEventView {
    Call,
    Opened(bool),
    Listed(Result<(), Seq<char>>),
    Entry(Option<Seq<char>>),
    EndOfArchive,
    Read(Result<Seq<u8>, Seq<char>>),
}

impl View for FileEvent {
    type V = FileEventView;

    open spec fn view(&self) -> FileEventView {
        match *self {
            FileEvent::Call => FileEventView::Call,
            FileEvent::Opened(ok) => FileEventView::Opened(ok),
            FileEvent::Listed(Ok(())) => FileEventView::Listed(Ok(())),
            FileEvent::Listed(Err(cause)) => FileEventView::Listed(Err(cause@)),
            FileEvent::Entry(Some(path)) => FileEventView::Entry(Some(path@)),
            FileEvent::Entry(None) => FileEventView::Entry(None),
            FileEvent::EndOfArchive => FileEventView::EndOfArchive,
            FileEvent::Read(Ok(bytes)) => FileEventView::Read(Ok(bytes@)),
            FileEvent::Read(Err(cause)) => FileEventView::Read(Err(cause@)),
        }
    }
}

/// Whether the two texts spell the same path, as `std::path::Path` compares
/// paths: component by component.
pub uninterp spec fn same_path(a: Seq<char>, b: Seq<char>) -> bool;

/// `==` on `std::path::Path`, for the paths that `a` and `b` spell. The
/// answer depends on the two texts alone, and equal texts spell equal paths.
#[verifier::external_body]
pub(crate) fn paths_equal(a: &str, b: &str) -> (r: bool)
    ensures
        r == same_path(a@, b@),
        a@ == b@ ==> r,
{
    std::path::Path::new(a) == std::path::Path::new(b)
}

impl ReadRequest {
    /// The most bytes that the read may deliver, if it has a limit.
    pub open spec fn limit(self) -> Option<nat> {
        match self {
            ReadRequest::Line => None,
            ReadRequest::UpTo(limit) => Some(limit as nat),
            ReadRequest::Fill(limit) => Some(limit as nat),
        }
    }
}

/// The reader that fits the packing.
pub open spec fn handle_for(compression: Option<CompressionView>) -> Handle {
    match compression {
        None => Handle::File,
        Some(CompressionView::Gz) => Handle::Gz,
        Some(CompressionView::TarGz(_)) => Handle::TarGz,
    }
}

/// How a chunk is read from each reader: a plain file gives one line at a
/// time, the other two give blocks of at most [`BUF_SIZE`] bytes.
pub open spec fn read_request(handle: Handle) -> ReadRequest {
    match handle {
        Handle::File => ReadRequest::Line,
        Handle::Gz => ReadRequest::UpTo(BUF_SIZE),
        Handle::TarGz => ReadRequest::Fill(BUF_SIZE),
    }
}

/// Reads data from a file.
///
/// The input is unopened (it has no handle) until an open succeeds, and open
/// until the next reset.
#[derive(Debug, PartialEq, Eq)]
pub struct FileInput {
    compression: Option<Compression>,
    path: String,
    handle: Option<Handle>,
}

/// The mathematical value of a [`FileInput`].
pub struct FileInputView {
    pub compression: Option<CompressionView>,
    pub path: Seq<char>,
    pub handle: Option<Handle>,
}

impl View for FileInput {
    type V = FileInputView;

    closed spec fn view(&self) -> FileInputView {
        FileInputView {
            compression: packing(self.compression),
            path: self.path@,
            handle: self.handle,
        }
    }
}

impl FileInputView {
    /// An open input is bound to the reader that fits its packing.
    pub open spec fn wf(self) -> bool {
        self.handle matches Some(h) ==> h == handle_for(self.compression)
    }

    /// The input before its first open.
    pub open spec fn unopened(path: Seq<char>, compression: Option<CompressionView>) -> Self {
        FileInputView { compression, path, handle: None }
    }

    /// Whether an entry with this path is the wanted member of the archive.
    pub open spec fn wants(self, entry: Option<Seq<char>>) -> bool {
        match (self.compression, entry) {
            (Some(CompressionView::TarGz(member)), Some(path)) => same_path(path, member),
            _ => false,
        }
    }

    /// What the caller has to do next for a chunk when no event is pending:
    /// read from the bound reader, or open the file first.
    pub open spec fn next_request(self) -> FileRequest {
        match self.handle {
            Some(h) => FileRequest::Read(read_request(h)),
            None => FileRequest::OpenFile,
        }
    }

    /// What an entry of the archive means for opening, given whether it is the
    /// wanted member: the input is bound to the wanted member, and any other
    /// entry is passed.
    pub open spec fn entry_step(self, wanted: bool) -> (Self, StepView<FileRequest, ()>) {
        if wanted {
            (FileInputView { handle: Some(Handle::TarGz), ..self }, StepView::Done(Ok(())))
        } else {
            (self, StepView::Perform(FileRequest::NextEntry))
        }
    }

    /// One step of opening.
    ///
    /// The file is opened first. A plain or gzip file is then bound at once.
    /// An archive is listed and its entries are passed one by one, in the
    /// archive's order, until one has the wanted path; the input is bound to
    /// that entry. Entries that cannot be read are passed over. If the archive
    /// ends first, opening fails. The input stays unopened unless opening
    /// succeeds. An event that does not belong to opening starts it over.
    pub open spec fn open_step(self, event: FileEventView) -> (Self, StepView<FileRequest, ()>) {
        match event {
            FileEventView::Opened(false) => (
                self,
                StepView::Done(Err(InputErrorView::OpenFile { path: self.path })),
            ),
            FileEventView::Opened(true) => match self.compression {
                Some(CompressionView::TarGz(_)) => (self, StepView::Perform(FileRequest::ListEntries)),
                _ => (
                    FileInputView { handle: Some(handle_for(self.compression)), ..self },
                    StepView::Done(Ok(())),
                ),
            },
            FileEventView::Listed(Ok(())) => (self, StepView::Perform(FileRequest::NextEntry)),
            FileEventView::Listed(Err(cause)) => (
                self,
                StepView::Done(Err(InputErrorView::Archive { cause })),
            ),
            FileEventView::Entry(entry) => self.entry_step(self.wants(entry)),
            FileEventView::EndOfArchive => (
                self,
                StepView::Done(Err(InputErrorView::MemberNotFound)),
            ),
            FileEventView::Call => (self, StepView::Perform(FileRequest::OpenFile)),
            FileEventView::Read(_) => (self, StepView::Perform(FileRequest::OpenFile)),
        }
    }

    /// Whether a read of this many bytes is more than the bound reader was
    /// asked for.
    pub open spec fn overlong(self, len: nat) -> bool {
        match self.handle {
            Some(h) => match read_request(h).limit() {
                Some(limit) => len > limit,
                None => false,
            },
            None => false,
        }
    }

    /// One step of `chunk`.
    ///
    /// An unopened input is opened first; if that fails, so does the call, and
    /// the input stays unopened. Then one read is made from the bound reader.
    /// The bytes that it delivers are the chunk; a read that delivers nothing
    /// is the end of the stream. A read that delivers more than it was asked
    /// for is a failed read, so that no chunk of a decompressed stream or of
    /// an archive entry is longer than [`BUF_SIZE`].
    pub open spec fn chunk_step(self, event: FileEventView) -> (
        Self,
        StepView<FileRequest, Option<Seq<u8>>>,
    ) {
        match event {
            FileEventView::Call => (self, StepView::Perform(self.next_request())),
            FileEventView::Read(Ok(bytes)) => (
                self,
                StepView::Done(
                    if self.overlong(bytes.len()) {
                        Err(InputErrorView::ReadChunk { cause: "read overran the buffer"@ })
                    } else if bytes.len() > 0 {
                        Ok(Some(bytes))
                    } else {
                        Ok(None)
                    },
                ),
            ),
            FileEventView::Read(Err(cause)) => (
                self,
                StepView::Done(
                    Err(
                        if self.handle == Some(Handle::File) {
                            InputErrorView::ReadLine { cause }
                        } else {
                            InputErrorView::ReadChunk { cause }
                        },
                    ),
                ),
            ),
            _ => {
                let (next, step) = self.open_step(event);
                match step {
                    StepView::Perform(request) => (next, StepView::Perform(request)),
                    StepView::Done(Err(e)) => (next, StepView::Done(Err(e))),
                    StepView::Done(Ok(())) => (next, StepView::Perform(next.next_request())),
                }
            },
        }
    }

    /// One step of `reset`.
    ///
    /// The handle, if there is one, is given up, and the file is opened again
    /// from its start, as in [`open_step`](Self::open_step).
    pub open spec fn reset_step(self, event: FileEventView) -> (Self, StepView<FileRequest, ()>) {
        match event {
            FileEventView::Call => (
                FileInputView { handle: None, ..self },
                StepView::Perform(FileRequest::OpenFile),
            ),
            FileEventView::Read(_) => (
                FileInputView { handle: None, ..self },
                StepView::Perform(FileRequest::OpenFile),
            ),
            _ => self.open_step(event),
        }
    }
}

impl FileInput {
    #[verifier::type_invariant]
    spec fn bound_as_packed(self) -> bool {
        self@.wf()
    }

    /// An unopened input for the file at `path`.
    pub fn new(path: String, compression: Option<Compression>) -> (r: Self)
        ensures
            r@ == FileInputView::unopened(path@, packing(compression)),
            r@.wf(),
    {
        FileInput { compression, path, handle: None }
    }

    /// The path of the file.
    pub fn path(&self) -> (r: &String)
        ensures
            r@ == self@.path,
    {
        &self.path
    }

    /// How the file is packed.
    pub fn compression(&self) -> (r: &Option<Compression>)
        ensures
            packing(*r) == self@.compression,
    {
        &self.compression
    }

    /// The reader that the input is bound to, if it is open.
    pub fn handle(&self) -> (r: Option<Handle>)
        ensures
            r == self@.handle,
            self@.wf(),
    {
        proof {
            use_type_invariant(self);
        }
        self.handle
    }

    /// The reader that fits the packing of this input.
    fn fitting_handle(&self) -> (h: Handle)
        ensures
            h == handle_for(self@.compression),
    {
        match &self.compression {
            None => Handle::File,
            Some(Compression::Gz) => Handle::Gz,
            Some(Compression::TarGz(_)) => Handle::TarGz,
        }
    }

    /// Whether an entry with this path is the wanted member.
    fn wants(&self, entry: &Option<String>) -> (r: bool)
        ensures
            r == self@.wants(
                match *entry {
                    Some(path) => Some(path@),
                    None => None,
                },
            ),
    {
        match (&self.compression, entry) {
            (Some(Compression::TarGz(member)), Some(path)) => paths_equal(
                path.as_str(),
                member.as_str(),
            ),
            _ => false,
        }
    }

    /// What has to be done next for a chunk when no event is pending.
    fn next_request(&self) -> (r: FileRequest)
        ensures
            r == self@.next_request(),
    {
        match self.handle {
            Some(Handle::File) => FileRequest::Read(ReadRequest::Line),
            Some(Handle::Gz) => FileRequest::Read(ReadRequest::UpTo(BUF_SIZE)),
            Some(Handle::TarGz) => FileRequest::Read(ReadRequest::Fill(BUF_SIZE)),
            None => FileRequest::OpenFile,
        }
    }

    /// The step for an entry of the archive, given whether it is the wanted
    /// member: see [`FileInputView::entry_step`]. Only an input that reads an
    /// archive is bound to an entry.
    pub fn take_entry(&mut self, wanted: bool) -> (step: Step<FileRequest, ()>)
        ensures
            (final(self)@, step@) == old(self)@.entry_step(
                wanted && old(self)@.compression matches Some(CompressionView::TarGz(_)),
            ),
    {
        proof {
            use_type_invariant(&*self);
        }
        let archive = match &self.compression {
            Some(Compression::TarGz(_)) => true,
            _ => false,
        };
        if wanted && archive {
            self.handle = Some(Handle::TarGz);
            Step::Done(Ok(()))
        } else {
            Step::Perform(FileRequest::NextEntry)
        }
    }

    /// One step of opening the input: see [`FileInputView::open_step`].
    pub fn init_handle(&mut self, event: FileEvent) -> (step: Step<FileRequest, ()>)
        ensures
            (final(self)@, step@) == old(self)@.open_step(event@),
            old(self)@.wf() && final(self)@.wf(),
    {
        proof {
            use_type_invariant(&*self);
        }
        match event {
            FileEvent::Opened(false) => Step::Done(
                Err(InputError::OpenFile { path: self.path.clone() }),
            ),
            FileEvent::Opened(true) => {
                let h = self.fitting_handle();
                match h {
                    Handle::TarGz => Step::Perform(FileRequest::ListEntries),
                    _ => {
                        self.handle = Some(h);
                        Step::Done(Ok(()))
                    },
                }
            },
            FileEvent::Listed(Ok(())) => Step::Perform(FileRequest::NextEntry),
            FileEvent::Listed(Err(cause)) => Step::Done(Err(InputError::Archive { cause })),
            FileEvent::Entry(entry) => {
                let wanted = self.wants(&entry);
                self.take_entry(wanted)
            },
            FileEvent::EndOfArchive => Step::Done(Err(InputError::MemberNotFound)),
            FileEvent::Call => Step::Perform(FileRequest::OpenFile),
            FileEvent::Read(_) => Step::Perform(FileRequest::OpenFile),
        }
    }

    /// One step of reading the next chunk: see [`FileInputView::chunk_step`].
    pub fn chunk(&mut self, event: FileEvent) -> (step: Step<FileRequest, Option<Vec<u8>>>)
        ensures
            (final(self)@, step@) == old(self)@.chunk_step(event@),
            old(self)@.wf() && final(self)@.wf(),
            step matches Step::Done(Ok(Some(bytes))) ==> bytes@.len() > 0 && (old(self)@.handle
                is Some && old(self)@.handle != Some(Handle::File) ==> bytes@.len() <= BUF_SIZE),
    {
        proof {
            use_type_invariant(&*self);
        }
        match event {
            FileEvent::Call => Step::Perform(self.next_request()),
            FileEvent::Read(Ok(bytes)) => {
                let overlong = match self.handle {
                    Some(Handle::Gz) => bytes.len() > BUF_SIZE,
                    Some(Handle::TarGz) => bytes.len() > BUF_SIZE,
                    _ => false,
                };
                if overlong {
                    Step::Done(
                        Err(
                            InputError::ReadChunk {
                                cause: String::from_str("read overran the buffer"),
                            },
                        ),
                    )
                } else if bytes.len() > 0 {
                    Step::Done(Ok(Some(bytes)))
                } else {
                    Step::Done(Ok(None))
                }
            },
            FileEvent::Read(Err(cause)) => {
                match self.handle {
                    Some(Handle::File) => Step::Done(Err(InputError::ReadLine { cause })),
                    _ => Step::Done(Err(InputError::ReadChunk { cause })),
                }
            },
            event => {
                match self.init_handle(event) {
                    Step::Perform(request) => Step::Perform(request),
                    Step::Done(Err(e)) => Step::Done(Err(e)),
                    Step::Done(Ok(())) => Step::Perform(self.next_request()),
                }
            },
        }
    }

    /// One step of starting over: see [`FileInputView::reset_step`].
    pub fn reset(&mut self, event: FileEvent) -> (step: Step<FileRequest, ()>)
        ensures
            (final(self)@, step@) == old(self)@.reset_step(event@),
            old(self)@.wf() && final(self)@.wf(),
    {
        proof {
            use_type_invariant(&*self);
        }
        match event {
            FileEvent::Call => {
                self.handle = None;
                Step::Perform(FileRequest::OpenFile)
            },
            FileEvent::Read(_) => {
                self.handle = None;
                Step::Perform(FileRequest::OpenFile)
            },
            event => self.init_handle(event),
        }
    }
}

} // verus!
