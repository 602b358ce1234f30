//! What the two kinds of input have in common: the failures they report and
//! the shape of a step.

use vstd::prelude::*;
use vstd::string::*;
use crate::text::{decimal, push_decimal};

pub mod file;
pub mod replay;
pub mod transfer;
pub mod url;

verus! {

/// Size of the transfer buffer of every read path that is not line oriented.
pub const BUF_SIZE: usize = 1024;

/// Why an input could not deliver.
#[derive(Debug, PartialEq, Eq)]
pub enum InputError {
    /// The file at `path` could not be opened.
    OpenFile { path: String },
    /// The entries of the archive could not be listed.
    Archive { cause: String },
    /// The archive ended before an entry with the wanted path was found.
    MemberNotFound,
    /// Reading a line from the file failed.
    ReadLine { cause: String },
    /// Reading a block from a decompressed stream or an archive entry failed.
    ReadChunk { cause: String },
    /// The request could not be issued or no response arrived.
    Request { cause: String },
    /// The response's status was not 200.
    Status { code: u16, url: String },
    /// The response announced a body of length zero.
    EmptyBody { url: String },
    /// The transfer of the body failed.
    Transfer { cause: String },
}

/// The mathematical value of an [`InputError`].
pub enum InputErrorView {
    OpenFile { path: Seq<char> },
    Archive { cause: Seq<char> },
    MemberNotFound,
    ReadLine { cause: Seq<char> },
    ReadChunk { cause: Seq<char> },
    Request { cause: Seq<char> },
    Status { code: u16, url: Seq<char> },
    EmptyBody { url: Seq<char> },
    Transfer { cause: Seq<char> },
}

impl View for InputError {
    type V = InputErrorView;

    open spec fn view(&self) -> InputErrorView {
        match *self {
            InputError::OpenFile { path } => InputErrorView::OpenFile { path: path@ },
            InputError::Archive { cause } => InputErrorView::Archive { cause: cause@ },
            InputError::MemberNotFound => InputErrorView::MemberNotFound,
            InputError::ReadLine { cause } => InputErrorView::ReadLine { cause: cause@ },
            InputError::ReadChunk { cause } => InputErrorView::ReadChunk { cause: cause@ },
            InputError::Request { cause } => InputErrorView::Request { cause: cause@ },
            InputError::Status { code, url } => InputErrorView::Status { code, url: url@ },
            InputError::EmptyBody { url } => InputErrorView::EmptyBody { url: url@ },
            InputError::Transfer { cause } => InputErrorView::Transfer { cause: cause@ },
        }
    }
}

/// The last component of the path `path`, as `std::path::Path::file_name`
/// gives it; `None` where the path has no such component.
pub uninterp spec fn file_name_of(path: Seq<char>) -> Option<Seq<char>>;

/// `std::path::Path::file_name` on the path that `path` spells: the result is
/// the last component of that path, or `None` if it has none (it ends in `..`
/// or is a root). It depends on the text of the path alone.
#[verifier::external_body]
pub(crate) fn file_name(path: &str) -> (r: Option<String>)
    ensures
        match r {
            Some(name) => file_name_of(path@) == Some(name@),
            None => file_name_of(path@) is None,
        },
{
    match std::path::Path::new(path).file_name() {
        Some(name) => Some(name.to_string_lossy().into_owned()),
        None => None,
    }
}

/// The status code `code` as `reqwest::StatusCode` displays it: the number
/// and the reason phrase that belongs to it.
pub uninterp spec fn status_display(code: u16) -> Seq<char>;

/// `reqwest::StatusCode::from_u16` and the `Display` of the status code that
/// it gives: a number from 100 to 999 is a status code and is displayed as
/// the number, a space and its canonical reason phrase; any other number is
/// no status code. The text depends on the number alone.
#[verifier::external_body]
pub(crate) fn status_line(code: u16) -> (r: Option<String>)
    ensures
        r is Some <==> 100 <= code <= 999,
        r matches Some(line) ==> line@ == status_display(code),
{
    match reqwest::StatusCode::from_u16(code) {
        Ok(status) => Some(status.to_string()),
        Err(_) => None,
    }
}

/// The description of a file that could not be opened, given the last
/// component of its path: the file is named, not the directories above it.
pub open spec fn open_failure_text(name: Option<Seq<char>>) -> Seq<char> {
    "unable to open file "@ + match name {
        Some(name) => name,
        None => Seq::empty(),
    }
}

/// The description of a response with an unusable status, given how the
/// status code is displayed: a number that is no status code is written bare.
pub open spec fn status_failure_text(line: Option<Seq<char>>, code: u16, url: Seq<char>) -> Seq<
    char,
> {
    "status code "@ + match line {
        Some(line) => line,
        None => decimal(code as nat),
    } + ": "@ + url
}

/// How a status code is displayed, if the number is a status code.
pub open spec fn status_line_of(code: u16) -> Option<Seq<char>> {
    if 100 <= code <= 999 {
        Some(status_display(code))
    } else {
        None
    }
}

/// The description of a file that could not be opened: see
/// [`open_failure_text`].
pub fn open_failure_message(name: Option<String>) -> (r: String)
    ensures
        r@ == open_failure_text(
            match name {
                Some(name) => Some(name@),
                None => None,
            },
        ),
{
    let mut s = String::from_str("unable to open file ");
    match name {
        Some(name) => {
            s.append(name.as_str());
        },
        None => {
        },
    }
    s
}

/// The description of a response with an unusable status: see
/// [`status_failure_text`].
pub fn status_failure_message(line: Option<String>, code: u16, url: &str) -> (r: String)
    ensures
        r@ == status_failure_text(
            match line {
                Some(line) => Some(line@),
                None => None,
            },
            code,
            url@,
        ),
{
    let mut s = String::from_str("status code ");
    match line {
        Some(line) => {
            s.append(line.as_str());
        },
        None => {
            push_decimal(&mut s, code);
        },
    }
    s.append(": ");
    s.append(url);
    s
}

impl InputErrorView {
    /// Failures of opening the source, as opposed to failures in the middle of
    /// the stream.
    pub open spec fn is_open_failure(self) -> bool {
        match self {
            InputErrorView::OpenFile { .. } => true,
            InputErrorView::Archive { .. } => true,
            InputErrorView::MemberNotFound => true,
            InputErrorView::Request { .. } => true,
            InputErrorView::Status { .. } => true,
            InputErrorView::EmptyBody { .. } => true,
            InputErrorView::ReadLine { .. } => false,
            InputErrorView::ReadChunk { .. } => false,
            InputErrorView::Transfer { .. } => false,
        }
    }

    /// The description of the failure.
    pub open spec fn text(self) -> Seq<char> {
        match self {
            InputErrorView::OpenFile { path } => open_failure_text(file_name_of(path)),
            InputErrorView::Archive { cause } => cause,
            InputErrorView::MemberNotFound => "specified list file not found in archive"@,
            InputErrorView::ReadLine { cause } => "Error reading line from file: "@ + cause,
            InputErrorView::ReadChunk { cause } => "Error reading chunk from file: "@ + cause,
            InputErrorView::Request { cause } => cause,
            InputErrorView::Status { code, url } => status_failure_text(
                status_line_of(code),
                code,
                url,
            ),
            InputErrorView::EmptyBody { url } => "empty response body: "@ + url,
            InputErrorView::Transfer { cause } => cause,
        }
    }
}

impl InputError {
    /// Whether the source could not be opened (as opposed to a failure in the
    /// middle of the stream).
    pub fn is_open_failure(&self) -> (r: bool)
        ensures
            r == self@.is_open_failure(),
    {
        match self {
            InputError::OpenFile { .. } => true,
            InputError::Archive { .. } => true,
            InputError::MemberNotFound => true,
            InputError::Request { .. } => true,
            InputError::Status { .. } => true,
            InputError::EmptyBody { .. } => true,
            InputError::ReadLine { .. } => false,
            InputError::ReadChunk { .. } => false,
            InputError::Transfer { .. } => false,
        }
    }

    /// The description of the failure, as it is reported.
    pub fn message(&self) -> (r: String)
        ensures
            r@ == self@.text(),
    {
        match self {
            InputError::OpenFile { path } => open_failure_message(file_name(path.as_str())),
            InputError::Archive { cause } => cause.clone(),
            InputError::MemberNotFound => String::from_str(
                "specified list file not found in archive",
            ),
            InputError::ReadLine { cause } => {
                let mut s = String::from_str("Error reading line from file: ");
                s.append(cause.as_str());
                s
            },
            InputError::ReadChunk { cause } => {
                let mut s = String::from_str("Error reading chunk from file: ");
                s.append(cause.as_str());
                s
            },
            InputError::Request { cause } => cause.clone(),
            InputError::Status { code, url } => status_failure_message(
                status_line(*code),
                *code,
                url.as_str(),
            ),
            InputError::EmptyBody { url } => {
                let mut s = String::from_str("empty response body: ");
                s.append(url.as_str());
                s
            },
            InputError::Transfer { cause } => cause.clone(),
        }
    }
}

/// What a step of an operation answers: a request that the caller has to
/// perform before the operation can go on, or the operation's result.
#[derive(Debug, PartialEq, Eq)]
pub enum Step<R, T> {
    /// The caller performs the request and comes back with its outcome.
    Perform(R),
    /// The operation is over.
    Done(Result<T, InputError>),
}

/// The mathematical value of a [`Step`].
pub enum StepView<R, T> {
    Perform(R),
    Done(Result<T, InputErrorView>),
}

impl<R, T> Step<R, T> {
    /// Whether the operation is over.
    pub fn is_done(&self) -> (r: bool)
        ensures
            r == (*self is Done),
    {
        match self {
            Step::Done(_) => true,
            Step::Perform(_) => false,
        }
    }
}

impl<R> View for Step<R, ()> {
    type V = StepView<R, ()>;

    open spec fn view(&self) -> StepView<R, ()> {
        match *self {
            Step::Perform(request) => StepView::Perform(request),
            Step::Done(Ok(())) => StepView::Done(Ok(())),
            Step::Done(Err(e)) => StepView::Done(Err(e@)),
        }
    }
}

impl<R> View for Step<R, Option<Vec<u8>>> {
    type V = StepView<R, Option<Seq<u8>>>;

    open spec fn view(&self) -> StepView<R, Option<Seq<u8>>> {
        match *self {
            Step::Perform(request) => StepView::Perform(request),
            Step::Done(Ok(Some(bytes))) => StepView::Done(Ok(Some(bytes@))),
            Step::Done(Ok(None)) => StepView::Done(Ok(None)),
            Step::Done(Err(e)) => StepView::Done(Err(e@)),
        }
    }
}

/// What one call of an input's `chunk` returns.
pub type ChunkResult = Result<Option<Seq<u8>>, InputErrorView>;

/// What the calls of `chunk` return while a stream lasts and once when it has
/// ended: every chunk, in order, and then the end of the stream.
pub open spec fn drained(chunks: Seq<Seq<u8>>) -> Seq<ChunkResult> {
    Seq::new(chunks.len(), |i: int| Ok(Some(chunks[i]))) + seq![Ok(None)]
}

} // verus!
