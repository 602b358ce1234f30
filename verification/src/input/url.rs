//! Input from an HTTP endpoint, streamed as the transport delivers it.

use vstd::prelude::*;
use crate::input::{InputError, InputErrorView, Step, StepView};

verus! {

/// The status that a usable response has.
pub const STATUS_OK: u16 = 200;

/// What a [`UrlInput`] asks its caller to do.
#[derive(Debug, Clone, Copy, PartialEq, Eq)]
pub enum UrlRequest {
    /// Issue a GET request to the URL and wait for the response's head. A
    /// response that is still held from before is given up.
    Get,
    /// Take the next chunk of the body from the transport, as it comes.
    NextChunk,
}

/// What the head of a response says.
#[derive(Debug, Clone, Copy, PartialEq, Eq)]
pub struct ResponseHead {
    /// The status code.
    pub status: u16,
    /// The length of the body, if the response announces one.
    pub content_length: Option<u64>,
}

/// What has happened since the last step.
#[derive(Debug, PartialEq, Eq)]
pub enum UrlEvent {
    /// Nothing yet: the operation has just been called.
    Call,
    /// The response's head has arrived, or the request has failed for this
    /// reason.
    Response(Result<ResponseHead, String>),
    /// The transport has delivered these bytes, or the body is complete
    /// (`None`), or the transfer has failed for this reason.
    Body(Result<Option<Vec<u8>>, String>),
}

/// The mathematical value of a [`UrlEvent`].
pub enum UrlEventView {
    Call,
    Response(Result<ResponseHead, Seq<char>>),
    Body(Result<Option<Seq<u8>>, Seq<char>>),
}

impl View for UrlEvent {
    type V = UrlEventView;

    open spec fn view(&self) -> UrlEventView {
        match *self {
            UrlEvent::Call => UrlEventView::Call,
            UrlEvent::Response(Ok(head)) => UrlEventView::Response(Ok(head)),
            UrlEvent::Response(Err(cause)) => UrlEventView::Response(Err(cause@)),
            UrlEvent::Body(Ok(Some(bytes))) => UrlEventView::Body(Ok(Some(bytes@))),
            UrlEvent::Body(Ok(None)) => UrlEventView::Body(Ok(None)),
            UrlEvent::Body(Err(cause)) => UrlEventView::Body(Err(cause@)),
        }
    }
}

/// Downloads data from a URL.
///
/// The input is open from the moment a response with a usable head has
/// arrived until the next reset.
#[derive(Debug, PartialEq, Eq)]
pub struct UrlInput {
    url: String,
    open: bool,
}

/// The mathematical value of a [`UrlInput`].
pub struct UrlInputView {
    pub url: Seq<char>,
    pub open: bool,
}

impl View for UrlInput {
    type V = UrlInputView;

    closed spec fn view(&self) -> UrlInputView {
        UrlInputView { url: self.url@, open: self.open }
    }
}

impl UrlInputView {
    /// The input before its first request.
    pub open spec fn unopened(url: Seq<char>) -> Self {
        UrlInputView { url, open: false }
    }

    /// What is wrong with a response, judged by its head: a status other than
    /// 200, or else an announced length of zero.
    pub open spec fn refusal(self, head: ResponseHead) -> Option<InputErrorView> {
        if head.status != STATUS_OK {
            Some(InputErrorView::Status { code: head.status, url: self.url })
        } else if head.content_length == Some(0u64) {
            Some(InputErrorView::EmptyBody { url: self.url })
        } else {
            None
        }
    }

    /// What the arrival of a response's head, or the failure of the request,
    /// means for the input: it is open if and only if the head is usable.
    pub open spec fn opened(self, response: Result<ResponseHead, Seq<char>>) -> (
        Self,
        Result<(), InputErrorView>,
    ) {
        match response {
            Err(cause) => (
                UrlInputView { open: false, ..self },
                Err(InputErrorView::Request { cause }),
            ),
            Ok(head) => match self.refusal(head) {
                Some(e) => (UrlInputView { open: false, ..self }, Err(e)),
                None => (UrlInputView { open: true, ..self }, Ok(())),
            },
        }
    }

    /// One step of `chunk`.
    ///
    /// An unopened input issues its request first, and the head of the
    /// response is judged once. Then the next chunk is taken as the transport
    /// delivers it; the end of the body is the end of the stream.
    pub open spec fn chunk_step(self, event: UrlEventView) -> (
        Self,
        StepView<UrlRequest, Option<Seq<u8>>>,
    ) {
        match event {
            UrlEventView::Call => (
                self,
                StepView::Perform(
                    if self.open {
                        UrlRequest::NextChunk
                    } else {
                        UrlRequest::Get
                    },
                ),
            ),
            UrlEventView::Response(response) => {
                let (next, outcome) = self.opened(response);
                match outcome {
                    Ok(()) => (next, StepView::Perform(UrlRequest::NextChunk)),
                    Err(e) => (next, StepView::Done(Err(e))),
                }
            },
            UrlEventView::Body(Ok(chunk)) => (self, StepView::Done(Ok(chunk))),
            UrlEventView::Body(Err(cause)) => (
                self,
                StepView::Done(Err(InputErrorView::Transfer { cause })),
            ),
        }
    }

    /// One step of `reset`.
    ///
    /// Whatever response is held is given up and the request is issued again,
    /// so that the transfer starts from its first byte.
    pub open spec fn reset_step(self, event: UrlEventView) -> (Self, StepView<UrlRequest, ()>) {
        match event {
            UrlEventView::Response(response) => {
                let (next, outcome) = self.opened(response);
                (next, StepView::Done(outcome))
            },
            _ => (UrlInputView { open: false, ..self }, StepView::Perform(UrlRequest::Get)),
        }
    }
}

impl UrlInput {
    /// An unopened input for `url`.
    pub fn new(url: String) -> (r: Self)
        ensures
            r@ == UrlInputView::unopened(url@),
    {
        UrlInput { url, open: false }
    }

    /// The URL that the input reads from.
    pub fn url(&self) -> (r: &String)
        ensures
            r@ == self@.url,
    {
        &self.url
    }

    /// Whether a usable response is held.
    pub fn is_open(&self) -> (r: bool)
        ensures
            r == self@.open,
    {
        self.open
    }

    /// Takes in the head of a response or the failure of the request.
    fn opened(&mut self, response: Result<ResponseHead, String>) -> (r: Result<(), InputError>)
        ensures
            final(self)@ == old(self)@.opened(response_view(response)).0,
            outcome_view(r) == old(self)@.opened(response_view(response)).1,
    {
        self.open = false;
        match response {
            Err(cause) => Err(InputError::Request { cause }),
            Ok(head) => {
                if head.status != STATUS_OK {
                    Err(InputError::Status { code: head.status, url: self.url.clone() })
                } else {
                    match head.content_length {
                        Some(0) => Err(InputError::EmptyBody { url: self.url.clone() }),
                        _ => {
                            self.open = true;
                            Ok(())
                        },
                    }
                }
            },
        }
    }

    /// One step of reading the next chunk: see [`UrlInputView::chunk_step`].
    pub fn chunk(&mut self, event: UrlEvent) -> (step: Step<UrlRequest, Option<Vec<u8>>>)
        ensures
            (final(self)@, step@) == old(self)@.chunk_step(event@),
    {
        match event {
            UrlEvent::Call => {
                if self.open {
                    Step::Perform(UrlRequest::NextChunk)
                } else {
                    Step::Perform(UrlRequest::Get)
                }
            },
            UrlEvent::Response(response) => {
                match self.opened(response) {
                    Ok(()) => Step::Perform(UrlRequest::NextChunk),
                    Err(e) => Step::Done(Err(e)),
                }
            },
            UrlEvent::Body(Ok(chunk)) => Step::Done(Ok(chunk)),
            UrlEvent::Body(Err(cause)) => Step::Done(Err(InputError::Transfer { cause })),
        }
    }

    /// One step of starting over: see [`UrlInputView::reset_step`].
    pub fn reset(&mut self, event: UrlEvent) -> (step: Step<UrlRequest, ()>)
        ensures
            (final(self)@, step@) == old(self)@.reset_step(event@),
    {
        match event {
            UrlEvent::Response(response) => Step::Done(self.opened(response)),
            _ => {
                self.open = false;
                Step::Perform(UrlRequest::Get)
            },
        }
    }
}

/// The view of what a request came to.
pub open spec fn response_view(response: Result<ResponseHead, String>) -> Result<
    ResponseHead,
    Seq<char>,
> {
    match response {
        Ok(head) => Ok(head),
        Err(cause) => Err(cause@),
    }
}

/// The view of the outcome of an open.
pub open spec fn outcome_view(outcome: Result<(), InputError>) -> Result<(), InputErrorView> {
    match outcome {
        Ok(()) => Ok(()),
        Err(e) => Err(e@),
    }
}

} // verus!
