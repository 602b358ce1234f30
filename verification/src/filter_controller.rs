//! What a running job tells the controller that watches over all jobs.

use vstd::prelude::*;

verus! {

/// A message from a job to the controller.
#[derive(Debug, PartialEq, Eq)]
pub enum ChannelMessage {
    /// Something went wrong; the text says what.
    Error(String),
}

/// The mathematical value of a [`ChannelMessage`].
pub enum ChannelMessageView {
    Error(Seq<char>),
}

impl View for ChannelMessage {
    type V = ChannelMessageView;

    open spec fn view(&self) -> ChannelMessageView {
        match *self {
            ChannelMessage::Error(text) => ChannelMessageView::Error(text@),
        }
    }
}

} // verus!
