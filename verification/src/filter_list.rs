//! The description of a list: where it is read from and how it is packed.

use vstd::prelude::*;
use crate::input::file::{packing, Compression, CompressionView, FileInput, FileInputView};
use crate::input::url::{UrlInput, UrlInputView};

verus! {

/// Where a list is read from. Only a file has a packing.
#[derive(Debug, PartialEq, Eq)]
pub enum FilterList {
    /// A file on disk.
    File { path: String, compression: Option<Compression> },
    /// An HTTP endpoint.
    Url { url: String },
}

/// The mathematical value of a [`FilterList`].
pub enum FilterListView {
    File { path: Seq<char>, compression: Option<CompressionView> },
    Url { url: Seq<char> },
}

impl View for FilterList {
    type V = FilterListView;

    open spec fn view(&self) -> FilterListView {
        match *self {
            FilterList::File { path, compression } => FilterListView::File {
                path: path@,
                compression: packing(compression),
            },
            FilterList::Url { url } => FilterListView::Url { url: url@ },
        }
    }
}

/// An input of one of the two kinds.
#[derive(Debug, PartialEq, Eq)]
pub enum ListInput {
    File(FileInput),
    Url(UrlInput),
}

/// The mathematical value of a [`ListInput`].
pub enum ListInputView {
    File(FileInputView),
    Url(UrlInputView),
}

impl View for ListInput {
    type V = ListInputView;

    open spec fn view(&self) -> ListInputView {
        match *self {
            ListInput::File(input) => ListInputView::File(input@),
            ListInput::Url(input) => ListInputView::Url(input@),
        }
    }
}

impl FilterListView {
    /// The unopened input that reads this list.
    pub open spec fn input(self) -> ListInputView {
        match self {
            FilterListView::File { path, compression } => ListInputView::File(
                FileInputView::unopened(path, compression),
            ),
            FilterListView::Url { url } => ListInputView::Url(UrlInputView::unopened(url)),
        }
    }
}

impl FilterList {
    /// The input that reads this list: of the kind that the description asks
    /// for, bound to its path or URL, and unopened.
    pub fn input(&self) -> (r: ListInput)
        ensures
            r@ == self@.input(),
    {
        match self {
            FilterList::File { path, compression } => {
                let packed = match compression {
                    Some(c) => Some(c.clone()),
                    None => None,
                };
                ListInput::File(FileInput::new(path.clone(), packed))
            },
            FilterList::Url { url } => ListInput::Url(UrlInput::new(url.clone())),
        }
    }
}

} // verus!
