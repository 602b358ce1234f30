//! The configuration of a run.

use vstd::prelude::*;
use crate::filter_list::FilterList;

verus! {

/// What a run needs to know before it starts: the lists to read and the
/// directories to write to.
#[derive(Debug, PartialEq, Eq)]
pub struct Config {
    /// The lists to process.
    pub lists: Vec<FilterList>,
    /// The directory for files in the making.
    pub tmp_dir: String,
    /// The directory for finished files.
    pub out_dir: String,
}

} // verus!
