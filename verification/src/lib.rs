//! Streaming sources of list entries and the pump that republishes them as
//! hosts-file records, written without I/O of their own.
//!
//! Every operation that has to wait for the outside world is cut into steps:
//! a step takes what has just happened (an event) and answers with what has to
//! be done next (a request or an action) or with the operation's result. The
//! caller performs the request and comes back with the next event:
//!
//! ```text
//! let mut step = input.chunk(FileEvent::Call);
//! loop {
//!     match step {
//!         Step::Perform(request) => step = input.chunk(perform(request)),
//!         Step::Done(result) => return result,
//!     }
//! }
//! ```
//!
//! The modules [`input::replay`], [`input::transfer`] and [`output::run`] say
//! what such loops come to, over a file, a server and an input that are given
//! as mathematical values, and prove it; [`republish`] follows a plain file
//! all the way into the hosts file.

pub mod config;
pub mod filter_controller;
pub mod filter_list;
pub mod input;
pub mod output;
pub mod republish;
pub mod text;
