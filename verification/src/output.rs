//! The sinks that entries are republished to.

pub mod hostsfile;
pub mod run;
