//! The messages that flow from the runner and the fetchers to the sink.

use vstd::prelude::*;
use crate::responses::{RawEntry, Sth};

verus! {

/// One request to the sink: the run's metadata, or one entry to decode
/// and write.
#[derive(Debug)]
pub enum Request {
    /// The Signed Tree Head, sent once before any entry.
    Metadata(Sth),
    /// One raw entry and its id within the log.
    Entry(u64, RawEntry),
}

} // verus!
