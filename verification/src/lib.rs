//! Fast, efficient scraping for Certificate Transparency logs.
//!
//! The crate is organised around the pieces of a scrape run:
//!
//! - [`serializer`] — an incremental, format-tagged document writer
//!   (JSON or CBOR) that appends encoded bytes to an output buffer;
//! - [`file_writer`] — the sink that turns scrape results into one
//!   self-describing output document;
//! - [`leaf`] — binary decoding of RFC 6962 `MerkleTreeLeaf` structures
//!   and their matching extra data;
//! - [`processor`] — the messages that flow from the fetchers to the sink;
//! - [`fetcher`] — the per-worker logic that drains a range of entries,
//!   classifying each HTTP outcome;
//! - [`retryer`] — the exponential backoff state machine;
//! - [`runner`] — the scrape policy: range partitioning and adaptive
//!   growth of the fetcher pool;
//! - [`responses`] — decoding of the log's JSON responses.

pub mod error;
pub mod file_writer;
pub mod fetcher;
pub mod leaf;
pub mod processor;
pub mod responses;
pub mod retryer;
pub mod runner;
pub mod serializer;

pub use error::Error;
