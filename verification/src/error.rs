//! Error representations.

use vstd::prelude::*;

verus! {

/// Everything that can go wrong during a scrape.
///
/// Descriptions and causes are carried as plain strings; the variant says
/// which stage of the pipeline failed.
#[derive(Debug)]
pub enum Error {
    /// An invariant of the scraper itself was violated.
    InternalError(String),
    /// The surrounding system failed us: a clock, a channel, a thread.
    SystemError(String, String),
    /// A JSON response could not be parsed; the first field names the
    /// response, the second carries the parser's message.
    JsonParseError(String, String),
    /// A log entry's binary encoding could not be decoded.
    EntryDecodingError(String),
    /// An HTTP request failed in a way that is not retried.
    RequestError(String),
    /// Writing the output document failed; the first field names the
    /// structural position, the second carries the cause.
    OutputError(String, String),
    /// A URL could not be constructed.
    URLError(String, String),
    /// An arithmetic operation overflowed; the field names the operation.
    ArithmeticOverflow(String),
}

impl Error {
    /// An `InternalError` with the given description.
    pub fn internal(desc: &str) -> (r: Error)
        ensures
            r matches Error::InternalError(d) && d@ == desc@,
    {
        Error::InternalError(desc.to_owned())
    }

    /// A `SystemError` with the given description and cause.
    pub fn system(desc: &str, cause: String) -> (r: Error)
        ensures
            r matches Error::SystemError(d, c) && d@ == desc@ && c == cause,
    {
        Error::SystemError(desc.to_owned(), cause)
    }

    /// An `OutputError` at the given structural position.
    pub fn output(position: &str, cause: String) -> (r: Error)
        ensures
            r matches Error::OutputError(p, c) && p@ == position@ && c == cause,
    {
        Error::OutputError(position.to_owned(), cause)
    }

    /// A `JsonParseError` for the named response.
    pub fn json_parse(context: &str, cause: String) -> (r: Error)
        ensures
            r matches Error::JsonParseError(x, c) && x@ == context@ && c == cause,
    {
        Error::JsonParseError(context.to_owned(), cause)
    }

    /// An `ArithmeticOverflow` for the named operation.
    pub fn arithmetic(op: &str) -> (r: Error)
        ensures
            r matches Error::ArithmeticOverflow(o) && o@ == op@,
    {
        Error::ArithmeticOverflow(op.to_owned())
    }
}

} // verus!
