//! What can go wrong with a request.

use vstd::prelude::*;

verus! {

/// Why a response of the semantic layer could not be read.
#[derive(Debug, Clone, Copy, PartialEq, Eq, Structural)]
pub enum DecodeFault {
    /// The response is not JSON.
    Syntax,
    /// The response holds no result set.
    NoResults,
    /// The first result set holds no list of rows.
    NoData,
    /// A row is not an object.
    Row,
    /// A count is not a string that holds an unsigned number.
    Count,
    /// An identifier is not a string that holds a UUID.
    Id,
    /// A timestamp is not a string that holds a date and a time.
    Timestamp,
    /// There are more or fewer responses than queries.
    Responses,
}

/// The failures of a request. Each fails the whole request: nothing is
/// retried and no partial result is given out.
#[derive(Debug, PartialEq, Eq)]
pub enum Error {
    /// None, or more than one, of organization, project and collection is given.
    InvalidScope,
    /// The dates and the interval contradict each other, or something is missing.
    InvalidTimeWindow,
    /// The semantic layer could not be reached, or it refused the query.
    UpstreamError(String),
    /// The semantic layer answered with something unexpected.
    DecodeError(DecodeFault),
}

} // verus!
