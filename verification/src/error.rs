use vstd::prelude::*;

verus! {

/// The two ways an hour's fetch-decompress-parse cycle can fail.
#[derive(Debug, Clone, PartialEq, Eq, Structural)]
pub enum Kind {
    /// Data was fetched but is malformed and therefore cannot be decoded.
    Decode,
    /// The transport call failed for a reason other than "not found" or an
    /// empty body, e.g. the server is unreachable or rate-limiting.
    Network,
}

/// Error emitted in place of one hour's ticks when that hour's cycle fails.
#[derive(Debug, Clone)]
pub struct Error {
    /// Human-readable description of the underlying cause.
    pub inner: String,
    pub kind: Kind,
}

impl Error {
    pub fn new(kind: Kind, inner: String) -> (e: Error)
        ensures
            e.kind == kind,
            e.inner == inner,
    {
        Error { inner, kind }
    }
}

} // verus!
