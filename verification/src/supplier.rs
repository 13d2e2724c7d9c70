use vstd::prelude::*;

use crate::error::Error;

verus! {

/// An interface used by the service to fetch one hour's file for further
/// processing.
///
/// The three outcomes the pipeline relies on: `Ok(Some(bytes))` when the
/// vendor published a file for the hour, `Ok(None)` when no data exists for
/// it (a "not found" response or an empty body — a legitimate outcome, not
/// an error), and `Err(..)` when the transport failed for any other reason.
pub trait DataSupplier {
    /// Fetches the data from the given URL.
    fn fetch(&self, url: &str) -> Result<Option<Vec<u8>>, Error>;
}

/// Supplier that serves one fixed in-memory payload, whatever the URL.
pub struct InMemoryDataSupplier {
    pub data: Option<Vec<u8>>,
}

impl DataSupplier for InMemoryDataSupplier {
    fn fetch(&self, _url: &str) -> Result<Option<Vec<u8>>, Error> {
        match &self.data {
            Some(bytes) => Ok(Some(bytes.clone())),
            None => Ok(None),
        }
    }
}

/// Marker for the production HTTP-backed supplier. The transport itself — a
/// plain GET that normalizes a 404 or an empty body to "no data" — performs
/// network I/O and therefore lives with the application layer, which keys
/// its choice of transport off this type.
pub struct ReqwestDataSupplier {
    _priv: (),
}

impl ReqwestDataSupplier {
    pub fn new() -> ReqwestDataSupplier {
        ReqwestDataSupplier { _priv: () }
    }
}

} // verus!
