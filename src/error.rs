use vstd::prelude::*;

verus! {

/// What can go wrong with a cache.
#[derive(Debug, Clone, Copy, PartialEq, Eq, Structural)]
pub enum CacheError {
    /// The cache root could not be created.
    Initialization,
    /// A record file exists but could not be read from disk.
    ReadIo,
    /// A record file holds text that is not a JSON object of strings.
    Malformed,
    /// A record file lacks a required field, or holds it empty.
    MissingField,
    /// A record could not be encoded.
    Encode,
    /// A record could not be written to disk.
    WriteIo,
}

} // verus!
