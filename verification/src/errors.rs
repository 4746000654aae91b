//! The error taxonomy of the cache and lookup layers.

use vstd::prelude::*;

verus! {

/// Every fault the cache and lookup layers can report.
///
/// The two expected non-error outcomes of a cache read, "file absent" and
/// "entry expired", are not errors: they are reported as a clean miss
/// (`None`) by the read path instead.
#[derive(Clone, Copy, Debug, PartialEq, Eq, Structural)]
pub enum Error {
    /// The cache root directory could not be determined or created.
    Directory,
    /// An existing, non-expired cache file does not hold valid JSON.
    CacheCorrupt,
    /// An unexpected filesystem fault while reading or writing a cache file,
    /// including a file whose modification time lies in the future.
    Io,
    /// A fetched document could not be serialized back to JSON text.
    Serialization,
    /// The network collaborator failed to produce a JSON document.
    Fetch,
    /// The requested word key is absent from the document.
    WordNotFound,
}

} // verus!
