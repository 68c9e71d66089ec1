//! Typed errors of the storage engine.

use vstd::prelude::*;

verus! {

/// Everything that can go wrong when writing or opening a storage file.
///
/// Operational failures carry the offending path (or, for a magic-number
/// mismatch, the two values that disagreed) so a caller can report them;
/// none of them is ever swallowed internally.
#[derive(Debug)]
pub enum TieredStorageError {
    /// A write was attempted on a handle that is already sealed.
    AttemptToUpdateReadOnly(String),
    /// The caller asked for a format descriptor the engine does not know.
    UnknownFormat(String),
    /// A filesystem read or write failed; produced only by unverified
    /// callers that perform real I/O around the library.
    IoFailure(String),
    /// The trailing magic number of a file disagreed with the expected
    /// constant: `(expected, actual)`.
    MagicNumberMismatch(u64, u64),
    /// A file's footer was missing, truncated, or internally inconsistent.
    InvalidFooter(String),
}

} // verus!
