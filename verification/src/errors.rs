use vstd::prelude::*;

verus! {

/// Every failure the ingestion core can report, surfaced to the caller as a
/// typed outcome; no stage panics and no error is silently swallowed.
#[derive(Clone, Copy, Debug, PartialEq, Eq, Structural)]
pub enum Error {
    /// The path has no extension, or the extension is not in the fixed table.
    UnsupportedFileType,
    /// Source-file read failure, log-file write failure, or a compression
    /// stream failure.
    IOError,
    /// The authenticated-encryption construction rejected its inputs.
    EncryptionError,
    /// A per-block digest computation failed.
    HashWorkerFailure,
}

} // verus!
