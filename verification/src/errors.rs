//! Error taxonomy of a download job.

use vstd::prelude::*;

verus! {

/// Why a download job failed.
///
/// A missing server capability is not an error: it selects a fallback
/// strategy instead. A missing or unreadable checksum resource is also
/// not an error: verification is then skipped.
#[derive(Debug, PartialEq, Eq)]
pub enum DownloadError {
    /// A network failure or an unexpected HTTP status.
    Transport,
    /// The capability probe returned no content length for the object.
    MissingContentLength,
    /// A scheduling round ended with chunks still pending.
    Incomplete,
    /// The concatenated chunk data is not a valid compressed stream.
    Decompress,
    /// The computed digest of the decompressed output differs from the
    /// expected digest.
    Integrity { expected: String, actual: String },
    /// A local read or write failed.
    Persistence,
}

impl Clone for DownloadError {
    fn clone(&self) -> (r: Self)
        ensures
            r == *self,
    {
        match self {
            DownloadError::Transport => DownloadError::Transport,
            DownloadError::MissingContentLength => DownloadError::MissingContentLength,
            DownloadError::Incomplete => DownloadError::Incomplete,
            DownloadError::Decompress => DownloadError::Decompress,
            DownloadError::Integrity { expected, actual } => DownloadError::Integrity {
                expected: expected.clone(),
                actual: actual.clone(),
            },
            DownloadError::Persistence => DownloadError::Persistence,
        }
    }
}

impl DownloadError {
    /// A short stable label for each error, for display by callers.
    pub fn label(&self) -> (r: &'static str)
        ensures
            (self is Transport) ==> r@ == "transport error"@,
            (self is MissingContentLength) ==> r@ == "missing content-length"@,
            (self is Incomplete) ==> r@ == "chunks still pending"@,
            (self is Decompress) ==> r@ == "decompression failed"@,
            (self is Integrity) ==> r@ == "checksum mismatch"@,
            (self is Persistence) ==> r@ == "local i/o error"@,
    {
        match self {
            DownloadError::Transport => "transport error",
            DownloadError::MissingContentLength => "missing content-length",
            DownloadError::Incomplete => "chunks still pending",
            DownloadError::Decompress => "decompression failed",
            DownloadError::Integrity { .. } => "checksum mismatch",
            DownloadError::Persistence => "local i/o error",
        }
    }
}

} // verus!
