//! Fetches a repository as an archive, extracts its text into a corpus,
//! partitions the corpus into bounded chunks, and drives each chunk
//! through a remote completion endpoint into an ordered report.
//!
//! The crate holds the pipeline's logic — reference resolution, archive
//! extraction and classification, deterministic partitioning, prompt and
//! request construction, response parsing and aggregation — with its
//! behaviour stated in contracts. The network calls themselves stay with
//! the caller, which hands each response back as plain values.

use vstd::prelude::*;

pub mod chunks;
pub mod driver;
pub mod extractor;
pub mod jsonio;
pub mod locator;
pub mod strutil;

verus! {

/// Errors that any stage of the pipeline can report.
#[derive(Debug)]
pub enum AnalyseError {
    /// The repository reference does not hold at least two non-empty
    /// `/`-separated segments for owner and name.
    InvalidReference,
    /// The reference matches none of the supported hosting providers
    /// (or the provider's metadata service is not supported).
    UnsupportedProvider,
    /// The metadata request came back with a non-success status, or its
    /// body could not be read as JSON.
    MetadataFetchFailed { status: u16, body: String },
    /// The archive download came back with a non-success status.
    DownloadFailed { status: u16 },
    /// The downloaded bytes are not a readable archive.
    ArchiveCorrupt,
    /// A single archive entry could not be decoded as text.
    EntryReadFailed { name: String },
    /// The completion endpoint reported an error object.
    RemoteAnalysisFailed { message: String },
    /// No API key was supplied for the completion endpoint.
    MissingCredential,
}

/// Admits the credential for the completion endpoint: an absent key is a
/// fatal startup error.
pub fn require_api_key(key: Option<String>) -> (r: Result<String, AnalyseError>)
    ensures
        (r is Ok) == (key is Some),
        r matches Ok(k) ==> (key matches Some(s) && k == s),
        r matches Err(e) ==> e is MissingCredential,
{
    match key {
        Some(k) => Ok(k),
        None => Err(AnalyseError::MissingCredential),
    }
}

} // verus!
