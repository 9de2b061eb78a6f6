//! The ways in which a run can fail.

use vstd::prelude::*;

verus! {

/// Why a run of the pipeline stopped.
#[derive(Clone, Copy, Debug, PartialEq, Eq, Structural)]
pub enum GitterError {
    /// The repository identifier is not of the form `owner/repo`.
    InvalidIdentifier,
    /// A request did not get an answer: connection, TLS or DNS failed.
    NetworkError,
    /// The forge answered 404: the repository, branch or archive is absent.
    NotFound,
    /// The forge answered with a status that the download does not handle.
    UnknownStatusCode(u16),
    /// The redirect led to another answer that is not the archive.
    TooManyRedirects,
    /// A local file operation failed, or a body could not be decoded.
    IOError,
    /// An archive entry has no place below the target directory.
    ExtractionError,
}

impl GitterError {
    /// The text that `message` returns.
    pub open spec fn message_text(self) -> Seq<char> {
        match self {
            GitterError::InvalidIdentifier => "Could not parse repository name from input"@,
            GitterError::NetworkError => "Network error"@,
            GitterError::NotFound => "Could not find package"@,
            GitterError::UnknownStatusCode(_) => "Unknown status code"@,
            GitterError::TooManyRedirects => "Too many redirects"@,
            GitterError::IOError => "IO error"@,
            GitterError::ExtractionError => "Archive entry outside the target directory"@,
        }
    }

    /// A one-line description of the failure.
    pub fn message(&self) -> (s: String)
        ensures
            s@ == self.message_text(),
    {
        match self {
            GitterError::InvalidIdentifier => "Could not parse repository name from input".to_owned(),
            GitterError::NetworkError => "Network error".to_owned(),
            GitterError::NotFound => "Could not find package".to_owned(),
            GitterError::UnknownStatusCode(_) => "Unknown status code".to_owned(),
            GitterError::TooManyRedirects => "Too many redirects".to_owned(),
            GitterError::IOError => "IO error".to_owned(),
            GitterError::ExtractionError => "Archive entry outside the target directory".to_owned(),
        }
    }
}

} // verus!
