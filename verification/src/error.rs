//! The ways in which a download can fail.

use vstd::prelude::*;

verus! {

/// Why a download, or one stage of it, failed.
#[derive(Clone, Copy, Debug, PartialEq, Eq, Structural)]
pub enum DownloadError {
    /// The entry address is no URL, or has no path to take the video's
    /// identifier from.
    InvalidEntryUrl,
    /// Neither the page nor the service named a master playlist.
    ManifestNotFound,
    /// The master playlist names no stream.
    NoVariantsFound,
    /// A key directive names no key address, or one that cannot be resolved.
    InvalidKeyUri,
    /// A key directive carries an initialization vector that is not sixteen
    /// bytes in hexadecimal, or the key could not be fetched.
    InvalidKeyData,
    /// The key has the wrong length, the data is no whole number of blocks,
    /// or the padding found after decryption is malformed.
    DecryptionFailed,
    /// The transport failed, or answered with something other than what was
    /// asked for.
    TransportError,
    /// The output could not be opened or written.
    SinkWriteError,
    /// The address of a playlist, or a reference found in one, cannot be
    /// resolved.
    InvalidUrl,
}

impl DownloadError {
    /// A short description of the failure.
    pub fn message(&self) -> (text: &'static str)
        ensures
            text@ == self.spec_message(),
    {
        match self {
            DownloadError::InvalidEntryUrl => "invalid entry URL",
            DownloadError::ManifestNotFound => "master playlist not found",
            DownloadError::NoVariantsFound => "no streams found",
            DownloadError::InvalidKeyUri => "invalid key URI",
            DownloadError::InvalidKeyData => "invalid key data",
            DownloadError::DecryptionFailed => "decryption failed",
            DownloadError::TransportError => "transport failed",
            DownloadError::SinkWriteError => "output could not be written",
            DownloadError::InvalidUrl => "invalid URL",
        }
    }

    /// The text that `message` returns.
    pub open spec fn spec_message(&self) -> Seq<char> {
        match self {
            DownloadError::InvalidEntryUrl => "invalid entry URL"@,
            DownloadError::ManifestNotFound => "master playlist not found"@,
            DownloadError::NoVariantsFound => "no streams found"@,
            DownloadError::InvalidKeyUri => "invalid key URI"@,
            DownloadError::InvalidKeyData => "invalid key data"@,
            DownloadError::DecryptionFailed => "decryption failed"@,
            DownloadError::TransportError => "transport failed"@,
            DownloadError::SinkWriteError => "output could not be written"@,
            DownloadError::InvalidUrl => "invalid URL"@,
        }
    }
}

} // verus!
