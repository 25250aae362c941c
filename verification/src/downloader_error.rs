//! The failures that resolving and downloading a video can end in.

use vstd::prelude::*;
use vstd::string::StringExecFns;

verus! {

/// Why a request could not be served.
#[derive(Debug, Clone, PartialEq, Eq)]
pub enum DownloaderError {
    /// The caller's input was malformed.
    InvalidInputError,
    /// The link belongs to no platform that is served.
    UnsupportedPlatformError,
    /// A network request for a manifest or a file failed.
    FetchError,
    /// A top-level manifest yielded no usable variant.
    NoMasterPlaylistError,
    /// A temporary file could not be written or removed.
    IOError,
    /// The muxing tool could not be started or reported a failure.
    FfmpegError,
    /// Any other failure, with its description.
    OtherError(String),
}

/// A `DownloaderError` with the description it carries as a sequence of
/// characters.
pub enum DownloaderErrorView {
    InvalidInputError,
    UnsupportedPlatformError,
    FetchError,
    NoMasterPlaylistError,
    IOError,
    FfmpegError,
    OtherError(Seq<char>),
}

impl View for DownloaderError {
    type V = DownloaderErrorView;

    open spec fn view(&self) -> DownloaderErrorView {
        match self {
            DownloaderError::InvalidInputError => DownloaderErrorView::InvalidInputError,
            DownloaderError::UnsupportedPlatformError => DownloaderErrorView::UnsupportedPlatformError,
            DownloaderError::FetchError => DownloaderErrorView::FetchError,
            DownloaderError::NoMasterPlaylistError => DownloaderErrorView::NoMasterPlaylistError,
            DownloaderError::IOError => DownloaderErrorView::IOError,
            DownloaderError::FfmpegError => DownloaderErrorView::FfmpegError,
            DownloaderError::OtherError(e) => DownloaderErrorView::OtherError(e@),
        }
    }
}

impl DownloaderErrorView {
    /// The text shown to a user for this failure.
    pub open spec fn message(self) -> Seq<char> {
        match self {
            DownloaderErrorView::InvalidInputError => "Invalid input"@,
            DownloaderErrorView::UnsupportedPlatformError => "Platform not supported"@,
            DownloaderErrorView::FetchError => "Failed to fetch data from external source"@,
            DownloaderErrorView::NoMasterPlaylistError => "No master playlist found"@,
            DownloaderErrorView::IOError => "Failed to perform IO operation"@,
            DownloaderErrorView::FfmpegError => "Failed to execute ffmpeg command"@,
            DownloaderErrorView::OtherError(e) => "Error: "@ + e,
        }
    }
}

impl DownloaderError {
    /// A second value that holds what this one holds.
    pub fn duplicate(&self) -> (copy: DownloaderError)
        ensures
            copy@ == self@,
    {
        match self {
            DownloaderError::InvalidInputError => DownloaderError::InvalidInputError,
            DownloaderError::UnsupportedPlatformError => DownloaderError::UnsupportedPlatformError,
            DownloaderError::FetchError => DownloaderError::FetchError,
            DownloaderError::NoMasterPlaylistError => DownloaderError::NoMasterPlaylistError,
            DownloaderError::IOError => DownloaderError::IOError,
            DownloaderError::FfmpegError => DownloaderError::FfmpegError,
            DownloaderError::OtherError(e) => DownloaderError::OtherError(e.clone()),
        }
    }


    /// Renders the failure as the text shown to a user.
    pub fn message(&self) -> (text: String)
        ensures
            text@ == self@.message(),
    {
        match self {
            DownloaderError::InvalidInputError => String::from_str("Invalid input"),
            DownloaderError::UnsupportedPlatformError => String::from_str("Platform not supported"),
            DownloaderError::FetchError => String::from_str(
                "Failed to fetch data from external source",
            ),
            DownloaderError::NoMasterPlaylistError => String::from_str("No master playlist found"),
            DownloaderError::IOError => String::from_str("Failed to perform IO operation"),
            DownloaderError::FfmpegError => String::from_str("Failed to execute ffmpeg command"),
            DownloaderError::OtherError(e) => String::from_str("Error: ").concat(e.as_str()),
        }
    }
}

} // verus!
