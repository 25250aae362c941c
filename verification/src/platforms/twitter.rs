//! Twitter / X: a status link leads to a top-level manifest, which the
//! browser is seen to request while it loads the page.

use vstd::prelude::*;
use vstd::string::StringExecFns;
use crate::downloader_error::{DownloaderError, DownloaderErrorView};
use crate::pattern::{is_match, pattern_error, pattern_failure, regex_is_match};
use crate::text::{before_first, chars_of, contains, find_char, occurs_in, substring};

verus! {

/// What a link to a status looks like.
pub const TWITTER_LINK_PATTERN: &'static str =
    r"https:\/\/(www\.)?(twitter|x)\.com\/.+\/status\/\d+(\?.*)?";

/// What only a request for a top-level manifest holds.
pub const MANIFEST_MARK: &'static str = "tag=";

/// Why a single file cannot be had from this platform.
pub const NO_SINGLE_FILE: &'static str =
    "Twitter downloader supports variant playlist. Please use get_variant_playlist function";

/// The downloader for Twitter / X.
pub struct TwitterDownloader {}

impl TwitterDownloader {
    /// What is made of a link once it has been searched for
    /// `TWITTER_LINK_PATTERN`: accepted where the pattern was found, refused
    /// as of no served platform where it was not.
    pub open spec fn verdict_of(matched: Option<bool>) -> Result<(), DownloaderErrorView> {
        match matched {
            Some(true) => Ok(()),
            Some(false) => Err(DownloaderErrorView::UnsupportedPlatformError),
            None => Err(pattern_failure()),
        }
    }

    /// What `validate_url` makes of `url`.
    pub open spec fn validity_of(url: Seq<char>) -> Result<(), DownloaderErrorView> {
        Self::verdict_of(regex_is_match(TWITTER_LINK_PATTERN@, url))
    }

    /// Accepts or refuses a link by the outcome of the search for
    /// `TWITTER_LINK_PATTERN` in it.
    pub fn verdict(matched: Option<bool>) -> (verdict: Result<(), DownloaderError>)
        ensures
            verdict is Ok == Self::verdict_of(matched) is Ok,
            verdict matches Err(error) ==> Self::verdict_of(matched) == Err::<
                (),
                DownloaderErrorView,
            >(error@),
    {
        match matched {
            Some(true) => Ok(()),
            Some(false) => Err(DownloaderError::UnsupportedPlatformError),
            None => Err(pattern_error()),
        }
    }

    /// Accepts `url` where it holds a link to a status, and refuses it with
    /// `UnsupportedPlatformError` where it does not.
    pub fn validate_url(url: &str) -> (verdict: Result<(), DownloaderError>)
        ensures
            verdict is Ok == Self::validity_of(url@) is Ok,
            verdict matches Err(error) ==> Self::validity_of(url@) == Err::<(), DownloaderErrorView>(
                error@,
            ),
    {
        Self::verdict(is_match(TWITTER_LINK_PATTERN, url))
    }

    /// Always fails: this platform has no single file to fetch, only a
    /// manifest of variants.
    pub fn download(url: &str) -> (outcome: Result<String, DownloaderError>)
        ensures
            outcome matches Err(error) && error@ == DownloaderErrorView::OtherError(NO_SINGLE_FILE@),
    {
        Err(DownloaderError::OtherError(String::from_str(NO_SINGLE_FILE)))
    }

    /// The manifest location that is known once the browser was seen to
    /// request `request_url`, where `captured` was known before, the empty
    /// text standing for none. The first request that holds `MANIFEST_MARK`
    /// gives the location: its part before the first `?`.
    pub open spec fn captured_after(captured: Seq<char>, request_url: Seq<char>) -> Seq<char> {
        if occurs_in(MANIFEST_MARK@, request_url) && captured.len() == 0 {
            before_first(request_url, '?')
        } else {
            captured
        }
    }

    /// Takes note of a request that the browser makes while it loads the page.
    pub fn intercept(captured: &mut String, request_url: &str)
        ensures
            final(captured)@ == Self::captured_after(old(captured)@, request_url@),
    {
        if contains(request_url, MANIFEST_MARK) && captured.as_str().unicode_len() == 0 {
            let chars = chars_of(request_url);
            let end = find_char(&chars, '?', 0);
            assert(chars@.skip(0) == chars@);
            *captured = substring(request_url, 0, end);
        }
    }
}

} // verus!
