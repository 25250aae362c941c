//! TikTok: a video link leads to one file, which the browser is seen to
//! request while it loads the page.

use vstd::prelude::*;
use vstd::string::StringExecFns;
use crate::downloader_error::{DownloaderError, DownloaderErrorView};
use crate::pattern::{is_match, pattern_error, pattern_failure, regex_is_match};
use crate::playlist::variant_playlist::VariantPlaylist;
use crate::text::{
    after_last, before_first, chars_of, join, contains, end_trimmed, find_char, occurs_in,
    start_after_last, substring, trimmed_end,
};

verus! {

/// What a link to a video looks like.
pub const TIKTOK_LINK_PATTERN: &'static str =
    r"https:\/\/(www\.)?tiktok\.com\/@.+\/video\/\d+(\?.*)?";

/// What a shortened link to a video looks like.
pub const TIKTOK_SHORT_LINK_PATTERN: &'static str = r"https:\/\/(www\.)?\w+\.tiktok\.com\/[^@]\w+";

/// What only a request for the video file holds.
pub const VIDEO_MARK: &'static str = "mime_type=video_mp4";

/// The name of a file whose link suggests none.
pub const DEFAULT_NAME: &'static str = "video";

/// The extension of the files that are written.
pub const EXTENSION: &'static str = ".mp4";

/// The downloader for TikTok.
pub struct TiktokDownloader {}

/// The request for the video file, as far as the browser was seen to make it:
/// its location, empty while it is unknown, and the cookie it was sent with.
pub struct InterceptedVideo {
    pub url: String,
    pub cookie: String,
}

/// What an `InterceptedVideo` holds.
pub struct InterceptedVideoView {
    pub url: Seq<char>,
    pub cookie: Seq<char>,
}

impl View for InterceptedVideo {
    type V = InterceptedVideoView;

    open spec fn view(&self) -> InterceptedVideoView {
        InterceptedVideoView { url: self.url@, cookie: self.cookie@ }
    }
}

impl TiktokDownloader {
    /// What is made of a link once it has been searched for the two link
    /// patterns, the short one only where the long one was not found:
    /// accepted where either was found, refused as of no served platform
    /// where neither was.
    pub open spec fn verdict_of(long: Option<bool>, short: Option<bool>) -> Result<
        (),
        DownloaderErrorView,
    > {
        match long {
            Some(true) => Ok(()),
            Some(false) => match short {
                Some(true) => Ok(()),
                Some(false) => Err(DownloaderErrorView::UnsupportedPlatformError),
                None => Err(pattern_failure()),
            },
            None => Err(pattern_failure()),
        }
    }

    /// What `validate_url` makes of `url`.
    pub open spec fn validity_of(url: Seq<char>) -> Result<(), DownloaderErrorView> {
        Self::verdict_of(
            regex_is_match(TIKTOK_LINK_PATTERN@, url),
            regex_is_match(TIKTOK_SHORT_LINK_PATTERN@, url),
        )
    }

    /// Accepts or refuses a link by the outcomes of the searches for the two
    /// link patterns in it.
    pub fn verdict(long: Option<bool>, short: Option<bool>) -> (verdict: Result<
        (),
        DownloaderError,
    >)
        ensures
            verdict is Ok == Self::verdict_of(long, short) is Ok,
            verdict matches Err(error) ==> Self::verdict_of(long, short) == Err::<
                (),
                DownloaderErrorView,
            >(error@),
    {
        match long {
            Some(true) => Ok(()),
            Some(false) => match short {
                Some(true) => Ok(()),
                Some(false) => Err(DownloaderError::UnsupportedPlatformError),
                None => Err(pattern_error()),
            },
            None => Err(pattern_error()),
        }
    }

    /// Accepts `url` where it holds a link to a video, long or short, and
    /// refuses it with `UnsupportedPlatformError` where it does not.
    pub fn validate_url(url: &str) -> (verdict: Result<(), DownloaderError>)
        ensures
            verdict is Ok == Self::validity_of(url@) is Ok,
            verdict matches Err(error) ==> Self::validity_of(url@) == Err::<(), DownloaderErrorView>(
                error@,
            ),
    {
        let long = is_match(TIKTOK_LINK_PATTERN, url);
        match long {
            Some(false) => Self::verdict(long, is_match(TIKTOK_SHORT_LINK_PATTERN, url)),
            _ => Self::verdict(long, None),
        }
    }

    /// Always fails with `NoMasterPlaylistError`: this platform hands out one
    /// file and no manifest of variants.
    pub fn get_variant_playlist(url: &str) -> (outcome: Result<VariantPlaylist, DownloaderError>)
        ensures
            outcome matches Err(error) && error@ == DownloaderErrorView::NoMasterPlaylistError,
    {
        Err(DownloaderError::NoMasterPlaylistError)
    }

    /// The name under which the video behind `url` is written: the last
    /// non-empty piece of the link between `/`s, or `DEFAULT_NAME` where it
    /// has none, up to its first `?`, with `EXTENSION` added.
    pub open spec fn output_name_of(url: Seq<char>) -> Seq<char> {
        let piece = after_last(trimmed_end(url, '/'), '/');
        let base = if piece.len() == 0 {
            DEFAULT_NAME@
        } else {
            piece
        };
        before_first(base, '?') + EXTENSION@
    }

    /// Names the file under which the video behind `url` is written.
    pub fn output_name(url: &str) -> (name: String)
        ensures
            name@ == Self::output_name_of(url@),
    {
        let chars = chars_of(url);
        let end = end_trimmed(&chars, '/');
        let piece = substring(url, 0, end);
        let piece_chars = chars_of(piece.as_str());
        assert(piece_chars@ == trimmed_end(url@, '/'));
        let start = start_after_last(&piece_chars, '/');
        let base = if start == piece_chars.len() {
            String::from_str(DEFAULT_NAME)
        } else {
            substring(piece.as_str(), start, piece_chars.len())
        };
        assert(piece@.subrange(start as int, piece_chars.len() as int) == piece_chars@.skip(
            start as int,
        ));
        let base_chars = chars_of(base.as_str());
        let cut = find_char(&base_chars, '?', 0);
        assert(base_chars@.skip(0) == base_chars@);
        let name = substring(base.as_str(), 0, cut);
        join(name.as_str(), EXTENSION)
    }

    /// What is known of the request for the video file once the browser was
    /// seen to request `request_url` with the given cookie, if any. The first
    /// request that holds `VIDEO_MARK` gives the location, and its cookie
    /// replaces the one known before.
    pub open spec fn captured_after(
        captured: InterceptedVideoView,
        request_url: Seq<char>,
        cookie: Option<Seq<char>>,
    ) -> InterceptedVideoView {
        if occurs_in(VIDEO_MARK@, request_url) && captured.url.len() == 0 {
            InterceptedVideoView {
                url: request_url,
                cookie: match cookie {
                    Some(cookie) => cookie,
                    None => captured.cookie,
                },
            }
        } else {
            captured
        }
    }

    /// Takes note of a request that the browser makes while it loads the page.
    pub fn intercept(captured: &mut InterceptedVideo, request_url: &str, cookie: Option<&str>)
        ensures
            final(captured)@ == Self::captured_after(old(captured)@, request_url@, cookie.deep_view()),
    {
        if contains(request_url, VIDEO_MARK) && captured.url.as_str().unicode_len() == 0 {
            captured.url = String::from_str(request_url);
            match cookie {
                Some(cookie) => {
                    captured.cookie = String::from_str(cookie);
                },
                None => {},
            }
        }
    }
}

} // verus!
